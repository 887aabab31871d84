//! The computational side of the render pipeline: composing the display
//! text, splitting it into lines, and compositing glyph coverage bitmaps
//! into a pixel framebuffer. Glyph rasterization and presentation are
//! external collaborators; they hand this module plain values.

use vstd::prelude::*;
use crate::input_line::InputLine;
use crate::output_buffer::OutputBuffer;

verus! {

/// The 32-bit packed pixel for a glyph coverage value: the grayscale alpha
/// replicated into all three color channels.
pub open spec fn glyph_pixel(alpha: u8) -> u32 {
    (alpha as u32 * 0x01_01_01u32) as u32
}

/// The framebuffer index of the glyph cell (`mx`, `my`), row-major.
pub open spec fn cell_index(fb_w: int, gx: int, gy: int, mx: int, my: int) -> int {
    (gy + my) * fb_w + (gx + mx)
}

/// The coverage-bitmap index of the glyph cell (`mx`, `my`), row-major.
pub open spec fn cov_index(gw: int, mx: int, my: int) -> int {
    my * gw + mx
}

/// Some in-bounds glyph cell writes to framebuffer index `i`.
pub open spec fn covers(
    fb_w: int,
    fb_h: int,
    gx: int,
    gy: int,
    gw: int,
    gh: int,
    i: int,
) -> bool {
    exists|mx: int, my: int|
        0 <= mx < gw && 0 <= my < gh && gx + mx < fb_w && gy + my < fb_h && i == #[trigger] cell_index(fb_w, gx, gy, mx, my)
}

/// Row-major indices of distinct in-row positions are distinct.
proof fn lemma_rowmajor_injective(w: int, q: int, r: int, q2: int, r2: int)
    by (nonlinear_arith)
    requires
        0 <= r < w,
        0 <= r2 < w,
        q * w + r == q2 * w + r2,
    ensures
        q == q2,
        r == r2,
{
}

/// A row-major index from an in-bounds position is within the buffer.
proof fn lemma_rowmajor_in_bounds(w: int, h: int, x: int, y: int)
    by (nonlinear_arith)
    requires
        0 <= x < w,
        0 <= y < h,
    ensures
        0 <= y * w + x < h * w,
{
}

/// Clear the framebuffer to the background color.
pub fn clear_framebuffer(fb: &mut Vec<u32>)
    ensures
        final(fb)@.len() == old(fb)@.len(),
        forall|i: int| 0 <= i < final(fb)@.len() ==> final(fb)@[i] == 0u32,
{
    let n = fb.len();
    let mut i: usize = 0;
    while i < n
        invariant
            n == fb@.len(),
            0 <= i <= n,
            fb@.len() == old(fb)@.len(),
            forall|k: int| 0 <= k < i ==> fb@[k] == 0u32,
        decreases n - i,
    {
        fb[i] = 0u32;
        i = i + 1;
    }
}

/// Composite one glyph's coverage bitmap into the framebuffer at position
/// (`gx`, `gy`): every cell that falls inside the framebuffer is written as
/// its packed pixel, every cell outside is clipped, and no other pixel of
/// the framebuffer changes.
pub fn composite_glyph(
    fb: &mut Vec<u32>,
    fb_w: usize,
    fb_h: usize,
    gx: usize,
    gy: usize,
    gw: usize,
    gh: usize,
    coverage: &[u8],
)
    requires
        old(fb)@.len() == fb_h * fb_w,
        coverage@.len() == gh * gw,
        gx + gw <= usize::MAX,
        gy + gh <= usize::MAX,
    ensures
        final(fb)@.len() == old(fb)@.len(),
        forall|mx: int, my: int|
            0 <= mx < gw && 0 <= my < gh && gx + mx < fb_w && gy + my < fb_h ==> final(fb)@[
                #[trigger] cell_index(fb_w as int, gx as int, gy as int, mx, my)
            ] == glyph_pixel(coverage@[cov_index(gw as int, mx, my)]),
        forall|i: int|
            0 <= i < final(fb)@.len() && !covers(
                fb_w as int,
                fb_h as int,
                gx as int,
                gy as int,
                gw as int,
                gh as int,
                i,
            ) ==> final(fb)@[i] == old(fb)@[i],
{
    let n = fb.len();
    let cn = coverage.len();
    assert(fb_h * fb_w <= usize::MAX);
    assert(gh * gw <= usize::MAX);
    let mut my: usize = 0;
    while my < gh
        invariant
            old(fb)@.len() == fb_h * fb_w,
            coverage@.len() == gh * gw,
            gx + gw <= usize::MAX,
            gy + gh <= usize::MAX,
            fb_h * fb_w <= usize::MAX,
            gh * gw <= usize::MAX,
            0 <= my <= gh,
            fb@.len() == old(fb)@.len(),
            forall|mx2: int, my2: int|
                0 <= mx2 < gw && 0 <= my2 < my && gx + mx2 < fb_w && gy + my2 < fb_h ==> fb@[
                    #[trigger] cell_index(fb_w as int, gx as int, gy as int, mx2, my2)
                ] == glyph_pixel(coverage@[cov_index(gw as int, mx2, my2)]),
            forall|i: int|
                0 <= i < fb@.len() && !covers(
                    fb_w as int,
                    fb_h as int,
                    gx as int,
                    gy as int,
                    gw as int,
                    my as int,
                    i,
                ) ==> fb@[i] == old(fb)@[i],
        decreases gh - my,
    {
        let mut mx: usize = 0;
        while mx < gw
            invariant
                old(fb)@.len() == fb_h * fb_w,
                coverage@.len() == gh * gw,
                gx + gw <= usize::MAX,
                gy + gh <= usize::MAX,
                fb_h * fb_w <= usize::MAX,
                gh * gw <= usize::MAX,
                0 <= my < gh,
                0 <= mx <= gw,
                fb@.len() == old(fb)@.len(),
                forall|mx2: int, my2: int|
                    0 <= mx2 < gw && 0 <= my2 < my && gx + mx2 < fb_w && gy + my2 < fb_h ==> fb@[
                        #[trigger] cell_index(fb_w as int, gx as int, gy as int, mx2, my2)
                    ] == glyph_pixel(coverage@[cov_index(gw as int, mx2, my2)]),
                forall|mx2: int|
                    0 <= mx2 < mx && gx + mx2 < fb_w && gy + my < fb_h ==> fb@[
                        #[trigger] cell_index(fb_w as int, gx as int, gy as int, mx2, my as int)
                    ] == glyph_pixel(coverage@[cov_index(gw as int, mx2, my as int)]),
                forall|i: int|
                    0 <= i < fb@.len() && !covers(
                        fb_w as int,
                        fb_h as int,
                        gx as int,
                        gy as int,
                        gw as int,
                        my as int,
                        i,
                    ) && !(exists|mx2: int|
                        0 <= mx2 < mx && gx + mx2 < fb_w && gy + my < fb_h && i == #[trigger] cell_index(
                            fb_w as int, gx as int, gy as int, mx2, my as int,
                        )) ==> fb@[i] == old(fb)@[i],
            decreases gw - mx,
        {
            let x = gx + mx;
            let y = gy + my;
            if x < fb_w && y < fb_h {
                proof {
                    lemma_rowmajor_in_bounds(fb_w as int, fb_h as int, x as int, y as int);
                    lemma_rowmajor_in_bounds(gw as int, gh as int, mx as int, my as int);
                }
                let idx = y * fb_w + x;
                let cidx = my * gw + mx;
                let alpha = coverage[cidx];
                let ghost fb_pre = fb@;
                fb[idx] = (alpha as u32) * 0x01_01_01;
                proof {
                    assert forall|mx2: int, my2: int|
                        0 <= mx2 < gw && 0 <= my2 < my && gx + mx2 < fb_w && gy + my2
                            < fb_h implies fb@[
                        #[trigger] cell_index(fb_w as int, gx as int, gy as int, mx2, my2)
                    ] == glyph_pixel(coverage@[cov_index(gw as int, mx2, my2)]) by {
                        if cell_index(fb_w as int, gx as int, gy as int, mx2, my2) == idx as int {
                            lemma_rowmajor_injective(
                                fb_w as int,
                                gy + my2,
                                gx + mx2,
                                y as int,
                                x as int,
                            );
                        } else {
                            lemma_rowmajor_in_bounds(fb_w as int, fb_h as int, gx + mx2, gy + my2);
                            assert(fb@[cell_index(fb_w as int, gx as int, gy as int, mx2, my2)]
                                == fb_pre[cell_index(fb_w as int, gx as int, gy as int, mx2, my2)]);
                        }
                    }
                    assert forall|mx2: int|
                        0 <= mx2 < mx + 1 && gx + mx2 < fb_w && gy + my < fb_h implies fb@[
                        #[trigger] cell_index(fb_w as int, gx as int, gy as int, mx2, my as int)
                    ] == glyph_pixel(coverage@[cov_index(gw as int, mx2, my as int)]) by {
                        if mx2 < mx {
                            if cell_index(fb_w as int, gx as int, gy as int, mx2, my as int)
                                == idx as int {
                                lemma_rowmajor_injective(
                                    fb_w as int,
                                    gy + my as int,
                                    gx + mx2,
                                    y as int,
                                    x as int,
                                );
                            } else {
                                lemma_rowmajor_in_bounds(
                                    fb_w as int,
                                    fb_h as int,
                                    gx + mx2,
                                    gy + my as int,
                                );
                                assert(fb@[cell_index(fb_w as int, gx as int, gy as int, mx2, my as int)]
                                    == fb_pre[cell_index(fb_w as int, gx as int, gy as int, mx2, my as int)]);
                            }
                        } else {
                            assert(cell_index(fb_w as int, gx as int, gy as int, mx2, my as int)
                                == idx as int);
                            assert(cov_index(gw as int, mx2, my as int) == cidx as int);
                        }
                    }
                    assert(gx + mx < fb_w && gy + my < fb_h);
                    assert(idx as int == cell_index(
                        fb_w as int,
                        gx as int,
                        gy as int,
                        mx as int,
                        my as int,
                    ));
                    assert forall|i: int|
                        0 <= i < fb@.len() && !covers(
                            fb_w as int,
                            fb_h as int,
                            gx as int,
                            gy as int,
                            gw as int,
                            my as int,
                            i,
                        ) && !(exists|mx2: int|
                            0 <= mx2 < mx + 1 && gx + mx2 < fb_w && gy + my < fb_h && i
                                == #[trigger] cell_index(
                                fb_w as int,
                                gx as int,
                                gy as int,
                                mx2,
                                my as int,
                            )) implies fb@[i] == old(fb)@[i] by {
                        assert(i != idx as int);
                        assert(fb@[i] == fb_pre[i]);
                    }
                }
            }
            mx = mx + 1;
        }
        proof {
            assert forall|i: int|
                0 <= i < fb@.len() && !covers(
                    fb_w as int,
                    fb_h as int,
                    gx as int,
                    gy as int,
                    gw as int,
                    my + 1,
                    i,
                ) implies fb@[i] == old(fb)@[i] by {
                assert(!covers(
                    fb_w as int,
                    fb_h as int,
                    gx as int,
                    gy as int,
                    gw as int,
                    my as int,
                    i,
                ));
                assert(!(exists|mx2: int|
                    0 <= mx2 < gw && gx + mx2 < fb_w && gy + my < fb_h && i == #[trigger] cell_index(
                        fb_w as int, gx as int, gy as int, mx2, my as int,
                    )));
            }
        }
        my = my + 1;
    }
}

/// The text shown each frame: the scanned output followed by the pending
/// input line.
pub fn compose_display(out: &OutputBuffer, line: &InputLine) -> (r: Vec<u8>)
    ensures
        r@ == out@ + line@,
{
    let mut r: Vec<u8> = Vec::new();
    r.extend_from_slice(out.contents().as_slice());
    r.extend_from_slice(line.contents().as_slice());
    assert(r@ =~= out@ + line@);
    r
}

/// A text split at every newline byte: one piece more than there are
/// newlines, empty pieces kept.
pub open spec fn spec_split_sep(s: Seq<u8>) -> Seq<Seq<u8>>
    decreases s.len(),
{
    if s.len() == 0 {
        seq![Seq::<u8>::empty()]
    } else if s[0] == 10u8 {
        seq![Seq::<u8>::empty()] + spec_split_sep(s.drop_first())
    } else {
        let rest = spec_split_sep(s.drop_first());
        seq![seq![s[0]] + rest[0]] + rest.drop_first()
    }
}

/// Splitting always yields at least one piece.
pub proof fn lemma_split_sep_len(s: Seq<u8>)
    ensures
        spec_split_sep(s).len() >= 1,
    decreases s.len(),
{
    if s.len() == 0 || s[0] == 10u8 {
    } else {
        lemma_split_sep_len(s.drop_first());
    }
}

/// A line as shown: a carriage return immediately before the newline is
/// part of the line ending, not of the line.
pub open spec fn spec_strip_cr(line: Seq<u8>) -> Seq<u8> {
    if line.len() > 0 && line.last() == 13u8 {
        line.drop_last()
    } else {
        line
    }
}

/// The display lines of a text. A newline ends a line, and a carriage
/// return standing right before it belongs to the line ending, not to the
/// line; a trailing line ending adds no further line, and a final
/// unterminated piece is kept as it stands.
pub open spec fn spec_lines(s: Seq<u8>) -> Seq<Seq<u8>> {
    let p = spec_split_sep(s);
    let terminated = p.take(p.len() - 1).map_values(|l: Seq<u8>| spec_strip_cr(l));
    if p.last().len() == 0 {
        terminated
    } else {
        terminated.push(p.last())
    }
}

/// The split of a text whose first piece has already been partly read:
/// that read prefix continues the first remaining piece.
spec fn prepend_first(p: Seq<u8>, ss: Seq<Seq<u8>>) -> Seq<Seq<u8>>
    recommends
        ss.len() >= 1,
{
    seq![p + ss[0]] + ss.drop_first()
}

/// Split the display text into its lines.
pub fn split_lines(text: &[u8]) -> (r: Vec<Vec<u8>>)
    ensures
        r.deep_view() == spec_lines(text@),
{
    let n = text.len();
    let mut done: Vec<Vec<u8>> = Vec::new();
    let mut cur: Vec<u8> = Vec::new();
    let mut i: usize = 0;
    let ghost mut raw: Seq<Seq<u8>> = Seq::empty();
    proof {
        assert(text@.skip(0) =~= text@);
        lemma_split_sep_len(text@);
        assert(spec_split_sep(text@) =~~= raw + prepend_first(
            cur@,
            spec_split_sep(text@.skip(0)),
        ));
        assert(done.deep_view() =~~= raw.map_values(|l: Seq<u8>| spec_strip_cr(l)));
    }
    while i < n
        invariant
            n == text@.len(),
            0 <= i <= n,
            spec_split_sep(text@) == raw + prepend_first(
                cur@,
                spec_split_sep(text@.skip(i as int)),
            ),
            done.deep_view() == raw.map_values(|l: Seq<u8>| spec_strip_cr(l)),
        decreases n - i,
    {
        proof {
            assert(text@.skip(i as int)[0] == text@[i as int]);
            assert(text@.skip(i as int).drop_first() =~= text@.skip(i + 1 as int));
            lemma_split_sep_len(text@.skip(i + 1 as int));
        }
        let ghost pre_done = done.deep_view();
        let ghost pre_cur = cur@;
        let ghost rest = spec_split_sep(text@.skip(i + 1 as int));
        let b = text[i];
        if b == 10u8 {
            if cur.len() > 0 && cur[cur.len() - 1] == 13u8 {
                cur.pop();
            }
            assert(cur@ == spec_strip_cr(pre_cur));
            done.push(cur);
            cur = Vec::new();
            proof {
                raw = raw.push(pre_cur);
                assert(spec_split_sep(text@.skip(i as int)) =~~= seq![Seq::<u8>::empty()] + rest);
                assert(prepend_first(pre_cur, seq![Seq::<u8>::empty()] + rest) =~~= seq![pre_cur]
                    + rest);
                assert(done.deep_view() =~~= pre_done.push(spec_strip_cr(pre_cur)));
                assert(done.deep_view() =~~= raw.map_values(|l: Seq<u8>| spec_strip_cr(l)));
                assert(prepend_first(cur@, rest) =~~= rest);
                assert(spec_split_sep(text@) =~~= raw + prepend_first(
                    cur@,
                    spec_split_sep(text@.skip(i + 1 as int)),
                ));
            }
        } else {
            cur.push(b);
            proof {
                assert(spec_split_sep(text@.skip(i as int)) =~~= seq![seq![text@[i as int]]
                    + rest[0]] + rest.drop_first());
                assert(pre_cur + (seq![text@[i as int]] + rest[0]) =~= cur@ + rest[0]);
                assert(prepend_first(pre_cur, spec_split_sep(text@.skip(i as int)))
                    =~~= prepend_first(cur@, rest));
                assert(spec_split_sep(text@) =~~= raw + prepend_first(
                    cur@,
                    spec_split_sep(text@.skip(i + 1 as int)),
                ));
            }
        }
        i = i + 1;
    }
    proof {
        assert(text@.skip(n as int) =~= Seq::<u8>::empty());
        assert(prepend_first(cur@, spec_split_sep(Seq::<u8>::empty())) =~~= seq![cur@]);
        assert(spec_split_sep(text@) =~~= raw + seq![cur@]);
        assert(spec_split_sep(text@).last() == cur@);
        assert(spec_split_sep(text@).take(spec_split_sep(text@).len() - 1) =~~= raw);
    }
    if cur.len() == 0 {
        proof {
            assert(spec_lines(text@) =~~= done.deep_view());
        }
        done
    } else {
        let ghost pre_done = done.deep_view();
        done.push(cur);
        proof {
            assert(done.deep_view() =~~= pre_done.push(spec_split_sep(text@).last()));
            assert(spec_lines(text@) =~~= done.deep_view());
        }
        done
    }
}

} // verus!
