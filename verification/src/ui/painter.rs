//! Drawing text into a picture, once the glyphs are known.

use crate::text;
use crate::ui::frame;
use crate::ui::frame::Frame;
use vstd::prelude::*;

verus! {

/// Which family a line is set in.
#[derive(Debug, Clone, Copy, PartialEq, Eq, Structural)]
pub enum FamilyChoice {
    /// The family that was asked for.
    Named,
    /// The system's sans-serif.
    SansSerif,
}

/// Whether a family of that name is among those installed, whatever the case
/// of its letters.
pub open spec fn is_installed(installed: Seq<String>, family: Seq<char>) -> bool {
    exists|i: int|
        0 <= i < installed.len() && text::same_but_case((#[trigger] installed[i])@, family)
}

/// The family to set a line in. An empty family, the generic `sans-serif` and
/// one that is not installed all give the system's sans-serif.
pub fn resolve_family(family: &str, installed: &Vec<String>) -> (r: FamilyChoice)
    ensures
        r == FamilyChoice::Named <==> family@.len() > 0 && !text::same_but_case(
            family@,
            "sans-serif"@,
        ) && is_installed(installed@, family@),
{
    if family.is_empty() || text::same_ignoring_case(family, "sans-serif") {
        return FamilyChoice::SansSerif;
    }
    for i in 0..installed.len()
        invariant
            forall|j: int| 0 <= j < i ==> !text::same_but_case((#[trigger] installed@[j])@, family@),
            family@.len() > 0,
            !text::same_but_case(family@, "sans-serif"@),
    {
        if text::same_ignoring_case(installed[i].as_str(), family) {
            assert(text::same_but_case(installed@[i as int]@, family@));
            return FamilyChoice::Named;
        }
    }
    FamilyChoice::SansSerif
}

// ---------------------------------------------------------------------------
// Blending
// ---------------------------------------------------------------------------

/// A pixel: red, green, blue, alpha.
pub type Pixel = (u8, u8, u8, u8);

/// Whether no colour of the pixel exceeds its alpha, as premultiplied pixels
/// require.
pub open spec fn is_premultiplied(p: Pixel) -> bool {
    p.0 <= p.3 && p.1 <= p.3 && p.2 <= p.3
}

/// `tiny_skia::PremultipliedColorU8::from_rgba` makes a premultiplied pixel of
/// four channels, and refuses exactly those with a colour above the alpha. The
/// accessors give back the channels that it was made of.
#[verifier::external_body]
fn premultiplied(r: u8, g: u8, b: u8, a: u8) -> (out: Option<Pixel>)
    ensures
        out == (if is_premultiplied((r, g, b, a)) {
            Some((r, g, b, a))
        } else {
            None
        }),
{
    tiny_skia::PremultipliedColorU8::from_rgba(r, g, b, a).map(
        |p| (p.red(), p.green(), p.blue(), p.alpha()),
    )
}

/// One channel of a straight-alpha source over an opaque destination.
pub open spec fn over_opaque(s: int, d: int, sa: int) -> int {
    (s * sa + d * (255 - sa)) / 255
}

/// One channel of a straight-alpha source over a premultiplied destination.
pub open spec fn over_any(s: int, d: int, sa: int) -> int {
    s * sa / 255 + d * (255 - sa) / 255
}

/// The pixel that a straight-alpha source leaves on a destination: an opaque
/// destination stays opaque, any other gets the premultiplied source-over. The
/// destination stays as it was where the outcome is not a premultiplied pixel.
pub open spec fn blended(src: Pixel, dst: Pixel) -> Pixel {
    let sa = src.3 as int;
    let out = if dst.3 == 255 {
        (
            over_opaque(src.0 as int, dst.0 as int, sa) as u8,
            over_opaque(src.1 as int, dst.1 as int, sa) as u8,
            over_opaque(src.2 as int, dst.2 as int, sa) as u8,
            255u8,
        )
    } else {
        (
            over_any(src.0 as int, dst.0 as int, sa) as u8,
            over_any(src.1 as int, dst.1 as int, sa) as u8,
            over_any(src.2 as int, dst.2 as int, sa) as u8,
            over_any(255, dst.3 as int, sa) as u8,
        )
    };
    if is_premultiplied(out) {
        out
    } else {
        dst
    }
}

proof fn lemma_over(s: int, d: int, sa: int)
    requires
        0 <= s <= 255,
        0 <= d <= 255,
        0 <= sa <= 255,
    ensures
        0 <= s * sa <= 255 * sa,
        0 <= d * (255 - sa) <= 255 * (255 - sa),
        0 <= over_opaque(s, d, sa) <= 255,
        0 <= over_any(s, d, sa) <= 255,
        0 <= s * sa / 255 <= sa,
{
    assert(0 <= s * sa <= 255 * sa) by (nonlinear_arith)
        requires
            0 <= s <= 255,
            0 <= sa,
    ;
    assert(0 <= d * (255 - sa) <= 255 * (255 - sa)) by (nonlinear_arith)
        requires
            0 <= d <= 255,
            0 <= 255 - sa,
    ;
}

proof fn lemma_over_monotone(s: int, d: int, da: int, sa: int)
    requires
        0 <= s <= 255,
        0 <= d <= da <= 255,
        0 <= sa <= 255,
    ensures
        over_any(s, d, sa) <= over_any(255, da, sa),
{
    lemma_over(s, d, sa);
    lemma_over(255, da, sa);
    assert(d * (255 - sa) <= da * (255 - sa)) by (nonlinear_arith)
        requires
            d <= da,
            0 <= 255 - sa,
    ;
    assert(255 * sa / 255 == sa);
}

/// A premultiplied destination takes every source: the outcome is again a
/// premultiplied pixel, and it is the source-over of the two.
pub proof fn law_blend_keeps_premultiplied(src: Pixel, dst: Pixel)
    requires
        is_premultiplied(dst),
    ensures
        is_premultiplied(blended(src, dst)),
        dst.3 == 255 ==> blended(src, dst) == (
            over_opaque(src.0 as int, dst.0 as int, src.3 as int) as u8,
            over_opaque(src.1 as int, dst.1 as int, src.3 as int) as u8,
            over_opaque(src.2 as int, dst.2 as int, src.3 as int) as u8,
            255u8,
        ),
        dst.3 < 255 ==> blended(src, dst) == (
            over_any(src.0 as int, dst.0 as int, src.3 as int) as u8,
            over_any(src.1 as int, dst.1 as int, src.3 as int) as u8,
            over_any(src.2 as int, dst.2 as int, src.3 as int) as u8,
            over_any(255, dst.3 as int, src.3 as int) as u8,
        ),
{
    let sa = src.3 as int;
    lemma_over(src.0 as int, dst.0 as int, sa);
    lemma_over(src.1 as int, dst.1 as int, sa);
    lemma_over(src.2 as int, dst.2 as int, sa);
    lemma_over(255, dst.3 as int, sa);
    if dst.3 < 255 {
        lemma_over_monotone(src.0 as int, dst.0 as int, dst.3 as int, sa);
        lemma_over_monotone(src.1 as int, dst.1 as int, dst.3 as int, sa);
        lemma_over_monotone(src.2 as int, dst.2 as int, dst.3 as int, sa);
    }
}

/// A source of no alpha leaves a premultiplied destination as it was.
pub proof fn law_blend_transparent(src: Pixel, dst: Pixel)
    requires
        is_premultiplied(dst),
        src.3 == 0,
    ensures
        blended(src, dst) == dst,
{
    law_blend_keeps_premultiplied(src, dst);
    assert(src.0 * 0 == 0 && src.1 * 0 == 0 && src.2 * 0 == 0) by (nonlinear_arith);
    assert(dst.0 * 255 / 255 == dst.0);
}

/// An opaque source replaces the destination's colours.
pub proof fn law_blend_opaque(src: Pixel, dst: Pixel)
    requires
        is_premultiplied(dst),
        src.3 == 255,
    ensures
        blended(src, dst) == src,
{
    law_blend_keeps_premultiplied(src, dst);
    assert(dst.0 * 0 == 0 && dst.1 * 0 == 0 && dst.2 * 0 == 0 && dst.3 * 0 == 0)
        by (nonlinear_arith);
}

fn mix_opaque(s: u8, d: u8, sa: u8) -> (r: u8)
    ensures
        r == over_opaque(s as int, d as int, sa as int),
{
    proof {
        lemma_over(s as int, d as int, sa as int);
    }
    ((s as u32 * sa as u32 + d as u32 * (255 - sa as u32)) / 255) as u8
}

fn mix_any(s: u8, d: u8, sa: u8) -> (r: u8)
    ensures
        r == over_any(s as int, d as int, sa as int),
{
    proof {
        lemma_over(s as int, d as int, sa as int);
    }
    (s as u32 * sa as u32 / 255 + d as u32 * (255 - sa as u32) / 255) as u8
}

/// The pixel that a straight-alpha source leaves on a destination.
pub fn blend_pixel(src: Pixel, dst: Pixel) -> (r: Pixel)
    ensures
        r == blended(src, dst),
{
    let sa: u8 = src.3;
    let out = if dst.3 == 255 {
        premultiplied(
            mix_opaque(src.0, dst.0, sa),
            mix_opaque(src.1, dst.1, sa),
            mix_opaque(src.2, dst.2, sa),
            255,
        )
    } else {
        premultiplied(
            mix_any(src.0, dst.0, sa),
            mix_any(src.1, dst.1, sa),
            mix_any(src.2, dst.2, sa),
            mix_any(255, dst.3, sa),
        )
    };
    match out {
        Some(p) => p,
        None => dst,
    }
}

/// The pixel (`x`, `y`) of a picture.
pub open spec fn pixel(f: Frame, x: int, y: int) -> Pixel {
    (f.at(x, y, 0), f.at(x, y, 1), f.at(x, y, 2), f.at(x, y, 3))
}

/// Blends the straight-alpha pixel `(r, g, b, a)` over the pixel (`x`, `y`) of
/// `f`. Nothing changes where the pixel's number lies beyond the picture.
pub fn blend_over(f: &mut Frame, x: usize, y: usize, r: u8, g: u8, b: u8, a: u8)
    requires
        old(f).wf(),
        x < old(f).width,
    ensures
        final(f).wf(),
        final(f).width == old(f).width,
        final(f).height == old(f).height,
        y >= old(f).height ==> *final(f) == *old(f),
        y < old(f).height ==> pixel(*final(f), x as int, y as int) == blended(
            (r, g, b, a),
            pixel(*old(f), x as int, y as int),
        ),
        forall|i: int, j: int|
            0 <= i < old(f).width && 0 <= j < old(f).height && !(i == x && j == y)
                ==> #[trigger] pixel(*final(f), i, j) == pixel(*old(f), i, j),
{
    if y >= f.height {
        return;
    }
    proof {
        frame::lemma_offset_in_range(f.width as int, f.height as int, x as int, y as int, 3);
        assert(f.data@.len() == f.data.len());
    }
    let at: usize = (y * f.width + x) * 4;
    let dst = (f.data[at], f.data[at + 1], f.data[at + 2], f.data[at + 3]);
    let out = blend_pixel((r, g, b, a), dst);
    let ghost before = *f;
    f.data[at] = out.0;
    f.data[at + 1] = out.1;
    f.data[at + 2] = out.2;
    f.data[at + 3] = out.3;
    proof {
        assert forall|i: int, j: int, c: int|
            0 <= i < before.width && 0 <= j < before.height && 0 <= c < 4 && !(i == x && j
                == y) implies #[trigger] f.at(i, j, c) == before.at(i, j, c) by {
            let k = frame::offset(before.width as int, i, j, c);
            frame::lemma_offset_in_range(before.width as int, before.height as int, i, j, c);
            if at <= k < at + 4 {
                frame::lemma_offset_injective(
                    before.width as int,
                    i,
                    j,
                    c,
                    x as int,
                    y as int,
                    k - at,
                );
            }
        }
    }
}

/// The alpha that a glyph pixel is blended with: its coverage, times the alpha
/// of the text.
pub open spec fn folded_alpha(coverage: u8, base: u8) -> int {
    coverage * base / 255
}

/// Draws one pixel of a glyph in a text colour of alpha `base`. A pixel outside
/// of the picture is clipped, one of no alpha is skipped.
pub fn draw_glyph_pixel(f: &mut Frame, x: i32, y: i32, color: Pixel, base: u8)
    requires
        old(f).wf(),
    ensures
        final(f).wf(),
        final(f).width == old(f).width,
        final(f).height == old(f).height,
        ({
            let inside = 0 <= x < old(f).width && 0 <= y < old(f).height;
            let a = folded_alpha(color.3, base);
            &&& (!inside || a == 0) ==> *final(f) == *old(f)
            &&& inside && a > 0 ==> pixel(*final(f), x as int, y as int) == blended(
                (color.0, color.1, color.2, a as u8),
                pixel(*old(f), x as int, y as int),
            )
        }),
        forall|i: int, j: int|
            0 <= i < old(f).width && 0 <= j < old(f).height && !(i == x && j == y)
                ==> #[trigger] pixel(*final(f), i, j) == pixel(*old(f), i, j),
{
    proof {
        lemma_over(color.3 as int, 0, base as int);
    }
    if x < 0 || y < 0 || x as usize >= f.width || y as usize >= f.height {
        return;
    }
    let a: u8 = (color.3 as u32 * base as u32 / 255) as u8;
    if a == 0 {
        return;
    }
    blend_over(f, x as usize, y as usize, color.0, color.1, color.2, a);
}

// ---------------------------------------------------------------------------
// Measuring
// ---------------------------------------------------------------------------

/// Whether row `y` of the picture holds anything but transparent pixels.
pub open spec fn is_inked(f: Frame, y: int) -> bool {
    exists|x: int| 0 <= x < f.width && #[trigger] f.at(x, y, 3) > 0
}

fn row_is_inked(f: &Frame, y: usize) -> (r: bool)
    requires
        f.wf(),
        y < f.height,
    ensures
        r == is_inked(*f, y as int),
{
    for x in 0..f.width
        invariant
            f.wf(),
            y < f.height,
            forall|i: int| 0 <= i < x ==> #[trigger] f.at(i, y as int, 3) == 0,
    {
        proof {
            frame::lemma_offset_in_range(f.width as int, f.height as int, x as int, y as int, 3);
            assert(f.data@.len() == f.data.len());
        }
        if f.data[(y * f.width + x) * 4 + 3] > 0 {
            assert(f.at(x as int, y as int, 3) > 0);
            return true;
        }
    }
    false
}

/// The first row with ink and the number of rows from there to the last one
/// with ink. `None` for a picture without ink.
pub fn ink_span(f: &Frame) -> (r: Option<(usize, usize)>)
    requires
        f.wf(),
    ensures
        r is None <==> (forall|y: int| 0 <= y < f.height ==> !#[trigger] is_inked(*f, y)),
        r matches Some((top, rows)) ==> {
            &&& rows > 0
            &&& top + rows <= f.height
            &&& is_inked(*f, top as int)
            &&& is_inked(*f, top + rows - 1)
            &&& forall|y: int|
                0 <= y < top || top + rows <= y < f.height ==> !#[trigger] is_inked(*f, y)
        },
{
    let mut span: Option<(usize, usize)> = None;
    for y in 0..f.height
        invariant
            f.wf(),
            span is None <==> (forall|j: int| 0 <= j < y ==> !#[trigger] is_inked(*f, j)),
            span matches Some((top, last)) ==> {
                &&& top <= last < y
                &&& is_inked(*f, top as int)
                &&& is_inked(*f, last as int)
                &&& forall|j: int| 0 <= j < top || last < j < y ==> !#[trigger] is_inked(*f, j)
            },
    {
        if row_is_inked(f, y) {
            span = match span {
                Some((top, last)) => Some((top, y)),
                None => Some((y, y)),
            };
        }
    }
    match span {
        Some((top, last)) => Some((top, last - top + 1)),
        None => None,
    }
}

/// A channel of a source over an opaque destination is their mean, weighted by
/// the source's alpha and rounded down; over another, the source's share and the
/// destination's rest are each rounded down.
pub proof fn law_blend_is_weighted_by_alpha(s: int, d: int, sa: int)
    requires
        0 <= s <= 255,
        0 <= d <= 255,
        0 <= sa <= 255,
    ensures
        over_opaque(s, d, sa) * 255 <= s * sa + d * (255 - sa),
        s * sa + d * (255 - sa) < over_opaque(s, d, sa) * 255 + 255,
        over_any(s, d, sa) * 255 <= s * sa + d * (255 - sa),
        s * sa + d * (255 - sa) < over_any(s, d, sa) * 255 + 510,
        over_any(s, 0, sa) == s * sa / 255,
        over_any(0, d, sa) == d * (255 - sa) / 255,
        over_any(s, d, sa) == over_any(s, 0, sa) + over_any(0, d, sa),
{
    assert(0 * (255 - sa) == 0 && 0 * sa == 0) by (nonlinear_arith);
}

/// The alpha of a glyph's pixel is its coverage, scaled by the alpha of the text:
/// opaque text has the coverage itself, and full coverage the text's alpha.
pub proof fn law_coverage_is_scaled(coverage: u8, base: u8)
    ensures
        folded_alpha(coverage, 255) == coverage,
        folded_alpha(255, base) == base,
        folded_alpha(coverage, 0) == 0,
        folded_alpha(0, base) == 0,
        folded_alpha(coverage, base) * 255 <= coverage * base < folded_alpha(coverage, base) * 255
            + 255,
{
    assert(coverage * 0 == 0 && 0 * base == 0) by (nonlinear_arith);
}

/// A row has ink where one of its pixels is not transparent, and only there.
pub proof fn law_ink_is_what_is_not_transparent(f: Frame, x: int, y: int)
    ensures
        0 <= x < f.width && f.data@[(y * f.width + x) * 4 + 3] > 0 ==> is_inked(f, y),
        (forall|i: int| 0 <= i < f.width ==> #[trigger] f.at(i, y, 3) == 0) ==> !is_inked(f, y),
{
    assert(f.at(x, y, 3) == f.data@[(y * f.width + x) * 4 + 3]);
}

/// A pixel is its four bytes, one behind the other.
pub proof fn law_pixel_is_four_bytes(f: Frame, x: int, y: int)
    ensures
        ({
            let at = (y * f.width + x) * 4;
            pixel(f, x, y) == (f.data@[at], f.data@[at + 1], f.data@[at + 2], f.data@[at + 3])
        }),
{
}

/// A family is installed where one of those that are has its name, in whatever
/// case.
pub proof fn law_family_is_found_in_any_case(installed: Seq<String>, family: Seq<char>, i: int)
    ensures
        0 <= i < installed.len() && text::same_but_case(installed[i]@, family) ==> is_installed(
            installed,
            family,
        ),
        (forall|j: int|
            0 <= j < installed.len() ==> !text::same_but_case((#[trigger] installed[j])@, family))
            ==> !is_installed(installed, family),
{
}

} // verus!
