//! The picture behind the lock screen: a palette colour, or an image scaled to
//! cover the output, which may drift slowly while the screen is locked.

use crate::lock::png;
use crate::ui::config;
use crate::ui::config::BackgroundMode;
use crate::ui::frame;
use crate::ui::frame::Frame;
use crate::ui::theme;
use vstd::prelude::*;

verus! {

/// One in the 16.16 fixed-point numbers that offsets and weights are held in.
pub const ONE: i64 = 0x1_0000;

// ---------------------------------------------------------------------------
// The shifted copy
// ---------------------------------------------------------------------------

/// The place in the source, in 16.16 fixed point, that the left or upper edge
/// of the target shows when the source is shifted by `d`: `-d`, kept between
/// the source's edge and the last place from which the target is still covered.
pub open spec fn shift(d: int, source: int, target: int) -> int {
    if d >= 0 {
        0
    } else if -d >= (source - target) * ONE {
        (source - target) * ONE
    } else {
        -d
    }
}

/// The mean of `a` and `b`, with weight `w` of 65536 on `b`, rounded down.
pub open spec fn mix(a: int, b: int, w: int) -> int {
    (a * (ONE - w) + b * w) / (ONE as int)
}

/// The smaller of two numbers.
pub open spec fn least(a: int, b: int) -> int {
    if a <= b {
        a
    } else {
        b
    }
}

/// Channel `c` of the source at a place between four pixels: the pixel
/// (`x`, `y`), its right and lower neighbours (the source's last column and row
/// have themselves for one), and the weights `wx` and `wy` of the neighbours.
pub open spec fn between(src: Frame, x: int, y: int, wx: int, wy: int, c: int) -> int {
    let x1 = least(x + 1, src.width - 1);
    let y1 = least(y + 1, src.height - 1);
    mix(
        mix(src.at(x, y, c) as int, src.at(x1, y, c) as int, wx),
        mix(src.at(x, y1, c) as int, src.at(x1, y1, c) as int, wx),
        wy,
    )
}

/// What channel `c` of the target's pixel (`x`, `y`) becomes when the source is
/// copied with its place (`sx`, `sy`), in 16.16 fixed point, at the target's
/// upper left corner: the source's pixel there, or, where `bilinear` asks for
/// it, the mean of the four pixels around the place.
pub open spec fn shifted(src: Frame, sx: int, sy: int, bilinear: bool, x: int, y: int, c: int) -> int {
    if bilinear {
        between(src, sx / 0x1_0000 + x, sy / 0x1_0000 + y, sx % 0x1_0000, sy % 0x1_0000, c)
    } else {
        src.at(sx / 0x1_0000 + x, sy / 0x1_0000 + y, c) as int
    }
}

/// The mean of two channels lies between them.
pub proof fn lemma_mix_between(a: int, b: int, w: int)
    requires
        0 <= w <= ONE,
    ensures
        a <= b ==> a <= mix(a, b, w) <= b,
        b <= a ==> b <= mix(a, b, w) <= a,
        w == 0 ==> mix(a, b, w) == a,
{
    let one = ONE as int;
    assert(a * (one - w) + b * w == a * one + (b - a) * w) by (nonlinear_arith);
    if a <= b {
        assert(0 <= (b - a) * w <= (b - a) * one) by (nonlinear_arith)
            requires
                0 <= w <= one,
                b - a >= 0,
        ;
    }
    if b <= a {
        assert((b - a) * one <= (b - a) * w <= 0) by (nonlinear_arith)
            requires
                0 <= w <= one,
                b - a <= 0,
        ;
    }
}

/// A mean of four equal channels is that channel.
pub proof fn lemma_between_even(src: Frame, x: int, y: int, wx: int, wy: int, c: int, v: u8)
    requires
        src.wf(),
        0 <= x < src.width,
        0 <= y < src.height,
        0 <= wx <= ONE,
        0 <= wy <= ONE,
        0 <= c < 4,
        forall|i: int, j: int| 0 <= i < src.width && 0 <= j < src.height ==> src.at(i, j, c) == v,
    ensures
        between(src, x, y, wx, wy, c) == v,
{
    let x1 = least(x + 1, src.width - 1);
    let y1 = least(y + 1, src.height - 1);
    assert(src.at(x, y, c) == v);
    assert(src.at(x1, y, c) == v);
    assert(src.at(x, y1, c) == v);
    assert(src.at(x1, y1, c) == v);
    lemma_mix_between(v as int, v as int, wx);
    lemma_mix_between(v as int, v as int, wy);
}

/// The clamped start of the visible part of the source, in 16.16 fixed point.
fn clamp_shift(d: i64, source: usize, target: usize) -> (r: u128)
    requires
        target <= source,
    ensures
        r == shift(d as int, source as int, target as int),
{
    let room: u128 = (source - target) as u128 * 0x1_0000u128;
    if d >= 0 {
        0
    } else {
        let away: i128 = -(d as i128);
        if away as u128 >= room {
            room
        } else {
            away as u128
        }
    }
}

/// The mean of two channels, with weight `w` of 65536 on the second.
fn mix_channel(a: u8, b: u8, w: u32) -> (r: u8)
    requires
        w <= 0x1_0000,
    ensures
        r == mix(a as int, b as int, w as int),
{
    proof {
        lemma_mix_between(a as int, b as int, w as int);
    }
    assert(a * (0x1_0000 - w) <= 255 * 0x1_0000) by (nonlinear_arith)
        requires
            0 <= w <= 0x1_0000,
            0 <= a <= 255,
    ;
    assert(b * w <= 255 * 0x1_0000) by (nonlinear_arith)
        requires
            0 <= w <= 0x1_0000,
            0 <= b <= 255,
    ;
    assert(a * (0x1_0000 - w) >= 0) by (nonlinear_arith)
        requires
            0 <= w <= 0x1_0000,
            0 <= a <= 255,
    ;
    assert(b * w >= 0) by (nonlinear_arith)
        requires
            0 <= w,
            0 <= b,
    ;
    let sum: u32 = a as u32 * (0x1_0000 - w) + b as u32 * w;
    (sum / 0x1_0000) as u8
}

/// The byte of channel `c` at pixel (`x`, `y`).
fn channel(f: &Frame, x: usize, y: usize, c: usize) -> (r: u8)
    requires
        f.wf(),
        x < f.width,
        y < f.height,
        c < 4,
    ensures
        r == f.at(x as int, y as int, c as int),
{
    proof {
        frame::lemma_offset_in_range(f.width as int, f.height as int, x as int, y as int, c as int);
        assert(f.data@.len() == f.data.len());
    }
    f.data[(y * f.width + x) * 4 + c]
}

/// Copies `src` into `target` shifted by (`dx`, `dy`), given in 16.16 fixed
/// point and in the target's pixels. A shift that would show an edge of the
/// source is cut back to the last one that does not. With `bilinear` the
/// fraction of the shift is filtered, so that a slow drift glides; without it
/// the fraction is dropped.
pub fn blit_translate(target: &mut Frame, src: &Frame, dx: i64, dy: i64, bilinear: bool)
    requires
        old(target).wf(),
        src.wf(),
        old(target).width <= src.width,
        old(target).height <= src.height,
    ensures
        final(target).wf(),
        final(target).width == old(target).width,
        final(target).height == old(target).height,
        forall|x: int, y: int, c: int|
            0 <= x < old(target).width && 0 <= y < old(target).height && 0 <= c < 4
                ==> #[trigger] final(target).at(x, y, c) == shifted(
                *src,
                shift(dx as int, src.width as int, old(target).width as int),
                shift(dy as int, src.height as int, old(target).height as int),
                bilinear,
                x,
                y,
                c,
            ),
{
    let tw: usize = target.width;
    let th: usize = target.height;
    let sx: u128 = clamp_shift(dx, src.width, tw);
    let sy: u128 = clamp_shift(dy, src.height, th);
    let ix: usize = (sx / 0x1_0000) as usize;
    let iy: usize = (sy / 0x1_0000) as usize;
    let fx: u32 = (sx % 0x1_0000) as u32;
    let fy: u32 = (sy % 0x1_0000) as u32;
    let filter: bool = bilinear && (fx != 0 || fy != 0);
    for row in 0..th
        invariant
            target.wf(),
            src.wf(),
            target.width == tw,
            target.height == th,
            tw == old(target).width,
            th == old(target).height,
            ix + tw <= src.width,
            iy + th <= src.height,
            ix == sx as int / 0x1_0000,
            iy == sy as int / 0x1_0000,
            fx == sx as int % 0x1_0000,
            fy == sy as int % 0x1_0000,
            filter == (bilinear && (fx != 0 || fy != 0)),
            forall|x: int, y: int, c: int|
                0 <= x < tw && 0 <= y < row && 0 <= c < 4 ==> #[trigger] target.at(x, y, c)
                    == shifted(*src, sx as int, sy as int, bilinear, x, y, c),
    {
        let y0: usize = iy + row;
        let y1: usize = if y0 + 1 < src.height {
            y0 + 1
        } else {
            src.height - 1
        };
        for col in 0..tw
            invariant
                target.wf(),
                src.wf(),
                target.width == tw,
                target.height == th,
                row < th,
                ix + tw <= src.width,
                iy + th <= src.height,
                ix == sx as int / 0x1_0000,
                iy == sy as int / 0x1_0000,
                fx == sx as int % 0x1_0000,
                fy == sy as int % 0x1_0000,
                filter == (bilinear && (fx != 0 || fy != 0)),
                y0 == iy + row,
                y1 == least(y0 + 1, src.height - 1),
                forall|x: int, y: int, c: int|
                    0 <= x < tw && 0 <= y < row && 0 <= c < 4 ==> #[trigger] target.at(x, y, c)
                        == shifted(*src, sx as int, sy as int, bilinear, x, y, c),
                forall|x: int, c: int|
                    0 <= x < col && 0 <= c < 4 ==> #[trigger] target.at(x, row as int, c)
                        == shifted(*src, sx as int, sy as int, bilinear, x, row as int, c),
        {
            let x0: usize = ix + col;
            let x1: usize = if x0 + 1 < src.width {
                x0 + 1
            } else {
                src.width - 1
            };
            for c in 0..4usize
                invariant
                    target.wf(),
                    src.wf(),
                    target.width == tw,
                    target.height == th,
                    row < th,
                    col < tw,
                    ix + tw <= src.width,
                    iy + th <= src.height,
                    ix == sx as int / 0x1_0000,
                    iy == sy as int / 0x1_0000,
                    fx == sx as int % 0x1_0000,
                    fy == sy as int % 0x1_0000,
                    filter == (bilinear && (fx != 0 || fy != 0)),
                    y0 == iy + row,
                    y1 == least(y0 + 1, src.height - 1),
                    x0 == ix + col,
                    x1 == least(x0 + 1, src.width - 1),
                    forall|x: int, y: int, c: int|
                        0 <= x < tw && 0 <= y < row && 0 <= c < 4 ==> #[trigger] target.at(x, y, c)
                            == shifted(*src, sx as int, sy as int, bilinear, x, y, c),
                    forall|x: int, c: int|
                        0 <= x < col && 0 <= c < 4 ==> #[trigger] target.at(x, row as int, c)
                            == shifted(*src, sx as int, sy as int, bilinear, x, row as int, c),
                    forall|k: int|
                        0 <= k < c ==> #[trigger] target.at(col as int, row as int, k) == shifted(
                            *src,
                            sx as int,
                            sy as int,
                            bilinear,
                            col as int,
                            row as int,
                            k,
                        ),
            {
                let v: u8 = if filter {
                    let top = mix_channel(channel(src, x0, y0, c), channel(src, x1, y0, c), fx);
                    let bottom = mix_channel(channel(src, x0, y1, c), channel(src, x1, y1, c), fx);
                    mix_channel(top, bottom, fy)
                } else {
                    channel(src, x0, y0, c)
                };
                proof {
                    frame::lemma_offset_in_range(tw as int, th as int, col as int, row as int, c as int);
                    assert(target.data@.len() == target.data.len());
                    if bilinear && !filter {
                        let a = src.at(x0 as int, y0 as int, c as int) as int;
                        lemma_mix_between(a, src.at(x1 as int, y0 as int, c as int) as int, 0);
                        lemma_mix_between(
                            a,
                            mix(
                                src.at(x0 as int, y1 as int, c as int) as int,
                                src.at(x1 as int, y1 as int, c as int) as int,
                                0,
                            ),
                            0,
                        );
                    }
                    assert(v == shifted(
                        *src,
                        sx as int,
                        sy as int,
                        bilinear,
                        col as int,
                        row as int,
                        c as int,
                    ));
                }
                let ghost before = *target;
                let at: usize = (row * tw + col) * 4 + c;
                target.data[at] = v;
                proof {
                    assert forall|x: int, y: int, k: int|
                        0 <= x < tw && 0 <= y <= row && 0 <= k < 4 && !(x == col && y == row && k
                            == c) implies #[trigger] target.at(x, y, k) == before.at(x, y, k) by {
                        frame::lemma_offset_in_range(tw as int, th as int, x, y, k);
                        if frame::offset(tw as int, x, y, k) == at {
                            frame::lemma_offset_injective(
                                tw as int,
                                x,
                                y,
                                k,
                                col as int,
                                row as int,
                                c as int,
                            );
                        }
                    }
                }
            }
        }
    }
}

/// Every place of the target shows a place within the source, whatever the
/// shift: the drift never exposes an edge.
pub proof fn law_shift_stays_covered(d: int, source: int, target: int)
    requires
        0 < target <= source,
    ensures
        0 <= shift(d, source, target) / 0x1_0000,
        shift(d, source, target) / 0x1_0000 + target <= source,
{
}

/// An evenly coloured source covers the target evenly, at every shift.
pub proof fn law_even_source_covers(
    src: Frame,
    rgba: Seq<u8>,
    dx: int,
    dy: int,
    width: int,
    height: int,
    bilinear: bool,
    x: int,
    y: int,
    c: int,
)
    requires
        src.wf(),
        src.is_filled(rgba),
        0 <= x < width <= src.width,
        0 <= y < height <= src.height,
        0 <= c < 4,
    ensures
        shifted(
            src,
            shift(dx, src.width as int, width),
            shift(dy, src.height as int, height),
            bilinear,
            x,
            y,
            c,
        ) == rgba[c],
{
    let sx = shift(dx, src.width as int, width);
    let sy = shift(dy, src.height as int, height);
    law_shift_stays_covered(dx, src.width as int, width);
    law_shift_stays_covered(dy, src.height as int, height);
    lemma_between_even(
        src,
        sx / 0x1_0000 + x,
        sy / 0x1_0000 + y,
        sx % 0x1_0000,
        sy % 0x1_0000,
        c,
        rgba[c],
    );
}

// ---------------------------------------------------------------------------
// Scaled copies
// ---------------------------------------------------------------------------

/// How many scaled copies are kept: enough for a few outputs of different
/// sizes, without growing as sizes come and go.
pub const SCALED_CACHE_SLOTS: usize = 4;

/// A copy of the wallpaper, scaled to cover an output of a given size.
#[derive(Debug)]
pub struct ScaledBg {
    pub frame: Frame,
    pub target_w: usize,
    pub target_h: usize,
}

impl ScaledBg {
    /// The copy covers its output.
    pub open spec fn wf(self) -> bool {
        &&& self.frame.wf()
        &&& 0 < self.target_w <= self.frame.width
        &&& 0 < self.target_h <= self.frame.height
    }

    /// Whether this is the copy for an output of that size.
    pub open spec fn fits(self, width: usize, height: usize) -> bool {
        self.target_w == width && self.target_h == height
    }
}

/// A wallpaper, with a scaled copy for each of the output sizes that were drawn
/// last, the most recent one at the end.
#[derive(Debug)]
pub struct ImageBg {
    pub source: Frame,
    pub ken_burns: bool,
    pub cache: Vec<ScaledBg>,
}

/// The place of the first copy for an output of that size, or the number of
/// copies where there is none.
pub open spec fn slot(cache: Seq<ScaledBg>, width: usize, height: usize) -> int
    decreases cache.len(),
{
    if cache.len() == 0 || cache[0].fits(width, height) {
        0
    } else {
        1 + slot(cache.skip(1), width, height)
    }
}

/// `slot` is the place of a copy that fits, and none before it does.
pub proof fn lemma_slot(cache: Seq<ScaledBg>, width: usize, height: usize)
    ensures
        0 <= slot(cache, width, height) <= cache.len(),
        slot(cache, width, height) < cache.len() ==> cache[slot(cache, width, height)].fits(
            width,
            height,
        ),
        forall|i: int|
            0 <= i < slot(cache, width, height) ==> !(#[trigger] cache[i]).fits(width, height),
    decreases cache.len(),
{
    if cache.len() > 0 && !cache[0].fits(width, height) {
        lemma_slot(cache.skip(1), width, height);
        let k = slot(cache.skip(1), width, height);
        assert forall|i: int| 0 <= i < 1 + k implies !(#[trigger] cache[i]).fits(
            width,
            height,
        ) by {
            if i > 0 {
                assert(cache.skip(1)[i - 1] == cache[i]);
            }
        }
        if k < cache.len() - 1 {
            assert(cache.skip(1)[k] == cache[k + 1]);
        }
    }
}

/// The copies after the one at `i` was drawn.
pub open spec fn touched(cache: Seq<ScaledBg>, i: int) -> Seq<ScaledBg> {
    cache.remove(i).push(cache[i])
}

/// The copies after one more was made: the one drawn longest ago has to go when
/// all slots are taken.
pub open spec fn stored(cache: Seq<ScaledBg>, scaled: ScaledBg) -> Seq<ScaledBg> {
    if cache.len() >= SCALED_CACHE_SLOTS {
        cache.skip(1).push(scaled)
    } else {
        cache.push(scaled)
    }
}

impl ImageBg {
    /// No more copies than slots, none of them for the same size, and each
    /// covers its output.
    pub open spec fn wf(self) -> bool {
        &&& self.source.wf()
        &&& self.cache@.len() <= SCALED_CACHE_SLOTS
        &&& forall|i: int| 0 <= i < self.cache@.len() ==> (#[trigger] self.cache@[i]).wf()
        &&& forall|i: int, j: int|
            0 <= i < j < self.cache@.len() ==> !(#[trigger] self.cache@[i]).fits(
                (#[trigger] self.cache@[j]).target_w,
                self.cache@[j].target_h,
            )
    }

    /// Whether the copy for that size is the one that was drawn last.
    pub open spec fn is_ready(self, width: usize, height: usize) -> bool {
        self.cache@.len() > 0 && self.cache@.last().fits(width, height)
    }

    /// How far the wallpaper is shifted where a drift by `d` is asked for: not at
    /// all where it stands still.
    pub open spec fn drifted(self, d: i64) -> int {
        if self.ken_burns {
            d as int
        } else {
            0
        }
    }

    /// A wallpaper of which no scaled copy was made yet.
    pub fn new(source: Frame, ken_burns: bool) -> (r: ImageBg)
        requires
            source.wf(),
        ensures
            r.wf(),
            r.source == source,
            r.ken_burns == ken_burns,
            r.cache@.len() == 0,
    {
        ImageBg { source, ken_burns, cache: Vec::new() }
    }

    /// Looks for the copy for that size. One that is there becomes the most
    /// recent.
    pub fn recall(&mut self, width: usize, height: usize) -> (hit: bool)
        requires
            old(self).wf(),
        ensures
            final(self).wf(),
            final(self).source == old(self).source,
            final(self).ken_burns == old(self).ken_burns,
            hit == (slot(old(self).cache@, width, height) < old(self).cache@.len()),
            hit ==> final(self).is_ready(width, height) && final(self).cache@ == touched(
                old(self).cache@,
                slot(old(self).cache@, width, height),
            ),
            !hit ==> final(self).cache@ == old(self).cache@,
    {
        let mut i: usize = 0;
        assert(self.cache@.skip(0) =~= self.cache@);
        while i < self.cache.len()
            invariant
                *self == *old(self),
                self.wf(),
                i <= self.cache@.len(),
                slot(self.cache@, width, height) == i + slot(
                    self.cache@.skip(i as int),
                    width,
                    height,
                ),
            decreases self.cache@.len() - i,
        {
            if self.cache[i].target_w == width && self.cache[i].target_h == height {
                let ghost before = self.cache@;
                let entry = self.cache.remove(i);
                self.cache.push(entry);
                proof {
                    lemma_slot(before, width, height);
                    assert(self.cache@ =~= touched(before, i as int));
                    assert forall|a: int, b: int| 0 <= a < b < self.cache@.len() implies !(
                    #[trigger] self.cache@[a]).fits(
                        (#[trigger] self.cache@[b]).target_w,
                        self.cache@[b].target_h,
                    ) by {
                        let a0 = if a < i {
                            a
                        } else {
                            a + 1
                        };
                        let b0 = if b == before.len() - 1 {
                            i as int
                        } else if b < i {
                            b
                        } else {
                            b + 1
                        };
                        assert(self.cache@[a] == before[a0]);
                        assert(self.cache@[b] == before[b0]);
                        assert(a0 != b0);
                        assert(before[b0] == before[b0]);
                    }
                }
                return true;
            }
            assert(self.cache@.skip(i as int).skip(1) =~= self.cache@.skip(i + 1));
            i += 1;
        }
        false
    }

    /// Keeps a copy for a size that none was kept for.
    pub fn remember(&mut self, scaled: ScaledBg)
        requires
            old(self).wf(),
            scaled.wf(),
            slot(old(self).cache@, scaled.target_w, scaled.target_h) == old(self).cache@.len(),
        ensures
            final(self).wf(),
            final(self).source == old(self).source,
            final(self).ken_burns == old(self).ken_burns,
            final(self).is_ready(scaled.target_w, scaled.target_h),
            final(self).cache@ == stored(old(self).cache@, scaled),
    {
        proof {
            lemma_slot(self.cache@, scaled.target_w, scaled.target_h);
        }
        let ghost before = self.cache@;
        if self.cache.len() >= SCALED_CACHE_SLOTS {
            self.cache.remove(0);
            assert(self.cache@ =~= before.skip(1));
        }
        self.cache.push(scaled);
        proof {
            assert(self.cache@ =~= stored(before, scaled));
        }
    }
}

/// A copy that is among the most recent ones, with a slot to spare, survives
/// the making of another: it is then one place further back. So outputs of as
/// many sizes as there are slots are each scaled once.
pub proof fn law_recent_copies_stay(cache: Seq<ScaledBg>, kept: ScaledBg, scaled: ScaledBg, age: int)
    requires
        0 <= age < SCALED_CACHE_SLOTS - 1,
        age < cache.len() <= SCALED_CACHE_SLOTS,
        cache[cache.len() - 1 - age] == kept,
    ensures
        ({
            let next = stored(cache, scaled);
            age + 1 < next.len() && next[next.len() - 2 - age] == kept
        }),
{
}

// ---------------------------------------------------------------------------
// The background
// ---------------------------------------------------------------------------

/// What is drawn behind everything else.
#[derive(Debug)]
pub enum Background {
    /// An opaque colour: red, green, blue.
    Color(u8, u8, u8),
    Image(ImageBg),
}

/// What has to happen before the background can be painted at some size.
#[derive(Debug, Clone, Copy, PartialEq, Eq, Structural)]
pub enum Prepared {
    /// Nothing.
    Ready,
    /// The wallpaper has to be scaled to cover that size, and the copy handed
    /// to [`ImageBg::remember`].
    NeedsScaling,
}

/// Whether the settings ask for a picture, and name one.
pub open spec fn asks_for_image(cfg: config::Background) -> bool {
    cfg.mode == BackgroundMode::Image && cfg.path@.len() > 0
}

impl Background {
    /// A picture keeps its invariant.
    pub open spec fn wf(self) -> bool {
        self matches Background::Image(bg) ==> bg.wf()
    }

    /// Whether this is the palette's colour, `hex`.
    pub open spec fn is_palette_color(self, hex: Seq<char>) -> bool {
        self matches Background::Color(r, g, b) && (r as int, g as int, b as int)
            == theme::color_of(hex)
    }

    /// Whether the picture's file has to be read before [`Background::load`].
    pub fn wants_image(cfg: &config::Background) -> (r: bool)
        ensures
            r == asks_for_image(*cfg),
    {
        cfg.mode == BackgroundMode::Image && !cfg.path.as_str().is_empty()
    }

    /// Whether this is the background that the settings ask for, where the
    /// palette's background colour is `hex` and the picture's file, if it could
    /// be read, holds `file`. The colour is used where no picture is asked for
    /// and where none can be had.
    pub open spec fn is_asked_for(
        self,
        cfg: config::Background,
        hex: Seq<char>,
        file: Option<Vec<u8>>,
    ) -> bool {
        let shown = if asks_for_image(cfg) && file is Some && png::can_be_decoded(file->0@) {
            png::png_picture(file->0@)
        } else {
            None
        };
        match shown {
            Some(p) => self matches Background::Image(bg) && png::picture(Some(bg.source)) == Some(p)
                && bg.ken_burns == cfg.ken_burns && bg.cache@.len() == 0,
            None => self.is_palette_color(hex),
        }
    }

    /// The background that the settings ask for. `background` is the palette's
    /// background colour, `file` what the picture's file holds, where it could
    /// be read. The colour is used for every file that holds no picture.
    pub fn load(cfg: &config::Background, background: &str, file: Option<Vec<u8>>) -> (r: Self)
        ensures
            r.wf(),
            r.is_asked_for(*cfg, background@, file),
    {
        let decoded = match file {
            Some(bytes) => if Self::wants_image(cfg) && png::is_decodable(bytes.as_slice()) {
                png::decode_png(bytes.as_slice())
            } else {
                None
            },
            None => None,
        };
        Self::from_decoded(cfg, background, decoded)
    }

    /// [`Background::load`] for a picture that was decoded already.
    pub fn from_decoded(cfg: &config::Background, background: &str, decoded: Option<Frame>) -> (r:
        Self)
        requires
            decoded matches Some(f) ==> f.wf(),
        ensures
            r.wf(),
            asks_for_image(*cfg) && decoded is Some ==> (r matches Background::Image(bg)
                && bg.source == decoded->0 && bg.ken_burns == cfg.ken_burns && bg.cache@.len() == 0),
            !(asks_for_image(*cfg) && decoded is Some) ==> r.is_palette_color(background@),
    {
        if Self::wants_image(cfg) {
            match decoded {
                Some(frame) => {
                    return Background::Image(ImageBg::new(frame, cfg.ken_burns));
                },
                None => {},
            }
        }
        let (r, g, b) = theme::parse_hex(background);
        Background::Color(r, g, b)
    }

    /// Whether this background moves, and so has to be redrawn all the time.
    pub fn ken_burns(&self) -> (r: bool)
        ensures
            r == (self matches Background::Image(bg) && bg.ken_burns),
    {
        match self {
            Background::Image(bg) => bg.ken_burns,
            Background::Color(_, _, _) => false,
        }
    }

    /// Whether [`Background::paint`] may be called for a target of that size.
    pub open spec fn is_ready(self, width: usize, height: usize) -> bool {
        self matches Background::Image(bg) ==> bg.is_ready(width, height)
    }

    /// Looks up the scaled copy for an output of that size.
    pub fn prepare(&mut self, width: usize, height: usize) -> (r: Prepared)
        requires
            old(self).wf(),
        ensures
            final(self).wf(),
            r == Prepared::Ready <==> (*old(self) matches Background::Image(bg) ==> slot(
                bg.cache@,
                width,
                height,
            ) < bg.cache@.len()),
            r == Prepared::Ready ==> final(self).is_ready(width, height),
            *old(self) is Color ==> *final(self) == *old(self),
            *old(self) matches Background::Image(was) ==> (*final(self) matches Background::Image(
                bg,
            ) && bg.source == was.source && bg.ken_burns == was.ken_burns && bg.cache@ == (if r
                == Prepared::Ready {
                touched(was.cache@, slot(was.cache@, width, height))
            } else {
                was.cache@
            })),
    {
        match self {
            Background::Image(bg) => if bg.recall(width, height) {
                Prepared::Ready
            } else {
                Prepared::NeedsScaling
            },
            Background::Color(_, _, _) => Prepared::Ready,
        }
    }

    /// Paints the background: the colour, or the wallpaper's copy for that size
    /// shifted by (`dx`, `dy`), in 16.16 fixed point. A wallpaper that stands
    /// still is not shifted. `smooth` asks for the fraction of the shift to be
    /// filtered.
    pub fn paint(&self, target: &mut Frame, dx: i64, dy: i64, smooth: bool)
        requires
            self.wf(),
            old(target).wf(),
            self.is_ready(old(target).width, old(target).height),
        ensures
            final(target).wf(),
            final(target).width == old(target).width,
            final(target).height == old(target).height,
            *self matches Background::Color(r, g, b) ==> final(target).is_filled(
                seq![r, g, b, 255u8],
            ),
            *self matches Background::Image(bg) ==> forall|x: int, y: int, c: int|
                0 <= x < old(target).width && 0 <= y < old(target).height && 0 <= c < 4
                    ==> #[trigger] final(target).at(x, y, c) == ({
                    let copy = bg.cache@.last().frame;
                    shifted(
                        copy,
                        shift(bg.drifted(dx), copy.width as int, old(target).width as int),
                        shift(bg.drifted(dy), copy.height as int, old(target).height as int),
                        smooth,
                        x,
                        y,
                        c,
                    )
                }),
    {
        match self {
            Background::Color(r, g, b) => target.fill(*r, *g, *b, 255),
            Background::Image(bg) => {
                let last: usize = bg.cache.len() - 1;
                assert(bg.cache@[last as int].wf());
                if bg.ken_burns {
                    blit_translate(target, &bg.cache[last].frame, dx, dy, smooth);
                } else {
                    blit_translate(target, &bg.cache[last].frame, 0, 0, smooth);
                }
            },
        }
    }
}

// ---------------------------------------------------------------------------
// What is shown where
// ---------------------------------------------------------------------------

/// A shift to the left by `k` pixels shows the source from its `k`th pixel on,
/// as far as there is room; one to the right shows it from its edge.
pub proof fn law_shift_follows_the_drift(k: int, d: int, source: int, target: int)
    requires
        0 < target <= source,
    ensures
        0 <= k <= source - target ==> shift(-k * 0x1_0000, source, target) == k * 0x1_0000,
        k > source - target ==> shift(-k * 0x1_0000, source, target) == (source - target)
            * 0x1_0000,
        d >= 0 ==> shift(d, source, target) == 0,
        0 <= -d <= (source - target) * 0x1_0000 ==> shift(d, source, target) == -d,
{
}

/// At a whole number of pixels the source is copied pixel by pixel, filtered or
/// not.
pub proof fn law_whole_pixels_are_copied(
    src: Frame,
    kx: int,
    ky: int,
    bilinear: bool,
    x: int,
    y: int,
    c: int,
)
    ensures
        shifted(src, kx * 0x1_0000, ky * 0x1_0000, bilinear, x, y, c) == src.at(kx + x, ky + y, c),
{
    let x1 = least(kx + x + 1, src.width - 1);
    let y1 = least(ky + y + 1, src.height - 1);
    let a = src.at(kx + x, ky + y, c) as int;
    lemma_mix_between(a, src.at(x1, ky + y, c) as int, 0);
    lemma_mix_between(
        a,
        mix(src.at(kx + x, y1, c) as int, src.at(x1, y1, c) as int, 0),
        0,
    );
}

/// Without a filter the fraction of a shift is dropped.
pub proof fn law_fraction_is_dropped_unfiltered(
    src: Frame,
    kx: int,
    ky: int,
    fx: int,
    fy: int,
    x: int,
    y: int,
    c: int,
)
    requires
        0 <= fx < 0x1_0000,
        0 <= fy < 0x1_0000,
    ensures
        shifted(src, kx * 0x1_0000 + fx, ky * 0x1_0000 + fy, false, x, y, c) == src.at(
            kx + x,
            ky + y,
            c,
        ),
{
}

/// The mean of two channels is as near to each as its weight is large, rounded
/// down.
pub proof fn law_mean_is_weighted(a: int, b: int, w: int)
    ensures
        mix(a, b, w) * 0x1_0000 <= a * (0x1_0000 - w) + b * w,
        a * (0x1_0000 - w) + b * w < mix(a, b, w) * 0x1_0000 + 0x1_0000,
{
}

/// With a filter, a shift by a fraction along one side shows the mean of the
/// pixel and its neighbour on that side, with the fraction for the neighbour's
/// weight.
pub proof fn law_fraction_is_filtered(
    src: Frame,
    kx: int,
    ky: int,
    f: int,
    x: int,
    y: int,
    c: int,
)
    requires
        0 <= f < 0x1_0000,
        0 <= kx + x < src.width - 1,
        0 <= ky + y < src.height - 1,
    ensures
        shifted(src, kx * 0x1_0000 + f, ky * 0x1_0000, true, x, y, c) == mix(
            src.at(kx + x, ky + y, c) as int,
            src.at(kx + x + 1, ky + y, c) as int,
            f,
        ),
        shifted(src, kx * 0x1_0000, ky * 0x1_0000 + f, true, x, y, c) == mix(
            src.at(kx + x, ky + y, c) as int,
            src.at(kx + x, ky + y + 1, c) as int,
            f,
        ),
{
    let a = src.at(kx + x, ky + y, c) as int;
    let b = src.at(kx + x + 1, ky + y, c) as int;
    let d = src.at(kx + x, ky + y + 1, c) as int;
    let e = src.at(kx + x + 1, ky + y + 1, c) as int;
    lemma_mix_between(mix(a, b, f), mix(d, e, f), 0);
    lemma_mix_between(a, b, 0);
    lemma_mix_between(d, e, 0);
}

/// With a filter, a shift by a fraction along both sides shows the mean of the
/// four pixels around the place: first along the rows, then between them. At the
/// source's last column or row a pixel is its own neighbour.
pub proof fn law_fractions_are_filtered_along_both_sides(
    src: Frame,
    kx: int,
    ky: int,
    fx: int,
    fy: int,
    x: int,
    y: int,
    c: int,
)
    requires
        0 <= fx < 0x1_0000,
        0 <= fy < 0x1_0000,
        0 <= kx + x < src.width,
        0 <= ky + y < src.height,
    ensures
        ({
            let right = if kx + x + 1 < src.width {
                kx + x + 1
            } else {
                kx + x
            };
            let below = if ky + y + 1 < src.height {
                ky + y + 1
            } else {
                ky + y
            };
            shifted(src, kx * 0x1_0000 + fx, ky * 0x1_0000 + fy, true, x, y, c) == mix(
                mix(src.at(kx + x, ky + y, c) as int, src.at(right, ky + y, c) as int, fx),
                mix(src.at(kx + x, below, c) as int, src.at(right, below, c) as int, fx),
                fy,
            )
        }),
{
}

/// The copy that is looked for is the first that fits.
pub proof fn law_first_fitting_copy_is_found(
    cache: Seq<ScaledBg>,
    width: usize,
    height: usize,
    i: int,
)
    requires
        0 <= i < cache.len(),
    ensures
        cache[i].target_w == width && cache[i].target_h == height && (forall|j: int|
            0 <= j < i ==> (#[trigger] cache[j]).target_w != width || cache[j].target_h != height)
            ==> slot(cache, width, height) == i,
        (forall|j: int|
            0 <= j < cache.len() ==> (#[trigger] cache[j]).target_w != width || cache[j].target_h
                != height) ==> slot(cache, width, height) == cache.len(),
{
    lemma_slot(cache, width, height);
    let p = slot(cache, width, height);
    if p < cache.len() {
        assert(cache[p].fits(width, height));
    }
    if p > i {
        assert(!cache[i].fits(width, height));
    }
}

/// A copy that was drawn becomes the last, and the others keep their order.
pub proof fn law_drawn_copy_becomes_the_last(cache: Seq<ScaledBg>, i: int)
    requires
        0 <= i < cache.len(),
    ensures
        touched(cache, i).len() == cache.len(),
        touched(cache, i).last() == cache[i],
        forall|j: int| 0 <= j < i ==> #[trigger] touched(cache, i)[j] == cache[j],
        forall|j: int| i <= j < cache.len() - 1 ==> #[trigger] touched(cache, i)[j] == cache[j + 1],
{
}

/// A new copy becomes the last. Four are kept: only where there are as many does
/// the first go, and the others stay in their order.
pub proof fn law_new_copy_becomes_the_last(cache: Seq<ScaledBg>, scaled: ScaledBg)
    ensures
        stored(cache, scaled).last() == scaled,
        cache.len() < 4 ==> stored(cache, scaled).drop_last() == cache,
        cache.len() >= 4 ==> stored(cache, scaled).drop_last() == cache.skip(1),
{
    assert(cache.push(scaled).drop_last() =~= cache);
    assert(cache.len() >= 4 ==> cache.skip(1).push(scaled).drop_last() =~= cache.skip(1));
}

/// A wallpaper drifts where the settings let it, and not otherwise.
pub proof fn law_still_wallpaper_does_not_drift(bg: ImageBg, d: i64)
    ensures
        bg.ken_burns ==> bg.drifted(d) == d,
        !bg.ken_burns ==> bg.drifted(d) == 0,
{
}

/// The picture that the settings name is the background wherever it could be
/// read, and the palette's colour otherwise.
pub proof fn law_named_picture_is_the_background(
    bg: Background,
    cfg: config::Background,
    hex: Seq<char>,
    file: Option<Vec<u8>>,
)
    requires
        bg.is_asked_for(cfg, hex, file),
    ensures
        cfg.mode == BackgroundMode::Color || cfg.path@.len() == 0 || file is None ==> bg is Color,
        file matches Some(f) ==> !png::can_be_decoded(f@) || png::png_picture(f@) is None ==> bg
            is Color,
        cfg.mode == BackgroundMode::Image && cfg.path@.len() > 0 && file is Some
            && png::can_be_decoded((file->0)@) && png::png_picture((file->0)@) is Some ==> {
            &&& bg is Image
            &&& png::picture(Some((bg->Image_0).source)) == png::png_picture((file->0)@)
            &&& (bg->Image_0).ken_burns == cfg.ken_burns
            &&& (bg->Image_0).cache@.len() == 0
        },
        bg matches Background::Color(r, g, b) ==> (r as int, g as int, b as int) == theme::color_of(
            hex,
        ),
{
}

} // verus!
