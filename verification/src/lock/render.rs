//! What a frame of the lock screen shows, and how far each of its motions has
//! come. Times are in nanoseconds since the program started.

use crate::ui::frame::Frame;
use vstd::prelude::*;

verus! {

/// How long the lock screen takes to appear.
pub const APPEAR_MS: u64 = 450;

/// How long unlocking takes: a green flash, then a fade.
pub const UNLOCK_MS: u64 = 650;

/// The flash at the start of unlocking.
pub const FLASH_MS: u64 = 250;

/// How long the pill shakes after a wrong password.
pub const SHAKE_MS: u64 = 380;

/// How long the pill takes to turn red, from the start of the shake.
pub const SHAKE_RED_MS: u64 = 150;

/// How long the newest dot takes to pop in.
pub const DOT_POP_MS: u64 = 200;

/// How long one minute's clock fades into the next one's.
pub const CLOCK_CROSSFADE_MS: u64 = 300;

/// The time between two frames while something moves fast.
pub const ANIM_FRAME_MS: u64 = 16;

/// The time between two frames while everything that moves moves slowly.
pub const SLOW_FRAME_MS: u64 = 62;

/// How long the status line takes to slide in.
pub const STATUS_SLIDE_MS: u64 = 200;

/// The time from one breath of the pill to the next.
pub const BREATHE_PERIOD_MS: u64 = 4000;

/// How long a breath of the pill takes.
pub const BREATHE_ACTIVE_MS: u64 = 1200;

/// The time from the start to the first breath.
pub const BREATHE_INITIAL_DELAY_MS: u64 = 1500;

/// How long the screen takes to darken, once it is idle.
pub const IDLE_DIM_RAMP_MS: u64 = 4000;

/// When, from the start of the appearance, the clock begins to move.
pub const CLOCK_DELAY_MS: u64 = 0;

/// When the date begins to move.
pub const DATE_DELAY_MS: u64 = 80;

/// When the pill begins to move.
pub const PILL_DELAY_MS: u64 = 100;

/// When the status line begins to move.
pub const STATUS_DELAY_MS: u64 = 160;

/// How long the caret stays solid after a key, in nanoseconds.
pub const CARET_HOLD_NS: u64 = 500_000_000;

/// Nanoseconds in a millisecond.
pub const NS_PER_MS: u64 = 1_000_000;

/// The longest motion whose parts can be told apart in thousandths, in
/// nanoseconds: about two hundred days.
pub const LONGEST_NS: u64 = 18_000_000_000_000_000;

// ---------------------------------------------------------------------------
// Time
// ---------------------------------------------------------------------------

/// The time since `since`, and none for a time that is still to come.
pub open spec fn elapsed(now: u64, since: u64) -> int {
    if now >= since {
        now - since
    } else {
        0
    }
}

/// The time since `since`.
pub fn time_since(now: u64, since: u64) -> (r: u64)
    ensures
        r == elapsed(now, since),
{
    if now >= since {
        now - since
    } else {
        0
    }
}

/// How far something has come: `done` of `of`.
#[derive(Debug, Clone, Copy, PartialEq, Eq, Structural)]
pub struct Progress {
    pub done: u64,
    pub of: u64,
}

impl Progress {
    /// There is a way to go, and no more of it was done than there is.
    pub open spec fn wf(self) -> bool {
        self.done <= self.of && self.of > 0
    }

    /// It can be counted in steps a thousand times finer.
    pub open spec fn is_short(self) -> bool {
        self.of <= LONGEST_NS
    }

    /// Nothing was done yet.
    pub fn none() -> (r: Progress)
        ensures
            r == (Progress { done: 0, of: 1 }),
    {
        Progress { done: 0, of: 1 }
    }

    /// All was done.
    pub fn full() -> (r: Progress)
        ensures
            r == (Progress { done: 1, of: 1 }),
    {
        Progress { done: 1, of: 1 }
    }

    /// Whether all was done.
    pub fn is_full(&self) -> (r: bool)
        ensures
            r == (self.done >= self.of),
    {
        self.done >= self.of
    }

    /// Whether anything was done.
    pub fn is_begun(&self) -> (r: bool)
        ensures
            r == (self.done > 0),
    {
        self.done > 0
    }
}

/// How far something that takes `of` has come after `time`, which may be before
/// it begins.
pub open spec fn progress(time: int, of: int) -> Progress {
    if of <= 0 {
        Progress { done: 1, of: 1 }
    } else if time >= of {
        Progress { done: of as u64, of: of as u64 }
    } else if time <= 0 {
        Progress { done: 0, of: of as u64 }
    } else {
        Progress { done: time as u64, of: of as u64 }
    }
}

/// How far something that began at `started` and takes `duration_ms` has come.
/// What takes no time is done at once.
pub fn unit_progress(now: u64, started: u64, duration_ms: u64) -> (r: Progress)
    requires
        duration_ms <= u64::MAX / NS_PER_MS,
    ensures
        r.wf(),
        r == progress(elapsed(now, started), duration_ms * NS_PER_MS),
{
    if duration_ms == 0 {
        return Progress::full();
    }
    let of: u64 = duration_ms * NS_PER_MS;
    let time: u64 = time_since(now, started);
    Progress {
        done: if time < of {
            time
        } else {
            of
        },
        of,
    }
}

/// Progress never goes back while time passes.
pub proof fn law_progress_is_monotone(early: u64, late: u64, started: u64, duration_ms: u64)
    requires
        early <= late,
        duration_ms <= u64::MAX / NS_PER_MS,
    ensures
        ({
            let a = progress(elapsed(early, started), duration_ms * NS_PER_MS);
            let b = progress(elapsed(late, started), duration_ms * NS_PER_MS);
            a.of == b.of && a.done <= b.done <= b.of
        }),
{
}

/// How far a part of the appearance has come that begins `delay_ms` after the
/// appearance does and ends with it. It is counted in the appearance's own steps
/// where these hit its beginning, otherwise in finer ones.
pub open spec fn staggered(appear: Progress, delay_ms: u64) -> Progress {
    let ahead = delay_ms * appear.of;
    if APPEAR_MS <= delay_ms {
        appear
    } else if ahead % (APPEAR_MS as int) == 0 {
        let before = ahead / (APPEAR_MS as int);
        progress(appear.done - before, appear.of - before)
    } else {
        progress(appear.done * APPEAR_MS - ahead, appear.of * APPEAR_MS - ahead)
    }
}

/// How far a part of the appearance has come that begins with a delay.
pub fn staggered_t(appear: Progress, delay_ms: u64) -> (r: Progress)
    requires
        appear.wf(),
        appear.is_short(),
    ensures
        r.wf(),
        r == staggered(appear, delay_ms),
{
    if APPEAR_MS <= delay_ms {
        return appear;
    }
    assert(0 <= delay_ms * appear.of <= 449 * appear.of) by (nonlinear_arith)
        requires
            0 <= delay_ms <= 449,
            appear.of >= 0,
    ;
    let ahead: u64 = delay_ms * appear.of;
    let (done, of, before): (u64, u64, u64) = if ahead % APPEAR_MS == 0 {
        (appear.done, appear.of, ahead / APPEAR_MS)
    } else {
        (appear.done * APPEAR_MS, appear.of * APPEAR_MS, ahead)
    };
    Progress {
        done: if done > before {
            done - before
        } else {
            0
        },
        of: of - before,
    }
}

/// A part of the appearance has come as far as it should: the share that it has
/// done is the time since its beginning over the time from there to the end.
pub proof fn law_stagger_is_exact(appear: Progress, delay_ms: u64)
    requires
        appear.wf(),
        appear.is_short(),
        delay_ms < APPEAR_MS,
    ensures
        ({
            let r = staggered(appear, delay_ms);
            let since = appear.done * APPEAR_MS - delay_ms * appear.of;
            let window = appear.of * APPEAR_MS - delay_ms * appear.of;
            r.done * window == (if since <= 0 {
                0
            } else {
                since
            }) * r.of
        }),
{
    let ahead = delay_ms * appear.of;
    let r = staggered(appear, delay_ms);
    let since = appear.done * APPEAR_MS - ahead;
    let window = appear.of * APPEAR_MS - ahead;
    assert(0 <= ahead <= 449 * appear.of) by (nonlinear_arith)
        requires
            ahead == delay_ms * appear.of,
            0 <= delay_ms <= 449,
            appear.of >= 0,
    ;
    if ahead % (APPEAR_MS as int) == 0 {
        assert(since <= 0 ==> r.done == 0);
        assert(since > 0 ==> r.done * 450 == since);
        assert(r.of * 450 == window);
        assert(since > 0 ==> r.done * window == since * r.of) by (nonlinear_arith)
            requires
                since > 0 ==> r.done * 450 == since,
                r.of * 450 == window,
        ;
    } else {
        assert(r.of == window);
        assert(r.done == (if since <= 0 {
            0
        } else {
            since
        }));
    }
}

/// The parts of the appearance start at rest and end together with it, and none
/// goes back.
pub proof fn law_stagger_spans_the_appearance(a: Progress, b: Progress, delay_ms: u64)
    requires
        a.wf(),
        b.wf(),
        a.is_short(),
        a.of == b.of,
        a.done <= b.done,
        delay_ms < APPEAR_MS,
    ensures
        staggered(a, delay_ms).of == staggered(b, delay_ms).of,
        staggered(a, delay_ms).done <= staggered(b, delay_ms).done,
        a.done == 0 ==> staggered(a, delay_ms).done == 0,
        a.done == a.of ==> staggered(a, delay_ms).done == staggered(a, delay_ms).of,
{
    assert(0 <= delay_ms * a.of <= 449 * a.of) by (nonlinear_arith)
        requires
            0 <= delay_ms <= 449,
            a.of >= 0,
    ;
}

/// Whether the caret shows: solid for a while after a key, then blinking nine
/// times in five seconds. `age` is the time since the last key, `time` the time
/// since the start.
pub open spec fn caret_on(age: Option<u64>, time: u64) -> bool {
    match age {
        Some(a) => a < CARET_HOLD_NS || (a - CARET_HOLD_NS) * 9 % 5_000_000_000 < 2_500_000_000,
        None => time * 9 % 5_000_000_000 < 2_500_000_000,
    }
}

/// Whether the caret shows.
pub fn caret_is_on(age: Option<u64>, time: u64) -> (r: bool)
    ensures
        r == caret_on(age, time),
{
    match age {
        Some(a) => if a < CARET_HOLD_NS {
            true
        } else {
            (a - CARET_HOLD_NS) as u128 * 9 % 5_000_000_000 < 2_500_000_000
        },
        None => time as u128 * 9 % 5_000_000_000 < 2_500_000_000,
    }
}

// ---------------------------------------------------------------------------
// A frame
// ---------------------------------------------------------------------------

/// What a frame shows, and how far its motions have come.
#[derive(Debug, Clone)]
pub struct FrameInputs {
    pub width: u32,
    pub height: u32,
    pub clock_text: String,
    /// The line under the clock; hidden where it is empty.
    pub date_text: String,
    /// The clock of the minute before, while it fades out.
    pub clock_old: Option<(String, Progress)>,
    pub password_len: usize,
    /// Show the password in place of the dots.
    pub reveal: bool,
    pub caps_lock: bool,
    pub layout_index: u32,
    pub idle_dim: Progress,
    /// A failed attempt shows.
    pub failed: bool,
    pub failed_t: Progress,
    pub dot_pop_t: Progress,
    /// The time since the last key that was typed.
    pub keystroke_age: Option<u64>,
    /// The time since the start.
    pub time: u64,
    /// The breath that the pill takes, where it takes one.
    pub breathe: Option<Progress>,
    pub status_t: Progress,
    pub status_text: Option<String>,
    pub info_text: String,
    pub appear_t: Progress,
    pub unlock_t: Progress,
    /// Filter the drift of the background, which takes longer.
    pub smooth_pan: bool,
}

/// What the pill is filled with.
#[derive(Debug, Clone, Copy, PartialEq, Eq, Structural)]
pub enum PillTint {
    Surface,
    /// From the surface's colour to red, that far.
    Reddening(Progress),
    Success,
}

/// What a dot is filled with.
#[derive(Debug, Clone, Copy, PartialEq, Eq, Structural)]
pub enum DotInk {
    Accent,
    White,
    /// From the accent's colour to white, that far.
    Brightening(Progress),
}

/// What is drawn over the background, and how. Places and sizes are not part
/// of it.
#[derive(Debug, Clone, Copy, PartialEq, Eq, Structural)]
pub struct Chrome {
    /// Anything at all is drawn over the background.
    pub visible: bool,
    /// The clock of the minute before is drawn too, fading.
    pub crossfade: bool,
    pub date: bool,
    pub info: bool,
    pub tint: PillTint,
    /// The pill grows to its size while it appears.
    pub pops: bool,
    pub shakes: bool,
    pub border: bool,
    pub breath_ring: bool,
    /// The ring of the flash, that far.
    pub flash: Option<Progress>,
    pub dots: usize,
    /// The typed characters are drawn in place of the dots.
    pub revealed: bool,
    /// The last dot is popping in.
    pub newest_pops: bool,
    /// The hint to type a password.
    pub hint: bool,
    pub caret: bool,
    /// The caret is white, not in the accent's colour.
    pub caret_white: bool,
    pub status: bool,
    /// The status is red.
    pub status_red: bool,
    /// The chip that says that Caps Lock is on.
    pub caps_chip: bool,
    /// The chip that names the keyboard layout, for any but the first.
    pub layout_chip: bool,
}

/// The first `of_ms` of a motion that takes `whole_ms`, as a motion of its own.
/// It is counted in the motion's own steps where these hit its end, otherwise in
/// finer ones.
pub open spec fn first_part(p: Progress, of_ms: u64, whole_ms: u64) -> Progress {
    let end = p.of * of_ms;
    if end % (whole_ms as int) == 0 {
        progress(p.done as int, end / (whole_ms as int))
    } else {
        progress(p.done * whole_ms, end)
    }
}

fn first_part_of(p: Progress, of_ms: u64, whole_ms: u64) -> (r: Progress)
    requires
        0 < of_ms <= whole_ms <= 1000,
        p.is_short(),
    ensures
        r == first_part(p, of_ms, whole_ms),
        r.wf(),
{
    assert(0 <= p.of * of_ms <= p.of * 1000) by (nonlinear_arith)
        requires
            0 <= of_ms <= 1000,
            p.of >= 0,
    ;
    assert(0 <= p.done * whole_ms <= p.done * 1000) by (nonlinear_arith)
        requires
            0 <= whole_ms <= 1000,
            p.done >= 0,
    ;
    let end: u64 = p.of * of_ms;
    let (done, of): (u128, u64) = if end % whole_ms == 0 {
        (p.done as u128, end / whole_ms)
    } else {
        (p.done as u128 * whole_ms as u128, end)
    };
    if of == 0 {
        Progress::full()
    } else if done >= of as u128 {
        Progress { done: of, of }
    } else {
        Progress { done: done as u64, of }
    }
}

/// The first part of a motion has come as far as it should: the share that it
/// has done is the time that has passed over the part's own time.
pub proof fn law_first_part_is_exact(p: Progress, of_ms: u64, whole_ms: u64)
    requires
        p.wf(),
        p.is_short(),
        0 < of_ms <= whole_ms <= 1000,
    ensures
        ({
            let r = first_part(p, of_ms, whole_ms);
            let passed = p.done * whole_ms;
            let end = p.of * of_ms;
            r.done * end == (if passed >= end {
                end
            } else {
                passed
            }) * r.of
        }),
{
    let r = first_part(p, of_ms, whole_ms);
    let passed = p.done * whole_ms;
    let end = p.of * of_ms;
    let w = whole_ms as int;
    assert(0 < end <= p.of * 1000) by (nonlinear_arith)
        requires
            end == p.of * of_ms,
            0 < of_ms <= 1000,
            p.of > 0,
    ;
    assert(passed >= 0) by (nonlinear_arith)
        requires
            passed == p.done * whole_ms,
            whole_ms >= 0,
            p.done >= 0,
    ;
    if end % w == 0 {
        let of = end / w;
        assert(of * w == end && of > 0 && of <= end) by (nonlinear_arith)
            requires
                end % w == 0,
                of == end / w,
                w > 0,
                end > 0,
        ;
        assert(passed >= end <==> p.done >= of) by (nonlinear_arith)
            requires
                passed == p.done * w,
                of * w == end,
                w > 0,
        ;
        assert(r.of == of);
        if passed < end {
            assert(r.done == p.done);
            assert(r.done * end == passed * r.of) by (nonlinear_arith)
                requires
                    r.done == p.done,
                    passed == p.done * w,
                    r.of * w == end,
            ;
        } else {
            assert(r.done == of);
            assert(r.done * end == end * r.of) by (nonlinear_arith)
                requires
                    r.done == r.of,
            ;
        }
    } else {
        assert(r.of == end);
    }
}

/// Whether nothing but the background shows: before the appearance begins, and
/// once unlocking is over.
pub open spec fn only_background(f: FrameInputs) -> bool {
    f.appear_t.done == 0 || f.unlock_t.done >= f.unlock_t.of
}

/// What a frame draws over the background. `max_dots` is how many dots the pill
/// has room for.
pub open spec fn chrome(f: FrameInputs, max_dots: usize) -> Chrome {
    let unlocking = f.unlock_t.done > 0;
    let shown = if f.password_len <= max_dots {
        f.password_len
    } else {
        max_dots
    };
    let flash = first_part(f.unlock_t, FLASH_MS, UNLOCK_MS);
    Chrome {
        visible: !only_background(f),
        crossfade: f.clock_old is Some,
        date: f.date_text@.len() > 0,
        info: f.info_text@.len() > 0,
        tint: if unlocking {
            PillTint::Success
        } else if f.failed {
            PillTint::Reddening(first_part(f.failed_t, SHAKE_RED_MS, SHAKE_MS))
        } else {
            PillTint::Surface
        },
        pops: !unlocking,
        shakes: f.failed,
        border: !f.failed && !unlocking,
        breath_ring: (f.breathe matches Some(b) && b.done > 0) && !f.failed && !unlocking,
        flash: if unlocking && flash.done < flash.of {
            Some(flash)
        } else {
            None
        },
        dots: shown,
        revealed: f.reveal && shown > 0,
        newest_pops: shown > 0 && f.dot_pop_t.done < f.dot_pop_t.of,
        hint: shown == 0 && !f.failed,
        caret: shown > 0 && caret_on(f.keystroke_age, f.time),
        caret_white: f.failed || unlocking,
        status: f.status_text is Some,
        status_red: f.failed,
        caps_chip: f.caps_lock,
        layout_chip: f.layout_index > 0,
    }
}

/// Decides what a frame draws over the background.
pub fn plan_chrome(f: &FrameInputs, max_dots: usize) -> (r: Chrome)
    requires
        f.unlock_t.is_short(),
        f.failed_t.is_short(),
    ensures
        r == chrome(*f, max_dots),
{
    let unlocking: bool = f.unlock_t.is_begun();
    let shown: usize = if f.password_len <= max_dots {
        f.password_len
    } else {
        max_dots
    };
    let flash: Progress = first_part_of(f.unlock_t, FLASH_MS, UNLOCK_MS);
    let breathing: bool = match f.breathe {
        Some(b) => b.is_begun(),
        None => false,
    };
    Chrome {
        visible: f.appear_t.is_begun() && !f.unlock_t.is_full(),
        crossfade: f.clock_old.is_some(),
        date: !f.date_text.as_str().is_empty(),
        info: !f.info_text.as_str().is_empty(),
        tint: if unlocking {
            PillTint::Success
        } else if f.failed {
            PillTint::Reddening(first_part_of(f.failed_t, SHAKE_RED_MS, SHAKE_MS))
        } else {
            PillTint::Surface
        },
        pops: !unlocking,
        shakes: f.failed,
        border: !f.failed && !unlocking,
        breath_ring: breathing && !f.failed && !unlocking,
        flash: if unlocking && !flash.is_full() {
            Some(flash)
        } else {
            None
        },
        dots: shown,
        revealed: f.reveal && shown > 0,
        newest_pops: shown > 0 && !f.dot_pop_t.is_full(),
        hint: shown == 0 && !f.failed,
        caret: shown > 0 && caret_is_on(f.keystroke_age, f.time),
        caret_white: f.failed || unlocking,
        status: f.status_text.is_some(),
        status_red: f.failed,
        caps_chip: f.caps_lock,
        layout_chip: f.layout_index > 0,
    }
}

/// How far the flash has reached dot `i` of `shown`: the dots brighten one after
/// the other, from the left, while the flash lasts.
pub open spec fn cascade(flash: Progress, shown: usize, i: usize) -> Progress {
    let reached = flash.done * shown - i * flash.of;
    if reached <= 0 {
        Progress { done: 0, of: flash.of }
    } else if reached >= flash.of {
        Progress { done: flash.of, of: flash.of }
    } else {
        Progress { done: reached as u64, of: flash.of }
    }
}

/// What dot `i` of those shown is filled with.
pub open spec fn dot_ink(f: FrameInputs, shown: usize, i: usize) -> DotInk {
    if f.failed {
        DotInk::White
    } else if f.unlock_t.done > 0 {
        DotInk::Brightening(cascade(first_part(f.unlock_t, FLASH_MS, UNLOCK_MS), shown, i))
    } else {
        DotInk::Accent
    }
}

/// What dot `i` of those shown is filled with.
pub fn ink_of_dot(f: &FrameInputs, shown: usize, i: usize) -> (r: DotInk)
    requires
        i < shown,
        f.unlock_t.is_short(),
    ensures
        r == dot_ink(*f, shown, i),
{
    if f.failed {
        return DotInk::White;
    }
    if !f.unlock_t.is_begun() {
        return DotInk::Accent;
    }
    let flash: Progress = first_part_of(f.unlock_t, FLASH_MS, UNLOCK_MS);
    assert(0 <= flash.done * shown <= u64::MAX * u64::MAX) by (nonlinear_arith)
        requires
            0 <= flash.done <= u64::MAX,
            0 <= shown <= u64::MAX,
    ;
    assert(0 <= i * flash.of <= u64::MAX * u64::MAX) by (nonlinear_arith)
        requires
            0 <= flash.of <= u64::MAX,
            0 <= i <= u64::MAX,
    ;
    let ahead: u128 = flash.done as u128 * shown as u128;
    let behind: u128 = i as u128 * flash.of as u128;
    let done: u64 = if ahead <= behind {
        0
    } else if ahead - behind >= flash.of as u128 {
        flash.of
    } else {
        (ahead - behind) as u64
    };
    DotInk::Brightening(Progress { done, of: flash.of })
}

/// When the flash ends, every dot is white.
pub proof fn law_flash_brightens_every_dot(flash: Progress, shown: usize, i: usize)
    requires
        flash.wf(),
        flash.done == flash.of,
        i < shown,
    ensures
        cascade(flash, shown, i).done == flash.of,
{
    assert(flash.done * shown - i * flash.of >= flash.of) by (nonlinear_arith)
        requires
            flash.done == flash.of,
            i + 1 <= shown,
            flash.of > 0,
    ;
}

/// A hint, dots or a failed attempt: the pill is never just empty. The caret
/// only shows after a dot.
pub proof fn law_pill_is_never_empty(f: FrameInputs, max_dots: usize)
    requires
        max_dots > 0,
    ensures
        ({
            let c = chrome(f, max_dots);
            &&& c.hint || c.dots > 0 || f.failed
            &&& !(c.hint && c.dots > 0)
            &&& c.caret ==> c.dots > 0
            &&& c.dots <= max_dots
            &&& c.border ==> c.tint == PillTint::Surface
        }),
{
}

// ---------------------------------------------------------------------------
// Into shared memory
// ---------------------------------------------------------------------------

/// Where a byte of a BGRA pixel comes from in the RGBA pixel: red and blue
/// change places.
pub open spec fn swizzle(i: int) -> int {
    if i % 4 == 0 {
        i + 2
    } else if i % 4 == 2 {
        i - 2
    } else {
        i
    }
}

/// How many bytes of whole pixels both hold.
pub open spec fn common(src: int, dst: int) -> int {
    if src <= dst {
        src / 4 * 4
    } else {
        dst / 4 * 4
    }
}

/// Copies a frame into shared memory, whose pixels are blue, green, red, alpha.
/// Where the two differ in size, as many pixels are copied as both have.
pub fn blit_to_shm(frame: &Frame, shm: &mut [u8])
    ensures
        final(shm)@.len() == old(shm)@.len(),
        forall|i: int|
            0 <= i < final(shm)@.len() ==> #[trigger] final(shm)@[i] == (if i < common(
                frame.data@.len() as int,
                old(shm)@.len() as int,
            ) {
                frame.data@[swizzle(i)]
            } else {
                old(shm)@[i]
            }),
{
    let src: &Vec<u8> = &frame.data;
    let n: usize = if src.len() <= shm.len() {
        src.len() / 4 * 4
    } else {
        shm.len() / 4 * 4
    };
    let mut k: usize = 0;
    while k < n
        invariant
            src == &frame.data,
            n % 4 == 0,
            k % 4 == 0,
            k <= n,
            n <= src@.len(),
            n <= shm@.len(),
            n <= usize::MAX,
            shm@.len() == old(shm)@.len(),
            forall|i: int| 0 <= i < k ==> #[trigger] shm@[i] == src@[swizzle(i)],
            forall|i: int| k <= i < shm@.len() ==> #[trigger] shm@[i] == old(shm)@[i],
        decreases n - k,
    {
        shm[k] = src[k + 2];
        shm[k + 1] = src[k + 1];
        shm[k + 2] = src[k];
        shm[k + 3] = src[k + 3];
        k += 4;
    }
}

/// The memory that a frame takes: how many bytes in all, and in a row.
#[derive(Debug, Clone, Copy, PartialEq, Eq, Structural)]
pub struct ShmLayout {
    pub width: i32,
    pub height: i32,
    pub stride: i32,
    pub len: usize,
}

/// Whether a frame of that size can be shown: it has pixels, and its bytes can
/// be counted.
pub open spec fn has_layout(width: u32, height: u32) -> bool {
    &&& width > 0
    &&& height > 0
    &&& height <= i32::MAX
    &&& width * 4 <= i32::MAX
    &&& width * height * 4 <= usize::MAX
}

/// The memory that a frame of that size takes.
pub fn shm_layout(width: u32, height: u32) -> (r: Option<ShmLayout>)
    ensures
        r is Some <==> has_layout(width, height),
        r matches Some(l) ==> {
            &&& l.width == width
            &&& l.height == height
            &&& l.stride == width * 4
            &&& l.len == width * height * 4
        },
{
    let px: usize = match (width as usize).checked_mul(height as usize) {
        Some(n) => n,
        None => {
            proof {
                if has_layout(width, height) {
                    assert(width * height <= width * height * 4) by (nonlinear_arith)
                        requires
                            width >= 0,
                            height >= 0,
                    ;
                }
            }
            return None;
        },
    };
    let len: usize = match px.checked_mul(4) {
        Some(n) => n,
        None => {
            return None;
        },
    };
    if len == 0 {
        assert(width == 0 || height == 0) by (nonlinear_arith)
            requires
                width * height * 4 == 0,
        ;
        return None;
    }
    assert(width > 0 && height > 0) by (nonlinear_arith)
        requires
            width * height * 4 > 0,
            width >= 0,
            height >= 0,
    ;
    if width > 0x7fff_ffff || height > 0x7fff_ffff {
        return None;
    }
    let stride: u64 = width as u64 * 4;
    if stride > 0x7fff_ffff {
        return None;
    }
    Some(
        ShmLayout { width: width as i32, height: height as i32, stride: stride as i32, len },
    )
}

/// Whether the buffer of the frame before, of these rows and bytes in a row, can
/// be drawn into again.
pub fn buffer_fits(layout: &ShmLayout, height: i32, stride: i32) -> (r: bool)
    ensures
        r == (height == layout.height && stride == layout.stride),
{
    height == layout.height && stride == layout.stride
}

// ---------------------------------------------------------------------------
// What is drawn
// ---------------------------------------------------------------------------

/// Time passes one for one, and a time that is still to come is none.
pub proof fn law_time_passes(now: u64, since: u64)
    ensures
        since <= now ==> elapsed(now, since) == now - since,
        since > now ==> elapsed(now, since) == 0,
{
}

/// Progress is the time that has passed of the time that it takes: none before
/// it begins, and all from its end on.
pub proof fn law_progress_is_the_share_of_time(time: int, of: int)
    requires
        of <= u64::MAX,
    ensures
        0 <= time <= of && of > 0 ==> progress(time, of) == (Progress {
            done: time as u64,
            of: of as u64,
        }),
        time < 0 && of > 0 ==> progress(time, of).done == 0 && progress(time, of).of == of,
        time > of && of > 0 ==> progress(time, of).done == of && progress(time, of).of == of,
        of <= 0 ==> progress(time, of).done == progress(time, of).of,
{
}

/// A part of the appearance that would begin after its end has no time of its
/// own: it is as far as the appearance.
pub proof fn law_late_part_follows_the_appearance(appear: Progress, delay_ms: u64)
    requires
        delay_ms >= 450,
    ensures
        staggered(appear, delay_ms) == appear,
{
}

/// The caret stays for half a second after a key, and then blinks nine times in
/// five seconds, on for the first half of each time.
pub proof fn law_caret_blinks(age: u64, time: u64)
    ensures
        age < 500_000_000 ==> caret_on(Some(age), time),
        500_000_000 <= age < 777_777_778 ==> caret_on(Some(age), time),
        777_777_778 <= age < 1_055_555_556 ==> !caret_on(Some(age), time),
        500_000_000 <= age <= u64::MAX - 5_000_000_000 ==> caret_on(
            Some((age + 5_000_000_000) as u64),
            time,
        ) == caret_on(Some(age), time),
        time < 277_777_778 ==> caret_on(None, time),
        277_777_778 <= time < 555_555_556 ==> !caret_on(None, time),
        time <= u64::MAX - 5_000_000_000 ==> caret_on(None, (time + 5_000_000_000) as u64)
            == caret_on(None, time),
{
}

/// Nothing is drawn over the background before the screen appears and once it
/// has faded; in between everything is.
pub proof fn law_screen_appears_and_fades(f: FrameInputs, max_dots: usize)
    ensures
        f.appear_t.done == 0 ==> !chrome(f, max_dots).visible,
        f.unlock_t.done >= f.unlock_t.of ==> !chrome(f, max_dots).visible,
        f.appear_t.done > 0 && f.unlock_t.done < f.unlock_t.of ==> chrome(f, max_dots).visible,
{
}

/// The pill is red after a failure and green while it unlocks; its border and
/// its breath show while it is neither, and it shakes after a failure alone.
pub proof fn law_pill_shows_how_the_attempt_stands(f: FrameInputs, max_dots: usize)
    ensures
        ({
            let c = chrome(f, max_dots);
            let unlocking = f.unlock_t.done > 0;
            &&& unlocking ==> c.tint == PillTint::Success && !c.border && !c.breath_ring && !c.pops
            &&& !unlocking ==> c.pops && c.flash is None
            &&& !unlocking && f.failed ==> c.tint is Reddening && !c.border && !c.breath_ring
            &&& !unlocking && !f.failed ==> c.tint == PillTint::Surface && c.border
            &&& !unlocking && !f.failed ==> c.breath_ring == (f.breathe is Some && (
            f.breathe->0).done > 0)
            &&& c.shakes == f.failed
            &&& c.caret_white == (f.failed || unlocking)
            &&& c.status_red == f.failed
        }),
{
}

/// After a failure the pill reddens over the first 150 of the shake's 380
/// milliseconds, and unlocking flashes over the first 250 of its 650.
pub proof fn law_colours_come_in_their_time(f: FrameInputs, max_dots: usize, t: u64)
    ensures
        f.failed && f.unlock_t.done == 0 && f.failed_t == (Progress { done: t, of: 380_000_000 })
            ==> chrome(f, max_dots).tint == PillTint::Reddening(
            if t < 150_000_000 {
                Progress { done: t, of: 150_000_000 }
            } else {
                Progress { done: 150_000_000, of: 150_000_000 }
            },
        ),
        t > 0 && f.unlock_t == (Progress { done: t, of: 650_000_000 }) ==> chrome(
            f,
            max_dots,
        ).flash == (if t < 250_000_000 {
            Some(Progress { done: t, of: 250_000_000 })
        } else {
            None
        }),
{
}

/// As many dots are drawn as there are characters and room; with none a hint
/// stands in the pill unless an attempt failed. With dots there is a caret, while
/// it is on, and the newest dot pops in; the password is shown in their place
/// where that is asked for.
pub proof fn law_dots_stand_for_the_password(f: FrameInputs, max_dots: usize)
    ensures
        ({
            let c = chrome(f, max_dots);
            &&& f.password_len <= max_dots ==> c.dots == f.password_len
            &&& f.password_len > max_dots ==> c.dots == max_dots
            &&& c.dots > 0 ==> c.revealed == f.reveal && c.caret == caret_on(f.keystroke_age, f.time)
                && c.newest_pops == (f.dot_pop_t.done < f.dot_pop_t.of) && !c.hint
            &&& c.dots == 0 ==> !c.revealed && !c.caret && !c.newest_pops && c.hint == !f.failed
        }),
{
}

/// The lines and chips are drawn where there is something to show in them.
pub proof fn law_lines_show_what_there_is(f: FrameInputs, max_dots: usize)
    ensures
        ({
            let c = chrome(f, max_dots);
            &&& c.date == (f.date_text@.len() > 0)
            &&& c.info == (f.info_text@.len() > 0)
            &&& c.crossfade == (f.clock_old is Some)
            &&& c.status == (f.status_text is Some)
            &&& c.caps_chip == f.caps_lock
            &&& c.layout_chip == (f.layout_index != 0)
        }),
{
}

/// The dots are white after a failure, in the accent's colour otherwise, and
/// brighten while the screen unlocks.
pub proof fn law_dots_brighten_while_unlocking(f: FrameInputs, shown: usize, i: usize)
    ensures
        f.failed ==> dot_ink(f, shown, i) == DotInk::White,
        !f.failed && f.unlock_t.done == 0 ==> dot_ink(f, shown, i) == DotInk::Accent,
        !f.failed && f.unlock_t.done > 0 ==> dot_ink(f, shown, i) is Brightening,
{
}

/// The flash passes over the dots from the left, each for its share of the
/// time: dot `i` does not brighten before `i` of the shares are over, and is
/// white once one more is.
pub proof fn law_flash_passes_over_the_dots(flash: Progress, shown: usize, i: usize)
    requires
        flash.wf(),
        i < shown,
    ensures
        cascade(flash, shown, i).of == flash.of,
        flash.done * shown <= i * flash.of ==> cascade(flash, shown, i).done == 0,
        flash.done * shown >= (i + 1) * flash.of ==> cascade(flash, shown, i).done == flash.of,
        i * flash.of <= flash.done * shown <= (i + 1) * flash.of ==> cascade(flash, shown, i).done
            == flash.done * shown - i * flash.of,
{
    assert((i + 1) * flash.of == i * flash.of + flash.of) by (nonlinear_arith);
}

/// Red and blue change places in every pixel, green and alpha stay, and whole
/// pixels alone are copied: as many as both sides hold.
pub proof fn law_red_and_blue_change_places(p: int, src: int, dst: int)
    requires
        0 <= src,
        0 <= dst,
    ensures
        swizzle(p * 4) == p * 4 + 2,
        swizzle(p * 4 + 1) == p * 4 + 1,
        swizzle(p * 4 + 2) == p * 4,
        swizzle(p * 4 + 3) == p * 4 + 3,
        common(src, dst) % 4 == 0,
        common(src, dst) <= src && common(src, dst) <= dst,
        common(src, dst) + 4 > src || common(src, dst) + 4 > dst,
{
}

/// Every ordinary size can be shown, and none without pixels.
pub proof fn law_ordinary_sizes_can_be_shown(width: u32, height: u32)
    ensures
        0 < width <= 0x4000 && 0 < height <= 0x4000 ==> has_layout(width, height),
        width == 0 || height == 0 ==> !has_layout(width, height),
{
    if 0 < width <= 0x4000 && 0 < height <= 0x4000 {
        assert(width * height * 4 <= 0x4000_0000) by (nonlinear_arith)
            requires
                0 < width <= 0x4000,
                0 < height <= 0x4000,
        ;
    }
}

} // verus!
