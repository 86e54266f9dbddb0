//! What a frame has to see to before it draws: changes noted by other threads, a size that is
//! being dragged, settings to be saved, and what is shown only for a while.

use crate::duration::Duration;
use crate::float::Float64;
use crate::time::{HostTime, Timebase};
use crate::view::{clamp_zoom, clamped, MAX_OPACITY_BITS, MAX_ZOOM_BITS, MIN_ZOOM_BITS};
use vstd::prelude::*;

verus! {

/// A saved theme is read this long after it changed, in milliseconds, once the editor is done.
pub const THEME_RELOAD_DELAY_MS: u64 = 150;

/// While the size changes, the panel is built anew this often at most, in milliseconds.
pub const ZOOM_REBUILD_INTERVAL_MS: u64 = 50;

/// Settings are saved once they have been left alone this long, in milliseconds.
pub const SETTINGS_SAVE_DELAY_MS: u64 = 300;

/// A passing word stays this long, in milliseconds.
pub const TOAST_DURATION_MS: u64 = 1_500;

/// The frame after which a calibration that was asked for at the start begins.
pub const CALIBRATE_AFTER_FRAME: u64 = 60;

/// The frame after which the settings window that was asked for at the start opens.
pub const SETTINGS_AFTER_FRAME: u64 = 30;

/// What other threads may note; the next frame takes it up.
#[derive(Clone, Copy, Debug, PartialEq, Eq, Structural)]
pub struct Flags {
    pub theme_dirty: bool,
    pub scale_dirty: bool,
    pub screen_dirty: bool,
    /// The window's size changed, by dragging its edge or otherwise.
    pub resize_dirty: bool,
    /// The edge was let go.
    pub live_resize_ended: bool,
}

impl Default for Flags {
    fn default() -> (f: Flags)
        ensures
            f == (Flags {
                theme_dirty: false,
                scale_dirty: false,
                screen_dirty: false,
                resize_dirty: false,
                live_resize_ended: false,
            }),
    {
        Flags {
            theme_dirty: false,
            scale_dirty: false,
            screen_dirty: false,
            resize_dirty: false,
            live_resize_ended: false,
        }
    }
}

/// What a frame does first.
#[derive(Clone, Copy, Debug, PartialEq, Eq, Structural)]
pub struct FirstChores {
    pub refresh_screen: bool,
    /// Take the zoom from the window's width.
    pub measure_width: bool,
    /// The edge was let go.
    pub let_go: bool,
}

/// What a frame does last, unless a countdown runs.
#[derive(Clone, Copy, Debug, PartialEq, Eq, Structural)]
pub struct LastChores {
    /// The screen's scale changed: build the panel anew.
    pub rebuild_for_scale: bool,
    pub reload_theme: bool,
}

/// What applying a zoom asks for.
#[derive(Clone, Copy, Debug, PartialEq, Eq, Structural)]
pub struct ZoomSteps {
    /// Take the factor over, build the panel anew, and say so.
    pub rebuild: bool,
    /// Bring the window to the size of its content.
    pub fit_window: bool,
    /// Keep the window on the screen, and remember the settings.
    pub settle: bool,
}

/// Whether an instant lies at least so many milliseconds back.
pub open spec fn at_least_ago(since: HostTime, now: HostTime, ms: int, tb: Timebase) -> bool {
    (if since.0 <= now.0 {
        tb.nanos_of(now.0 - since.0)
    } else {
        0
    }) >= ms * 1_000_000
}

fn has_passed(since: HostTime, now: HostTime, ms: u64, tb: Timebase) -> (b: bool)
    ensures
        b == at_least_ago(since, now, ms as int, tb),
{
    !since.elapsed(now, tb).shorter_than(&Duration::from_millis(ms))
}

/// What is pending from frame to frame.
#[derive(Clone, Copy, Debug, PartialEq, Eq, Structural)]
pub struct Pending {
    pub flags: Flags,
    pub theme_dirty_since: Option<HostTime>,
    /// A zoom factor that has not been applied.
    pub zoom: Option<Float64>,
    pub zoom_rebuilt_at: Option<HostTime>,
    pub settings_dirty_since: Option<HostTime>,
}

impl Default for Pending {
    /// Nothing is pending.
    fn default() -> (p: Pending)
        ensures
            p == (Pending {
                flags: Flags {
                    theme_dirty: false,
                    scale_dirty: false,
                    screen_dirty: false,
                    resize_dirty: false,
                    live_resize_ended: false,
                },
                theme_dirty_since: None,
                zoom: None,
                zoom_rebuilt_at: None,
                settings_dirty_since: None,
            }),
    {
        Pending {
            flags: Flags::default(),
            theme_dirty_since: None,
            zoom: None,
            zoom_rebuilt_at: None,
            settings_dirty_since: None,
        }
    }
}

impl Pending {
    /// Takes up what concerns the screen and the window's size. While an edge is dragged every
    /// change counts, and so does the last one when it is let go.
    pub fn begin(&mut self, in_live_resize: bool) -> (c: FirstChores)
        ensures
            c == (FirstChores {
                refresh_screen: old(self).flags.screen_dirty,
                measure_width: old(self).flags.resize_dirty && in_live_resize || old(
                    self,
                ).flags.live_resize_ended,
                let_go: old(self).flags.live_resize_ended,
            }),
            *final(self) == (Pending {
                flags: Flags {
                    screen_dirty: false,
                    resize_dirty: false,
                    live_resize_ended: false,
                    ..old(self).flags
                },
                ..*old(self)
            }),
    {
        let f: Flags = self.flags;
        self.flags.screen_dirty = false;
        self.flags.resize_dirty = false;
        self.flags.live_resize_ended = false;
        FirstChores {
            refresh_screen: f.screen_dirty,
            measure_width: f.resize_dirty && in_live_resize || f.live_resize_ended,
            let_go: f.live_resize_ended,
        }
    }

    /// Asks for a zoom factor, brought into its range.
    pub fn ask_zoom(&mut self, zoom: Float64)
        ensures
            *final(self) == (Pending {
                zoom: Some(
                    clamped(
                        zoom,
                        Float64 { bits: MIN_ZOOM_BITS },
                        Float64 { bits: MAX_ZOOM_BITS },
                        Float64 { bits: MAX_OPACITY_BITS },
                    ),
                ),
                ..*old(self)
            }),
    {
        self.zoom = Some(clamp_zoom(zoom));
    }

    /// Whether a pending zoom is due: at once where it `settle`s, else at most every so often.
    pub open spec fn zoom_due(self, settle: bool, now: HostTime, tb: Timebase) -> bool {
        self.zoom is Some && (settle || match self.zoom_rebuilt_at {
            None => true,
            Some(t) => at_least_ago(t, now, 50, tb),
        })
    }

    /// Takes the pending zoom out where it is due.
    pub fn take_zoom(&mut self, settle: bool, now: HostTime, tb: Timebase) -> (z: Option<Float64>)
        ensures
            z == (if old(self).zoom_due(settle, now, tb) {
                old(self).zoom
            } else {
                None
            }),
            *final(self) == (Pending {
                zoom: if z is Some {
                    None
                } else {
                    old(self).zoom
                },
                ..*old(self)
            }),
    {
        let zoom: Float64 = match self.zoom {
            None => {
                return None;
            },
            Some(z) => z,
        };
        let due: bool = settle || match self.zoom_rebuilt_at {
            None => true,
            Some(t) => has_passed(t, now, ZOOM_REBUILD_INTERVAL_MS, tb),
        };
        if !due {
            return None;
        }
        self.zoom = None;
        Some(zoom)
    }

    /// What a zoom that was taken out asks for. `changed` says that it differs from the one in
    /// force.
    pub fn apply_zoom(
        &mut self,
        changed: bool,
        settle: bool,
        in_live_resize: bool,
        now: HostTime,
    ) -> (steps: ZoomSteps)
        ensures
            steps == (ZoomSteps {
                rebuild: changed,
                fit_window: settle && !changed && !in_live_resize,
                settle,
            }),
            *final(self) == (Pending {
                zoom_rebuilt_at: if changed {
                    Some(now)
                } else {
                    old(self).zoom_rebuilt_at
                },
                settings_dirty_since: if settle {
                    Some(now)
                } else {
                    old(self).settings_dirty_since
                },
                ..*old(self)
            }),
    {
        if changed {
            self.zoom_rebuilt_at = Some(now);
        }
        if settle {
            self.settings_dirty_since = Some(now);
        }
        ZoomSteps { rebuild: changed, fit_window: settle && !changed && !in_live_resize, settle }
    }

    /// Remembers that settings have to be saved.
    pub fn mark_settings_dirty(&mut self, now: HostTime)
        ensures
            *final(self) == (Pending { settings_dirty_since: Some(now), ..*old(self) }),
    {
        self.settings_dirty_since = Some(now);
    }

    /// Whether the settings are to be saved now: they changed, and have been left alone since.
    pub fn save_due(&mut self, now: HostTime, tb: Timebase) -> (due: bool)
        ensures
            due == (old(self).settings_dirty_since is Some && at_least_ago(
                old(self).settings_dirty_since->0,
                now,
                300,
                tb,
            )),
            *final(self) == (Pending {
                settings_dirty_since: if due {
                    None
                } else {
                    old(self).settings_dirty_since
                },
                ..*old(self)
            }),
    {
        let since: HostTime = match self.settings_dirty_since {
            None => {
                return false;
            },
            Some(t) => t,
        };
        if has_passed(since, now, SETTINGS_SAVE_DELAY_MS, tb) {
            self.settings_dirty_since = None;
            true
        } else {
            false
        }
    }

    /// When the theme was first found changed.
    pub open spec fn theme_since(self, now: HostTime) -> Option<HostTime> {
        if self.flags.theme_dirty && self.theme_dirty_since is None {
            Some(now)
        } else {
            self.theme_dirty_since
        }
    }

    /// Takes up what makes the panel be built anew. During a countdown nothing does, and what
    /// was noted stays noted.
    pub fn end(&mut self, countdown: bool, now: HostTime, tb: Timebase) -> (c: LastChores)
        ensures
            countdown ==> !c.rebuild_for_scale && !c.reload_theme && *final(self) == *old(self),
            !countdown ==> {
                let since = old(self).theme_since(now);
                &&& c.rebuild_for_scale == old(self).flags.scale_dirty
                &&& c.reload_theme == (since is Some && at_least_ago(since->0, now, 150, tb))
                &&& *final(self) == (Pending {
                    flags: Flags { scale_dirty: false, theme_dirty: false, ..old(self).flags },
                    theme_dirty_since: if c.reload_theme {
                        None
                    } else {
                        since
                    },
                    ..*old(self)
                })
            },
    {
        if countdown {
            return LastChores { rebuild_for_scale: false, reload_theme: false };
        }
        let rebuild_for_scale: bool = self.flags.scale_dirty;
        self.flags.scale_dirty = false;
        if self.flags.theme_dirty && self.theme_dirty_since.is_none() {
            self.theme_dirty_since = Some(now);
        }
        self.flags.theme_dirty = false;
        let reload_theme: bool = match self.theme_dirty_since {
            None => false,
            Some(t) => has_passed(t, now, THEME_RELOAD_DELAY_MS, tb),
        };
        if reload_theme {
            self.theme_dirty_since = None;
        }
        LastChores { rebuild_for_scale, reload_theme }
    }
}

/// What was asked for at the start of the program and has not begun.
#[derive(Clone, Copy, Debug, PartialEq, Eq, Structural)]
pub struct Wishes {
    pub demo: bool,
    pub calibrate: bool,
    pub settings: bool,
}

/// The count of frames, and what the panel last showed for a second.
#[derive(Clone, Copy, Debug, PartialEq, Eq, Structural)]
pub struct FrameClock {
    pub frames: u64,
    pub wishes: Wishes,
    /// The second for which the caption was last written; none writes it anew.
    pub caption_second: Option<i128>,
    /// Since when a passing word is shown.
    pub toast_since: Option<HostTime>,
}

/// The passing word at a frame.
#[derive(Clone, Copy, Debug, PartialEq, Eq, Structural)]
pub enum Toast {
    Absent,
    Shown,
    /// Its time is over: from the next frame on the caption is back.
    Over,
}

impl FrameClock {
    pub fn new(wishes: Wishes) -> (c: FrameClock)
        ensures
            c == (FrameClock { frames: 0, wishes, caption_second: None, toast_since: None }),
    {
        FrameClock { frames: 0, wishes, caption_second: None, toast_since: None }
    }

    /// Counts a frame, and gives what begins at it: a demonstration as soon as the model can
    /// tell the time, a calibration and the settings window after some frames.
    pub fn tick(&mut self, usable: bool) -> (begins: Wishes)
        requires
            old(self).frames < u64::MAX,
        ensures
            final(self).frames == old(self).frames + 1,
            begins == (Wishes {
                demo: old(self).wishes.demo && usable,
                calibrate: old(self).wishes.calibrate && final(self).frames > 60,
                settings: old(self).wishes.settings && final(self).frames > 30,
            }),
            final(self).wishes == (Wishes {
                demo: old(self).wishes.demo && !begins.demo,
                calibrate: old(self).wishes.calibrate && !begins.calibrate,
                settings: old(self).wishes.settings && !begins.settings,
            }),
            final(self).caption_second == old(self).caption_second,
            final(self).toast_since == old(self).toast_since,
    {
        self.frames = self.frames + 1;
        let w: Wishes = self.wishes;
        let begins: Wishes = Wishes {
            demo: w.demo && usable,
            calibrate: w.calibrate && self.frames > CALIBRATE_AFTER_FRAME,
            settings: w.settings && self.frames > SETTINGS_AFTER_FRAME,
        };
        self.wishes = Wishes {
            demo: w.demo && !begins.demo,
            calibrate: w.calibrate && !begins.calibrate,
            settings: w.settings && !begins.settings,
        };
        begins
    }

    /// The second that a frame belongs to: of remote time where it is shown; else of host time
    /// with the sign turned, so that the rows are still written once a second.
    pub open spec fn second_of(shown: Option<i128>, at: HostTime, tb: Timebase) -> int {
        match shown {
            Some(ns) => ns as int / 1_000_000_000,
            None => -(at.nanos(tb) / 1_000_000_000),
        }
    }

    /// Whether a frame begins a new second, for which the caption and the target row are
    /// written.
    pub fn new_second(&mut self, shown: Option<i128>, at: HostTime, tb: Timebase) -> (b: bool)
        ensures
            b == (match old(self).caption_second {
                None => true,
                Some(s) => s != FrameClock::second_of(shown, at, tb),
            }),
            final(self).caption_second is Some,
            final(self).caption_second->0 == FrameClock::second_of(shown, at, tb),
            final(self).frames == old(self).frames,
            final(self).wishes == old(self).wishes,
            final(self).toast_since == old(self).toast_since,
    {
        let second: i128 = match shown {
            Some(ns) => {
                let q: i128 = ns / 1_000_000_000;
                if ns % 1_000_000_000 < 0 {
                    q - 1
                } else {
                    q
                }
            },
            None => -(at.as_nanos(tb) as i128 / 1_000_000_000),
        };
        let b: bool = match self.caption_second {
            None => true,
            Some(s) => s != second,
        };
        self.caption_second = Some(second);
        b
    }

    pub fn show_toast(&mut self, now: HostTime)
        ensures
            *final(self) == (FrameClock { toast_since: Some(now), ..*old(self) }),
    {
        self.toast_since = Some(now);
    }

    /// The passing word at a frame. Once its time is over the caption is written anew.
    pub fn toast(&mut self, now: HostTime, tb: Timebase) -> (t: Toast)
        ensures
            t == (match old(self).toast_since {
                None => Toast::Absent,
                Some(since) => if at_least_ago(since, now, 1_500, tb) {
                    Toast::Over
                } else {
                    Toast::Shown
                },
            }),
            *final(self) == (if t == Toast::Over {
                FrameClock { toast_since: None, caption_second: None, ..*old(self) }
            } else {
                *old(self)
            }),
    {
        let since: HostTime = match self.toast_since {
            None => {
                return Toast::Absent;
            },
            Some(t) => t,
        };
        if has_passed(since, now, TOAST_DURATION_MS, tb) {
            self.toast_since = None;
            self.caption_second = None;
            Toast::Over
        } else {
            Toast::Shown
        }
    }
}

/// Within a second the rows are written once.
pub proof fn rows_are_written_once_a_second(a: i128, b: i128, at: HostTime, tb: Timebase)
    requires
        a as int / 1_000_000_000 == b as int / 1_000_000_000,
    ensures
        FrameClock::second_of(Some(a), at, tb) == FrameClock::second_of(Some(b), at, tb),
{
}

/// An event of the pointer.
#[derive(Clone, Copy, Debug, PartialEq, Eq, Structural)]
pub enum PointerEvent {
    Scroll {
        /// It rolls on by itself.
        momentum: bool,
        /// The direction is turned against the device's.
        inverted: bool,
        /// It comes in points; else in lines.
        precise: bool,
    },
    Magnify { ended: bool },
    Other,
}

/// What to do with an event of the pointer.
#[derive(Clone, Copy, Debug, PartialEq, Eq, Structural)]
pub enum Heed {
    /// Let it go its way.
    Pass,
    /// Keep it, and do nothing.
    Swallow,
    /// Keep it, and count its way up, with the sign turned where it says so.
    Scroll { turned: bool, precise: bool },
    /// Keep it, and multiply its factor in.
    Magnify { ended: bool },
}

/// Only what happens on the panel counts, and rolling on does not.
pub fn heed(on_panel: bool, event: PointerEvent) -> (h: Heed)
    ensures
        h == (if !on_panel {
            Heed::Pass
        } else {
            match event {
                PointerEvent::Scroll { momentum, inverted, precise } => if momentum {
                    Heed::Swallow
                } else {
                    Heed::Scroll { turned: inverted, precise }
                },
                PointerEvent::Magnify { ended } => Heed::Magnify { ended },
                PointerEvent::Other => Heed::Pass,
            }
        }),
{
    if !on_panel {
        return Heed::Pass;
    }
    match event {
        PointerEvent::Scroll { momentum, inverted, precise } => if momentum {
            Heed::Swallow
        } else {
            Heed::Scroll { turned: inverted, precise }
        },
        PointerEvent::Magnify { ended } => Heed::Magnify { ended },
        PointerEvent::Other => Heed::Pass,
    }
}

/// Ten.
pub const MIN_FPS_BITS: u64 = 0x4024_0000_0000_0000;

/// Two hundred and forty.
pub const MAX_FPS_BITS: u64 = 0x406e_0000_0000_0000;

/// How often frames are asked for: as often as the screen can while a beat runs, else as the
/// theme says, between ten and two hundred and forty times a second.
pub fn frame_rate(beat_runs: bool, screen_fps: Float64, idle_fps: Float64) -> (fps: Float64)
    ensures
        ({
            let asked = if beat_runs {
                screen_fps
            } else {
                idle_fps
            };
            let lo = Float64 { bits: MIN_FPS_BITS };
            let hi = Float64 { bits: MAX_FPS_BITS };
            fps == (if asked.le(lo) {
                lo
            } else if hi.le(asked) {
                hi
            } else {
                asked
            })
        }),
{
    let asked: Float64 = if beat_runs {
        screen_fps
    } else {
        idle_fps
    };
    let lo: Float64 = Float64 { bits: MIN_FPS_BITS };
    let hi: Float64 = Float64 { bits: MAX_FPS_BITS };
    if asked.at_most(lo) {
        lo
    } else if hi.at_most(asked) {
        hi
    } else {
        asked
    }
}

/// So many milliseconds have passed just where the clock has gone on by at least as many
/// nanoseconds; a moment that is still to come is no time ago.
pub proof fn time_has_passed_once_it_has(since: HostTime, now: HostTime, ms: u64, tb: Timebase)
    ensures
        since.0 <= now.0 ==> (at_least_ago(since, now, ms as int, tb) <==> tb.nanos_of(
            now.0 - since.0,
        ) >= ms * 1_000_000),
        since.0 > now.0 && ms > 0 ==> !at_least_ago(since, now, ms as int, tb),
{
}

/// A frame belongs to the second that its time is in.
pub proof fn a_frame_belongs_to_its_second(ns: i128, at: HostTime, tb: Timebase)
    ensures
        ({
            let s = FrameClock::second_of(Some(ns), at, tb);
            s * 1_000_000_000 <= ns < (s + 1) * 1_000_000_000
        }),
        ({
            let s = -FrameClock::second_of(None, at, tb);
            s * 1_000_000_000 <= at.nanos(tb) < (s + 1) * 1_000_000_000
        }),
{
}

/// A zoom that settles is applied at once; one that does not waits until 50 milliseconds after
/// the panel was last built for one; without one nothing is due.
pub proof fn a_zoom_waits_unless_it_settles(p: Pending, now: HostTime, tb: Timebase)
    ensures
        p.zoom is None ==> !p.zoom_due(true, now, tb) && !p.zoom_due(false, now, tb),
        p.zoom is Some ==> p.zoom_due(true, now, tb),
        p.zoom is Some && p.zoom_rebuilt_at is None ==> p.zoom_due(false, now, tb),
        p.zoom is Some ==> (p.zoom_rebuilt_at matches Some(t) ==> t.0 <= now.0 ==> (p.zoom_due(
            false,
            now,
            tb,
        ) <==> tb.nanos_of(now.0 - t.0) >= 50_000_000)),
{
}

/// A theme that was found changed is waited for from the first time on.
pub proof fn the_first_change_is_waited_from(p: Pending, now: HostTime)
    ensures
        p.theme_dirty_since is Some ==> p.theme_since(now) == p.theme_dirty_since,
        p.theme_dirty_since is None && p.flags.theme_dirty ==> p.theme_since(now) == Some(now),
        p.theme_dirty_since is None && !p.flags.theme_dirty ==> p.theme_since(now) is None,
{
}

/// Only what happens on the panel is heeded: a pinch, and a scroll that does not roll on by
/// itself, whose direction is turned where the device's is.
pub proof fn only_what_happens_on_the_panel_is_heeded(
    event: PointerEvent,
    on: Heed,
    off: Heed,
)
    requires
        call_ensures(heed, (true, event), on),
        call_ensures(heed, (false, event), off),
    ensures
        off == Heed::Pass,
        on == Heed::Pass <==> event == PointerEvent::Other,
        on == Heed::Swallow <==> event is Scroll && event->momentum,
        on matches Heed::Scroll { turned, precise } ==> turned == event->inverted && precise
            == event->precise,
        event matches PointerEvent::Magnify { ended: e } ==> on == (Heed::Magnify { ended: e }),
{
}

/// Frames are asked for as often as the screen can while a beat runs, else as the theme says, and
/// always between ten and two hundred and forty times a second.
pub proof fn the_frame_rate_stays_in_its_range(
    beat_runs: bool,
    screen_fps: Float64,
    idle_fps: Float64,
    fps: Float64,
)
    requires
        call_ensures(frame_rate, (beat_runs, screen_fps, idle_fps), fps),
        !screen_fps.nan() && !idle_fps.nan(),
    ensures
        ({
            let asked = if beat_runs {
                screen_fps
            } else {
                idle_fps
            };
            let ten = Float64 { bits: 0x4024_0000_0000_0000 };
            let most = Float64 { bits: 0x406e_0000_0000_0000 };
            &&& ten.le(fps) && fps.le(most)
            &&& ten.le(asked) && asked.le(most) ==> fps.le(asked) && asked.le(fps)
        }),
{
}

/// A wish begins once: it is gone with the frame at which it begins, and stays until then.
pub proof fn a_wish_begins_once(c: &mut FrameClock, usable: bool, begins: Wishes)
    requires
        call_ensures(FrameClock::tick, (c, usable), begins),
    ensures
        final(c).frames == old(c).frames + 1,
        begins.demo ==> old(c).wishes.demo && usable,
        old(c).wishes.demo == (begins.demo || final(c).wishes.demo),
        old(c).wishes.calibrate == (begins.calibrate || final(c).wishes.calibrate),
        old(c).wishes.settings == (begins.settings || final(c).wishes.settings),
        !(begins.demo && final(c).wishes.demo),
        !(begins.calibrate && final(c).wishes.calibrate),
        !(begins.settings && final(c).wishes.settings),
        begins.calibrate ==> final(c).frames > 60,
        begins.settings ==> final(c).frames > 30,
        old(c).wishes.calibrate && final(c).frames > 60 ==> begins.calibrate,
        old(c).wishes.settings && final(c).frames > 30 ==> begins.settings,
{
}

/// Settings are saved once they have been left alone for 300 milliseconds, and once only.
pub proof fn settings_are_saved_once_left_alone(
    p: &mut Pending,
    now: HostTime,
    tb: Timebase,
    due: bool,
)
    requires
        call_ensures(Pending::save_due, (p, now, tb), due),
        old(p).settings_dirty_since matches Some(t) ==> t.0 <= now.0,
    ensures
        old(p).settings_dirty_since is None ==> !due,
        old(p).settings_dirty_since matches Some(t) ==> (due <==> tb.nanos_of(now.0 - t.0)
            >= 300_000_000),
        due ==> final(p).settings_dirty_since is None,
        !due ==> *final(p) == *old(p),
{
}

/// What was noted about the screen and the size is taken up once, by the next frame.
pub proof fn what_was_noted_is_taken_up_once(p: &mut Pending, dragging: bool, c: FirstChores)
    requires
        call_ensures(Pending::begin, (p, dragging), c),
    ensures
        c.refresh_screen == old(p).flags.screen_dirty,
        c.let_go == old(p).flags.live_resize_ended,
        c.let_go ==> c.measure_width,
        c.measure_width && !c.let_go ==> old(p).flags.resize_dirty && dragging,
        old(p).flags.resize_dirty && dragging ==> c.measure_width,
        !final(p).flags.screen_dirty && !final(p).flags.resize_dirty
            && !final(p).flags.live_resize_ended,
        final(p).flags.theme_dirty == old(p).flags.theme_dirty,
        final(p).flags.scale_dirty == old(p).flags.scale_dirty,
        final(p).zoom == old(p).zoom,
{
}

/// During a countdown nothing is built anew and nothing is forgotten; afterwards what was noted
/// is done, the theme once it has been left alone for 150 milliseconds.
pub proof fn a_countdown_puts_building_off(
    p: &mut Pending,
    countdown: bool,
    now: HostTime,
    tb: Timebase,
    c: LastChores,
)
    requires
        call_ensures(Pending::end, (p, countdown, now, tb), c),
        old(p).theme_dirty_since matches Some(t) ==> t.0 <= now.0,
    ensures
        countdown ==> !c.rebuild_for_scale && !c.reload_theme && *final(p) == *old(p),
        !countdown ==> c.rebuild_for_scale == old(p).flags.scale_dirty,
        !countdown && c.reload_theme ==> final(p).theme_dirty_since is None,
        !countdown ==> (old(p).theme_dirty_since matches Some(t) ==> (c.reload_theme <==> tb.nanos_of(
            now.0 - t.0,
        ) >= 150_000_000)),
        !countdown && old(p).flags.theme_dirty && !c.reload_theme ==> final(p).theme_dirty_since
            is Some,
        !countdown && !old(p).flags.theme_dirty && old(p).theme_dirty_since is None
            ==> !c.reload_theme,
{
}

/// A passing word stays for a second and a half, and then the caption comes back.
pub proof fn a_passing_word_passes(c: &mut FrameClock, now: HostTime, tb: Timebase, t: Toast)
    requires
        call_ensures(FrameClock::toast, (c, now, tb), t),
        old(c).toast_since matches Some(since) ==> since.0 <= now.0,
    ensures
        t == Toast::Absent <==> old(c).toast_since is None,
        old(c).toast_since matches Some(since) ==> (t == Toast::Over <==> tb.nanos_of(
            now.0 - since.0,
        ) >= 1_500_000_000),
        t == Toast::Over ==> final(c).toast_since is None && final(c).caption_second is None,
        t != Toast::Over ==> *final(c) == *old(c),
{
}

/// The rows are written just at the first frame of a second.
pub proof fn rows_are_written_at_a_new_second(
    c: &mut FrameClock,
    shown: i128,
    at: HostTime,
    tb: Timebase,
    b: bool,
)
    requires
        call_ensures(FrameClock::new_second, (c, Some(shown), at, tb), b),
    ensures
        old(c).caption_second is None ==> b,
        old(c).caption_second matches Some(s) ==> (b <==> !(s * 1_000_000_000 <= shown < (s + 1)
            * 1_000_000_000)),
        final(c).caption_second matches Some(s) && s * 1_000_000_000 <= shown < (s + 1)
            * 1_000_000_000,
{
}

/// A zoom is taken once, and one that is not due stays; what was noted otherwise stays too.
pub proof fn a_zoom_is_taken_once(
    p: &mut Pending,
    settle: bool,
    now: HostTime,
    tb: Timebase,
    z: Option<Float64>,
)
    requires
        call_ensures(Pending::take_zoom, (p, settle, now, tb), z),
    ensures
        z is Some ==> z == old(p).zoom && final(p).zoom is None,
        z is None ==> final(p).zoom == old(p).zoom,
        settle ==> z == old(p).zoom,
        final(p).flags == old(p).flags,
        final(p).theme_dirty_since == old(p).theme_dirty_since,
        final(p).settings_dirty_since == old(p).settings_dirty_since,
{
}

/// A zoom that changes something builds the panel anew, one that settles without a change fits
/// the window unless it is being dragged, and settings are to be saved only once it has settled.
pub proof fn a_zoom_that_settles_is_saved(
    p: &mut Pending,
    changed: bool,
    settle: bool,
    dragging: bool,
    now: HostTime,
    steps: ZoomSteps,
)
    requires
        call_ensures(Pending::apply_zoom, (p, changed, settle, dragging, now), steps),
    ensures
        steps.rebuild <==> changed,
        steps.settle <==> settle,
        steps.fit_window ==> settle && !changed && !dragging,
        settle && !changed && !dragging ==> steps.fit_window,
        settle ==> final(p).settings_dirty_since == Some(now),
        !settle ==> final(p).settings_dirty_since == old(p).settings_dirty_since,
        changed ==> final(p).zoom_rebuilt_at == Some(now),
        !changed ==> final(p).zoom_rebuilt_at == old(p).zoom_rebuilt_at,
        final(p).flags == old(p).flags,
{
}

} // verus!
