use vstd::prelude::*;

use crate::geom::Rect;
use rgx::kit::{Animation, AnimationState};

verus! {

/// A span of time, as whole seconds and nanoseconds.
#[derive(Copy, Clone, PartialEq, Eq, Debug)]
pub struct TimeDelta {
    pub secs: u64,
    pub nanos: u32,
}

impl TimeDelta {
    /// The span in nanoseconds.
    pub open spec fn total_nanos(self) -> int {
        self.secs * 1_000_000_000 + self.nanos
    }

    /// Whether the span can stand as a `std::time::Duration`: the
    /// nanoseconds carried into the seconds must not overflow them.
    pub open spec fn representable(self) -> bool {
        self.secs + self.nanos / 1_000_000_000 <= u64::MAX
    }

    /// `ms` milliseconds as a span of time.
    pub fn from_millis(ms: u64) -> (d: TimeDelta)
        ensures
            d.total_nanos() == ms * 1_000_000,
            d.nanos < 1_000_000_000,
            d.representable(),
    {
        let secs = ms / 1000;
        let rest = ms % 1000;
        let d = TimeDelta { secs, nanos: (rest * 1_000_000) as u32 };
        proof {
            assert(d.total_nanos() == ms * 1_000_000) by (nonlinear_arith)
                requires secs == ms / 1000, rest == ms % 1000, d.secs == secs, d.nanos == rest * 1_000_000;
        }
        d
    }
}

/// The largest span a `std::time::Duration` holds, in nanoseconds.
pub open spec fn max_duration_nanos() -> int {
    u64::MAX * 1_000_000_000 + 999_999_999
}

/// Whether `rgx::kit::Animation::step` by `delta` returns on this playback
/// and delay: `delta` stands as a `Duration`, and [`can_step`] holds.
pub(crate) fn step_returns(p: Playback, delay: TimeDelta, delta: TimeDelta) -> (r: bool)
    requires
        delay.nanos < 1_000_000_000,
    ensures
        r == (delta.representable() && can_step(p, delay.total_nanos() as u128, delta.total_nanos())),
{
    if delta.secs > u64::MAX - (delta.nanos / 1_000_000_000) as u64 {
        return false;
    }
    match p {
        Playback::Playing(cursor, elapsed) => {
            let d = delta.secs as u128 * 1_000_000_000 + delta.nanos as u128;
            let delay_nanos = delay.secs as u128 * 1_000_000_000 + delay.nanos as u128;
            let max: u128 = 18_446_744_073_709_551_615u128 * 1_000_000_000 + 999_999_999;
            delay_nanos / 1000 > 0 && elapsed <= max && d <= max - elapsed && cursor < u64::MAX
        },
        _ => true,
    }
}

/// Playback state of an animation. Elapsed times are in nanoseconds.
#[derive(Copy, Clone, PartialEq, Eq, Debug)]
pub enum Playback {
    /// Playing, at the given frame cursor, with the given elapsed time.
    Playing(u64, u128),
    /// Paused, at the given frame cursor, with the given elapsed time.
    Paused(u64, u128),
    /// Stopped.
    Stopped,
}

#[verifier::external_type_specification]
#[verifier::external_body]
#[verifier::reject_recursive_types(T)]
pub struct ExAnimation<T>(Animation<T>);

#[verifier::external_type_specification]
#[verifier::external_body]
pub struct ExRgba8(rgx::color::Rgba8);

/// The frames an animation holds, in order.
pub uninterp spec fn animation_frames(a: Animation<Rect<u128>>) -> Seq<Rect<u128>>;

/// The playback state of an animation.
pub uninterp spec fn animation_playback(a: Animation<Rect<u128>>) -> Playback;

/// The delay between the frames of an animation, in nanoseconds.
pub uninterp spec fn animation_delay(a: Animation<Rect<u128>>) -> u128;

/// `rgx::kit::Animation::new`, with a delay of `delay` (as a
/// `std::time::Duration`): the animation holds a copy of `frames` and is
/// playing from frame 0 with nothing elapsed.
#[verifier::external_body]
pub(crate) fn animation_new(frames: &Vec<Rect<u128>>, delay: TimeDelta) -> (a: Animation<Rect<u128>>)
    requires
        delay.representable(),
    ensures
        animation_frames(a) == frames@,
        animation_playback(a) == Playback::Playing(0, 0),
        animation_delay(a) == delay.total_nanos(),
{
    Animation::new(frames.as_slice(), std::time::Duration::new(delay.secs, delay.nanos))
}

/// The delay of `a` (its `delay` field), as seconds and nanoseconds below
/// one second.
#[verifier::external_body]
pub(crate) fn animation_delay_of(a: &Animation<Rect<u128>>) -> (d: TimeDelta)
    ensures
        d.total_nanos() == animation_delay(*a),
        d.nanos < 1_000_000_000,
{
    TimeDelta { secs: a.delay.as_secs(), nanos: a.delay.subsec_nanos() }
}

/// Sets the delay of `a` (its `delay` field) to `delay`; frames and playback
/// are kept.
#[verifier::external_body]
pub(crate) fn animation_set_delay(a: &mut Animation<Rect<u128>>, delay: TimeDelta)
    requires
        delay.representable(),
    ensures
        animation_delay(*final(a)) == delay.total_nanos(),
        animation_frames(*final(a)) == animation_frames(*old(a)),
        animation_playback(*final(a)) == animation_playback(*old(a)),
{
    a.delay = std::time::Duration::new(delay.secs, delay.nanos);
}


/// The playback state of `a` (its `state` field), with its elapsed time
/// (`std::time::Duration::as_nanos`) in nanoseconds.
#[verifier::external_body]
pub(crate) fn animation_playback_of(a: &Animation<Rect<u128>>) -> (p: Playback)
    ensures
        p == animation_playback(*a),
{
    match a.state {
        AnimationState::Playing(c, e) => Playback::Playing(c, e.as_nanos()),
        AnimationState::Paused(c, e) => Playback::Paused(c, e.as_nanos()),
        AnimationState::Stopped => Playback::Stopped,
    }
}

/// `rgx::kit::Animation::len`: the number of frames.
#[verifier::external_body]
pub(crate) fn animation_len(a: &Animation<Rect<u128>>) -> (n: usize)
    ensures
        n == animation_frames(*a).len(),
{
    a.len()
}

/// `rgx::kit::Animation::push_frame`: appends a frame; playback and delay
/// are kept.
#[verifier::external_body]
pub(crate) fn animation_push_frame(a: &mut Animation<Rect<u128>>, frame: Rect<u128>)
    ensures
        animation_frames(*final(a)) == animation_frames(*old(a)).push(frame),
        animation_playback(*final(a)) == animation_playback(*old(a)),
        animation_delay(*final(a)) == animation_delay(*old(a)),
{
    a.push_frame(frame)
}

/// `rgx::kit::Animation::pop_frame`: removes and returns the last frame, if
/// any; playback and delay are kept.
#[verifier::external_body]
pub(crate) fn animation_pop_frame(a: &mut Animation<Rect<u128>>) -> (r: Option<Rect<u128>>)
    ensures
        animation_frames(*old(a)).len() == 0 ==> r is None && animation_frames(*final(a)) == animation_frames(*old(a)),
        animation_frames(*old(a)).len() > 0 ==> r == Some(animation_frames(*old(a)).last())
            && animation_frames(*final(a)) == animation_frames(*old(a)).drop_last(),
        animation_playback(*final(a)) == animation_playback(*old(a)),
        animation_delay(*final(a)) == animation_delay(*old(a)),
{
    a.pop_frame()
}

/// Playback after `rgx::kit::Animation::play`: a paused animation resumes
/// from frame 0 with its elapsed time, a stopped one starts over, a playing
/// one is left as it is.
pub open spec fn played(p: Playback) -> Playback {
    match p {
        Playback::Paused(_, elapsed) => Playback::Playing(0, elapsed),
        Playback::Stopped => Playback::Playing(0, 0),
        Playback::Playing(c, e) => Playback::Playing(c, e),
    }
}

/// Playback after `rgx::kit::Animation::pause`: a playing animation is
/// paused at cursor 0 with its elapsed time; otherwise nothing changes.
pub open spec fn paused(p: Playback) -> Playback {
    match p {
        Playback::Playing(_, elapsed) => Playback::Paused(0, elapsed),
        _ => p,
    }
}

/// Whether `rgx::kit::Animation::step` by `delta` nanoseconds returns on
/// this playback and delay: a playing animation needs a delay of at least
/// one microsecond, an elapsed time that stays within a `Duration`, and a
/// cursor that can still advance.
pub open spec fn can_step(p: Playback, delay: u128, delta: int) -> bool {
    match p {
        Playback::Playing(cursor, elapsed) => {
            &&& delay / 1000 > 0
            &&& elapsed + delta <= max_duration_nanos()
            &&& cursor < u64::MAX
        },
        _ => true,
    }
}

/// Playback after `rgx::kit::Animation::step` by `delta` nanoseconds: a
/// playing animation adds `delta` to its elapsed time and moves its cursor to
/// the number of whole delays elapsed (in microseconds), but never more than
/// one frame ahead.
pub open spec fn stepped(p: Playback, delay: u128, delta: int) -> Playback {
    match p {
        Playback::Playing(cursor, elapsed) => {
            let e = elapsed + delta;
            let fraction = (e / 1000) / ((delay / 1000) as int);
            let next = if cursor + 1 <= (fraction as u64) { (cursor + 1) as u64 } else { fraction as u64 };
            Playback::Playing(next, e as u128)
        },
        _ => p,
    }
}

/// `rgx::kit::Animation::play`.
#[verifier::external_body]
pub(crate) fn animation_play(a: &mut Animation<Rect<u128>>)
    ensures
        animation_playback(*final(a)) == played(animation_playback(*old(a))),
        animation_frames(*final(a)) == animation_frames(*old(a)),
        animation_delay(*final(a)) == animation_delay(*old(a)),
{
    a.play()
}

/// `rgx::kit::Animation::pause`.
#[verifier::external_body]
pub(crate) fn animation_pause(a: &mut Animation<Rect<u128>>)
    ensures
        animation_playback(*final(a)) == paused(animation_playback(*old(a))),
        animation_frames(*final(a)) == animation_frames(*old(a)),
        animation_delay(*final(a)) == animation_delay(*old(a)),
{
    a.pause()
}

/// `rgx::kit::Animation::stop`: playback is stopped.
#[verifier::external_body]
pub(crate) fn animation_stop(a: &mut Animation<Rect<u128>>)
    ensures
        animation_playback(*final(a)) == Playback::Stopped,
        animation_frames(*final(a)) == animation_frames(*old(a)),
        animation_delay(*final(a)) == animation_delay(*old(a)),
{
    a.stop()
}

/// `rgx::kit::Animation::step`, by `delta` as a `std::time::Duration`.
#[verifier::external_body]
pub(crate) fn animation_step(a: &mut Animation<Rect<u128>>, delta: TimeDelta)
    requires
        delta.representable(),
        can_step(animation_playback(*old(a)), animation_delay(*old(a)), delta.total_nanos()),
    ensures
        animation_playback(*final(a)) == stepped(
            animation_playback(*old(a)),
            animation_delay(*old(a)),
            delta.total_nanos(),
        ),
        animation_frames(*final(a)) == animation_frames(*old(a)),
        animation_delay(*final(a)) == animation_delay(*old(a)),
{
    a.step(std::time::Duration::new(delta.secs, delta.nanos))
}


/// Pausing and then playing an animation resumes it from the first frame
/// with the time it had elapsed; playing a stopped one starts it over.
pub proof fn law_pause_then_play(cursor: u64, elapsed: u128)
    ensures
        played(paused(Playback::Playing(cursor, elapsed))) == Playback::Playing(0, elapsed),
        played(Playback::Stopped) == Playback::Playing(0, 0),
{
}

/// A step never moves the cursor of a playing animation more than one frame
/// ahead, and adds the step to its elapsed time.
pub proof fn law_step_does_not_skip_frames(cursor: u64, elapsed: u128, delay: u128, delta: int)
    requires
        delta >= 0,
        can_step(Playback::Playing(cursor, elapsed), delay, delta),
    ensures
        stepped(Playback::Playing(cursor, elapsed), delay, delta) matches Playback::Playing(next, e)
            && next <= cursor + 1 && e == elapsed + delta,
{
}

} // verus!
