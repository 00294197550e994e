//! Sprite-sheet animation: which atlas frame a sprite shows, and how it
//! advances each time its frame timer fires.
use crate::time_span::{saturating_span_add, TimeSpan, NANOS_PER_SEC};
use bevy::time::{Timer, TimerMode};
use core::time::Duration;
use vstd::prelude::*;

verus! {

/// The frames `first, first + 1, ..., max(first, last)`: what a clip from
/// `first` to `last` plays. A clip whose `last` lies before `first` still
/// plays `first` once.
pub open spec fn span(first: int, last: int) -> Seq<usize> {
    Seq::new(
        (if first <= last {
            last - first + 1
        } else {
            1
        }) as nat,
        |k: int| (first + k) as usize,
    )
}

/// An inclusive run of atlas frames, handed out one at a time.
pub struct AnimationClip {
    first: usize,
    last: usize,
    next: Option<usize>,
}

impl Clone for AnimationClip {
    fn clone(&self) -> (r: AnimationClip)
        ensures
            r == *self,
    {
        AnimationClip { first: self.first, last: self.last, next: self.next }
    }
}

impl AnimationClip {
    /// The frame the clip starts from, and returns to on [`Self::reset`].
    pub closed spec fn first_frame(&self) -> usize {
        self.first
    }

    /// The last frame of the clip (inclusive).
    pub closed spec fn last_frame(&self) -> usize {
        self.last
    }

    /// The frames that the clip has still to hand out, in order.
    pub closed spec fn remaining(&self) -> Seq<usize> {
        match self.next {
            Some(n) => span(n as int, self.last as int),
            None => Seq::empty(),
        }
    }

    /// A clip over `first..=last`, not yet started.
    pub fn new(first: usize, last: usize) -> (r: AnimationClip)
        ensures
            r.first_frame() == first,
            r.last_frame() == last,
            r.remaining() == span(first as int, last as int),
    {
        AnimationClip { first, last, next: Some(first) }
    }

    /// Rewinds the clip to its first frame.
    pub fn reset(&mut self)
        ensures
            final(self).first_frame() == old(self).first_frame(),
            final(self).last_frame() == old(self).last_frame(),
            final(self).remaining() == span(old(self).first_frame() as int, old(self).last_frame() as int),
    {
        self.next = Some(self.first);
    }

    /// `true` once every frame has been handed out.
    pub fn is_finished(&self) -> (r: bool)
        ensures
            r == (self.remaining().len() == 0),
    {
        self.next.is_none()
    }

    /// Hands out the next frame, or `None` once the clip is exhausted; an
    /// exhausted clip stays exhausted.
    pub fn next(&mut self) -> (r: Option<usize>)
        ensures
            final(self).first_frame() == old(self).first_frame(),
            final(self).last_frame() == old(self).last_frame(),
            old(self).remaining().len() == 0 ==> r is None && final(self).remaining() == old(
                self,
            ).remaining(),
            old(self).remaining().len() > 0 ==> r == Some(old(self).remaining()[0])
                && final(self).remaining() == old(self).remaining().drop_first(),
    {
        match self.next {
            None => None,
            Some(current) => {
                self.next = if current < self.last {
                    Some(current + 1)
                } else {
                    None
                };
                proof {
                    let old_rem = span(current as int, self.last as int);
                    assert(final(self).remaining() == old_rem.drop_first());
                }
                Some(current)
            },
        }
    }

    /// The exact number of frames still to come, as a lower and an upper bound.
    pub fn size_hint(&self) -> (r: (usize, Option<usize>))
        requires
            self.remaining().len() <= usize::MAX,
        ensures
            r.0 == self.remaining().len(),
            r.1 == Some(r.0),
    {
        let remaining = match self.next {
            Some(next) => self.last.saturating_sub(next) + 1,
            None => 0,
        };
        (remaining, Some(remaining))
    }
}

/// How an animation behaves after its last frame.
#[derive(Clone, Copy, PartialEq, Eq, Structural, Debug)]
pub enum AnimationMode {
    /// Stop on the last frame.
    Once,
    /// Start over from the first frame.
    Repeating,
}

/// What an animation is, seen from outside: the frames its clip has still to
/// hand out, the clip's bounds, its mode, the frame on screen, whether a
/// one-shot animation has ended, and its frame timer: the time per frame and
/// the time elapsed towards the next frame, in nanoseconds.
pub struct Playback {
    pub remaining: Seq<usize>,
    pub first: usize,
    pub last: usize,
    pub mode: AnimationMode,
    pub frame: usize,
    pub done: bool,
    pub frame_time: nat,
    pub elapsed: nat,
}

/// One firing of the frame timer: the next frame of the clip is shown; an
/// exhausted repeating clip starts over first; an exhausted one-shot clip
/// marks the animation done and shows nothing new. The new frame is returned
/// only when it differs from the one shown before.
pub open spec fn fire(p: Playback) -> (Playback, Option<usize>) {
    if p.remaining.len() > 0 {
        (Playback { remaining: p.remaining.drop_first(), frame: p.remaining[0], ..p }, Some(p.remaining[0]))
    } else {
        match p.mode {
            AnimationMode::Repeating => {
                let s = span(p.first as int, p.last as int);
                (
                    Playback { remaining: s.drop_first(), frame: s[0], ..p },
                    if s[0] == p.frame {
                        None
                    } else {
                        Some(s[0])
                    },
                )
            },
            AnimationMode::Once => (Playback { done: true, ..p }, None),
        }
    }
}

/// What ticking a repeating frame timer of `frame_time` nanoseconds, with
/// `elapsed` nanoseconds elapsed, by `delta` nanoseconds gives: how many times
/// it reached its duration (kept to 32 bits) and the time elapsed afterwards.
/// The elapsed time saturates; once it reaches the duration, the count is the
/// quotient and the elapsed time the remainder (kept to 64 bits of
/// nanoseconds); a zero duration counts `u32::MAX` and keeps nothing.
pub open spec fn repeating_tick(frame_time: nat, elapsed: nat, delta: nat) -> (nat, nat) {
    let t = saturating_span_add(elapsed, delta);
    if t >= frame_time {
        if frame_time == 0 {
            (u32::MAX as nat, 0)
        } else {
            ((t / frame_time) % 0x1_0000_0000nat, (t % frame_time) % 0x1_0000_0000_0000_0000nat)
        }
    } else {
        (0, t)
    }
}

/// One tick of `delta` nanoseconds: the frame timer moves on, and when it
/// reached its duration at least once (as a 32-bit count) the animation fires.
pub open spec fn tick_step(p: Playback, delta: nat) -> (Playback, Option<usize>) {
    let (times, elapsed) = repeating_tick(p.frame_time, p.elapsed, delta);
    let q = Playback { elapsed, ..p };
    if times > 0 {
        fire(q)
    } else {
        (q, None)
    }
}

/// `p` after `n` firings of its frame timer.
pub open spec fn fire_times(p: Playback, n: nat) -> Playback
    decreases n,
{
    if n == 0 {
        p
    } else {
        fire_times(fire(p).0, (n - 1) as nat)
    }
}

/// The states an animation can be in: the frames still to come are the tail
/// of the clip's frames, the frame on screen is one of them, a repeating
/// animation is never done, and a done one has nothing left to show.
pub open spec fn playback_ok(p: Playback) -> bool {
    let s = span(p.first as int, p.last as int);
    &&& p.remaining.len() < s.len()
    &&& p.remaining == s.subrange(s.len() - p.remaining.len(), s.len() as int)
    &&& p.frame == s[s.len() - 1 - p.remaining.len()]
    &&& (p.done ==> p.mode == AnimationMode::Once && p.remaining.len() == 0)
}

/// The running (not done) state of `p`'s animation with `left` frames of the
/// clip still to come: it shows the frame just before them.
pub open spec fn at_position(p: Playback, left: int) -> Playback {
    let s = span(p.first as int, p.last as int);
    Playback {
        remaining: s.subrange(s.len() - left, s.len() as int),
        frame: s[s.len() - 1 - left],
        done: false,
        ..p
    }
}

/// Every firing of the frame timer keeps an animation in a state it can be in.
pub proof fn firing_keeps_playback_ok(p: Playback)
    requires
        playback_ok(p),
    ensures
        playback_ok(fire(p).0),
{
    let s = span(p.first as int, p.last as int);
    if p.remaining.len() > 0 {
        assert(p.remaining[0] == s[s.len() - p.remaining.len()]);
        assert(p.remaining.drop_first() == s.subrange(
            s.len() - (p.remaining.len() - 1),
            s.len() as int,
        ));
    } else if p.mode == AnimationMode::Repeating {
        assert(s.drop_first() == s.subrange(s.len() - (s.len() - 1), s.len() as int));
    }
}

/// A tick reports a frame exactly when the frame on screen changed, and then
/// reports the new one.
pub proof fn tick_reports_exactly_the_changes(p: Playback, delta: nat)
    requires
        playback_ok(p),
    ensures
        ({
            let (q, r) = tick_step(p, delta);
            r == if q.frame != p.frame {
                Some(q.frame)
            } else {
                None::<usize>
            }
        }),
{
    let s = span(p.first as int, p.last as int);
    if p.remaining.len() > 0 {
        assert(p.remaining[0] == s[s.len() - p.remaining.len()]);
        assert(s[s.len() - p.remaining.len()] != s[s.len() - 1 - p.remaining.len()]);
    }
}

/// A one-shot animation that has ended stays ended: further firings change
/// nothing and show nothing new.
pub proof fn ended_animation_stays_ended(p: Playback)
    requires
        playback_ok(p),
        p.done,
    ensures
        fire(p) == (p, None::<usize>),
{
}

/// `n` firings after `a` firings are `a + n` firings.
proof fn lemma_fire_times_add(p: Playback, a: nat, b: nat)
    ensures
        fire_times(fire_times(p, a), b) == fire_times(p, a + b),
    decreases a,
{
    if a > 0 {
        lemma_fire_times_add(fire(p).0, (a - 1) as nat, b);
        assert(fire_times(p, a + b) == fire_times(fire(p).0, (a + b - 1) as nat));
    }
}

/// A running animation with `left` frames to come, fired `k <= left` times,
/// has `left - k` frames to come.
proof fn lemma_fire_down(p: Playback, left: int, k: nat)
    requires
        0 <= k <= left < span(p.first as int, p.last as int).len(),
        !p.done,
    ensures
        fire_times(at_position(p, left), k) == at_position(p, left - k),
    decreases k,
{
    let s = span(p.first as int, p.last as int);
    if k > 0 {
        let q = at_position(p, left);
        assert(q.remaining.len() == left);
        assert(q.remaining[0] == s[s.len() - left]);
        assert(q.remaining.drop_first() == s.subrange(s.len() - (left - 1), s.len() as int));
        assert(fire(q).0 == at_position(p, left - 1));
        lemma_fire_down(p, left - 1, (k - 1) as nat);
    }
}

/// A repeating animation loops through its clip: after as many firings as
/// the clip has frames, it is back where it started.
pub proof fn repeating_animation_loops(p: Playback)
    requires
        playback_ok(p),
        p.mode == AnimationMode::Repeating,
    ensures
        fire_times(p, span(p.first as int, p.last as int).len()) == p,
{
    let s = span(p.first as int, p.last as int);
    let n = s.len();
    let left = p.remaining.len() as int;
    assert(p == at_position(p, left));
    lemma_fire_down(p, left, left as nat);
    let z = at_position(p, 0);
    assert(z.remaining.len() == 0);
    assert(s.drop_first() == s.subrange(s.len() - (n - 1), s.len() as int));
    assert(fire(z).0 == at_position(p, n - 1));
    assert(fire_times(z, 1) == at_position(p, n - 1)) by {
        reveal_with_fuel(fire_times, 2);
    }
    lemma_fire_down(p, n - 1, (n - 1 - left) as nat);
    lemma_fire_times_add(p, left as nat, 1);
    lemma_fire_times_add(p, (left + 1) as nat, (n - 1 - left) as nat);
}

/// Ticks a repeating Bevy timer held as plain values: builds it with
/// `Timer::new(frame_time, TimerMode::Repeating)`, sets its elapsed time with
/// `Timer::set_elapsed`, calls `Timer::tick(delta)`, and reads back
/// `Timer::times_finished_this_tick` and `Timer::elapsed` (as whole seconds
/// and nanoseconds). For such a timer, never paused, `Timer::tick` saturates
/// the elapsed time and, once it reaches the duration, counts the quotient
/// and keeps the remainder, as [`repeating_tick`] says.
#[verifier::external_body]
fn repeating_timer_tick(
    frame_secs: u64,
    frame_nanos: u32,
    elapsed_secs: u64,
    elapsed_nanos: u32,
    delta_secs: u64,
    delta_nanos: u32,
) -> (r: (u32, u64, u32))
    requires
        frame_nanos < NANOS_PER_SEC,
        elapsed_nanos < NANOS_PER_SEC,
        delta_nanos < NANOS_PER_SEC,
    ensures
        r.2 < NANOS_PER_SEC,
        (r.0 as nat, r.1 as nat * 1_000_000_000nat + r.2 as nat) == repeating_tick(
            frame_secs as nat * 1_000_000_000nat + frame_nanos as nat,
            elapsed_secs as nat * 1_000_000_000nat + elapsed_nanos as nat,
            delta_secs as nat * 1_000_000_000nat + delta_nanos as nat,
        ),
{
    let mut timer = Timer::new(Duration::new(frame_secs, frame_nanos), TimerMode::Repeating);
    timer.set_elapsed(Duration::new(elapsed_secs, elapsed_nanos));
    timer.tick(Duration::new(delta_secs, delta_nanos));
    (timer.times_finished_this_tick(), timer.elapsed().as_secs(), timer.elapsed().subsec_nanos())
}

/// The clip together with the frame it last handed out, which is the one on
/// screen; the two always change together.
struct Cursor {
    clip: AnimationClip,
    frame: usize,
}

/// Everything needed to drive one sprite's frames: the clip, its playback mode,
/// and the frame timer (its time per frame and the time elapsed towards the
/// next frame).
pub struct Animation {
    cursor: Cursor,
    mode: AnimationMode,
    frame_time: TimeSpan,
    elapsed: TimeSpan,
    /// One frame *after* a [`AnimationMode::Once`] clip's last frame, so frame gets its full time on screen.
    done: bool,
}

impl View for Animation {
    type V = Playback;

    closed spec fn view(&self) -> Playback {
        Playback {
            remaining: self.cursor.clip.remaining(),
            first: self.cursor.clip.first_frame(),
            last: self.cursor.clip.last_frame(),
            mode: self.mode,
            frame: self.cursor.frame,
            done: self.done,
            frame_time: self.frame_time@,
            elapsed: self.elapsed@,
        }
    }
}

impl Clone for Animation {
    fn clone(&self) -> (r: Animation)
        ensures
            r@ == self@,
    {
        proof {
            use_type_invariant(self);
        }
        Animation {
            cursor: Cursor { clip: self.cursor.clip.clone(), frame: self.cursor.frame },
            mode: self.mode,
            frame_time: self.frame_time,
            elapsed: self.elapsed,
            done: self.done,
        }
    }
}

impl Animation {
    #[verifier::type_invariant]
    closed spec fn well_formed(self) -> bool {
        playback_ok(self@)
    }

    /// An animation over `first..=last` (inclusive) that moves on every
    /// `frame_time`. It starts out showing `first`, with no time elapsed.
    pub fn new(first: usize, last: usize, frame_time: TimeSpan, mode: AnimationMode) -> (r:
        Animation)
        ensures
            r@.first == first,
            r@.last == last,
            r@.mode == mode,
            r@.frame == first,
            r@.remaining == span(first as int, last as int).drop_first(),
            !r@.done,
            r@.frame_time == frame_time@,
            r@.elapsed == 0,
    {
        let mut clip = AnimationClip::new(first, last);
        // Consume the first frame up front: it's what the sprite spawns showing,
        // so `tick` should hand back the *second* frame the first time it fires.
        let frame = match clip.next() {
            Some(f) => f,
            None => first,
        };
        proof {
            let s = span(first as int, last as int);
            assert(s.drop_first() == s.subrange(s.len() - s.drop_first().len(), s.len() as int));
        }
        let elapsed = TimeSpan::new(0, 0);
        Animation { cursor: Cursor { clip, frame }, mode, frame_time, elapsed, done: false }
    }

    /// A looping animation over `first..=last`.
    pub fn repeating(first: usize, last: usize, frame_time: TimeSpan) -> (r: Animation)
        ensures
            r@.first == first,
            r@.last == last,
            r@.mode == AnimationMode::Repeating,
            r@.frame == first,
            r@.remaining == span(first as int, last as int).drop_first(),
            !r@.done,
            r@.frame_time == frame_time@,
            r@.elapsed == 0,
    {
        Self::new(first, last, frame_time, AnimationMode::Repeating)
    }

    /// A one-shot animation over `first..=last`.
    pub fn once(first: usize, last: usize, frame_time: TimeSpan) -> (r: Animation)
        ensures
            r@.first == first,
            r@.last == last,
            r@.mode == AnimationMode::Once,
            r@.frame == first,
            r@.remaining == span(first as int, last as int).drop_first(),
            !r@.done,
            r@.frame_time == frame_time@,
            r@.elapsed == 0,
    {
        Self::new(first, last, frame_time, AnimationMode::Once)
    }

    /// The animation for a single-row sprite strip of `columns` frames: it
    /// plays frames `0` to `columns - 1` (just frame `0` for an empty strip).
    pub fn from_columns(columns: u32, frame_time: TimeSpan, mode: AnimationMode) -> (r: Animation)
        ensures
            r@.first == 0,
            r@.last == (if columns == 0 {
                0
            } else {
                columns - 1
            }),
            r@.mode == mode,
            r@.frame == 0,
            r@.remaining == span(0, r@.last as int).drop_first(),
            !r@.done,
            r@.frame_time == frame_time@,
            r@.elapsed == 0,
    {
        let last = columns.saturating_sub(1) as usize;
        Self::new(0, last, frame_time, mode)
    }

    /// The frame currently on screen; always one of the clip's frames.
    pub fn frame(&self) -> (r: usize)
        ensures
            r == self@.frame,
            self@.first <= r,
            self@.first <= self@.last ==> r <= self@.last,
            self@.last < self@.first ==> r == self@.first,
    {
        proof {
            use_type_invariant(self);
        }
        self.cursor.frame
    }

    /// `true` once a [`AnimationMode::Once`] animation has shown its last frame
    /// for its full duration. Always `false` while repeating.
    pub fn is_finished(&self) -> (r: bool)
        ensures
            r == self@.done,
            self@.mode == AnimationMode::Repeating ==> !r,
    {
        proof {
            use_type_invariant(self);
        }
        self.done
    }

    /// Moves the animation on by one frame, as when its frame timer fires;
    /// returns the new frame, or `None` when the frame on screen stays the
    /// same (a finished one-shot, or a repeating clip of one frame).
    pub fn advance(&mut self) -> (r: Option<usize>)
        ensures
            (final(self)@, r) == fire(old(self)@),
    {
        proof {
            use_type_invariant(&*self);
        }
        let old_frame = self.cursor.frame;
        let mut clip = self.cursor.clip.clone();
        if clip.is_finished() {
            match self.mode {
                AnimationMode::Repeating => clip.reset(),
                AnimationMode::Once => {
                    self.done = true;
                    return None;
                },
            }
        }
        let next = clip.next();
        let frame = match next {
            Some(f) => f,
            None => old_frame,
        };
        proof {
            let s = span(clip.first_frame() as int, clip.last_frame() as int);
            let p = old(self)@;
            assert(p.remaining.len() > 0 ==> p.remaining[0] == s[s.len() - p.remaining.len()]);
            assert(p.remaining.len() > 0 ==> s[s.len() - p.remaining.len()] != s[s.len() - 1
                - p.remaining.len()]);
            let q = clip.remaining();
            assert(q == s.subrange(s.len() - q.len(), s.len() as int));
        }
        self.cursor = Cursor { clip, frame };
        if frame == old_frame {
            None
        } else {
            Some(frame)
        }
    }

    /// Advances playback by `delta`, returning the new frame only on the ticks
    /// where it changed: the frame timer moves on by `delta`, and each tick on
    /// which it reaches its duration the animation moves on as
    /// [`Self::advance`] says.
    pub fn tick(&mut self, delta: TimeSpan) -> (r: Option<usize>)
        ensures
            (final(self)@, r) == tick_step(old(self)@, delta@),
    {
        proof {
            use_type_invariant(&*self);
        }
        let (times, secs, nanos) = repeating_timer_tick(
            self.frame_time.secs(),
            self.frame_time.subsec_nanos(),
            self.elapsed.secs(),
            self.elapsed.subsec_nanos(),
            delta.secs(),
            delta.subsec_nanos(),
        );
        proof {
            crate::time_span::lemma_parts(self.frame_time@);
            crate::time_span::lemma_parts(self.elapsed@);
            crate::time_span::lemma_parts(delta@);
        }
        self.elapsed = TimeSpan::new(secs, nanos);
        if times == 0 {
            return None;
        }
        self.advance()
    }
}

} // verus!
