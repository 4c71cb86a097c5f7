//! Helpers shared by the scenes: destroying what a query found, and driving
//! a sprite through a loop of atlas frames.

use crate::clock::{elapsed, is_finished, tick, ticked};
use crate::command::Command;
use bevy::time::Timer;
use core::time::Duration;
use vstd::prelude::*;

verus! {

/// A loop of atlas frames, `size()` frames that start at frame `index()`,
/// with the timer that sets its pace.
pub trait Animation {
    /// The first frame of the loop.
    spec fn first_frame() -> usize;

    /// The number of frames in the loop.
    spec fn frame_count() -> usize;

    /// The timer that the animation holds.
    spec fn pace(&self) -> Timer;

    /// The first frame of the loop.
    fn index() -> (first: usize)
        ensures
            first == Self::first_frame(),
    ;

    /// The number of frames in the loop: at least one, and the loop ends
    /// within the range of `usize`.
    fn size() -> (count: usize)
        ensures
            count == Self::frame_count(),
            count > 0,
            Self::first_frame() + count <= usize::MAX,
    ;

    /// The timer that sets the pace of the loop: the one the animation
    /// holds, handed out to be changed in place. What the borrower leaves in
    /// it is what the animation holds afterwards.
    fn timer(&mut self) -> (timer: &mut Timer)
        ensures
            *timer == old(self).pace(),
            final(self).pace() == *final(timer),
    ;
}

/// The frame that follows `frame` in the loop of `size` frames that starts
/// at `index`: the next one, and from the last one back to the first.
pub open spec fn next_frame(frame: int, index: int, size: int) -> int {
    (frame + 1 - index) % size + index
}

/// Whether `frame` lies in the loop of `size` frames that starts at `index`.
pub open spec fn in_loop(frame: int, index: int, size: int) -> bool {
    index <= frame < index + size
}

/// The frame reached from `frame` after `steps` steps through the loop.
pub open spec fn frame_after(frame: int, index: int, size: int, steps: nat) -> int
    decreases steps,
{
    if steps == 0 {
        frame
    } else {
        next_frame(frame_after(frame, index, size, (steps - 1) as nat), index, size)
    }
}

/// The frame that a sprite shows after a tick. `finished` says whether its
/// timer has elapsed on this tick, `frame` is the frame it showed, if it has
/// an atlas. An elapsed timer moves the sprite to the next frame of the loop;
/// otherwise nothing changes.
pub open spec fn shown_after<A: Animation>(finished: bool, frame: Option<usize>) -> Option<usize> {
    match frame {
        Some(f) if finished => Some(
            next_frame(f as int, A::first_frame() as int, A::frame_count() as int) as usize,
        ),
        _ => frame,
    }
}

/// The frame that a sprite shows after a tick on which its timer has elapsed
/// or not, as `finished` says.
pub fn advance<A: Animation>(finished: bool, frame: Option<usize>) -> (shown: Option<usize>)
    requires
        finished ==> (frame matches Some(f) ==> A::first_frame() <= f + 1 <= usize::MAX),
    ensures
        shown == shown_after::<A>(finished, frame),
        finished && frame is Some ==> in_loop(
            shown->0 as int,
            A::first_frame() as int,
            A::frame_count() as int,
        ),
{
    match frame {
        Some(f) if finished => {
            let index = A::index();
            let size = A::size();
            Some((f + 1 - index) % size + index)
        },
        _ => frame,
    }
}

/// One tick of an animated sprite: `delta` passes on the timer of the
/// animation, and if the timer has then elapsed, the sprite moves on to the
/// next frame of the loop. `frame` is the frame the sprite shows, if it has
/// an atlas; the frame it shows afterwards is returned. The animation is
/// left with the timer on which `delta` has passed.
pub fn animate<A: Animation>(animation: &mut A, delta: Duration, frame: Option<usize>) -> (shown:
    Option<usize>)
    requires
        frame matches Some(f) ==> A::first_frame() <= f + 1 <= usize::MAX,
    ensures
        final(animation).pace() == ticked(old(animation).pace(), delta),
        shown == shown_after::<A>(elapsed(final(animation).pace()), frame),
{
    let timer = animation.timer();
    tick(timer, delta);
    let finished = is_finished(timer);
    advance::<A>(finished, frame)
}

/// The requests that destroy each of `found`, the entities that a query for
/// some marker has found, in their order.
pub fn despawn_all(found: &Vec<u64>) -> (commands: Vec<Command>)
    ensures
        commands@ == found@.map_values(|e: u64| Command::Despawn(e)),
{
    let mut commands: Vec<Command> = Vec::new();
    for i in 0..found.len()
        invariant
            commands@ == found@.take(i as int).map_values(|e: u64| Command::Despawn(e)),
    {
        commands.push(Command::Despawn(found[i]));
        assert(found@.take(i + 1) == found@.take(i as int).push(found@[i as int]));
    }
    assert(found@.take(found.len() as int) == found@);
    commands
}

/// Stepping through a loop never leaves it, and `size` steps lead back to
/// where they began.
pub proof fn lemma_loop_returns(frame: int, index: int, size: int)
    requires
        size > 0,
        in_loop(frame, index, size),
    ensures
        forall|steps: nat| in_loop(#[trigger] frame_after(frame, index, size, steps), index, size),
        frame_after(frame, index, size, size as nat) == frame,
{
    assert forall|steps: nat| in_loop(
        #[trigger] frame_after(frame, index, size, steps),
        index,
        size,
    ) by {
        lemma_frame_after(frame, index, size, steps);
    }
    lemma_frame_after(frame, index, size, size as nat);
    let k = frame - index;
    assert((k + size) % size == k) by (nonlinear_arith)
        requires
            0 <= k < size,
    ;
}

/// Where `steps` steps lead: as far round the loop as `steps` goes.
pub proof fn lemma_frame_after(frame: int, index: int, size: int, steps: nat)
    requires
        size > 0,
        in_loop(frame, index, size),
    ensures
        frame_after(frame, index, size, steps) == (frame - index + steps) % size + index,
        in_loop(frame_after(frame, index, size, steps), index, size),
    decreases steps,
{
    let k = frame - index;
    if steps == 0 {
        assert(k % size == k) by (nonlinear_arith)
            requires
                0 <= k < size,
        ;
    } else {
        lemma_frame_after(frame, index, size, (steps - 1) as nat);
        let before = (k + steps - 1) % size;
        assert((before + 1) % size == (k + steps) % size) by (nonlinear_arith)
            requires
                before == (k + steps - 1) % size,
                size > 0,
        ;
        assert(0 <= (k + steps) % size < size) by (nonlinear_arith)
            requires
                size > 0,
        ;
    }
}

} // verus!
