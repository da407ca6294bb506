//! The process that plays audio: at most one at a time.

use crate::server::{end_child, ending, ChildPoll, ChildStep};
use vstd::prelude::*;

verus! {

/// The program that plays audio.
pub const AFPLAY: &'static str = "/usr/bin/afplay";

/// What a look at the playing process says.
#[derive(Clone, Copy, Debug, PartialEq, Eq, Structural)]
pub struct PlaybackCheck {
    /// Whether playback goes on.
    pub playing: bool,
    /// Whether the process has ended and is to be let go.
    pub release: bool,
}

/// What a look at the playing process says, given what the process does, if one is held.
pub open spec fn check_of(child: Option<ChildPoll>) -> PlaybackCheck {
    match child {
        Some(ChildPoll::Exited) => PlaybackCheck { playing: false, release: true },
        Some(_) => PlaybackCheck { playing: true, release: false },
        None => PlaybackCheck { playing: false, release: false },
    }
}

/// The steps that play a file.
pub open spec fn replacing(held: bool) -> Seq<ChildStep> {
    ending(held).push(ChildStep::Spawn)
}

/// Whether playback goes on, given what the playing process does, if one is held. A process that
/// cannot be looked at counts as playing.
pub fn is_playing(child: Option<ChildPoll>) -> (r: PlaybackCheck)
    ensures
        r.playing == (child is Some && child != Some(ChildPoll::Exited)),
        r.release == (child == Some(ChildPoll::Exited)),
        r == check_of(child),
{
    match child {
        Some(ChildPoll::Exited) => PlaybackCheck { playing: false, release: true },
        Some(_) => PlaybackCheck { playing: true, release: false },
        None => PlaybackCheck { playing: false, release: false },
    }
}

/// The steps that stop playback.
pub fn stop_playback(held: bool) -> (r: Vec<ChildStep>)
    ensures
        r@ == ending(held),
{
    end_child(held)
}

/// The steps that play a file: what was playing is stopped first.
pub fn play_wav(held: bool) -> (r: Vec<ChildStep>)
    ensures
        r@ == ending(held).push(ChildStep::Spawn),
        r@ == replacing(held),
{
    let mut steps = end_child(held);
    steps.push(ChildStep::Spawn);
    steps
}

/// The number of playing processes after `steps`, of which `n` are playing at first and of which
/// every start succeeds.
pub open spec fn players_after(n: int, steps: Seq<ChildStep>) -> int
    decreases steps.len(),
{
    if steps.len() == 0 {
        n
    } else {
        let before = players_after(n, steps.drop_last());
        match steps.last() {
            ChildStep::Kill => before - 1,
            ChildStep::Spawn => before + 1,
            _ => before,
        }
    }
}

/// There is never more than one playing process: after playing a file there is one, after stopping
/// there is none, whatever was playing before.
pub proof fn law_one_player(held: bool)
    ensures
        players_after(
            if held {
                1
            } else {
                0
            },
            ending(held).push(ChildStep::Spawn),
        ) == 1,
        players_after(
            if held {
                1
            } else {
                0
            },
            ending(held),
        ) == 0,
{
    reveal_with_fuel(players_after, 4);
    let steps = ending(held).push(ChildStep::Spawn);
    assert(steps.drop_last() =~= ending(held));
    if held {
        assert(ending(held).drop_last() =~= seq![ChildStep::Kill]);
        assert(seq![ChildStep::Kill].drop_last() =~= Seq::<ChildStep>::empty());
    }
}

/// Playback goes on from the start of a process until a look finds that it has ended, which is when
/// the process is let go; a look that fails ends nothing.
pub proof fn law_playback_goes_on_until_the_process_ends(child: Option<ChildPoll>)
    ensures
        check_of(child).playing <==> child is Some && !(child matches Some(poll) && poll is Exited),
        check_of(child).release <==> (child matches Some(poll) && poll is Exited),
        !(check_of(child).playing && check_of(child).release),
{
}

/// A file is played by starting one process, last of all, once the process that was playing has been
/// killed and waited for; where none was, nothing comes before.
pub proof fn law_what_was_playing_stops_first(held: bool)
    ensures
        replacing(held).last() == ChildStep::Spawn,
        forall|i: int|
            0 <= i < replacing(held).len() - 1 ==> #[trigger] replacing(held)[i] == ChildStep::Kill
                || replacing(held)[i] == ChildStep::Wait,
        held ==> replacing(held)[0] == ChildStep::Kill && replacing(held)[1] == ChildStep::Wait,
        replacing(held).len() == (if held {
            3int
        } else {
            1
        }),
{
}

} // verus!
