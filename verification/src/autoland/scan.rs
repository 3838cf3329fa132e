//! One pass over all tasks: the class hint of each, and which marked tasks and
//! games came and went since the pass before.

use std::collections::HashSet;

use vstd::prelude::*;
use vstd::std_specs::iter::IteratorSpec;

verus! {

broadcast use vstd::std_specs::hash::group_hash_axioms;

/// Class of latency-critical tasks.
pub const CLASS_LATENCY_CRITICAL: u32 = 2;

/// The class that a task is hinted to: marked tasks, games, desktop components and
/// audio tasks are latency critical; others get no hint.
pub open spec fn hint_of(turbo: bool, game: bool, de: bool, audio: bool) -> Option<u32> {
    if turbo || game || de || audio {
        Some(CLASS_LATENCY_CRITICAL)
    } else {
        None
    }
}

/// Marked tasks and games.
#[derive(Debug)]
pub struct Detected {
    /// Tasks that are marked by the user.
    pub turbo: HashSet<i32>,
    /// Games that are not marked.
    pub games: HashSet<i32>,
}

/// The members of `a` that are not in `b`, each once.
fn difference(a: &HashSet<i32>, b: &HashSet<i32>) -> (r: Vec<i32>)
    ensures
        r@.no_duplicates(),
        r@.to_set() == a@.difference(b@),
{
    let ghost items = a.iter().remaining().unref();
    let mut out: Vec<i32> = Vec::new();
    for pid in it: a.iter()
        invariant
            it.seq().unref() == items,
            items.no_duplicates(),
            items.to_set() == a@,
            out@.no_duplicates(),
            forall|k: int|
                0 <= k < out@.len() ==> !b@.contains(#[trigger] out@[k]) && exists|j: int|
                    0 <= j < it.index() && #[trigger] items[j] == out@[k],
            forall|j: int|
                0 <= j < it.index() ==> b@.contains(#[trigger] items[j]) || out@.contains(items[j]),
    {
        let ghost before = out@;
        let ghost i = it.index() as int;
        assert(items[i] == *pid);
        if !b.contains(pid) {
            out.push(*pid);
            assert(out@[before.len() as int] == items[i]);
        }
        assert forall|j: int| 0 <= j < i implies b@.contains(#[trigger] items[j]) || out@.contains(
            items[j],
        ) by {
            if before.contains(items[j]) {
                let k = choose|k: int| 0 <= k < before.len() && before[k] == items[j];
                assert(out@[k] == items[j]);
            }
        }
        assert forall|k: int| 0 <= k < out@.len() implies !b@.contains(#[trigger] out@[k])
            && exists|j: int| 0 <= j < i + 1 && #[trigger] items[j] == out@[k] by {
            if k < before.len() {
                assert(out@[k] == before[k]);
            }
        }
    }
    proof {
        assert forall|p: i32| a@.difference(b@).contains(p) implies #[trigger] out@.to_set().contains(
            p,
        ) by {
            assert(items.to_set().contains(p));
            let j = choose|j: int| 0 <= j < items.len() && items[j] == p;
            assert(out@.contains(items[j]));
        }
        assert forall|p: i32| #[trigger] out@.to_set().contains(p) implies a@.difference(
            b@,
        ).contains(p) by {
            let k = choose|k: int| 0 <= k < out@.len() && out@[k] == p;
            let j = choose|j: int| 0 <= j < items.len() && #[trigger] items[j] == out@[k];
            assert(items.to_set().contains(items[j]));
        }
        assert(out@.to_set() =~= a@.difference(b@));
    }
    out
}

impl Detected {
    /// Nothing detected.
    pub fn new() -> (r: Self)
        ensures
            r.turbo@ == Set::<i32>::empty(),
            r.games@ == Set::<i32>::empty(),
    {
        Detected { turbo: HashSet::new(), games: HashSet::new() }
    }

    /// Notes a task that was classified and returns its class hint. A marked task is
    /// not noted as a game as well.
    pub fn note(&mut self, pid: i32, turbo: bool, game: bool, de: bool, audio: bool) -> (r: Option<u32>)
        ensures
            r == hint_of(turbo, game, de, audio),
            final(self).turbo@ == if turbo {
                old(self).turbo@.insert(pid)
            } else {
                old(self).turbo@
            },
            final(self).games@ == if game && !turbo {
                old(self).games@.insert(pid)
            } else {
                old(self).games@
            },
    {
        if turbo {
            self.turbo.insert(pid);
        } else if game {
            self.games.insert(pid);
        }
        if turbo || game || de || audio {
            Some(CLASS_LATENCY_CRITICAL)
        } else {
            None
        }
    }

    /// What came and went from `self` to `next`.
    pub fn changes(&self, next: &Detected) -> (r: Changes)
        ensures
            r.new_turbo@.no_duplicates(),
            r.new_turbo@.to_set() == next.turbo@.difference(self.turbo@),
            r.new_games@.no_duplicates(),
            r.new_games@.to_set() == next.games@.difference(self.games@),
            r.ended_turbo@.no_duplicates(),
            r.ended_turbo@.to_set() == self.turbo@.difference(next.turbo@),
            r.ended_games@.no_duplicates(),
            r.ended_games@.to_set() == self.games@.difference(next.games@),
    {
        Changes {
            new_turbo: difference(&next.turbo, &self.turbo),
            new_games: difference(&next.games, &self.games),
            ended_turbo: difference(&self.turbo, &next.turbo),
            ended_games: difference(&self.games, &next.games),
        }
    }
}

/// Tasks that came and went between two passes.
#[derive(Debug)]
pub struct Changes {
    pub new_turbo: Vec<i32>,
    pub new_games: Vec<i32>,
    pub ended_turbo: Vec<i32>,
    pub ended_games: Vec<i32>,
}

/// What was detected, without what ended and with what is new, is what is detected now; so
/// nothing comes or goes between two passes that detect the same.
pub proof fn changes_lead_from_pass_to_pass(before: Set<i32>, after: Set<i32>)
    ensures
        before.difference(before.difference(after)).union(after.difference(before)) == after,
        before == after ==> before.difference(after) == Set::<i32>::empty(),
{
    assert(before.difference(before.difference(after)).union(after.difference(before)) =~= after);
    assert(before.difference(before) =~= Set::<i32>::empty());
}

} // verus!
