//! Profile overrides: tasks whose environment names a profile, and what has to be
//! written to and deleted from the kernel map of overrides.

use std::collections::HashMap;

use vstd::prelude::*;
use vstd::std_specs::iter::IteratorSpec;
use vstd::utf8::{decode_utf8, valid_utf8};

use crate::text::{
    all_digits, chars_of, is_digit, occurs, parse_unsigned, same_chars, slice_views, split,
    split_chars, split_nul, starts_with, unsigned_value, utf8_text,
};

verus! {

broadcast use vstd::std_specs::hash::group_hash_axioms;

/// Number of the interactive profile.
pub const PROFILE_INTERACTIVE: u8 = 0;

/// Number of the normal profile.
pub const PROFILE_NORMAL: u8 = 1;

/// Number of the compute profile.
pub const PROFILE_COMPUTE: u8 = 2;

/// Number of the background profile.
pub const PROFILE_BACKGROUND: u8 = 3;

/// The profile with a name.
pub open spec fn profile_named(s: Seq<char>) -> Option<u8> {
    if s == "interactive"@ {
        Some(PROFILE_INTERACTIVE)
    } else if s == "normal"@ {
        Some(PROFILE_NORMAL)
    } else if s == "compute"@ {
        Some(PROFILE_COMPUTE)
    } else if s == "background"@ {
        Some(PROFILE_BACKGROUND)
    } else {
        None
    }
}

fn named_profile(s: &[char]) -> (r: Option<u8>)
    ensures
        r == profile_named(s@),
{
    if same_chars(s, chars_of("interactive").as_slice()) {
        Some(PROFILE_INTERACTIVE)
    } else if same_chars(s, chars_of("normal").as_slice()) {
        Some(PROFILE_NORMAL)
    } else if same_chars(s, chars_of("compute").as_slice()) {
        Some(PROFILE_COMPUTE)
    } else if same_chars(s, chars_of("background").as_slice()) {
        Some(PROFILE_BACKGROUND)
    } else {
        None
    }
}

/// The profile that entries from `i` on name, read as text: the first entry that
/// sets the variable to the name of a profile.
pub open spec fn text_profile(entries: Seq<Seq<char>>, i: int) -> Option<u8>
    decreases entries.len() - i,
{
    if i < 0 || i >= entries.len() {
        None
    } else if starts_with(entries[i], "SCX_ASTRO="@) {
        match profile_named(entries[i].skip("SCX_ASTRO="@.len() as int)) {
            Some(profile) => Some(profile),
            None => text_profile(entries, i + 1),
        }
    } else {
        text_profile(entries, i + 1)
    }
}

/// The profile that an environment, as text, names.
pub fn parse_profile_from_environ(environ: &str) -> (r: Option<u8>)
    ensures
        r == text_profile(split(environ@, '\0'), 0),
{
    let text = chars_of(environ);
    let prefix = chars_of("SCX_ASTRO=");
    let items = split_chars(text.as_slice(), '\0');
    let ghost pieces = split(environ@, '\0');
    let mut i: usize = 0;
    while i < items.len()
        invariant
            i <= items.len(),
            slice_views(items@) == pieces,
            pieces == split(environ@, '\0'),
            prefix@ == "SCX_ASTRO="@,
            text_profile(pieces, 0) == text_profile(pieces, i as int),
        decreases items.len() - i,
    {
        assert(slice_views(items@)[i as int] == items@[i as int]@);
        let item = items[i];
        if occurs(item, prefix.as_slice(), 0) {
            let value = vstd::slice::slice_subrange(item, prefix.len(), item.len());
            assert(value@ =~= item@.skip(prefix@.len() as int));
            if let Some(profile) = named_profile(value) {
                return Some(profile);
            }
        }
        i = i + 1;
    }
    None
}

/// The profile that entries from `i` on name: the first entry that is text and sets
/// the variable decides, though it may name no profile.
pub open spec fn bytes_profile(entries: Seq<Seq<u8>>, i: int) -> Option<u8>
    decreases entries.len() - i,
{
    if i < 0 || i >= entries.len() {
        None
    } else if valid_utf8(entries[i]) && starts_with(decode_utf8(entries[i]), "SCX_ASTRO="@) {
        profile_named(decode_utf8(entries[i]).skip("SCX_ASTRO="@.len() as int))
    } else {
        bytes_profile(entries, i + 1)
    }
}

/// The profile that an environment, as the kernel shows it, names.
pub fn parse_profile_from_env(environ: &[u8]) -> (r: Option<u8>)
    ensures
        r == bytes_profile(split(environ@, 0u8), 0),
{
    let prefix = chars_of("SCX_ASTRO=");
    let entries = split_nul(environ);
    let ghost pieces = split(environ@, 0u8);
    let mut i: usize = 0;
    while i < entries.len()
        invariant
            i <= entries.len(),
            slice_views(entries@) == pieces,
            pieces == split(environ@, 0u8),
            prefix@ == "SCX_ASTRO="@,
            bytes_profile(pieces, 0) == bytes_profile(pieces, i as int),
        decreases entries.len() - i,
    {
        assert(slice_views(entries@)[i as int] == entries@[i as int]@);
        if let Some(entry) = utf8_text(entries[i]) {
            proof {
                vstd::utf8::encode_utf8_decode_utf8(entry@);
            }
            let text = chars_of(entry);
            if occurs(text.as_slice(), prefix.as_slice(), 0) {
                let value = vstd::slice::slice_subrange(text.as_slice(), prefix.len(), text.len());
                assert(value@ =~= text@.skip(prefix@.len() as int));
                return named_profile(value);
            }
        }
        i = i + 1;
    }
    None
}

/// The process that a directory of `/proc` stands for: its name is a number.
pub open spec fn pid_named(name: Seq<char>) -> Option<i32> {
    if all_digits(name) {
        match unsigned_value(name, i32::MAX as nat) {
            Some(pid) => Some(pid as i32),
            None => None,
        }
    } else {
        None
    }
}

/// The process that a directory of `/proc` stands for.
pub fn pid_of(name: &str) -> (r: Option<i32>)
    ensures
        r == pid_named(name@),
{
    let text = chars_of(name);
    let mut i: usize = 0;
    while i < text.len()
        invariant
            i <= text.len(),
            text@ == name@,
            forall|j: int| 0 <= j < i ==> is_digit(#[trigger] text@[j]),
        decreases text.len() - i,
    {
        let c = text[i];
        if !('0' <= c && c <= '9') {
            assert(!is_digit(name@[i as int]));
            return None;
        }
        i = i + 1;
    }
    match parse_unsigned(text.as_slice(), i32::MAX as u64) {
        Some(pid) => Some(pid as i32),
        None => None,
    }
}

/// The profile of a process.
pub open spec fn profile_of(m: Map<i32, u8>, pid: i32) -> Option<u8> {
    if m.contains_key(pid) {
        Some(m[pid])
    } else {
        None
    }
}

/// Overrides as of one pass over all processes.
#[derive(Debug)]
pub struct Overrides {
    /// Processes and their profiles.
    pub entries: HashMap<i32, u8>,
}

impl Overrides {
    /// No overrides.
    pub fn new() -> (r: Self)
        ensures
            r.entries@ == Map::<i32, u8>::empty(),
    {
        Overrides { entries: HashMap::new() }
    }

    /// Takes in a directory of `/proc` and its environment.
    pub fn note(&mut self, name: &str, environ: &[u8])
        ensures
            final(self).entries@ == match (
                pid_named(name@),
                bytes_profile(split(environ@, 0u8), 0),
            ) {
                (Some(pid), Some(profile)) => old(self).entries@.insert(pid, profile),
                _ => old(self).entries@,
            },
    {
        if let Some(pid) = pid_of(name) {
            if let Some(profile) = parse_profile_from_env(environ) {
                self.entries.insert(pid, profile);
            }
        }
    }

    /// The profile of a process.
    pub fn get(&self, pid: i32) -> (r: Option<u8>)
        ensures
            r == profile_of(self.entries@, pid),
    {
        match self.entries.get(&pid) {
            Some(profile) => Some(*profile),
            None => None,
        }
    }
}

/// The processes with an entry in `prev` that have none in `current`.
pub open spec fn stale(prev: Map<i32, u8>, current: Map<i32, u8>) -> Set<i32> {
    prev.dom().difference(current.dom())
}

/// Keeps the kernel map of overrides in step with what passes over all processes
/// find.
#[derive(Debug)]
pub struct OverrideScanner {
    /// Overrides as of the pass before.
    pub prev: Overrides,
}

/// What has to be done to the kernel map.
#[derive(Debug)]
pub struct OverridePlan {
    /// Processes whose entry is deleted.
    pub deletes: Vec<i32>,
    /// Entries that are written.
    pub updates: Vec<(i32, u8)>,
}

/// The processes with an entry in `prev` that have none in `current`, each once.
fn stale_pids(prev: &HashMap<i32, u8>, current: &HashMap<i32, u8>) -> (r: Vec<i32>)
    ensures
        r@.no_duplicates(),
        r@.to_set() == stale(prev@, current@),
{
    let ghost pids = prev.keys().remaining().unref();
    let mut out: Vec<i32> = Vec::new();
    for pid in it: prev.keys()
        invariant
            it.seq().unref() == pids,
            pids.no_duplicates(),
            out@.no_duplicates(),
            forall|p: i32| #[trigger]
                out@.contains(p) <==> pids.take(it.index() as int).contains(p)
                    && !current@.contains_key(p),
    {
        let ghost i = it.index() as int;
        let ghost before = out@;
        assert(pids[i] == *pid);
        assert(pids.take(i + 1) =~= pids.take(i).push(*pid));
        assert(!pids.take(i).contains(*pid)) by {
            if pids.take(i).contains(*pid) {
                let j = choose|j: int| 0 <= j < i && pids.take(i)[j] == *pid;
                assert(pids[j] == pids[i]);
            }
        }
        if !current.contains_key(pid) {
            out.push(*pid);
            assert forall|k: int| 0 <= k < before.len() implies before[k] != *pid by {
                assert(before.contains(before[k]));
            }
            assert forall|p: i32| #[trigger] out@.contains(p) implies before.contains(p) || p == *pid by {
                let k = choose|k: int| 0 <= k < out@.len() && out@[k] == p;
                if k < before.len() {
                    assert(before[k] == p);
                }
            }
            assert forall|p: i32| before.contains(p) || p == *pid implies #[trigger] out@.contains(p) by {
                if before.contains(p) {
                    let k = choose|k: int| 0 <= k < before.len() && before[k] == p;
                    assert(out@[k] == p);
                } else {
                    assert(out@[before.len() as int] == p);
                }
            }
        }
        assert forall|p: i32| #[trigger] pids.take(i + 1).contains(p) <==> pids.take(i).contains(p)
            || p == *pid by {
            if pids.take(i).contains(p) {
                let k = choose|k: int| 0 <= k < i && pids.take(i)[k] == p;
                assert(pids.take(i + 1)[k] == p);
            }
            if p == *pid {
                assert(pids.take(i + 1)[i] == p);
            }
        }
    }
    proof {
        assert(pids.take(pids.len() as int) =~= pids);
        assert(pids.to_set() == prev@.dom());
        assert forall|p: i32| #[trigger] pids.contains(p) <==> prev@.contains_key(p) by {
            assert(pids.to_set().contains(p) == prev@.dom().contains(p));
        }
        assert(out@.to_set() =~= stale(prev@, current@));
    }
    out
}

/// The entries of a map, each once.
fn pairs(m: &HashMap<i32, u8>) -> (r: Vec<(i32, u8)>)
    ensures
        r@.no_duplicates(),
        r@.to_set() == m@.kv_pairs(),
{
    let ghost all = m.iter().remaining();
    let mut out: Vec<(i32, u8)> = Vec::new();
    for entry in it: m.iter()
        invariant
            it.seq() == all,
            out@ == all.unref().take(it.index() as int),
    {
        let ghost i = it.index() as int;
        assert(all.unref()[i] == (*entry.0, *entry.1));
        assert(all.unref().take(i + 1) =~= all.unref().take(i).push((*entry.0, *entry.1)));
        out.push((*entry.0, *entry.1));
    }
    assert(all.unref().take(all.len() as int) =~= all.unref());
    out
}

impl OverrideScanner {
    /// A scanner before its first pass.
    pub fn new() -> (r: Self)
        ensures
            r.prev.entries@ == Map::<i32, u8>::empty(),
    {
        OverrideScanner { prev: Overrides::new() }
    }

    /// Takes in the overrides of a pass: entries of processes that have none any more
    /// are deleted, all current ones are written.
    pub fn plan(&mut self, current: Overrides) -> (r: OverridePlan)
        ensures
            r.deletes@.no_duplicates(),
            r.deletes@.to_set() == stale(old(self).prev.entries@, current.entries@),
            r.updates@.no_duplicates(),
            r.updates@.to_set() == current.entries@.kv_pairs(),
            final(self).prev.entries@ == current.entries@,
    {
        let deletes = stale_pids(&self.prev.entries, &current.entries);
        let updates = pairs(&current.entries);
        self.prev = current;
        OverridePlan { deletes, updates }
    }
}

/// A kernel map that held the overrides of the pass before holds those of this pass, and
/// nothing else, after a plan was carried out.
pub proof fn plans_bring_the_map_up_to_date(prev: Map<i32, u8>, current: Map<i32, u8>)
    ensures
        prev.remove_keys(stale(prev, current)).union_prefer_right(current) == current,
{
    assert(prev.remove_keys(stale(prev, current)).union_prefer_right(current) =~= current);
}

fn listed(pids: &[i32], pid: i32) -> (r: bool)
    ensures
        r == pids@.contains(pid),
{
    let mut i: usize = 0;
    while i < pids.len()
        invariant
            i <= pids.len(),
            forall|j: int| 0 <= j < i ==> pids@[j] != pid,
        decreases pids.len() - i,
    {
        if pids[i] == pid {
            return true;
        }
        i = i + 1;
    }
    false
}

/// Profiles that were written to the kernel map, kept so that only changes are
/// written.
#[derive(Debug)]
pub struct KnownProfiles {
    /// Processes whose profile was written.
    pub entries: HashMap<i32, u8>,
}

impl KnownProfiles {
    /// Nothing was written.
    pub fn new() -> (r: Self)
        ensures
            r.entries@ == Map::<i32, u8>::empty(),
    {
        KnownProfiles { entries: HashMap::new() }
    }

    /// Whether the profile of a process has to be written.
    pub fn needs_update(&self, pid: i32, profile: u8) -> (r: bool)
        ensures
            r == (profile_of(self.entries@, pid) != Some(profile)),
    {
        match self.entries.get(&pid) {
            Some(known) => *known != profile,
            None => true,
        }
    }

    /// Notes that the profile of a process was written.
    pub fn written(&mut self, pid: i32, profile: u8)
        ensures
            final(self).entries@ == old(self).entries@.insert(pid, profile),
    {
        self.entries.insert(pid, profile);
    }

    /// Forgets all processes but `pids`.
    pub fn retain(&mut self, pids: &[i32])
        ensures
            final(self).entries@ == old(self).entries@.restrict(pids@.to_set()),
    {
        let known = pairs(&self.entries);
        let mut kept: HashMap<i32, u8> = HashMap::new();
        let mut i: usize = 0;
        while i < known.len()
            invariant
                i <= known.len(),
                known@.to_set() == self.entries@.kv_pairs(),
                forall|p: i32| #[trigger]
                    kept@.contains_key(p) ==> self.entries@.contains_key(p) && kept@[p]
                        == self.entries@[p] && pids@.contains(p),
                forall|j: int|
                    0 <= j < i && pids@.contains((#[trigger] known@[j]).0) ==> kept@.contains_key(
                        known@[j].0,
                    ),
            decreases known.len() - i,
        {
            let entry = known[i];
            assert(known@.to_set().contains(entry));
            if listed(pids, entry.0) {
                kept.insert(entry.0, entry.1);
            }
            i = i + 1;
        }
        proof {
            let wanted = self.entries@.restrict(pids@.to_set());
            assert forall|p: i32| #[trigger] wanted.contains_key(p) implies kept@.contains_key(p) by {
                assert(known@.to_set().contains((p, self.entries@[p])));
                let j = choose|j: int| 0 <= j < known@.len() && known@[j] == (p, self.entries@[p]);
                assert(known@[j].0 == p);
            }
            assert(kept@ =~= wanted);
        }
        self.entries = kept;
    }
}

/// An entry that names a profile decides for all that follow it in a text, and entries that
/// name none are passed over. The four names have the numbers from 0 to 3.
pub proof fn first_named_profiles_decide(entry: Seq<char>, rest: Seq<Seq<char>>)
    ensures
        entry == "SCX_ASTRO=interactive"@ ==> text_profile(seq![entry] + rest, 0) == Some(0u8),
        entry == "SCX_ASTRO=normal"@ ==> text_profile(seq![entry] + rest, 0) == Some(1u8),
        entry == "SCX_ASTRO=compute"@ ==> text_profile(seq![entry] + rest, 0) == Some(2u8),
        entry == "SCX_ASTRO=background"@ ==> text_profile(seq![entry] + rest, 0) == Some(3u8),
        !starts_with(entry, "SCX_ASTRO="@) ==> text_profile(seq![entry] + rest, 0) == text_profile(
            rest,
            0,
        ),
{
    reveal_strlit("SCX_ASTRO=");
    reveal_strlit("interactive");
    reveal_strlit("normal");
    reveal_strlit("compute");
    reveal_strlit("background");
    reveal_strlit("SCX_ASTRO=interactive");
    reveal_strlit("SCX_ASTRO=normal");
    reveal_strlit("SCX_ASTRO=compute");
    reveal_strlit("SCX_ASTRO=background");
    let all = seq![entry] + rest;
    let key = "SCX_ASTRO="@;
    assert(all[0] == entry);
    assert("SCX_ASTRO=interactive"@.subrange(0, 10) =~= key);
    assert("SCX_ASTRO=normal"@.subrange(0, 10) =~= key);
    assert("SCX_ASTRO=compute"@.subrange(0, 10) =~= key);
    assert("SCX_ASTRO=background"@.subrange(0, 10) =~= key);
    assert("SCX_ASTRO=interactive"@.skip(10) =~= "interactive"@);
    assert("SCX_ASTRO=normal"@.skip(10) =~= "normal"@);
    assert("SCX_ASTRO=compute"@.skip(10) =~= "compute"@);
    assert("SCX_ASTRO=background"@.skip(10) =~= "background"@);
    assert("normal"@.len() == 6 && "compute"@.len() == 7 && "background"@.len() == 10
        && "interactive"@.len() == 11);
    lemma_profiles_behind(entry, rest, 0);
}

proof fn lemma_profiles_behind(entry: Seq<char>, rest: Seq<Seq<char>>, i: int)
    requires
        0 <= i,
    ensures
        text_profile(seq![entry] + rest, i + 1) == text_profile(rest, i),
    decreases rest.len() - i,
{
    if i < rest.len() {
        assert((seq![entry] + rest)[i + 1] == rest[i]);
        lemma_profiles_behind(entry, rest, i + 1);
    }
}

} // verus!
