//! Classification of processes by their name and environment.

use std::collections::HashSet;

use vstd::prelude::*;
use vstd::slice::slice_subrange;
use vstd::std_specs::iter::IteratorSpec;
use vstd::string::StringExecFns;

use crate::text::{
    chars_of, contains, contains_any, cut, decimal, find, has_any, lemma_cut_at, lowercase, occurs,
    occurs_at, push_decimal, same_chars, text_of, to_lower, trim, trimmed, views,
};

verus! {

broadcast use vstd::std_specs::hash::group_hash_axioms;

/// Parts of the names of desktop components.
pub const DE_PATTERNS: [&'static str; 12] = [
    "kwin",
    "mutter",
    "gnome-shell",
    "compiz",
    "compositor",
    "wayfire",
    "sway",
    "river",
    "dwl",
    "hyprland",
    "i3",
    "awesome",
];

/// Parts of the names of input handlers.
pub const INPUT_PATTERNS: [&'static str; 9] = [
    "fcitx",
    "fcitx5",
    "ibus",
    "ibus-daemon",
    "ibus-engine",
    "ksoftirqd",
    "input-",
    "libinput",
    "evdev",
];

/// Parts of the names of audio tasks.
pub const AUDIO_PATTERNS: [&'static str; 9] = [
    "pipewire",
    "pipewire-pulse",
    "wireplumber",
    "pulseaudio",
    "jackd",
    "pw-",
    "pw_",
    "speech-dispatcher",
    "canberra",
];

/// What is known of a process.
#[derive(Debug)]
pub struct Process {
    pub pid: u32,
    /// Its name, as the kernel shows it.
    pub comm: String,
    /// Its environment, if it could be read as text.
    pub environ: Option<String>,
}

/// What a process is recognised as.
#[derive(Clone, Copy, Debug, PartialEq, Eq, Structural)]
pub struct Traits {
    pub turbo: bool,
    pub steam: bool,
    pub de: bool,
    pub input: bool,
    pub audio: bool,
}

/// A value that stands for yes: not empty, and not "0".
pub open spec fn truthy(value: Seq<char>) -> bool {
    value.len() > 0 && value != "0"@
}

/// An entry of an environment that sets `SCX_TURBO` starts at `at`: entries are divided by
/// NULs.
pub open spec fn turbo_entry(environ: Seq<char>, at: int) -> bool {
    occurs_at(environ, "SCX_TURBO="@, at) && (at == 0 || environ[at - 1] == '\0')
}

/// The value of the entry that starts at `at`, up to the next NUL.
pub open spec fn turbo_value(environ: Seq<char>, at: int) -> Seq<char> {
    let rest = environ.skip(at + "SCX_TURBO="@.len());
    rest.take(cut(rest, '\0') as int)
}

/// An environment marks its task: the first entry in it that sets `SCX_TURBO` has a value
/// that stands for yes.
pub open spec fn marks_turbo(environ: Seq<char>) -> bool {
    exists|at: int|
        #[trigger] turbo_entry(environ, at) && (forall|j: int|
            0 <= j < at ==> !#[trigger] turbo_entry(environ, j)) && truthy(
            turbo_value(environ, at),
        )
}

/// An environment is that of a Steam game.
pub open spec fn marks_steam(environ: Seq<char>) -> bool {
    contains(environ, "SteamGameId="@) || contains(environ, "STEAM_GAME="@)
}

/// What a process with a name in small letters and an environment is recognised as.
pub open spec fn traits_of(name: Seq<char>, environ: Option<Seq<char>>) -> Traits {
    Traits {
        turbo: environ matches Some(e) && marks_turbo(e),
        steam: environ matches Some(e) && marks_steam(e),
        de: contains_any(name, views(DE_PATTERNS@)),
        input: contains_any(name, views(INPUT_PATTERNS@)),
        audio: contains_any(name, views(AUDIO_PATTERNS@)),
    }
}

/// The name of a process without white space around it, in small letters.
pub open spec fn plain_name(comm: Seq<char>) -> Seq<char> {
    lowercase(trim(comm))
}

/// What a process is recognised as.
pub open spec fn traits_of_process(p: Process) -> Traits {
    traits_of(
        plain_name(p.comm@),
        match p.environ {
            Some(e) => Some(e@),
            None => None,
        },
    )
}

/// Where the first entry that sets `SCX_TURBO` starts.
fn find_turbo(environ: &[char], key: &[char]) -> (r: Option<usize>)
    requires
        key@ == "SCX_TURBO="@,
    ensures
        match r {
            Some(at) => turbo_entry(environ@, at as int) && forall|j: int|
                0 <= j < at ==> !#[trigger] turbo_entry(environ@, j),
            None => forall|j: int| !#[trigger] turbo_entry(environ@, j),
        },
{
    let mut at: usize = 0;
    while at < environ.len()
        invariant
            at <= environ.len(),
            key@ == "SCX_TURBO="@,
            forall|j: int| 0 <= j < at ==> !#[trigger] turbo_entry(environ@, j),
        decreases environ.len() - at,
    {
        if (at == 0 || environ[at - 1] == '\0') && occurs(environ, key, at) {
            return Some(at);
        }
        at = at + 1;
    }
    proof {
        reveal_strlit("SCX_TURBO=");
    }
    None
}

/// Whether an environment marks its task.
pub fn is_turbo_environ(environ: &[char]) -> (r: bool)
    ensures
        r == marks_turbo(environ@),
{
    let key = chars_of("SCX_TURBO=");
    match find_turbo(environ, key.as_slice()) {
        Some(at) => {
            let total: usize = environ.len();
            assert(at + key@.len() <= total);
            let from: usize = at + key.len();
            let rest = slice_subrange(environ, from, environ.len());
            assert(rest@ =~= environ@.skip(at + key@.len()));
            let mut end: usize = 0;
            while end < rest.len() && rest[end] != '\0'
                invariant
                    end <= rest.len(),
                    forall|j: int| 0 <= j < end ==> rest@[j] != '\0',
                decreases rest.len() - end,
            {
                end = end + 1;
            }
            proof {
                lemma_cut_at(rest@, '\0', end as int);
            }
            let value = slice_subrange(rest, 0, end);
            assert(value@ =~= turbo_value(environ@, at as int));
            let zero = chars_of("0");
            let yes = value.len() > 0 && !same_chars(value, zero.as_slice());
            proof {
                if marks_turbo(environ@) {
                    let k = choose|k: int|
                        #[trigger] turbo_entry(environ@, k) && (forall|j: int|
                            0 <= j < k ==> !#[trigger] turbo_entry(environ@, j)) && truthy(
                            turbo_value(environ@, k),
                        );
                    assert(k == at as int) by {
                        if k < at {
                            assert(!turbo_entry(environ@, k));
                        }
                        if at < k {
                            assert(!turbo_entry(environ@, at as int));
                        }
                    }
                }
            }
            yes
        },
        None => false,
    }
}

/// What a process with a name in small letters and an environment is recognised as.
pub fn recognise(name: &str, environ: Option<&str>) -> (r: Traits)
    ensures
        r == traits_of(
            name@,
            match environ {
                Some(e) => Some(e@),
                None => None,
            },
        ),
{
    let letters = chars_of(name);
    let de = has_any(letters.as_slice(), DE_PATTERNS.as_slice());
    let input = has_any(letters.as_slice(), INPUT_PATTERNS.as_slice());
    let audio = has_any(letters.as_slice(), AUDIO_PATTERNS.as_slice());
    match environ {
        Some(text) => {
            let e = chars_of(text);
            let turbo = is_turbo_environ(e.as_slice());
            let steam = find(e.as_slice(), chars_of("SteamGameId=").as_slice()).is_some() || find(
                e.as_slice(),
                chars_of("STEAM_GAME=").as_slice(),
            ).is_some();
            proof {
                assert(forall|n: Seq<char>, i: int| #[trigger] occurs_at(e@, n, i) ==> contains(e@, n));
            }
            Traits { turbo, steam, de, input, audio }
        },
        None => Traits { turbo: false, steam: false, de, input, audio },
    }
}

/// What a process is recognised as.
pub fn recognise_process(p: &Process) -> (r: Traits)
    ensures
        r == traits_of_process(*p),
{
    let comm = chars_of(p.comm.as_str());
    let name = to_lower(text_of(trimmed(comm.as_slice())).as_str());
    match &p.environ {
        Some(e) => recognise(name.as_str(), Some(e.as_str())),
        None => recognise(name.as_str(), None),
    }
}

/// The processes that are recognised as something, of each kind.
#[derive(Debug)]
pub struct TaskClassifier {
    pub scx_turbo_tgids: HashSet<u32>,
    pub steam_tgids: HashSet<u32>,
    pub de_tgids: HashSet<u32>,
    pub input_tgids: HashSet<u32>,
    pub audio_tgids: HashSet<u32>,
}

/// The numbers of the first `n` processes with a trait.
pub open spec fn having(processes: Seq<Process>, kind: spec_fn(Traits) -> bool, n: int) -> Set<u32>
    decreases n,
{
    if n <= 0 {
        Set::empty()
    } else {
        let before = having(processes, kind, n - 1);
        if kind(traits_of_process(processes[n - 1])) {
            before.insert(processes[n - 1].pid)
        } else {
            before
        }
    }
}

fn within(a: &HashSet<u32>, b: &HashSet<u32>) -> (r: bool)
    ensures
        r == a@.subset_of(b@),
{
    let ghost items = a.iter().remaining().unref();
    for p in it: a.iter()
        invariant
            it.seq().unref() == items,
            items.to_set() == a@,
            forall|j: int| 0 <= j < it.index() ==> b@.contains(#[trigger] items[j]),
    {
        assert(items[it.index() as int] == *p);
        if !b.contains(p) {
            assert(items.to_set().contains(*p));
            return false;
        }
    }
    assert forall|p: u32| #[trigger] a@.contains(p) implies b@.contains(p) by {
        let j = choose|j: int| 0 <= j < items.len() && items[j] == p;
        assert(b@.contains(items[j]));
    }
    true
}

fn equal_sets(a: &HashSet<u32>, b: &HashSet<u32>) -> (r: bool)
    ensures
        r == (a@ == b@),
{
    let r = within(a, b) && within(b, a);
    assert(r ==> a@ =~= b@);
    r
}

impl TaskClassifier {
    /// Nothing recognised.
    pub fn new() -> (r: Self)
        ensures
            r.scx_turbo_tgids@ == Set::<u32>::empty(),
            r.steam_tgids@ == Set::<u32>::empty(),
            r.de_tgids@ == Set::<u32>::empty(),
            r.input_tgids@ == Set::<u32>::empty(),
            r.audio_tgids@ == Set::<u32>::empty(),
    {
        TaskClassifier {
            scx_turbo_tgids: HashSet::new(),
            steam_tgids: HashSet::new(),
            de_tgids: HashSet::new(),
            input_tgids: HashSet::new(),
            audio_tgids: HashSet::new(),
        }
    }

    /// What is recognised is what the first `n` processes are recognised as.
    pub open spec fn reflects(self, processes: Seq<Process>, n: int) -> bool {
        &&& self.scx_turbo_tgids@ == having(processes, |t: Traits| t.turbo, n)
        &&& self.steam_tgids@ == having(processes, |t: Traits| t.steam, n)
        &&& self.de_tgids@ == having(processes, |t: Traits| t.de, n)
        &&& self.input_tgids@ == having(processes, |t: Traits| t.input, n)
        &&& self.audio_tgids@ == having(processes, |t: Traits| t.audio, n)
    }

    /// Recognises processes anew.
    pub fn detect_all(&mut self, processes: &[Process])
        ensures
            final(self).reflects(processes@, processes@.len() as int),
    {
        let mut fresh = TaskClassifier::new();
        let mut i: usize = 0;
        while i < processes.len()
            invariant
                i <= processes.len(),
                fresh.reflects(processes@, i as int),
            decreases processes.len() - i,
        {
            let pid: u32 = processes[i].pid;
            let traits = recognise_process(&processes[i]);
            if traits.turbo {
                fresh.scx_turbo_tgids.insert(pid);
            }
            if traits.steam {
                fresh.steam_tgids.insert(pid);
            }
            if traits.de {
                fresh.de_tgids.insert(pid);
            }
            if traits.input {
                fresh.input_tgids.insert(pid);
            }
            if traits.audio {
                fresh.audio_tgids.insert(pid);
            }
            i = i + 1;
        }
        *self = fresh;
    }

    /// The same processes are recognised as the same.
    pub open spec fn agrees(self, other: TaskClassifier) -> bool {
        &&& self.scx_turbo_tgids@ == other.scx_turbo_tgids@
        &&& self.steam_tgids@ == other.steam_tgids@
        &&& self.de_tgids@ == other.de_tgids@
        &&& self.input_tgids@ == other.input_tgids@
        &&& self.audio_tgids@ == other.audio_tgids@
    }

    /// Recognises processes anew, and says whether anything changed.
    pub fn detect_all_with_changes(&mut self, processes: &[Process]) -> (r: bool)
        ensures
            final(self).reflects(processes@, processes@.len() as int),
            r == !old(self).agrees(*final(self)),
    {
        let mut fresh = TaskClassifier::new();
        fresh.detect_all(processes);
        let unchanged = equal_sets(&self.scx_turbo_tgids, &fresh.scx_turbo_tgids) && equal_sets(
            &self.steam_tgids,
            &fresh.steam_tgids,
        ) && equal_sets(&self.de_tgids, &fresh.de_tgids) && equal_sets(
            &self.input_tgids,
            &fresh.input_tgids,
        ) && equal_sets(&self.audio_tgids, &fresh.audio_tgids);
        *self = fresh;
        !unchanged
    }

    /// The lines that report how many tasks of each kind there are.
    pub fn print_stats(&self) -> (r: Vec<String>)
        ensures
            r@.len() == 6,
            r@[0]@ == "Task classification stats:"@,
            r@[1]@ == "  SCX_TURBO tasks: "@ + decimal(self.scx_turbo_tgids@.len()),
            r@[2]@ == "  Steam games: "@ + decimal(self.steam_tgids@.len()),
            r@[3]@ == "  DE components: "@ + decimal(self.de_tgids@.len()),
            r@[4]@ == "  Input tasks: "@ + decimal(self.input_tgids@.len()),
            r@[5]@ == "  Audio tasks: "@ + decimal(self.audio_tgids@.len()),
    {
        let mut out: Vec<String> = Vec::new();
        out.push("Task classification stats:".to_owned());
        out.push(count_line("  SCX_TURBO tasks: ", self.scx_turbo_tgids.len()));
        out.push(count_line("  Steam games: ", self.steam_tgids.len()));
        out.push(count_line("  DE components: ", self.de_tgids.len()));
        out.push(count_line("  Input tasks: ", self.input_tgids.len()));
        out.push(count_line("  Audio tasks: ", self.audio_tgids.len()));
        out
    }
}

fn count_line(label: &str, count: usize) -> (r: String)
    ensures
        r@ == label@ + decimal(count as nat),
{
    let mut out: String = label.to_owned();
    push_decimal(&mut out, count as u64);
    out
}

/// The recognised processes are exactly those that were looked at and have the trait.
pub proof fn recognised_are_those_with_the_trait(
    processes: Seq<Process>,
    kind: spec_fn(Traits) -> bool,
    n: int,
)
    requires
        0 <= n <= processes.len(),
    ensures
        forall|p: u32| #[trigger]
            having(processes, kind, n).contains(p) <==> exists|i: int|
                0 <= i < n && (#[trigger] processes[i]).pid == p && kind(
                    traits_of_process(processes[i]),
                ),
    decreases n,
{
    if n > 0 {
        recognised_are_those_with_the_trait(processes, kind, n - 1);
        let before = having(processes, kind, n - 1);
        let found = having(processes, kind, n);
        assert forall|p: u32| #[trigger] found.contains(p) implies exists|i: int|
            0 <= i < n && (#[trigger] processes[i]).pid == p && kind(
                traits_of_process(processes[i]),
            ) by {
            if before.contains(p) {
                let i = choose|i: int|
                    0 <= i < n - 1 && (#[trigger] processes[i]).pid == p && kind(
                        traits_of_process(processes[i]),
                    );
                assert(0 <= i < n && processes[i].pid == p);
            } else {
                assert(0 <= n - 1 < n && processes[n - 1].pid == p);
            }
        }
        assert forall|p: u32| (exists|i: int|
            0 <= i < n && (#[trigger] processes[i]).pid == p && kind(
                traits_of_process(processes[i]),
            )) implies #[trigger] found.contains(p) by {
            let i = choose|i: int|
                0 <= i < n && (#[trigger] processes[i]).pid == p && kind(
                    traits_of_process(processes[i]),
                );
            if i < n - 1 {
                assert(before.contains(p));
            }
        }
    }
}

/// An environment that begins with an entry of `SCX_TURBO` marks its task unless the value is
/// empty or "0", whatever stands behind the entry.
pub proof fn first_entries_decide(value: Seq<char>, rest: Seq<char>)
    requires
        forall|i: int| 0 <= i < value.len() ==> value[i] != '\0',
    ensures
        ({
            let environ = "SCX_TURBO="@ + value + seq!['\0'] + rest;
            marks_turbo(environ) <==> !(value.len() == 0 || value == seq!['0'])
        }),
{
    reveal_strlit("SCX_TURBO=");
    reveal_strlit("0");
    let key = "SCX_TURBO="@;
    let environ = key + value + seq!['\0'] + rest;
    assert(environ.subrange(0, key.len() as int) =~= key);
    assert(turbo_entry(environ, 0));
    let tail = environ.skip(key.len() as int);
    assert(tail =~= value + seq!['\0'] + rest);
    lemma_cut_at(tail, '\0', value.len() as int);
    assert(turbo_value(environ, 0) =~= value);
    assert("0"@ =~= seq!['0']);
    if marks_turbo(environ) {
        let at = choose|at: int|
            #[trigger] turbo_entry(environ, at) && (forall|j: int|
                0 <= j < at ==> !#[trigger] turbo_entry(environ, j)) && truthy(
                turbo_value(environ, at),
            );
        assert(at == 0) by {
            if at > 0 {
                assert(!turbo_entry(environ, 0));
            }
        }
    }
}

} // verus!
