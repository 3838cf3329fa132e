//! Detection of audio daemons, kernel workers, marked processes, desktop
//! components, games and compilations among all processes.

use vstd::prelude::*;
use vstd::slice::slice_subrange;
use vstd::utf8::{decode_utf8, valid_utf8};

use crate::text::{
    chars_of, contains, contains_any, has_any, is_digit, is_one_of, lowercase, occurs, occurs_at,
    parse_unsigned, same_chars, slice_views, split, split_chars, split_nul, split_words, starts_with,
    text_of, to_lower, trim, trimmed, unsigned_value, utf8_text, views, words,
};

verus! {

/// What could be read of a process.
#[derive(Debug)]
pub struct ProcEntry {
    pub pid: u32,
    /// Its name.
    pub comm: Option<String>,
    /// Its status lines.
    pub status: Option<String>,
    /// Its environment.
    pub environ: Option<Vec<u8>>,
    /// Its command line.
    pub cmdline: Option<Vec<u8>>,
}

/// Parts of the names of audio daemons.
pub const AUDIO_COMMS: [&'static str; 6] = [
    "pipewire",
    "wireplumber",
    "pipewire-pulse",
    "pulseaudio",
    "jackd",
    "jackdbus",
];

/// Beginnings of the names of kernel threads that handle input.
pub const INPUT_PATTERNS: [&'static str; 5] = ["ksoftirqd/", "hid-", "usbhid", "input_", "irq/"];

/// Names of desktop components.
pub const DE_COMMS: [&'static str; 35] = [
    "gnome-shell",
    "gnome-panel",
    "plasmashell",
    "kwin_wayland",
    "kwin_x11",
    "plasma-desktop",
    "sway",
    "swaybar",
    "Hyprland",
    "xfce4-panel",
    "xfwm4",
    "xfdesktop",
    "lxqt-panel",
    "pcmanfm-qt",
    "marco",
    "mate-panel",
    "cinnamon",
    "muffin",
    "i3",
    "i3bar",
    "wayfire",
    "weston",
    "gamescope",
    "budgie-panel",
    "budgie-wm",
    "dde-desktop",
    "dde-panel",
    "gala",
    "wingpanel",
    "nautilus",
    "dolphin",
    "thunar",
    "pcmanfm",
    "caja",
    "nemo",
];

/// Names of compilers and build tools.
pub const COMPILE_COMMS: [&'static str; 11] = [
    "cc1",
    "rustc",
    "clang",
    "clang++",
    "ld",
    "ld.lld",
    "ninja",
    "cmake",
    "as",
    "gcc",
    "g++",
];

/// Letters that may stand directly behind such a name and belong to it: a compiler for C++,
/// Objective-C or Go is named after the one for C.
pub const TOOL_ENDINGS: [&'static str; 5] = ["", "plus", "obj", "objplus", "go"];

/// Confidence in a game that was recognised by its Steam environment.
pub const STEAM_CONFIDENCE: u8 = 100;

/// Confidence in a game that was recognised by its Windows program.
pub const WINE_CONFIDENCE: u8 = 90;

/// How many processes of a kind the kernel side keeps.
pub const MAX_TRACKED: usize = 16;

// ---------------------------------------------------------------------------
// Status lines
// ---------------------------------------------------------------------------

/// The number that is the second word of a line.
pub open spec fn second_number(line: Seq<char>) -> Option<u32> {
    if words(line).len() > 1 {
        match unsigned_value(words(line)[1], u32::MAX as nat) {
            Some(v) => Some(v as u32),
            None => None,
        }
    } else {
        None
    }
}

/// The number in the first of `lines` from `i` on that begins with `label`.
pub open spec fn first_number(lines: Seq<Seq<char>>, label: Seq<char>, i: int) -> Option<u32>
    decreases lines.len() - i,
{
    if i < 0 || i >= lines.len() {
        None
    } else if starts_with(lines[i], label) {
        second_number(lines[i])
    } else {
        first_number(lines, label, i + 1)
    }
}

/// The number in the last of the first `n` lines that begins with `label`.
pub open spec fn last_number(lines: Seq<Seq<char>>, label: Seq<char>, n: int) -> Option<u32>
    decreases n,
{
    if n <= 0 {
        None
    } else if starts_with(lines[n - 1], label) {
        second_number(lines[n - 1])
    } else {
        last_number(lines, label, n - 1)
    }
}

/// The number in the last of the first `n` lines that begins with `label` and has a
/// second word; `default` if that is no number, or without such a line.
pub open spec fn number_or(lines: Seq<Seq<char>>, label: Seq<char>, default: u32, n: int) -> u32
    decreases n,
{
    if n <= 0 {
        default
    } else if starts_with(lines[n - 1], label) && words(lines[n - 1]).len() > 1 {
        match second_number(lines[n - 1]) {
            Some(v) => v,
            None => default,
        }
    } else {
        number_or(lines, label, default, n - 1)
    }
}

/// The lines of a text.
pub open spec fn lines_of(s: Seq<char>) -> Seq<Seq<char>> {
    split(s, '\n')
}

/// The thread group that status lines name.
pub open spec fn tgid_in(status: Seq<char>) -> Option<u32> {
    first_number(lines_of(status), "Tgid:"@, 0)
}

fn read_second(line: &[char]) -> (r: (bool, Option<u32>))
    ensures
        r.0 == (words(line@).len() > 1),
        r.1 == second_number(line@),
{
    let fields = split_words(line);
    if fields.len() > 1 {
        assert(slice_views(fields@)[1] == fields@[1]@);
        match parse_unsigned(fields[1], u32::MAX as u64) {
            Some(v) => (true, Some(v as u32)),
            None => (true, None),
        }
    } else {
        (false, None)
    }
}

/// The thread group that status lines name.
pub fn get_tgid_from_status(status: &str) -> (r: Option<u32>)
    ensures
        r == tgid_in(status@),
{
    let text = chars_of(status);
    let label = chars_of("Tgid:");
    let lines = split_chars(text.as_slice(), '\n');
    let ghost pieces = lines_of(status@);
    let mut i: usize = 0;
    while i < lines.len()
        invariant
            i <= lines.len(),
            slice_views(lines@) == pieces,
            pieces == lines_of(status@),
            label@ == "Tgid:"@,
            first_number(pieces, label@, 0) == first_number(pieces, label@, i as int),
        decreases lines.len() - i,
    {
        assert(slice_views(lines@)[i as int] == lines@[i as int]@);
        if occurs(lines[i], label.as_slice(), 0) {
            return read_second(lines[i]).1;
        }
        i = i + 1;
    }
    None
}

/// The parent and the thread group that status lines name, each by its last line.
pub fn parent_and_tgid(status: &str) -> (r: (Option<u32>, Option<u32>))
    ensures
        r.0 == last_number(lines_of(status@), "PPid:"@, lines_of(status@).len() as int),
        r.1 == last_number(lines_of(status@), "Tgid:"@, lines_of(status@).len() as int),
{
    let text = chars_of(status);
    let parent = chars_of("PPid:");
    let group = chars_of("Tgid:");
    let lines = split_chars(text.as_slice(), '\n');
    let ghost pieces = lines_of(status@);
    let mut ppid: Option<u32> = None;
    let mut tgid: Option<u32> = None;
    let mut i: usize = 0;
    while i < lines.len()
        invariant
            i <= lines.len(),
            slice_views(lines@) == pieces,
            parent@ == "PPid:"@,
            group@ == "Tgid:"@,
            ppid == last_number(pieces, parent@, i as int),
            tgid == last_number(pieces, group@, i as int),
        decreases lines.len() - i,
    {
        assert(slice_views(lines@)[i as int] == lines@[i as int]@);
        if occurs(lines[i], parent.as_slice(), 0) {
            ppid = read_second(lines[i]).1;
        }
        if occurs(lines[i], group.as_slice(), 0) {
            tgid = read_second(lines[i]).1;
        }
        i = i + 1;
    }
    (ppid, tgid)
}

/// The thread group and the parent of a game, as its status lines name them.
pub open spec fn game_ids(status: Seq<char>, pid: u32) -> (u32, u32) {
    let lines = lines_of(status);
    (
        number_or(lines, "Tgid:"@, pid, lines.len() as int),
        number_or(lines, "PPid:"@, 0, lines.len() as int),
    )
}

fn read_game_ids(status: &str, pid: u32) -> (r: (u32, u32))
    ensures
        r == game_ids(status@, pid),
{
    let text = chars_of(status);
    let parent = chars_of("PPid:");
    let group = chars_of("Tgid:");
    let lines = split_chars(text.as_slice(), '\n');
    let ghost pieces = lines_of(status@);
    let mut tgid: u32 = pid;
    let mut ppid: u32 = 0;
    let mut i: usize = 0;
    while i < lines.len()
        invariant
            i <= lines.len(),
            slice_views(lines@) == pieces,
            parent@ == "PPid:"@,
            group@ == "Tgid:"@,
            tgid == number_or(pieces, group@, pid, i as int),
            ppid == number_or(pieces, parent@, 0, i as int),
        decreases lines.len() - i,
    {
        assert(slice_views(lines@)[i as int] == lines@[i as int]@);
        let (present, number) = read_second(lines[i]);
        if occurs(lines[i], group.as_slice(), 0) && present {
            tgid = match number {
                Some(v) => v,
                None => pid,
            };
        }
        if occurs(lines[i], parent.as_slice(), 0) && present {
            ppid = match number {
                Some(v) => v,
                None => 0,
            };
        }
        i = i + 1;
    }
    (tgid, ppid)
}

// ---------------------------------------------------------------------------
// Lists of thread groups
// ---------------------------------------------------------------------------

/// `list` with `tgid` behind it, if it is not in it.
pub open spec fn with_tgid(list: Seq<u32>, tgid: u32) -> Seq<u32> {
    if list.contains(tgid) {
        list
    } else {
        list.push(tgid)
    }
}

/// The thread groups of the first `n` processes that `pick` names one for, each once.
pub open spec fn picked(
    entries: Seq<ProcEntry>,
    pick: spec_fn(ProcEntry) -> Option<u32>,
    n: int,
) -> Seq<u32>
    decreases n,
{
    if n <= 0 {
        Seq::empty()
    } else {
        let before = picked(entries, pick, n - 1);
        match pick(entries[n - 1]) {
            Some(tgid) => with_tgid(before, tgid),
            None => before,
        }
    }
}

/// No thread group is listed twice.
pub proof fn picked_lists_each_once(
    entries: Seq<ProcEntry>,
    pick: spec_fn(ProcEntry) -> Option<u32>,
    n: int,
)
    ensures
        picked(entries, pick, n).no_duplicates(),
    decreases n,
{
    if n > 0 {
        picked_lists_each_once(entries, pick, n - 1);
    }
}

fn add_tgid(list: &mut Vec<u32>, tgid: u32)
    ensures
        final(list)@ == with_tgid(old(list)@, tgid),
{
    let mut i: usize = 0;
    while i < list.len()
        invariant
            i <= list.len(),
            list@ == old(list)@,
            forall|j: int| 0 <= j < i ==> list@[j] != tgid,
        decreases list.len() - i,
    {
        if list[i] == tgid {
            return;
        }
        i = i + 1;
    }
    list.push(tgid);
}

/// The name of a process without white space around it.
pub open spec fn name_of(e: ProcEntry) -> Option<Seq<char>> {
    match e.comm {
        Some(comm) => Some(trim(comm@)),
        None => None,
    }
}

/// The thread group of a process.
pub open spec fn tgid_of(e: ProcEntry) -> Option<u32> {
    match e.status {
        Some(status) => tgid_in(status@),
        None => None,
    }
}

fn read_tgid(e: &ProcEntry) -> (r: Option<u32>)
    ensures
        r == tgid_of(*e),
{
    match &e.status {
        Some(status) => get_tgid_from_status(status.as_str()),
        None => None,
    }
}

fn read_name(comm: &String) -> (r: Vec<char>)
    ensures
        r@ == trim(comm@),
{
    let text = chars_of(comm.as_str());
    let name = trimmed(text.as_slice());
    let out = chars_of(text_of(name).as_str());
    out
}

/// `s` begins with one of `labels`.
pub open spec fn begins_with_any(s: Seq<char>, labels: Seq<Seq<char>>) -> bool {
    exists|k: int| 0 <= k < labels.len() && starts_with(s, #[trigger] labels[k])
}

fn begins_with(s: &[char], labels: &[&str]) -> (r: bool)
    ensures
        r == begins_with_any(s@, views(labels@)),
{
    let mut k: usize = 0;
    while k < labels.len()
        invariant
            k <= labels.len(),
            forall|j: int| 0 <= j < k ==> !starts_with(s@, #[trigger] views(labels@)[j]),
        decreases labels.len() - k,
    {
        let label = chars_of(labels[k]);
        assert(views(labels@)[k as int] == label@);
        if occurs(s, label.as_slice(), 0) {
            return true;
        }
        k = k + 1;
    }
    false
}

/// The thread group of an audio daemon.
pub open spec fn audio_tgid(e: ProcEntry) -> Option<u32> {
    if name_of(e) matches Some(name) && contains_any(name, views(AUDIO_COMMS@)) {
        tgid_of(e)
    } else {
        None
    }
}

/// The thread groups of audio daemons.
pub fn detect_audio_daemons(entries: &[ProcEntry]) -> (r: Vec<u32>)
    ensures
        r@ == picked(entries@, |e: ProcEntry| audio_tgid(e), entries@.len() as int),
{
    let ghost pick = |e: ProcEntry| audio_tgid(e);
    let mut out: Vec<u32> = Vec::new();
    let mut i: usize = 0;
    assert(out@ =~= Seq::<u32>::empty());
    while i < entries.len()
        invariant
            i <= entries.len(),
            pick == (|e: ProcEntry| audio_tgid(e)),
            out@ == picked(entries@, pick, i as int),
        decreases entries.len() - i,
    {
        let e = &entries[i];
        if let Some(comm) = &e.comm {
            let name = read_name(comm);
            if has_any(name.as_slice(), AUDIO_COMMS.as_slice()) {
                if let Some(tgid) = read_tgid(e) {
                    add_tgid(&mut out, tgid);
                }
            }
        }
        i = i + 1;
    }
    out
}

/// The thread group of a kernel thread that handles input: its parent is process 2,
/// and its name begins in a known way.
pub open spec fn input_tgid(e: ProcEntry) -> Option<u32> {
    match (e.status, name_of(e)) {
        (Some(status), Some(name)) => {
            let lines = lines_of(status@);
            if last_number(lines, "PPid:"@, lines.len() as int) == Some(2u32) && begins_with_any(
                name,
                views(INPUT_PATTERNS@),
            ) {
                last_number(lines, "Tgid:"@, lines.len() as int)
            } else {
                None
            }
        },
        _ => None,
    }
}

/// The thread groups of kernel threads that handle input.
pub fn detect_input_kworkers(entries: &[ProcEntry]) -> (r: Vec<u32>)
    ensures
        r@ == picked(entries@, |e: ProcEntry| input_tgid(e), entries@.len() as int),
{
    let ghost pick = |e: ProcEntry| input_tgid(e);
    let mut out: Vec<u32> = Vec::new();
    let mut i: usize = 0;
    assert(out@ =~= Seq::<u32>::empty());
    while i < entries.len()
        invariant
            i <= entries.len(),
            pick == (|e: ProcEntry| input_tgid(e)),
            out@ == picked(entries@, pick, i as int),
        decreases entries.len() - i,
    {
        let e = &entries[i];
        if let Some(status) = &e.status {
            let (ppid, tgid) = parent_and_tgid(status.as_str());
            let of_kthreadd = match ppid {
                Some(p) => p == 2,
                None => false,
            };
            if of_kthreadd {
                if let Some(comm) = &e.comm {
                    let name = read_name(comm);
                    if begins_with(name.as_slice(), INPUT_PATTERNS.as_slice()) {
                        if let Some(tgid) = tgid {
                            add_tgid(&mut out, tgid);
                        }
                    }
                }
            }
        }
        i = i + 1;
    }
    out
}

/// The thread group of a thread that handles deferred interrupts.
pub open spec fn ksoftirqd_tgid(e: ProcEntry) -> Option<u32> {
    if name_of(e) matches Some(name) && starts_with(name, "ksoftirqd/"@) {
        tgid_of(e)
    } else {
        None
    }
}

/// The thread groups of threads that handle deferred interrupts.
pub fn detect_ksoftirqd_threads(entries: &[ProcEntry]) -> (r: Vec<u32>)
    ensures
        r@ == picked(entries@, |e: ProcEntry| ksoftirqd_tgid(e), entries@.len() as int),
{
    let ghost pick = |e: ProcEntry| ksoftirqd_tgid(e);
    let label = chars_of("ksoftirqd/");
    let mut out: Vec<u32> = Vec::new();
    let mut i: usize = 0;
    assert(out@ =~= Seq::<u32>::empty());
    while i < entries.len()
        invariant
            i <= entries.len(),
            label@ == "ksoftirqd/"@,
            pick == (|e: ProcEntry| ksoftirqd_tgid(e)),
            out@ == picked(entries@, pick, i as int),
        decreases entries.len() - i,
    {
        let e = &entries[i];
        if let Some(comm) = &e.comm {
            let name = read_name(comm);
            if occurs(name.as_slice(), label.as_slice(), 0) {
                if let Some(tgid) = read_tgid(e) {
                    add_tgid(&mut out, tgid);
                }
            }
        }
        i = i + 1;
    }
    out
}

/// The thread group of a desktop component.
pub open spec fn de_tgid(e: ProcEntry) -> Option<u32> {
    if name_of(e) matches Some(name) && views(DE_COMMS@).contains(name) {
        tgid_of(e)
    } else {
        None
    }
}

/// The thread groups of desktop components.
pub fn detect_de_components(entries: &[ProcEntry]) -> (r: Vec<u32>)
    ensures
        r@ == picked(entries@, |e: ProcEntry| de_tgid(e), entries@.len() as int),
{
    let ghost pick = |e: ProcEntry| de_tgid(e);
    let mut out: Vec<u32> = Vec::new();
    let mut i: usize = 0;
    assert(out@ =~= Seq::<u32>::empty());
    while i < entries.len()
        invariant
            i <= entries.len(),
            pick == (|e: ProcEntry| de_tgid(e)),
            out@ == picked(entries@, pick, i as int),
        decreases entries.len() - i,
    {
        let e = &entries[i];
        if let Some(comm) = &e.comm {
            let name = text_of(read_name(comm).as_slice());
            if is_one_of(name.as_str(), DE_COMMS.as_slice()) {
                if let Some(tgid) = read_tgid(e) {
                    add_tgid(&mut out, tgid);
                }
            }
        }
        i = i + 1;
    }
    out
}

// ---------------------------------------------------------------------------
// Environments and command lines
// ---------------------------------------------------------------------------

/// A piece of an environment or command line is text with a property.
pub open spec fn piece_is(data: Seq<u8>, has: spec_fn(Seq<char>) -> bool) -> bool {
    exists|i: int|
        0 <= i < split(data, 0u8).len() && valid_utf8(#[trigger] split(data, 0u8)[i]) && has(
            decode_utf8(split(data, 0u8)[i]),
        )
}

/// An entry sets `SCX_DESCENT_TURBO` to something other than nothing and "0".
pub open spec fn sets_turbo(entry: Seq<char>) -> bool {
    let key = "SCX_DESCENT_TURBO="@;
    starts_with(entry, key) && entry.len() > key.len() && entry.skip(key.len() as int) != "0"@
}

/// An entry is one of a Steam game.
pub open spec fn sets_steam(entry: Seq<char>) -> bool {
    starts_with(entry, "SteamGameId="@) || starts_with(entry, "STEAM_GAME="@)
}

/// `s` ends with `tail`.
pub open spec fn ends_with(s: Seq<char>, tail: Seq<char>) -> bool {
    occurs_at(s, tail, s.len() - tail.len())
}

/// An argument, in small letters, is a Windows program.
pub open spec fn is_program(arg: Seq<char>) -> bool {
    ends_with(lowercase(arg), ".exe"@)
}

fn entry_sets_turbo(entry: &[char]) -> (r: bool)
    ensures
        r == sets_turbo(entry@),
{
    let key = chars_of("SCX_DESCENT_TURBO=");
    if !occurs(entry, key.as_slice(), 0) || entry.len() <= key.len() {
        return false;
    }
    let value = slice_subrange(entry, key.len(), entry.len());
    assert(value@ =~= entry@.skip(key@.len() as int));
    !same_chars(value, chars_of("0").as_slice())
}

fn entry_sets_steam(entry: &[char]) -> (r: bool)
    ensures
        r == sets_steam(entry@),
{
    occurs(entry, chars_of("SteamGameId=").as_slice(), 0) || occurs(
        entry,
        chars_of("STEAM_GAME=").as_slice(),
        0,
    )
}

/// Whether a text in small letters ends as a Windows program does.
pub fn is_windows_program(lower: &str) -> (r: bool)
    ensures
        r == ends_with(lower@, ".exe"@),
{
    let text = chars_of(lower);
    let tail = chars_of(".exe");
    if text.len() < tail.len() {
        return false;
    }
    occurs(text.as_slice(), tail.as_slice(), text.len() - tail.len())
}

/// What a piece of an environment or command line is asked for.
#[derive(Debug, Clone, Copy, PartialEq, Eq, Structural)]
pub enum Question {
    Turbo,
    Steam,
    Program,
}

/// The answer for a piece.
pub open spec fn answer(q: Question, piece: Seq<char>) -> bool {
    match q {
        Question::Turbo => sets_turbo(piece),
        Question::Steam => sets_steam(piece),
        Question::Program => is_program(piece),
    }
}

fn ask(q: Question, piece: &str) -> (r: bool)
    ensures
        r == answer(q, piece@),
{
    match q {
        Question::Turbo => entry_sets_turbo(chars_of(piece).as_slice()),
        Question::Steam => entry_sets_steam(chars_of(piece).as_slice()),
        Question::Program => is_windows_program(to_lower(piece).as_str()),
    }
}

/// Whether one of the pieces between NULs is text for which the answer is yes.
pub fn any_piece(data: &[u8], q: Question) -> (r: bool)
    ensures
        r == piece_is(data@, |p: Seq<char>| answer(q, p)),
{
    let ghost yes = |p: Seq<char>| answer(q, p);
    let entries = split_nul(data);
    let ghost pieces = split(data@, 0u8);
    let mut i: usize = 0;
    while i < entries.len()
        invariant
            i <= entries.len(),
            slice_views(entries@) == pieces,
            pieces == split(data@, 0u8),
            yes == (|p: Seq<char>| answer(q, p)),
            forall|j: int|
                0 <= j < i ==> !(valid_utf8(#[trigger] pieces[j]) && yes(decode_utf8(pieces[j]))),
        decreases entries.len() - i,
    {
        assert(slice_views(entries@)[i as int] == entries@[i as int]@);
        if let Some(piece) = utf8_text(entries[i]) {
            proof {
                vstd::utf8::encode_utf8_decode_utf8(piece@);
            }
            if ask(q, piece) {
                assert(yes(decode_utf8(pieces[i as int])));
                return true;
            }
        }
        i = i + 1;
    }
    false
}

/// The thread group of a process that is marked by its environment.
pub open spec fn turbo_tgid(e: ProcEntry) -> Option<u32> {
    if e.environ matches Some(environ) && piece_is(
        environ@,
        |p: Seq<char>| answer(Question::Turbo, p),
    ) {
        tgid_of(e)
    } else {
        None
    }
}

/// The thread groups of the first processes that are marked by their environment, as
/// many as are kept.
pub fn detect_turbo_processes(entries: &[ProcEntry]) -> (r: Vec<u32>)
    ensures
        r@ == ({
            let all = picked(entries@, |e: ProcEntry| turbo_tgid(e), entries@.len() as int);
            if all.len() > MAX_TRACKED {
                all.take(MAX_TRACKED as int)
            } else {
                all
            }
        }),
{
    let ghost pick = |e: ProcEntry| turbo_tgid(e);
    let mut out: Vec<u32> = Vec::new();
    let mut i: usize = 0;
    assert(out@ =~= Seq::<u32>::empty());
    while i < entries.len()
        invariant
            i <= entries.len(),
            pick == (|e: ProcEntry| turbo_tgid(e)),
            out@ == picked(entries@, pick, i as int),
        decreases entries.len() - i,
    {
        let e = &entries[i];
        if let Some(environ) = &e.environ {
            if any_piece(environ.as_slice(), Question::Turbo) {
                if let Some(tgid) = read_tgid(e) {
                    add_tgid(&mut out, tgid);
                }
            }
        }
        i = i + 1;
    }
    if out.len() > MAX_TRACKED {
        out.truncate(MAX_TRACKED);
    }
    out
}

/// The game that a process is: its thread group, its parent, and the confidence in
/// it. Nothing is known without status lines.
pub open spec fn game_in(e: ProcEntry) -> Option<(u32, u32, u8)> {
    match e.status {
        Some(status) => {
            let (tgid, ppid) = game_ids(status@, e.pid);
            if e.environ matches Some(environ) && piece_is(
                environ@,
                |p: Seq<char>| answer(Question::Steam, p),
            ) {
                Some((tgid, ppid, STEAM_CONFIDENCE))
            } else if e.cmdline matches Some(cmdline) && piece_is(
                cmdline@,
                |p: Seq<char>| answer(Question::Program, p),
            ) {
                Some((tgid, ppid, WINE_CONFIDENCE))
            } else {
                None
            }
        },
        None => None,
    }
}

/// The first game among the processes from `i` on.
pub open spec fn first_game(entries: Seq<ProcEntry>, i: int) -> Option<(u32, u32, u8)>
    decreases entries.len() - i,
{
    if i < 0 || i >= entries.len() {
        None
    } else {
        match game_in(entries[i]) {
            Some(game) => Some(game),
            None => first_game(entries, i + 1),
        }
    }
}

fn read_game(e: &ProcEntry) -> (r: Option<(u32, u32, u8)>)
    ensures
        r == game_in(*e),
{
    match &e.status {
        Some(status) => {
            if let Some(environ) = &e.environ {
                if any_piece(environ.as_slice(), Question::Steam) {
                    let (tgid, ppid) = read_game_ids(status.as_str(), e.pid);
                    return Some((tgid, ppid, STEAM_CONFIDENCE));
                }
            }
            if let Some(cmdline) = &e.cmdline {
                if any_piece(cmdline.as_slice(), Question::Program) {
                    let (tgid, ppid) = read_game_ids(status.as_str(), e.pid);
                    return Some((tgid, ppid, WINE_CONFIDENCE));
                }
            }
            None
        },
        None => None,
    }
}

/// The first game: its thread group, its parent, and the confidence in it.
pub fn detect_game_process(entries: &[ProcEntry]) -> (r: Option<(u32, u32, u8)>)
    ensures
        r == first_game(entries@, 0),
{
    let mut i: usize = 0;
    while i < entries.len()
        invariant
            i <= entries.len(),
            first_game(entries@, 0) == first_game(entries@, i as int),
        decreases entries.len() - i,
    {
        if let Some(game) = read_game(&entries[i]) {
            return Some(game);
        }
        i = i + 1;
    }
    None
}

/// A letter of the alphabet.
pub open spec fn is_letter(c: char) -> bool {
    'a' <= c <= 'z' || 'A' <= c <= 'Z'
}

/// No word goes on from before `i` in `name`.
pub open spec fn starts_word(name: Seq<char>, i: int) -> bool {
    i == 0 || !(is_letter(name[i - 1]) || is_digit(name[i - 1]))
}

/// No letter stands at `i` in `name`; a version or another word may.
pub open spec fn ends_word(name: Seq<char>, i: int) -> bool {
    i == name.len() || !is_letter(name[i])
}

/// A tool stands in `name` at `i` as a word, or as one with the given ending.
pub open spec fn names_tool(name: Seq<char>, tool: Seq<char>, ending: Seq<char>, i: int) -> bool {
    &&& occurs_at(name, tool, i)
    &&& starts_word(name, i)
    &&& occurs_at(name, ending, i + tool.len())
    &&& ends_word(name, i + tool.len() + ending.len())
}

/// `name` is that of a compiler or build tool, possibly with a target, a language or a
/// version.
pub open spec fn is_compiler(name: Seq<char>) -> bool {
    exists|t: int, e: int, i: int|
        0 <= t < COMPILE_COMMS@.len() && 0 <= e < TOOL_ENDINGS@.len() && #[trigger] names_tool(
            name,
            COMPILE_COMMS@[t]@,
            TOOL_ENDINGS@[e]@,
            i,
        )
}

fn letter(c: char) -> (r: bool)
    ensures
        r == is_letter(c),
{
    ('a' <= c && c <= 'z') || ('A' <= c && c <= 'Z')
}

fn has_tool(name: &[char], tool: &[char], ending: &[char]) -> (r: bool)
    ensures
        r == (exists|i: int| #[trigger] names_tool(name@, tool@, ending@, i)),
{
    let mut i: usize = 0;
    while i < name.len()
        invariant
            i <= name.len(),
            forall|j: int| 0 <= j < i ==> !#[trigger] names_tool(name@, tool@, ending@, j),
        decreases name.len() - i,
    {
        if tool_here(name, tool, ending, i) {
            return true;
        }
        i = i + 1;
    }
    let last = tool_here(name, tool, ending, i);
    assert forall|j: int| !last implies !#[trigger] names_tool(name@, tool@, ending@, j) by {
        if j == i {
            assert(!names_tool(name@, tool@, ending@, i as int));
        }
    }
    last
}

fn tool_here(name: &[char], tool: &[char], ending: &[char], i: usize) -> (r: bool)
    ensures
        r == names_tool(name@, tool@, ending@, i as int),
{
    if !occurs(name, tool, i) {
        return false;
    }
    if i > 0 {
        let before = name[i - 1];
        if letter(before) || ('0' <= before && before <= '9') {
            return false;
        }
    }
    let length: usize = name.len();
    assert(i + tool@.len() <= length);
    let behind: usize = i + tool.len();
    if !occurs(name, ending, behind) {
        return false;
    }
    assert(behind + ending@.len() <= length);
    let end: usize = behind + ending.len();
    end == name.len() || !letter(name[end])
}

fn compiler(name: &[char]) -> (r: bool)
    ensures
        r == is_compiler(name@),
{
    let mut t: usize = 0;
    while t < COMPILE_COMMS.len()
        invariant
            t <= COMPILE_COMMS@.len(),
            forall|u: int, e: int, i: int|
                0 <= u < t && 0 <= e < TOOL_ENDINGS@.len() ==> !#[trigger] names_tool(
                    name@,
                    COMPILE_COMMS@[u]@,
                    TOOL_ENDINGS@[e]@,
                    i,
                ),
        decreases COMPILE_COMMS@.len() - t,
    {
        let tool = chars_of(COMPILE_COMMS[t]);
        let mut k: usize = 0;
        while k < TOOL_ENDINGS.len()
            invariant
                t < COMPILE_COMMS@.len(),
                k <= TOOL_ENDINGS@.len(),
                tool@ == COMPILE_COMMS@[t as int]@,
                forall|e: int, i: int|
                    0 <= e < k ==> !#[trigger] names_tool(
                        name@,
                        COMPILE_COMMS@[t as int]@,
                        TOOL_ENDINGS@[e]@,
                        i,
                    ),
            decreases TOOL_ENDINGS@.len() - k,
        {
            let ending = chars_of(TOOL_ENDINGS[k]);
            assert(ending@ == TOOL_ENDINGS@[k as int]@);
            if has_tool(name, tool.as_slice(), ending.as_slice()) {
                return true;
            }
            k = k + 1;
        }
        t = t + 1;
    }
    false
}

/// The number of compilers and build tools among the first `n` processes.
pub open spec fn compilers(entries: Seq<ProcEntry>, n: int) -> nat
    decreases n,
{
    if n <= 0 {
        0
    } else {
        compilers(entries, n - 1) + (if name_of(entries[n - 1]) matches Some(name) && is_compiler(
            name,
        ) {
            1nat
        } else {
            0nat
        })
    }
}

/// Each listed tool counts by its own name, and every name that counts holds a listed one.
pub proof fn compilers_are_listed_tools(t: int, name: Seq<char>)
    requires
        0 <= t < COMPILE_COMMS@.len(),
    ensures
        is_compiler(COMPILE_COMMS@[t]@),
        is_compiler(name) ==> contains_any(name, views(COMPILE_COMMS@)),
{
    let tool = COMPILE_COMMS@[t]@;
    reveal_strlit("");
    assert(tool.subrange(0, tool.len() as int) =~= tool);
    assert(tool.subrange(tool.len() as int, tool.len() as int) =~= ""@);
    assert(names_tool(tool, tool, TOOL_ENDINGS@[0]@, 0));
    if is_compiler(name) {
        let (u, e, i) = choose|u: int, e: int, i: int|
            0 <= u < COMPILE_COMMS@.len() && 0 <= e < TOOL_ENDINGS@.len() && #[trigger] names_tool(
                name,
                COMPILE_COMMS@[u]@,
                TOOL_ENDINGS@[e]@,
                i,
            );
        assert(occurs_at(name, views(COMPILE_COMMS@)[u], i));
        assert(contains(name, views(COMPILE_COMMS@)[u]));
    }
}

proof fn lemma_compilers_grow(entries: Seq<ProcEntry>, a: int, b: int)
    requires
        a <= b,
    ensures
        compilers(entries, a) <= compilers(entries, b),
    decreases b - a,
{
    if a < b {
        lemma_compilers_grow(entries, a, b - 1);
    }
}

/// State of the system: 2 while there is a game, 1 while at least two compilers run,
/// else 0.
pub fn detect_sched_state(game_tgid: u32, entries: &[ProcEntry]) -> (r: u32)
    ensures
        r == if game_tgid != 0 {
            2u32
        } else if compilers(entries@, entries@.len() as int) >= 2 {
            1u32
        } else {
            0u32
        },
{
    if game_tgid != 0 {
        return 2;
    }
    let mut count: u32 = 0;
    let mut i: usize = 0;
    while i < entries.len()
        invariant
            i <= entries.len(),
            count == compilers(entries@, i as int),
            count < 2,
            game_tgid == 0,
        decreases entries.len() - i,
    {
        if let Some(comm) = &entries[i].comm {
            let name = read_name(comm);
            if compiler(name.as_slice()) {
                count = count + 1;
                if count >= 2 {
                    proof {
                        lemma_compilers_grow(entries@, i + 1, entries@.len() as int);
                    }
                    return 1;
                }
            }
        }
        i = i + 1;
    }
    0
}

// ---------------------------------------------------------------------------
// What the kernel side keeps
// ---------------------------------------------------------------------------

/// The slots after a list was written over `slots`.
pub open spec fn overlaid(slots: Seq<u32>, list: Seq<u32>) -> Seq<u32> {
    Seq::new(slots.len(), |i: int| if i < list.len() { list[i] } else { slots[i] })
}

/// The number of slots that a list takes.
pub open spec fn taken(list: Seq<u32>) -> int {
    if list.len() < MAX_TRACKED {
        list.len() as int
    } else {
        MAX_TRACKED as int
    }
}

/// Writes a list over `slots`, as far as they go, and returns how many it took.
pub fn overlay_slots(slots: &mut [u32; MAX_TRACKED], list: &[u32]) -> (r: u32)
    ensures
        final(slots)@ == overlaid(old(slots)@, list@),
        r == taken(list@),
{
    let mut i: usize = 0;
    while i < MAX_TRACKED && i < list.len()
        invariant
            i <= 16,
            i <= list.len(),
            slots@.len() == 16,
            forall|j: int| 0 <= j < 16 ==> #[trigger] slots@[j] == if j < i { list@[j] } else { old(slots)@[j] },
        decreases 16 - i,
    {
        slots[i] = list[i];
        i = i + 1;
    }
    assert(slots@ =~= overlaid(old(slots)@, list@));
    i as u32
}

/// The slots that hold a list, as far as they go, with zeros behind it, and how many it
/// takes.
pub fn slots_of(list: &[u32]) -> (r: ([u32; MAX_TRACKED], u32))
    ensures
        forall|i: int|
            0 <= i < MAX_TRACKED ==> #[trigger] r.0[i] == if i < list@.len() {
                list@[i]
            } else {
                0
            },
        r.1 == taken(list@),
{
    let mut slots: [u32; MAX_TRACKED] = [0; MAX_TRACKED];
    let count: u32 = overlay_slots(&mut slots, list);
    (slots, count)
}

/// Whether processes are looked at in a pass of the main loop: in every 500th.
pub fn detection_due(pass: u64) -> (r: bool)
    ensures
        r == (pass % 500 == 0),
{
    pass % 500 == 0
}

/// The kernel side is told of a state and a game if the state is new or there is a
/// game.
pub fn state_needs_update(new_state: u32, current_state: u32, game_tgid: u32) -> (r: bool)
    ensures
        r == (new_state != current_state || game_tgid != 0),
{
    new_state != current_state || game_tgid != 0
}

/// What changed about marked processes.
#[derive(Debug, Clone, Copy, PartialEq, Eq, Structural)]
pub enum TurboChange {
    /// The same processes as before.
    Unchanged,
    /// There are marked processes, and they differ from those before.
    Active,
    /// There are none any more.
    Deactivated,
}

/// What changed about marked processes from `last` to `now`.
pub fn turbo_change(last: &Vec<u32>, now: &Vec<u32>) -> (r: TurboChange)
    ensures
        r == if last@ == now@ {
            TurboChange::Unchanged
        } else if now@.len() > 0 {
            TurboChange::Active
        } else {
            TurboChange::Deactivated
        },
{
    let mut equal = last.len() == now.len();
    let mut i: usize = 0;
    while equal && i < last.len()
        invariant
            i <= last.len(),
            equal ==> last.len() == now.len(),
            equal ==> forall|j: int| 0 <= j < i ==> last@[j] == now@[j],
            !equal ==> last@ != now@,
        decreases last.len() - i + (if equal { 1int } else { 0int }),
    {
        if last[i] != now[i] {
            equal = false;
        } else {
            i = i + 1;
        }
    }
    if equal {
        assert(last@ =~= now@);
        TurboChange::Unchanged
    } else if now.len() > 0 {
        TurboChange::Active
    } else {
        TurboChange::Deactivated
    }
}

/// The thread groups that are picked are exactly those named for some process.
pub proof fn picked_are_those_named(
    entries: Seq<ProcEntry>,
    pick: spec_fn(ProcEntry) -> Option<u32>,
    n: int,
    tgid: u32,
)
    requires
        0 <= n <= entries.len(),
    ensures
        picked(entries, pick, n).contains(tgid) <==> exists|i: int|
            0 <= i < n && pick(#[trigger] entries[i]) == Some(tgid),
    decreases n,
{
    if n > 0 {
        picked_are_those_named(entries, pick, n - 1, tgid);
        let (before, list) = (picked(entries, pick, n - 1), picked(entries, pick, n));
        if before.contains(tgid) {
            let i = choose|i: int| 0 <= i < n - 1 && pick(#[trigger] entries[i]) == Some(tgid);
            assert(pick(entries[i]) == Some(tgid) && 0 <= i < n);
            let j = choose|j: int| 0 <= j < before.len() && before[j] == tgid;
            assert(list[j] == tgid);
        }
        if pick(entries[n - 1]) == Some(tgid) && !before.contains(tgid) {
            assert(list[list.len() - 1] == tgid);
        }
        if list.contains(tgid) && !before.contains(tgid) {
            let j = choose|j: int| 0 <= j < list.len() && list[j] == tgid;
            if j < before.len() {
                assert(before[j] == tgid);
            }
            assert(pick(entries[n - 1]) == Some(tgid));
        }
    }
}

/// The game that is found is that of the first process that is one. Games of Steam are
/// certain, Windows programs count nine tenths, and Steam goes before.
pub proof fn first_games_are_found(entries: Seq<ProcEntry>)
    ensures
        match first_game(entries, 0) {
            Some(game) => exists|i: int|
                0 <= i < entries.len() && game_in(#[trigger] entries[i]) == Some(game) && (forall|j: int|
                    0 <= j < i ==> game_in(#[trigger] entries[j]) is None),
            None => forall|j: int|
                0 <= j < entries.len() ==> game_in(#[trigger] entries[j]) is None,
        },
        forall|e: ProcEntry|
            (#[trigger] game_in(e)) matches Some(game) ==> (game.2 == 100 <==> e.environ is Some
                && piece_is(e.environ->0@, |p: Seq<char>| answer(Question::Steam, p))) && (game.2
                == 100 || game.2 == 90),
{
    lemma_first_game_from(entries, 0);
}

proof fn lemma_first_game_from(entries: Seq<ProcEntry>, from: int)
    requires
        0 <= from <= entries.len(),
        forall|j: int| 0 <= j < from ==> game_in(#[trigger] entries[j]) is None,
    ensures
        match first_game(entries, from) {
            Some(game) => exists|i: int|
                0 <= i < entries.len() && game_in(#[trigger] entries[i]) == Some(game) && (forall|j: int|
                    0 <= j < i ==> game_in(#[trigger] entries[j]) is None),
            None => forall|j: int|
                0 <= j < entries.len() ==> game_in(#[trigger] entries[j]) is None,
        },
    decreases entries.len() - from,
{
    if from < entries.len() && game_in(entries[from]) is None {
        lemma_first_game_from(entries, from + 1);
    }
}

/// A process more counts as a compiler exactly where it has the name of one, and at most
/// all count.
pub proof fn compilers_are_counted(entries: Seq<ProcEntry>, e: ProcEntry)
    ensures
        ({
            let n = entries.len() as int;
            let (before, after) = (compilers(entries, n), compilers(entries.push(e), n + 1));
            &&& before <= n
            &&& after == before + 1 <==> name_of(e) is Some && is_compiler(name_of(e)->0)
            &&& after == before || after == before + 1
        }),
{
    lemma_same_compilers(entries, entries.push(e), entries.len() as int);
}

proof fn lemma_same_compilers(a: Seq<ProcEntry>, b: Seq<ProcEntry>, n: int)
    requires
        0 <= n <= a.len(),
        n <= b.len(),
        forall|i: int| 0 <= i < n ==> a[i] == b[i],
    ensures
        compilers(a, n) == compilers(b, n) <= n,
    decreases n,
{
    if n > 0 {
        lemma_same_compilers(a, b, n - 1);
    }
}

/// An entry marks its task where a value other than "0" stands behind the key.
pub proof fn values_mark_tasks(value: Seq<char>)
    ensures
        sets_turbo("SCX_DESCENT_TURBO="@ + value) <==> !(value.len() == 0 || value == seq!['0']),
{
    reveal_strlit("SCX_DESCENT_TURBO=");
    reveal_strlit("0");
    let key = "SCX_DESCENT_TURBO="@;
    let entry = key + value;
    assert(entry.subrange(0, 0 + key.len() as int) =~= key);
    assert(entry.skip(key.len() as int) =~= value);
    assert("0"@ =~= seq!['0']);
}

} // verus!
