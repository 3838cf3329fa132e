//! Recognises games, tasks marked by the user, desktop components and audio tasks.

use vstd::prelude::*;
use vstd::utf8::{decode_utf8, valid_utf8};

use crate::text::{
    chars_of, contains, find, is_one_of, lossy, lossy_text, lowercase, occurs, same_chars,
    slice_views, split, split_nul, starts_with, to_lower, utf8_text, views,
};

verus! {

/// Processes of desktop environments.
pub const DE_PROCESSES: [&'static str; 14] = [
    "kwin",
    "kwin_wayland",
    "kwin_x11",
    "mutter",
    "gnome-shell",
    "gnome-session",
    "sway",
    "wayfire",
    "hyprland",
    "xfwm4",
    "openbox",
    "i3",
    "compositor",
    "weston",
];

/// Processes that handle audio.
pub const AUDIO_PROCESSES: [&'static str; 8] = [
    "pipewire",
    "pipewire-pulse",
    "pipewire-media-session",
    "pulseaudio",
    "jackd",
    "jackdbus",
    "alsa-sink",
    "alsa-source",
];

/// One of the entries of an environment is text that begins with `prefix`.
pub open spec fn env_has(environ: Seq<u8>, prefix: Seq<char>) -> bool {
    exists|i: int|
        0 <= i < split(environ, 0u8).len() && valid_utf8(#[trigger] split(environ, 0u8)[i])
            && starts_with(decode_utf8(split(environ, 0u8)[i]), prefix)
}

/// One of the entries of an environment is the text `entry`.
pub open spec fn env_holds(environ: Seq<u8>, entry: Seq<char>) -> bool {
    exists|i: int|
        0 <= i < split(environ, 0u8).len() && valid_utf8(#[trigger] split(environ, 0u8)[i])
            && decode_utf8(split(environ, 0u8)[i]) == entry
}

/// Recognises tasks by their name, environment and command line.
pub struct TaskClassifier {}

impl TaskClassifier {
    /// A classifier.
    pub fn new() -> (r: Self)
        ensures
            r == (TaskClassifier {  }),
    {
        TaskClassifier {  }
    }

    /// Whether an environment, as the kernel shows it, marks its task by `SCX_TURBO=1`.
    pub fn check_scx_turbo(environ: &[u8]) -> (r: bool)
        ensures
            r == env_holds(environ@, "SCX_TURBO=1"@),
    {
        TaskClassifier::check_env_entry(environ, "SCX_TURBO=1")
    }

    /// Whether one of the entries of an environment is the text `entry`.
    pub fn check_env_entry(environ: &[u8], entry: &str) -> (r: bool)
        ensures
            r == env_holds(environ@, entry@),
    {
        let entries = split_nul(environ);
        let wanted = chars_of(entry);
        let ghost pieces = split(environ@, 0u8);
        let mut i: usize = 0;
        while i < entries.len()
            invariant
                i <= entries.len(),
                slice_views(entries@) == pieces,
                pieces == split(environ@, 0u8),
                wanted@ == entry@,
                forall|j: int|
                    0 <= j < i ==> !(valid_utf8(#[trigger] pieces[j]) && decode_utf8(pieces[j])
                        == entry@),
            decreases entries.len() - i,
        {
            assert(slice_views(entries@)[i as int] == entries@[i as int]@);
            if let Some(text) = utf8_text(entries[i]) {
                proof {
                    vstd::utf8::encode_utf8_decode_utf8(text@);
                    assert(text@ == decode_utf8(pieces[i as int]));
                }
                if same_chars(chars_of(text).as_slice(), wanted.as_slice()) {
                    return true;
                }
            }
            i = i + 1;
        }
        false
    }

    /// Whether an environment is that of a Steam game.
    pub fn check_steam_game(environ: &[u8]) -> (r: bool)
        ensures
            r == (env_has(environ@, "SteamGameId="@) || env_has(environ@, "STEAM_GAME="@)),
    {
        if TaskClassifier::check_env_var(environ, "SteamGameId=") {
            return true;
        }
        if TaskClassifier::check_env_var(environ, "STEAM_GAME=") {
            return true;
        }
        false
    }

    /// Whether a name is that of a desktop environment process.
    pub fn is_de_task(&self, comm: &str) -> (r: bool)
        ensures
            r == views(DE_PROCESSES@).contains(comm@),
    {
        is_one_of(comm, DE_PROCESSES.as_slice())
    }

    /// Whether a name is that of an audio process.
    pub fn is_audio_task(&self, comm: &str) -> (r: bool)
        ensures
            r == views(AUDIO_PROCESSES@).contains(comm@),
    {
        is_one_of(comm, AUDIO_PROCESSES.as_slice())
    }

    /// Whether a command line mentions an `.exe` file, as that of a Windows game does.
    pub fn has_exe_in_cmdline(cmdline: &[u8]) -> (r: bool)
        ensures
            r == contains(lowercase(lossy(cmdline@)), ".exe"@),
    {
        let text = lossy_text(cmdline);
        let lower = to_lower(text.as_str());
        TaskClassifier::mentions_exe(lower.as_str())
    }

    /// Whether a text in small letters mentions an `.exe` file.
    pub fn mentions_exe(lower: &str) -> (r: bool)
        ensures
            r == contains(lower@, ".exe"@),
    {
        let hay = chars_of(lower);
        let needle = chars_of(".exe");
        find(hay.as_slice(), needle.as_slice()).is_some()
    }

    /// Whether one of the entries of an environment is text that begins with
    /// `var_prefix`.
    pub fn check_env_var(environ: &[u8], var_prefix: &str) -> (r: bool)
        ensures
            r == env_has(environ@, var_prefix@),
    {
        let entries = split_nul(environ);
        let prefix = chars_of(var_prefix);
        let ghost pieces = split(environ@, 0u8);
        let mut i: usize = 0;
        while i < entries.len()
            invariant
                i <= entries.len(),
                slice_views(entries@) == pieces,
                pieces == split(environ@, 0u8),
                prefix@ == var_prefix@,
                forall|j: int|
                    0 <= j < i ==> !(valid_utf8(#[trigger] pieces[j]) && starts_with(
                        decode_utf8(pieces[j]),
                        var_prefix@,
                    )),
            decreases entries.len() - i,
        {
            assert(slice_views(entries@)[i as int] == entries@[i as int]@);
            if let Some(entry) = utf8_text(entries[i]) {
                proof {
                    vstd::utf8::encode_utf8_decode_utf8(entry@);
                    assert(entry@ == decode_utf8(pieces[i as int]));
                }
                let text = chars_of(entry);
                if occurs(text.as_slice(), prefix.as_slice(), 0) {
                    return true;
                }
            }
            i = i + 1;
        }
        false
    }

    /// Whether a task is marked by the user, a game, a desktop component, an audio task.
    pub fn classify(&self, environ: &[u8], cmdline: &[u8], comm: &str) -> (r: (bool, bool, bool, bool))
        ensures
            r == (
                env_holds(environ@, "SCX_TURBO=1"@),
                env_has(environ@, "SteamGameId="@) || env_has(environ@, "STEAM_GAME="@) || contains(
                    lowercase(lossy(cmdline@)),
                    ".exe"@,
                ),
                views(DE_PROCESSES@).contains(comm@),
                views(AUDIO_PROCESSES@).contains(comm@),
            ),
    {
        let is_scx_turbo = TaskClassifier::check_scx_turbo(environ);
        let is_steam_game = TaskClassifier::check_steam_game(environ)
            || TaskClassifier::has_exe_in_cmdline(cmdline);
        let is_de = self.is_de_task(comm);
        let is_audio = self.is_audio_task(comm);
        (is_scx_turbo, is_steam_game, is_de, is_audio)
    }
}

impl Default for TaskClassifier {
    fn default() -> (r: Self)
        ensures
            r == (TaskClassifier {  }),
    {
        TaskClassifier::new()
    }
}

} // verus!
