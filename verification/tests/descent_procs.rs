use scx_scheds::descent::procs::{
    any_piece, detect_audio_daemons, detect_de_components, detect_game_process,
    detect_input_kworkers, detect_ksoftirqd_threads, detect_sched_state, detect_turbo_processes,
    detection_due,
    get_tgid_from_status, is_windows_program, overlay_slots, parent_and_tgid, slots_of,
    state_needs_update, turbo_change, ProcEntry, Question, TurboChange,
};

fn entry(pid: u32, comm: &str, status: &str, environ: &[u8], cmdline: &[u8]) -> ProcEntry {
    ProcEntry {
        pid,
        comm: Some(comm.to_string()),
        status: Some(status.to_string()),
        environ: Some(environ.to_vec()),
        cmdline: Some(cmdline.to_vec()),
    }
}

fn status(tgid: u32, ppid: u32) -> String {
    format!("Name:\tx\nTgid:\t{}\nPid:\t9\nPPid:\t{}\n", tgid, ppid)
}

#[test]
fn status_lines() {
    assert_eq!(get_tgid_from_status(&status(7, 2)), Some(7));
    assert_eq!(get_tgid_from_status("Tgid:\nTgid: 4\n"), None);
    assert_eq!(get_tgid_from_status("Tgid: x\n"), None);
    assert_eq!(get_tgid_from_status(" Tgid: 3"), None);
    assert_eq!(get_tgid_from_status("Tgid: 4294967296"), None);
    assert_eq!(parent_and_tgid("PPid: 1\nTgid: 3\nPPid: 2\n"), (Some(2), Some(3)));
}

#[test]
fn audio_daemons() {
    let e = [
        entry(1, "pipewire-pulse\n", &status(10, 1), b"", b""),
        entry(2, "bash\n", &status(11, 1), b"", b""),
        entry(3, "xjackdx", &status(12, 1), b"", b""),
        entry(4, "wireplumber", &status(10, 1), b"", b""),
        ProcEntry { pid: 5, comm: Some("jackd".to_string()), status: None, environ: None, cmdline: None },
    ];
    assert_eq!(detect_audio_daemons(&e), [10, 12]);
}

#[test]
fn input_workers_have_kthreadd_as_parent() {
    let e = [
        entry(1, "irq/17-i801\n", &status(20, 2), b"", b""),
        entry(2, "irq/17-i801\n", &status(21, 1), b"", b""),
        entry(3, "my-hid-\n", &status(22, 2), b"", b""),
        entry(4, "usbhid\n", &status(23, 2), b"", b""),
    ];
    assert_eq!(detect_input_kworkers(&e), [20, 23]);
}

#[test]
fn ksoftirqd_threads() {
    let e = [
        entry(1, "ksoftirqd/0\n", &status(16, 2), b"", b""),
        entry(2, "ksoftirqd", &status(17, 2), b"", b""),
        entry(3, "ksoftirqd/1", &status(18, 2), b"", b""),
    ];
    assert_eq!(detect_ksoftirqd_threads(&e), [16, 18]);
}

#[test]
fn desktop_components_by_exact_name() {
    let e = [
        entry(1, "gnome-shell\n", &status(1, 1), b"", b""),
        entry(2, "gnome-shell-x\n", &status(2, 1), b"", b""),
        entry(3, "nemo", &status(3, 1), b"", b""),
        entry(4, "hyprland", &status(4, 1), b"", b""),
        entry(5, "Hyprland", &status(5, 1), b"", b""),
    ];
    assert_eq!(detect_de_components(&e), [1, 3, 5]);
}

#[test]
fn turbo_processes() {
    let e = [
        entry(1, "a", &status(1, 1), b"A=1\0SCX_DESCENT_TURBO=1\0", b""),
        entry(2, "a", &status(2, 1), b"SCX_DESCENT_TURBO=0\0", b""),
        entry(3, "a", &status(3, 1), b"SCX_DESCENT_TURBO=\0", b""),
        entry(4, "a", &status(4, 1), b"X_SCX_DESCENT_TURBO=1\0", b""),
        entry(5, "a", &status(1, 1), b"SCX_DESCENT_TURBO=yes", b""),
        entry(6, "a", &status(6, 1), b"SCX_DESCENT_TURBO=\xff\0SCX_DESCENT_TURBO=2", b""),
    ];
    assert_eq!(detect_turbo_processes(&e), [1, 6]);
}

#[test]
fn at_most_sixteen_turbo_processes() {
    let e: Vec<ProcEntry> = (1..30)
        .map(|i| entry(i, "a", &status(i, 1), b"SCX_DESCENT_TURBO=1", b""))
        .collect();
    let r = detect_turbo_processes(&e);
    assert_eq!(r.len(), 16);
    assert_eq!((r[0], r[15]), (1, 16));
}

#[test]
fn games() {
    let steam = entry(5, "game", &status(50, 40), b"SteamGameId=570\0", b"");
    let wine = entry(6, "wine", &status(60, 41), b"", b"C:\\Game.EXE\0-x\0");
    let shell = entry(7, "bash", &status(70, 1), b"HOME=/", b"bash\0");
    let none = entry(8, "x", "Tgid: \nPPid: x\n", b"STEAM_GAME=1", b"");
    assert_eq!(detect_game_process(&[]), None);
    assert_eq!(detect_game_process(&[shell]), None);
    let shell = entry(7, "bash", &status(70, 1), b"HOME=/", b"a.exe.bak\0");
    assert_eq!(detect_game_process(&[shell, wine]), Some((60, 41, 90)));
    let wine = entry(6, "wine", &status(60, 41), b"", b"C:\\Game.EXE\0");
    assert_eq!(detect_game_process(&[steam, wine]), Some((50, 40, 100)));
    assert_eq!(detect_game_process(&[none]), Some((8, 0, 100)));
    let blind = ProcEntry {
        pid: 1,
        comm: None,
        status: None,
        environ: Some(b"SteamGameId=1".to_vec()),
        cmdline: None,
    };
    assert_eq!(detect_game_process(&[blind]), None);
}

#[test]
fn pieces_are_asked_one_by_one() {
    assert!(any_piece(b"x\0a.exe\0", Question::Program));
    assert!(any_piece(b"x\0A.ExE", Question::Program));
    assert!(!any_piece(b"a.exe \0", Question::Program));
    assert!(!any_piece(b"", Question::Steam));
    assert!(is_windows_program("a.exe"));
    assert!(!is_windows_program("exe"));
}

#[test]
fn states_of_the_system() {
    let e = [
        entry(1, "rustc\n", "", b"", b""),
        entry(2, "vim", "", b"", b""),
        entry(3, "gcc", "", b"", b""),
    ];
    assert_eq!(detect_sched_state(5, &e), 2);
    assert_eq!(detect_sched_state(0, &e), 1);
    assert_eq!(detect_sched_state(0, &e[..2]), 0);
    assert!(state_needs_update(1, 0, 0));
    assert!(state_needs_update(2, 2, 9));
    assert!(!state_needs_update(0, 0, 0));
}

#[test]
fn names_of_compilers() {
    let two = |name: &str| {
        let e = [entry(1, name, "", b"", b""), entry(2, name, "", b"", b"")];
        detect_sched_state(0, &e)
    };
    for name in [
        "cc1",
        "cc1plus\n",
        "cc1obj",
        "clang-18",
        "clang++",
        "clang++-18",
        "ld",
        "ld.gold",
        "ld.lld",
        "x86_64-gcc-12",
        "gcc12",
        "g++-13",
        "gccgo",
        "rustc",
        "ninja",
        "cmake3",
        "as",
        "llvm-as",
    ] {
        assert_eq!(two(name), 1, "{name}");
    }
    for name in ["bash", "plasmashell", "golden", "clangd", "asd", "cc1pluses", "ccc1", "", "vim"] {
        assert_eq!(two(name), 0, "{name}");
    }
}

#[test]
fn slots_of_the_kernel_side() {
    let (slots, n) = slots_of(&[4, 5]);
    assert_eq!((slots[0], slots[1], slots[2], slots[15], n), (4, 5, 0, 0, 2));
    let many: Vec<u32> = (0..20).collect();
    let (slots, n) = slots_of(&many);
    assert_eq!((slots[15], n), (15, 16));
    let mut kept = [9; 16];
    assert_eq!(overlay_slots(&mut kept, &[1]), 1);
    assert_eq!((kept[0], kept[1]), (1, 9));
}

#[test]
fn changes_of_marked_processes() {
    assert_eq!(turbo_change(&vec![1], &vec![1]), TurboChange::Unchanged);
    assert_eq!(turbo_change(&vec![1], &vec![2]), TurboChange::Active);
    assert_eq!(turbo_change(&vec![], &vec![2]), TurboChange::Active);
    assert_eq!(turbo_change(&vec![1], &vec![]), TurboChange::Deactivated);
    assert_eq!(turbo_change(&vec![], &vec![]), TurboChange::Unchanged);
}

#[test]
fn detection_every_five_hundred_passes() {
    assert!(!detection_due(499));
    assert!(detection_due(500));
    assert!(!detection_due(501));
    assert!(detection_due(1000));
}
