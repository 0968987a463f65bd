use portable_pty::{Child, PtySize};
use pty_tabs::error::TabError;
use pty_tabs::pump::{PumpAction, PumpEvent, ReaderPump};
use pty_tabs::session::{default_size, open_default_pty, open_pty, shell_command, size_of, TabManager};
use pty_tabs::shell::Platform;
use std::io::{Read, Write};

struct Endpoints {
    writer: Box<dyn Write + Send>,
    child: Option<Box<dyn Child + Send + Sync>>,
}

fn open_tab(m: &mut TabManager<Endpoints>) -> (u64, Box<dyn Read + Send>) {
    let size = default_size();
    let pair = open_pty(size).expect("pseudo-terminal");
    let writer = pair.master.take_writer().expect("writer");
    let reader = pair.master.try_clone_reader().expect("reader");
    let id = m.next_tab_id();
    let placeholder = Endpoints { writer, child: None };
    assert_eq!(m.add_tab(pair, size, placeholder), id);
    assert_eq!(m.claim_shell(Some(id)), Ok(id));
    let child = m
        .tab_pair(Some(id))
        .unwrap()
        .slave
        .spawn_command(shell_command(Platform::Unix))
        .expect("shell");
    m.endpoints_mut(Some(id)).unwrap().child = Some(child);
    (id, reader)
}

fn close_tab(m: &mut TabManager<Endpoints>, id: u64) {
    let mut e = m.remove_tab(id).expect("open tab");
    if let Some(child) = e.child.as_mut() {
        let _ = child.kill();
    }
}

#[test]
fn sizes_default_to_24_by_80() {
    let d = default_size();
    assert_eq!(d, PtySize { rows: 24, cols: 80, pixel_width: 0, pixel_height: 0 });
    assert_eq!(size_of(40, 120), PtySize { rows: 40, cols: 120, pixel_width: 0, pixel_height: 0 });
}

#[test]
fn resize_is_reported_back_exactly() {
    let mut m = TabManager::new();
    let (a, _reader) = open_tab(&mut m);
    assert_eq!(m.reported_size(Some(a)).unwrap(), default_size());
    assert_eq!(m.resize(Some(a), 40, 120), Ok(()));
    assert_eq!(
        m.reported_size(Some(a)),
        Ok(PtySize { rows: 40, cols: 120, pixel_width: 0, pixel_height: 0 })
    );
    assert_eq!(m.tab_size(Some(a)), Ok(size_of(40, 120)));
    close_tab(&mut m, a);
}

#[test]
fn resize_without_target_needs_an_active_tab() {
    let mut m = TabManager::new();
    let (a, _reader) = open_tab(&mut m);
    assert_eq!(m.resize(None, 30, 100), Err(TabError::NoActiveTab));
    m.set_active(a).unwrap();
    assert_eq!(m.resize(None, 30, 100), Ok(()));
    assert_eq!(m.tab_size(None), Ok(size_of(30, 100)));
    close_tab(&mut m, a);
    assert_eq!(m.resize(None, 30, 100), Err(TabError::NoActiveTab));
    assert_eq!(m.resize(Some(a), 30, 100), Err(TabError::UnknownTab));
}

#[test]
fn write_to_removed_tab_is_unknown() {
    let mut m = TabManager::new();
    let (a, _ra) = open_tab(&mut m);
    let (b, _rb) = open_tab(&mut m);
    assert_eq!((a, b), (0, 1));
    close_tab(&mut m, a);
    assert!(matches!(m.endpoints_mut(Some(a)), Err(TabError::UnknownTab)));
    assert!(matches!(m.endpoints_mut(Some(42)), Err(TabError::UnknownTab)));
    assert!(matches!(m.remove_tab(a), Err(TabError::UnknownTab)));
    assert_eq!(m.tab_count(), 1);
    let (c, _rc) = open_tab(&mut m);
    assert_eq!(c, 2);
    close_tab(&mut m, b);
    close_tab(&mut m, c);
}

#[test]
fn written_input_comes_back_as_tagged_output() {
    let mut m = TabManager::new();
    let (a, mut reader) = open_tab(&mut m);
    let (b, _rb) = open_tab(&mut m);
    m.set_active(a).unwrap();
    {
        let e = m.endpoints_mut(None).expect("active tab");
        e.writer.write_all(b"echo hi\n").unwrap();
        e.writer.flush().unwrap();
    }
    let mut pump = ReaderPump::new(a);
    let mut buf = [0u8; 1024];
    let mut seen = Vec::new();
    while !String::from_utf8_lossy(&seen).contains("hi\r\n") {
        let n = reader.read(&mut buf).expect("pty output");
        match pump.step(PumpEvent::Read(buf[..n].to_vec())) {
            PumpAction::Emit(tab, data) => {
                assert_eq!(tab, a);
                assert_ne!(tab, b);
                seen.extend_from_slice(&data);
            }
            PumpAction::Wait(_) => {}
            PumpAction::Stop => panic!("the pump stopped early"),
        }
    }
    assert_eq!(pump.output(), &seen);
    close_tab(&mut m, a);
    close_tab(&mut m, b);
}

#[test]
fn shell_command_runs_the_platform_shell_with_term() {
    let unix = shell_command(Platform::Unix);
    assert_eq!(unix.get_argv()[0].to_str(), Some("bash"));
    assert_eq!(unix.get_env("TERM").and_then(|v| v.to_str()), Some("xterm-256color"));
    let windows = shell_command(Platform::Windows);
    assert_eq!(windows.get_argv()[0].to_str(), Some("powershell.exe"));
    assert_eq!(windows.get_env("TERM").and_then(|v| v.to_str()), Some("cygwin"));
}

#[test]
fn new_tab_pty_opens_at_24_by_80() {
    let pair = open_default_pty().expect("pseudo-terminal");
    assert_eq!(pair.master.get_size().unwrap(), size_of(24, 80));
}

#[test]
fn tab_pair_is_the_addressed_tab() {
    let mut m = TabManager::new();
    let (a, _ra) = open_tab(&mut m);
    let (b, _rb) = open_tab(&mut m);
    m.resize(Some(b), 50, 132).unwrap();
    assert_eq!(m.tab_pair(Some(b)).unwrap().master.get_size().unwrap(), size_of(50, 132));
    assert_eq!(m.tab_pair(Some(a)).unwrap().master.get_size().unwrap(), size_of(24, 80));
    assert!(matches!(m.tab_pair(None), Err(TabError::NoActiveTab)));
    assert!(matches!(m.tab_pair(Some(9)), Err(TabError::UnknownTab)));
    close_tab(&mut m, a);
    close_tab(&mut m, b);
}

#[test]
fn a_tab_runs_one_shell_only() {
    let mut m = TabManager::new();
    let (a, _ra) = open_tab(&mut m);
    assert_eq!(m.claim_shell(Some(a)), Err(TabError::SpawnFailed));
    assert_eq!(m.claim_shell(None), Err(TabError::NoActiveTab));
    assert_eq!(m.claim_shell(Some(a + 1)), Err(TabError::UnknownTab));
    close_tab(&mut m, a);
}

#[test]
fn accepted_resize_records_the_size() {
    let mut m = TabManager::new();
    let (a, _ra) = open_tab(&mut m);
    assert_eq!(m.resize(Some(a), 33, 99), Ok(()));
    assert_eq!(m.tab_size(Some(a)), Ok(size_of(33, 99)));
    close_tab(&mut m, a);
}
