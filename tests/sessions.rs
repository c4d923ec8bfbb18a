use std::io::Read;

use explorer_core::pty::{default_shell, PtyError, PtyManager};
use explorer_core::terminal::PtyIo;
use portable_pty::{native_pty_system, CommandBuilder, PtySize};

fn spawn_shell() -> (PtyIo, Box<dyn Read + Send>) {
    let pair = native_pty_system()
        .openpty(PtySize { rows: 24, cols: 80, pixel_width: 0, pixel_height: 0 })
        .expect("openpty");
    let mut cmd = CommandBuilder::new("/bin/sh");
    cmd.cwd("/tmp");
    let child = pair.slave.spawn_command(cmd).expect("spawn");
    let reader = pair.master.try_clone_reader().expect("reader");
    let writer = pair.master.take_writer().expect("writer");
    (PtyIo { master: pair.master, writer, child }, reader)
}

fn read_until(reader: &mut Box<dyn Read + Send>, needle: &str) -> String {
    let mut seen = String::new();
    let mut buffer = [0u8; 1024];
    while !seen.contains(needle) {
        match reader.read(&mut buffer) {
            Ok(0) | Err(_) => break,
            Ok(n) => seen.push_str(&String::from_utf8_lossy(&buffer[..n])),
        }
    }
    seen
}

#[test]
fn create_write_destroy_scenario() {
    let mut mgr = PtyManager::new();
    let (term, mut reader) = spawn_shell();
    let id = mgr.create_pty(term, 24, 80);
    assert_eq!(mgr.session_size(id), Some((24, 80)));
    assert_eq!(mgr.write_pty(id, "echo hi\n".to_string()), Ok(()));
    assert!(read_until(&mut reader, "hi").contains("hi"));
    mgr.destroy_pty(id);
    assert_eq!(mgr.write_pty(id, "x".to_string()), Err(PtyError::SessionNotFound));
    assert_eq!(mgr.session_size(id), None);
}

#[test]
fn write_reaches_the_sessions_own_terminal() {
    let mut mgr = PtyManager::new();
    let (a, _reader_a) = spawn_shell();
    let (b, mut reader_b) = spawn_shell();
    let _id_a = mgr.create_pty(a, 24, 80);
    let id_b = mgr.create_pty(b, 24, 80);
    assert_eq!(mgr.write_pty(id_b, "echo bee\n".to_string()), Ok(()));
    assert!(read_until(&mut reader_b, "bee").contains("bee"));
}

#[test]
fn ids_are_fresh_and_never_reused() {
    let mut mgr = PtyManager::new();
    let a = mgr.create_pty(spawn_shell().0, 24, 80);
    let b = mgr.create_pty(spawn_shell().0, 24, 80);
    assert_ne!(a, b);
    mgr.destroy_pty(a);
    let c = mgr.create_pty(spawn_shell().0, 10, 10);
    assert_ne!(c, a);
    assert_ne!(c, b);
    assert_eq!(mgr.resize_pty(a, 1, 1), Err(PtyError::SessionNotFound));
}

#[test]
fn unknown_id_is_not_found() {
    let mut mgr = PtyManager::new();
    assert_eq!(mgr.write_pty(42, "ls\n".to_string()), Err(PtyError::SessionNotFound));
    assert_eq!(mgr.resize_pty(42, 30, 100), Err(PtyError::SessionNotFound));
    mgr.destroy_pty(42);
    assert_eq!(mgr.session_size(42), None);
    let id = mgr.create_pty(spawn_shell().0, 24, 80);
    assert_eq!(mgr.write_pty(id + 1, "ls\n".to_string()), Err(PtyError::SessionNotFound));
    assert_eq!(mgr.resize_pty(id + 1, 5, 5), Err(PtyError::SessionNotFound));
    assert_eq!(mgr.session_size(id), Some((24, 80)));
}

#[test]
fn destroy_twice_is_harmless() {
    let mut mgr = PtyManager::new();
    let id = mgr.create_pty(spawn_shell().0, 24, 80);
    mgr.destroy_pty(id);
    mgr.destroy_pty(id);
    assert_eq!(mgr.session_size(id), None);
}

#[test]
fn resize_records_new_size() {
    let mut mgr = PtyManager::new();
    let (term, mut reader) = spawn_shell();
    let id = mgr.create_pty(term, 24, 80);
    assert_eq!(mgr.resize_pty(id, 50, 132), Ok(()));
    assert_eq!(mgr.session_size(id), Some((50, 132)));
    assert_eq!(mgr.write_pty(id, "stty size\n".to_string()), Ok(()));
    assert!(read_until(&mut reader, "50 132").contains("50 132"));
}

#[test]
fn fresh_registry_has_free_ids() {
    let mgr = PtyManager::new();
    assert!(mgr.has_free_id());
}

#[test]
fn shell_choice() {
    assert_eq!(default_shell(true, Some("/bin/zsh".to_string())), "powershell.exe");
    assert_eq!(default_shell(false, Some("/bin/zsh".to_string())), "/bin/zsh");
    assert_eq!(default_shell(false, None), "/bin/sh");
}
