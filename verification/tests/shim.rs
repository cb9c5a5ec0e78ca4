use std::collections::HashMap;

use wasi_shim::caps::{accessible_directories, get_owning_directory, owning_index, relative_path};
use wasi_shim::console;
use wasi_shim::files::{read_text, write_text, READ_CAPACITY};
use wasi_shim::packed::{decode_packed, environment_variables, split_env_entry};
use wasi_shim::timing::sleep_complete;
use wasi_shim::text::trim_nul_bytes;
use wasi_shim::{
    AccessibleDirectory, Channel, ErrorKind, FileSession, HostCall, HostReply, Outcome,
    SessionStep,
};

/// Lays `items` out as the host does: one flat buffer of
/// null-terminated entries, plus a table of absolute start positions.
fn pack(items: &[&str], base: usize) -> (Vec<usize>, Vec<u8>) {
    let mut positions = Vec::new();
    let mut data = Vec::new();
    for s in items {
        positions.push(base + data.len());
        data.extend_from_slice(s.as_bytes());
        data.push(0);
    }
    (positions, data)
}

fn dirs_of(entries: &[(&str, u32)]) -> Vec<AccessibleDirectory> {
    entries
        .iter()
        .map(|(p, fd)| AccessibleDirectory { path: String::from(*p), fd: *fd })
        .collect()
}

#[test]
fn decode_round_trip() {
    let items = ["alpha", "beta mix", "x", "héllo wörld"];
    let (positions, data) = pack(&items, 4096);
    let decoded = decode_packed(&positions, &data, 4096).unwrap();
    assert_eq!(decoded.len(), items.len());
    for (got, want) in decoded.iter().zip(items.iter()) {
        assert_eq!(got, want);
    }
}

#[test]
fn decode_single_and_empty_entries() {
    let items = ["", "only", ""];
    let (positions, data) = pack(&items, 0);
    let decoded = decode_packed(&positions, &data, 0).unwrap();
    assert_eq!(decoded, vec!["", "only", ""]);
}

#[test]
fn decode_no_entries() {
    let positions: Vec<usize> = vec![];
    let data: Vec<u8> = vec![];
    assert_eq!(decode_packed(&positions, &data, 0), Some(vec![]));
}

#[test]
fn decode_rejects_position_below_base() {
    let (mut positions, data) = pack(&["a", "b"], 1000);
    positions[0] = 10;
    assert_eq!(decode_packed(&positions, &data, 1000), None);
}

#[test]
fn decode_rejects_empty_buffer() {
    let positions: Vec<usize> = vec![0];
    let data: Vec<u8> = vec![];
    assert_eq!(decode_packed(&positions, &data, 0), None);
}

#[test]
fn decode_rejects_positions_out_of_order() {
    let (mut positions, data) = pack(&["aa", "bb"], 0);
    positions[1] = positions[0] + 100;
    assert_eq!(decode_packed(&positions, &data, 0), None);
}

#[test]
fn decode_replaces_invalid_utf8() {
    let data = vec![0xFFu8, b'h', 0];
    let positions = vec![64usize];
    let decoded = decode_packed(&positions, &data, 64).unwrap();
    assert_eq!(decoded, vec!["\u{FFFD}h"]);
}

#[test]
fn env_split_on_first_equals() {
    let e = split_env_entry("KEY=VALUE=WITH=EQUALS");
    assert_eq!(e.name, "KEY");
    assert_eq!(e.value, "VALUE=WITH=EQUALS");
}

#[test]
fn env_split_without_equals() {
    let e = split_env_entry("JUSTAKEY");
    assert_eq!(e.name, "JUSTAKEY");
    assert_eq!(e.value, "");
}

#[test]
fn env_split_leading_equals() {
    let e = split_env_entry("=weird");
    assert_eq!(e.name, "");
    assert_eq!(e.value, "weird");
}

#[test]
fn environment_variables_from_buffer() {
    let (positions, data) = pack(&["HOME=/data", "EMPTY=", "PATH=/a=/b"], 512);
    let envs = environment_variables(&positions, &data, 512).unwrap();
    assert_eq!(envs.len(), 3);
    assert_eq!(envs[0].name, "HOME");
    assert_eq!(envs[0].value, "/data");
    assert_eq!(envs[1].name, "EMPTY");
    assert_eq!(envs[1].value, "");
    assert_eq!(envs[2].name, "PATH");
    assert_eq!(envs[2].value, "/a=/b");
}

#[test]
fn longest_prefix_resolution() {
    let dirs = dirs_of(&[("/data", 3), ("/data/sub", 4)]);
    let d = get_owning_directory("/data/sub/file.txt", &dirs).unwrap();
    assert_eq!(d.fd, 4);
    assert_eq!(relative_path(&d.path, "/data/sub/file.txt"), "/file.txt");
    let d = get_owning_directory("/data/other.txt", &dirs).unwrap();
    assert_eq!(d.fd, 3);
    assert_eq!(relative_path(&d.path, "/data/other.txt"), "/other.txt");
}

#[test]
fn equal_length_prefixes_take_first() {
    let dirs = dirs_of(&[("/data", 3), ("/data", 4)]);
    assert_eq!(owning_index("/data/f", &dirs), Some(0));
}

#[test]
fn no_match_resolution() {
    let dirs = dirs_of(&[("/data", 3)]);
    assert!(get_owning_directory("/etc/passwd", &dirs).is_none());
    let r = read_text("/etc/passwd", &dirs);
    assert!(matches!(r, Err(ErrorKind::NoCapability)));
}

#[test]
fn prefix_must_end_on_segment_boundary() {
    let dirs = dirs_of(&[("/data", 3)]);
    assert!(get_owning_directory("/data2/x", &dirs).is_none());
    assert_eq!(owning_index("/data", &dirs), Some(0));
}

#[test]
fn enumeration_is_idempotent() {
    let raw = vec![b"/data\0\0\0".to_vec(), b"/tmp\0".to_vec()];
    let first = accessible_directories(&raw);
    let second = accessible_directories(&raw);
    assert_eq!(first.len(), second.len());
    for (a, b) in first.iter().zip(second.iter()) {
        assert_eq!(a.path, b.path);
        assert_eq!(a.fd, b.fd);
    }
    assert_eq!(first[0].path, "/data");
    assert_eq!(first[0].fd, 3);
    assert_eq!(first[1].path, "/tmp");
    assert_eq!(first[1].fd, 4);
}

#[test]
fn trim_keeps_interior_zero_bytes() {
    let raw = vec![1u8, 0, 2, 0, 0];
    assert_eq!(trim_nul_bytes(&raw), vec![1u8, 0, 2]);
}

#[test]
fn console_framing() {
    let r = console::print("plain");
    assert_eq!(r.channel, Channel::Stdout);
    assert_eq!(r.data, "plain");
    let r = console::println("line");
    assert_eq!(r.channel, Channel::Stdout);
    assert_eq!(r.data, "line\n");
    let r = console::error("bad");
    assert_eq!(r.channel, Channel::Stderr);
    assert_eq!(r.data, "bad\n");
}

#[test]
fn read_line_drops_terminator_and_padding() {
    let mut raw = b"hi there\n".to_vec();
    raw.extend(vec![0u8; 16]);
    assert_eq!(console::read_line(&raw), "hi there");
    let empty: Vec<u8> = vec![0u8; 4];
    assert_eq!(console::read_line(&empty), "");
}

#[test]
fn sleep_decision() {
    assert!(sleep_complete(100, 150, 50));
    assert!(!sleep_complete(100, 149, 50));
    assert!(!sleep_complete(100, 90, 50));
    assert!(sleep_complete(100, 100, 0));
}

/// A host stand-in that stores file content per (directory descriptor,
/// relative path) and counts every open and close.
struct MockHost {
    stored: HashMap<(u32, String), Vec<u8>>,
    open: Vec<(u32, (u32, String))>,
    next_fd: u32,
    opens: usize,
    closes: usize,
    deny_open: bool,
    fail_transfer: bool,
}

impl MockHost {
    fn new() -> MockHost {
        MockHost {
            stored: HashMap::new(),
            open: Vec::new(),
            next_fd: 7,
            opens: 0,
            closes: 0,
            deny_open: false,
            fail_transfer: false,
        }
    }

    fn key_of(&self, fd: u32) -> (u32, String) {
        self.open.iter().find(|(f, _)| *f == fd).unwrap().1.clone()
    }

    fn perform(&mut self, call: HostCall) -> HostReply {
        match call {
            HostCall::OpenFile { dir_fd, relative_path, create, truncate } => {
                if self.deny_open {
                    return HostReply::OpenDenied(String::from("denied by host"));
                }
                let key = (dir_fd, relative_path);
                if !create && !self.stored.contains_key(&key) {
                    return HostReply::OpenDenied(String::from("no such file"));
                }
                self.opens += 1;
                let fd = self.next_fd;
                self.next_fd += 1;
                if truncate {
                    self.stored.insert(key.clone(), Vec::new());
                } else {
                    self.stored.entry(key.clone()).or_insert_with(Vec::new);
                }
                self.open.push((fd, key));
                HostReply::Opened(fd)
            }
            HostCall::ReadFile { fd } => {
                if self.fail_transfer {
                    return HostReply::CallFailed;
                }
                let key = self.key_of(fd);
                HostReply::DataRead(self.stored[&key].clone())
            }
            HostCall::WriteFile { fd, data } => {
                if self.fail_transfer {
                    return HostReply::CallFailed;
                }
                let key = self.key_of(fd);
                self.stored.insert(key, data.into_bytes());
                HostReply::Written
            }
            HostCall::CloseFile { fd } => {
                self.open.retain(|(f, _)| *f != fd);
                self.closes += 1;
                HostReply::Closed
            }
        }
    }
}

fn run(host: &mut MockHost, start: (FileSession, HostCall)) -> Outcome {
    let (mut sess, mut call) = start;
    loop {
        let reply = host.perform(call);
        let (next, step) = sess.step(reply);
        sess = next;
        match step {
            SessionStep::Call(c) => call = c,
            SessionStep::Finished(o) => return o,
        }
    }
}

#[test]
fn write_then_read_round_trip() {
    let dirs = dirs_of(&[("/data", 3)]);
    let mut host = MockHost::new();
    let w = run(&mut host, write_text("/data/x.txt", "hello", &dirs).unwrap());
    assert!(matches!(w, Outcome::Written));
    let r = run(&mut host, read_text("/data/x.txt", &dirs).unwrap());
    match r {
        Outcome::TextRead(s) => assert_eq!(s, "hello"),
        _ => panic!("read did not return the written text"),
    }
}

#[test]
fn read_session_opens_resolved_capability() {
    let dirs = dirs_of(&[("/data", 3), ("/data/sub", 4)]);
    let (_sess, call) = read_text("/data/sub/file.txt", &dirs).unwrap();
    match call {
        HostCall::OpenFile { dir_fd, relative_path, create, truncate } => {
            assert_eq!(dir_fd, 4);
            assert_eq!(relative_path, "/file.txt");
            assert!(!create);
            assert!(!truncate);
        }
        _ => panic!("first call is not an open"),
    }
}

#[test]
fn write_session_opens_with_create_and_truncate() {
    let dirs = dirs_of(&[("/data", 3)]);
    let (_sess, call) = write_text("/data/x", "v", &dirs).unwrap();
    match call {
        HostCall::OpenFile { dir_fd, relative_path, create, truncate } => {
            assert_eq!(dir_fd, 3);
            assert_eq!(relative_path, "/x");
            assert!(create);
            assert!(truncate);
        }
        _ => panic!("first call is not an open"),
    }
}

#[test]
fn reading_does_not_destroy_the_file() {
    let dirs = dirs_of(&[("/data", 3)]);
    let mut host = MockHost::new();
    run(&mut host, write_text("/data/x", "keep me", &dirs).unwrap());
    for _ in 0..2 {
        match run(&mut host, read_text("/data/x", &dirs).unwrap()) {
            Outcome::TextRead(s) => assert_eq!(s, "keep me"),
            _ => panic!("read lost the content"),
        }
    }
}

#[test]
fn reading_a_missing_file_fails_without_creating_it() {
    let dirs = dirs_of(&[("/data", 3)]);
    let mut host = MockHost::new();
    let r = run(&mut host, read_text("/data/nothing", &dirs).unwrap());
    assert!(matches!(r, Outcome::Failed(ErrorKind::OpenFailed(_))));
    assert!(host.stored.is_empty());
    assert_eq!(host.opens, 0);
    assert_eq!(host.closes, 0);
}

#[test]
fn descriptor_hygiene_on_success() {
    let dirs = dirs_of(&[("/data", 3)]);
    let mut host = MockHost::new();
    run(&mut host, write_text("/data/a", "x", &dirs).unwrap());
    run(&mut host, read_text("/data/a", &dirs).unwrap());
    assert_eq!(host.opens, 2);
    assert_eq!(host.closes, 2);
    assert!(host.open.is_empty());
}

#[test]
fn descriptor_hygiene_on_transfer_failure() {
    let dirs = dirs_of(&[("/data", 3)]);
    let mut host = MockHost::new();
    host.fail_transfer = true;
    let w = run(&mut host, write_text("/data/a", "x", &dirs).unwrap());
    assert!(matches!(w, Outcome::Failed(ErrorKind::HostCallFailed)));
    let r = run(&mut host, read_text("/data/a", &dirs).unwrap());
    assert!(matches!(r, Outcome::Failed(ErrorKind::HostCallFailed)));
    assert_eq!(host.opens, 2);
    assert_eq!(host.closes, 2);
    assert!(host.open.is_empty());
}

#[test]
fn open_denied_reports_diagnostic_without_leak() {
    let dirs = dirs_of(&[("/data", 3)]);
    let mut host = MockHost::new();
    host.deny_open = true;
    let r = run(&mut host, read_text("/data/a", &dirs).unwrap());
    match r {
        Outcome::Failed(ErrorKind::OpenFailed(d)) => assert_eq!(d, "denied by host"),
        _ => panic!("open denial must surface as OpenFailed"),
    }
    assert_eq!(host.opens, 0);
    assert_eq!(host.closes, 0);
}

#[test]
fn oversized_read_is_truncated_error() {
    let dirs = dirs_of(&[("/data", 3)]);
    let mut host = MockHost::new();
    host.stored.insert((3, String::from("/big")), vec![65u8; READ_CAPACITY]);
    let r = run(&mut host, read_text("/data/big", &dirs).unwrap());
    assert!(matches!(r, Outcome::Failed(ErrorKind::Truncated)));
    assert_eq!(host.opens, 1);
    assert_eq!(host.closes, 1);
}

#[test]
fn read_trims_trailing_zero_padding() {
    let dirs = dirs_of(&[("/data", 3)]);
    let mut host = MockHost::new();
    let mut content = b"padded".to_vec();
    content.extend(vec![0u8; 8]);
    host.stored.insert((3, String::from("/p")), content);
    let r = run(&mut host, read_text("/data/p", &dirs).unwrap());
    match r {
        Outcome::TextRead(s) => assert_eq!(s, "padded"),
        _ => panic!("padded read failed"),
    }
}

#[test]
fn mismatched_reply_fails_without_leak() {
    let dirs = dirs_of(&[("/data", 3)]);
    let (sess, _call) = read_text("/data/a", &dirs).unwrap();
    let (sess, step) = sess.step(HostReply::Written);
    assert!(matches!(
        step,
        SessionStep::Finished(Outcome::Failed(ErrorKind::HostCallFailed))
    ));
    let (_sess, step) = sess.step(HostReply::Closed);
    assert!(matches!(
        step,
        SessionStep::Finished(Outcome::Failed(ErrorKind::HostCallFailed))
    ));
}
