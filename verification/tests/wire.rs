use git_ast::config::{get_config_for_path, FileConfig};
use git_ast::drivers::{diff_driver_args, marker_size_or_default, merge_driver_args};
use git_ast::error::{DriverFault, Error};
use git_ast::filters::{clean, outcome_of, perform_clean, perform_smudge, ParsePolicy};
use git_ast::git_fuse::{
    dir_attr, entry_name, getattr, init_status, not_found, FileKind, GitFS, ObjectId, ROOT_INODE,
};
use git_ast::pktline::{read_packet, write_flush, write_packet, FrameError, MAX_PAYLOAD};
use git_ast::protocol::{
    classify_line, response_bytes, wire_bytes, write_content, Action, Command, Engine, Line,
    Outcome, State,
};

fn pkt(s: &str) -> Vec<u8> {
    let mut out = Vec::new();
    write_packet(&mut out, s.as_bytes()).unwrap();
    out
}

fn handshake(e: &mut Engine) {
    assert_eq!(e.on_data(b"git-filter-client\n"), Action::Continue);
    assert_eq!(e.on_data(b"version=2\n"), Action::Continue);
    assert_eq!(e.on_flush(), Action::Welcome);
    assert_eq!(e.state(), State::Ready);
    assert_eq!(e.on_data(b"capability=clean\n"), Action::Continue);
    assert_eq!(e.on_data(b"capability=smudge\n"), Action::Continue);
    assert_eq!(e.on_data(b"capability=delay\n"), Action::Continue);
    assert_eq!(e.on_flush(), Action::Capabilities);
    assert_eq!(e.state(), State::AwaitCommand);
}

#[test]
fn packet_round_trip() {
    let mut out = Vec::new();
    assert_eq!(write_packet(&mut out, b"hello\n"), Ok(()));
    assert_eq!(out, b"000ahello\n".to_vec());
    write_flush(&mut out);
    assert_eq!(out, b"000ahello\n0000".to_vec());
    assert_eq!(read_packet(&out, 0), Ok((Some(b"hello\n".to_vec()), 10)));
    assert_eq!(read_packet(&out, 10), Ok((None, 14)));
    assert_eq!(read_packet(&out, 14), Err(FrameError::Truncated));
}

#[test]
fn packet_length_is_four_hex_digits() {
    assert_eq!(read_packet(b"0004", 0), Ok((Some(vec![]), 4)));
    assert_eq!(read_packet(b"000Bseven77", 0), Ok((Some(b"seven77".to_vec()), 11)));
    assert_eq!(read_packet(b"0001", 0), Err(FrameError::BadLength));
    assert_eq!(read_packet(b"0003", 0), Err(FrameError::BadLength));
    assert_eq!(read_packet(b"00g0abcd", 0), Err(FrameError::BadLength));
    assert_eq!(read_packet(b"0009abc", 0), Err(FrameError::Truncated));
    assert_eq!(read_packet(b"000", 0), Err(FrameError::Truncated));
    let mut out = Vec::new();
    let big = vec![7u8; MAX_PAYLOAD];
    assert_eq!(write_packet(&mut out, &big), Ok(()));
    assert_eq!(&out[..4], b"fff0");
    assert_eq!(read_packet(&out, 0), Ok((Some(big), MAX_PAYLOAD + 4)));
    let mut out = b"x".to_vec();
    assert_eq!(write_packet(&mut out, &vec![0u8; MAX_PAYLOAD + 1]), Err(FrameError::TooLong));
    assert_eq!(out, b"x".to_vec());
}

#[test]
fn content_is_split_into_packets() {
    let mut out = Vec::new();
    write_content(&mut out, b"");
    assert_eq!(out, b"".to_vec());
    write_content(&mut out, b"abc");
    assert_eq!(out, b"0007abc".to_vec());
    let data = vec![1u8; MAX_PAYLOAD + 2];
    let mut out = Vec::new();
    write_content(&mut out, &data);
    assert_eq!(out.len(), MAX_PAYLOAD + 4 + 6);
    assert_eq!(read_packet(&out, 0), Ok((Some(vec![1u8; MAX_PAYLOAD]), MAX_PAYLOAD + 4)));
    assert_eq!(read_packet(&out, MAX_PAYLOAD + 4), Ok((Some(vec![1u8; 2]), MAX_PAYLOAD + 10)));
}

#[test]
fn lines_are_classified() {
    assert_eq!(classify_line(b"git-filter-client\n"), Line::Client);
    assert_eq!(classify_line(b"git-filter-client"), Line::Client);
    assert_eq!(classify_line(b"version=2\n"), Line::Version);
    assert_eq!(classify_line(b"version=3\n"), Line::Other);
    assert_eq!(classify_line(b"capability=clean\n"), Line::CapClean);
    assert_eq!(classify_line(b"capability=smudge\n"), Line::CapSmudge);
    assert_eq!(classify_line(b"command=clean\n"), Line::CmdClean);
    assert_eq!(classify_line(b"command=smudge\n"), Line::CmdSmudge);
    assert_eq!(classify_line(b"pathname=src/a.rs\n"), Line::Pathname);
    assert_eq!(classify_line(b"pathname="), Line::Pathname);
    assert_eq!(classify_line(b"can-delay=1\n"), Line::Other);
    assert_eq!(classify_line(b""), Line::Other);
    assert_eq!(classify_line(b"command=clean\n\n"), Line::Other);
}

#[test]
fn conversation_serves_a_file() {
    let mut e = Engine::new();
    assert_eq!(e.state(), State::AwaitHandshake);
    handshake(&mut e);
    assert_eq!(e.on_data(b"command=clean\n"), Action::Continue);
    assert_eq!(e.on_data(b"pathname=src/lib.rs\n"), Action::Continue);
    assert_eq!(e.on_data(b"can-delay=1\n"), Action::Continue);
    assert!(e.request().is_none());
    assert_eq!(e.on_flush(), Action::Continue);
    assert_eq!(e.state(), State::AwaitContent);
    assert_eq!(e.on_data(b"fn main"), Action::Continue);
    assert_eq!(e.on_data(b"() {}"), Action::Continue);
    assert_eq!(e.on_flush(), Action::Run);
    assert_eq!(e.state(), State::Responding);
    assert_eq!(
        e.request(),
        Some((Command::Clean, b"src/lib.rs".to_vec(), b"fn main() {}".to_vec()))
    );
    let reply = e.finish(&Outcome::Converted(b"TREE".to_vec()));
    let mut want = pkt("status=success\n");
    want.extend_from_slice(b"0008TREE0000");
    assert_eq!(reply, want);
    assert_eq!(e.state(), State::AwaitCommand);
    assert!(e.request().is_none());
    // A second file, smudged, with no content at all.
    assert_eq!(e.on_data(b"pathname=b.py\n"), Action::Continue);
    assert_eq!(e.on_data(b"command=smudge\n"), Action::Continue);
    assert_eq!(e.on_flush(), Action::Continue);
    assert_eq!(e.on_flush(), Action::Run);
    assert_eq!(e.request(), Some((Command::Smudge, b"b.py".to_vec(), vec![])));
    assert_eq!(e.finish(&Outcome::Failed), b"0011status=error\n0000".to_vec());
    assert_eq!(e.on_closed(), Action::Done);
    assert_eq!(e.state(), State::Terminated);
}

#[test]
fn replies_on_the_wire() {
    assert_eq!(
        wire_bytes(Action::Welcome),
        b"0016git-filter-server\n000eversion=2\n0000".to_vec()
    );
    assert_eq!(
        wire_bytes(Action::Capabilities),
        b"0015capability=clean\n0016capability=smudge\n0000".to_vec()
    );
    assert_eq!(wire_bytes(Action::StatusError), b"0011status=error\n0000".to_vec());
    assert_eq!(wire_bytes(Action::Fail), b"".to_vec());
    assert_eq!(wire_bytes(Action::Continue), b"".to_vec());
    assert_eq!(wire_bytes(Action::Run), b"".to_vec());
    assert_eq!(wire_bytes(Action::Done), b"".to_vec());
    assert_eq!(response_bytes(&Outcome::Skipped), b"0011status=abort\n0000".to_vec());
    assert_eq!(
        response_bytes(&Outcome::Converted(vec![])),
        b"0013status=success\n0000".to_vec()
    );
}

#[test]
fn handshake_without_required_capability_ends_the_conversation() {
    let mut e = Engine::new();
    e.on_data(b"git-filter-client\n");
    e.on_data(b"version=2\n");
    assert_eq!(e.on_flush(), Action::Welcome);
    assert_eq!(e.on_data(b"capability=clean\n"), Action::Continue);
    assert_eq!(e.on_flush(), Action::Fail);
    assert_eq!(e.state(), State::Terminated);
    assert_eq!(wire_bytes(Action::Fail), b"".to_vec());
    // Whatever follows, no file is run and nothing is sent.
    assert_eq!(e.on_data(b"command=clean\n"), Action::Continue);
    assert_eq!(e.on_data(b"pathname=a.rs\n"), Action::Continue);
    assert_eq!(e.on_flush(), Action::Continue);
    assert_eq!(e.on_data(b"content"), Action::Continue);
    assert_eq!(e.on_flush(), Action::Continue);
    assert!(e.request().is_none());
    assert_eq!(e.finish(&Outcome::Converted(b"x".to_vec())), b"".to_vec());
    assert_eq!(e.state(), State::Terminated);
}

#[test]
fn handshake_needs_name_and_version() {
    let mut e = Engine::new();
    e.on_data(b"git-filter-client\n");
    assert_eq!(e.on_flush(), Action::Fail);
    assert_eq!(e.state(), State::Terminated);
    let mut e = Engine::new();
    e.on_data(b"version=2\n");
    e.on_data(b"git-filter-server\n");
    assert_eq!(e.on_flush(), Action::Fail);
}

#[test]
fn content_without_command_is_answered_with_error() {
    let mut e = Engine::new();
    handshake(&mut e);
    assert_eq!(e.on_data(b"fn main() {}\n"), Action::Continue);
    assert_eq!(e.on_flush(), Action::StatusError);
    assert_eq!(e.state(), State::AwaitCommand);
    assert_eq!(wire_bytes(Action::StatusError), b"0011status=error\n0000".to_vec());
    // The next command is served.
    e.on_data(b"command=smudge\n");
    e.on_data(b"pathname=a.rs\n");
    assert_eq!(e.on_flush(), Action::Continue);
    e.on_data(b"stored");
    assert_eq!(e.on_flush(), Action::Run);
    assert_eq!(e.request(), Some((Command::Smudge, b"a.rs".to_vec(), b"stored".to_vec())));
    // A command without a pathname is an error too.
    e.finish(&Outcome::Skipped);
    e.on_data(b"command=clean\n");
    assert_eq!(e.on_flush(), Action::StatusError);
    assert_eq!(e.state(), State::AwaitCommand);
}

#[test]
fn broken_stream_is_fatal() {
    let mut e = Engine::new();
    handshake(&mut e);
    e.on_data(b"command=clean\n");
    assert_eq!(e.on_closed(), Action::Fail);
    assert_eq!(e.state(), State::Terminated);
    let mut e = Engine::new();
    handshake(&mut e);
    assert_eq!(e.on_broken(), Action::Fail);
    assert_eq!(e.on_broken(), Action::Continue);
    let mut e = Engine::new();
    assert_eq!(e.on_closed(), Action::Fail);
    let mut e = Engine::new();
    handshake(&mut e);
    e.on_data(b"command=clean\n");
    e.on_data(b"pathname=a\n");
    e.on_flush();
    e.on_flush();
    assert_eq!(e.on_data(b"early"), Action::Fail);
    assert_eq!(e.state(), State::Terminated);
}

#[test]
fn clean_follows_the_policy() {
    assert_eq!(ParsePolicy::default(), ParsePolicy::FailHard);
    assert_eq!(clean(b"src", Ok(b"tree".to_vec()), ParsePolicy::FailHard), Ok(b"tree".to_vec()));
    assert_eq!(clean(b"src", Err(Error::Parsing), ParsePolicy::FailHard), Err(Error::Parsing));
    assert_eq!(clean(b"src", Err(Error::Parsing), ParsePolicy::PassThrough), Ok(b"src".to_vec()));
    assert_eq!(
        clean(b"src", Err(Error::Serialization), ParsePolicy::PassThrough),
        Err(Error::Serialization)
    );
    assert_eq!(outcome_of(Ok(b"t".to_vec())), Outcome::Converted(b"t".to_vec()));
    assert_eq!(outcome_of(Err(Error::Parsing)), Outcome::Failed);
}

#[test]
fn stored_form_is_a_fixed_point() {
    let s = b"fn main() {}\n";
    let stored = perform_clean(s, "a.rs").unwrap();
    assert_eq!(stored, b"SERIALIZED:fn main() {}\n".to_vec());
    let text = perform_smudge(&stored, "a.rs").unwrap();
    assert_eq!(text, s.to_vec());
    assert_eq!(perform_clean(&text, "a.rs").unwrap(), stored);
    assert_eq!(perform_smudge(b"plain", "a.rs").unwrap(), b"plain".to_vec());
    assert_eq!(perform_smudge(b"SERIALIZED:", "a.rs").unwrap(), b"".to_vec());
    assert_eq!(perform_smudge(b"SERIALIZED", "a.rs").unwrap(), b"SERIALIZED".to_vec());
}

#[test]
fn config_goes_by_the_suffix() {
    let on = FileConfig { use_filter: true, use_diff_driver: true, use_merge_driver: true };
    let off = FileConfig { use_filter: false, use_diff_driver: false, use_merge_driver: false };
    assert_eq!(FileConfig::default(), off);
    assert_eq!(get_config_for_path("src/main.rs"), Ok(on));
    assert_eq!(get_config_for_path("tool.py"), Ok(on));
    assert_eq!(get_config_for_path("a/b/c.js"), Ok(on));
    assert_eq!(get_config_for_path(".rs"), Ok(on));
    assert_eq!(get_config_for_path("logo.png"), Ok(off));
    assert_eq!(get_config_for_path("rs"), Ok(off));
    assert_eq!(get_config_for_path(""), Ok(off));
    assert_eq!(get_config_for_path("main.rs.bak"), Ok(off));
}

#[test]
fn driver_arguments() {
    let args: Vec<String> =
        ["p", "old", "0a", "100644", "new", "0b", "100644"].iter().map(|s| s.to_string()).collect();
    let d = diff_driver_args(&args).unwrap();
    assert_eq!((d.path.as_str(), d.old_file.as_str(), d.new_file.as_str()), ("p", "old", "new"));
    assert_eq!(
        diff_driver_args(&args[..6].to_vec()).unwrap_err(),
        Error::Driver(DriverFault::DiffArguments)
    );
    let args: Vec<String> = ["O", "A", "B", "9", "P"].iter().map(|s| s.to_string()).collect();
    let m = merge_driver_args(&args).unwrap();
    assert_eq!((m.base.as_str(), m.current.as_str(), m.other.as_str()), ("O", "A", "B"));
    assert_eq!(m.marker_size, 9);
    assert_eq!(m.pathname.as_str(), "P");
    let args: Vec<String> = ["O", "A", "B", "wide", "P"].iter().map(|s| s.to_string()).collect();
    assert_eq!(merge_driver_args(&args).unwrap().marker_size, 7);
    assert_eq!(
        merge_driver_args(&args[..4].to_vec()).unwrap_err(),
        Error::Driver(DriverFault::MergeArguments)
    );
    assert_eq!(marker_size_or_default(None), 7);
    assert_eq!(marker_size_or_default(Some(0)), 0);
}

#[test]
fn attributes_of_the_root() {
    let a = dir_attr(1);
    assert_eq!(a.ino, 1);
    assert_eq!(a.kind, FileKind::Directory);
    assert_eq!(a.perm, 0o755);
    assert_eq!(a.nlink, 2);
    assert_eq!((a.uid, a.gid), (501, 20));
    assert_eq!(a.blksize, 512);
    assert_eq!((a.size, a.blocks, a.rdev, a.flags), (0, 0, 0, 0));
    assert_eq!((a.atime, a.mtime, a.ctime, a.crtime), (0, 0, 0, 0));
    assert_eq!(ROOT_INODE, fuser::FUSE_ROOT_ID);
    assert_eq!(getattr(ROOT_INODE), Ok(dir_attr(ROOT_INODE)));
    assert_eq!(getattr(2), Err(libc::ENOENT));
    assert_eq!(getattr(0), Err(2));
    assert_eq!(not_found(), libc::ENOENT);
    assert_eq!(init_status(Ok::<(), u8>(())), Ok(()));
    assert_eq!(init_status(Err::<(), u8>(3)), Err(libc::EPERM));
    assert_eq!(init_status(Err::<(), u8>(3)), Err(1));
}

#[test]
fn initialization_maps_the_root() {
    let mut fs = GitFS::new("/tmp/repo".to_string());
    assert!(!fs.is_initialized());
    assert_eq!(fs.mapped(), 0);
    assert_eq!(fs.object_of(ROOT_INODE), None);
    assert_eq!(fs.perform_initialization(Err::<ObjectId, u8>(5)), Err(5));
    assert!(!fs.is_initialized());
    assert_eq!(fs.mapped(), 0);
    let oid = ObjectId { bytes: [7u8; 20] };
    assert_eq!(fs.perform_initialization(Ok::<ObjectId, u8>(oid)), Ok(()));
    assert!(fs.is_initialized());
    assert_eq!(fs.mapped(), 1);
    assert_eq!(fs.object_of(ROOT_INODE), Some(oid));
    assert_eq!(fs.object_of(2), None);
}

#[test]
fn entries_without_a_name_get_a_stand_in() {
    assert_eq!(entry_name(Some("src")), "src".to_string());
    assert_eq!(entry_name(Some("")), "".to_string());
    assert_eq!(entry_name(None), "[invalid utf8 name]".to_string());
}
