//! Each function of the library on values chosen by hand.

use pika::archive::{child_path, pack, unpack, ArchiveEntry, ArchiveReadError};
use pika::cli::{help, parse_command, Command};
use pika::config::{decimal, FileSyncConfig, ServerConfig};
use pika::inbound::{
    next_page, plan_object, select_inbound, InboundStage, RemoteObjectDescriptor,
};
use pika::naming::{
    archive_extension, archive_name, expanded_name, is_inbound_key, local_name, remote_key,
};
use pika::outbound::{plan_child, ChildKind, OutboundStage};
use pika::report::{CycleReport, ItemOutcome, SkipReason, StepError};
use pika::sync::LoopPhase;
use pika::text::{ends_with, join, same_text, skip_chars, starts_with, take_chars};

fn directory(path: &str) -> ArchiveEntry {
    ArchiveEntry { path: path.to_string(), read_only: false, content: None }
}

fn file(path: &str, content: Vec<u8>) -> ArchiveEntry {
    ArchiveEntry { path: path.to_string(), read_only: false, content: Some(content) }
}

fn config(upload_prefix: &str, download_prefix: &str) -> FileSyncConfig {
    FileSyncConfig {
        s3_path: "http://localhost:4566".to_string(),
        bucket_name: "exchange".to_string(),
        source_path: "outbox".to_string(),
        destination_path: "inbox".to_string(),
        s3_prefix: upload_prefix.to_string(),
        destination_prefix: download_prefix.to_string(),
        poll_interval_secs: 5,
    }
}

fn args(words: &[&str]) -> Vec<String> {
    words.iter().map(|w| w.to_string()).collect()
}

#[test]
fn help_lists_the_three_commands() {
    assert_eq!(
        help(),
        "pika is a file uploader\n\n-u|--upload [path]\n-d|--download\n-h|--help"
    );
}

#[test]
fn command_line_without_arguments_runs_the_daemon() {
    assert_eq!(parse_command(&args(&["pika"])), Command::Daemon);
    assert_eq!(parse_command(&args(&[])), Command::Daemon);
}

#[test]
fn command_line_upload_takes_one_path() {
    assert_eq!(
        parse_command(&args(&["pika", "-u", "a/b.txt"])),
        Command::Upload("a/b.txt".to_string())
    );
    assert_eq!(
        parse_command(&args(&["pika", "--upload", "x"])),
        Command::Upload("x".to_string())
    );
    assert_eq!(parse_command(&args(&["pika", "-u"])), Command::Help);
    assert_eq!(parse_command(&args(&["pika", "-u", "a", "b"])), Command::Help);
}

#[test]
fn command_line_download_stands_alone() {
    assert_eq!(parse_command(&args(&["pika", "-d"])), Command::Download);
    assert_eq!(parse_command(&args(&["pika", "--download"])), Command::Download);
    assert_eq!(parse_command(&args(&["pika", "-d", "extra"])), Command::Help);
}

#[test]
fn command_line_anything_else_asks_for_help() {
    assert_eq!(parse_command(&args(&["pika", "-h"])), Command::Help);
    assert_eq!(parse_command(&args(&["pika", "--help"])), Command::Help);
    assert_eq!(parse_command(&args(&["pika", "-x"])), Command::Help);
    assert_eq!(parse_command(&args(&["pika", "-U", "path"])), Command::Help);
}

#[test]
fn text_prefix_and_suffix() {
    assert!(starts_with("down/notes.txt", "down/"));
    assert!(starts_with("down/", "down/"));
    assert!(starts_with("anything", ""));
    assert!(!starts_with("dow", "down/"));
    assert!(!starts_with("town/notes.txt", "down/"));
    assert!(ends_with("bundle.zip", ".zip"));
    assert!(ends_with("bundle.zip", ""));
    assert!(!ends_with("zip", ".zip"));
    assert!(!ends_with("bundle.zap", ".zip"));
    assert!(same_text("né", "né"));
    assert!(!same_text("ne", "né"));
    assert!(!same_text("a", "ab"));
}

#[test]
fn text_cutting_counts_characters() {
    assert_eq!(skip_chars("prefix-rest", 7), "rest");
    assert_eq!(skip_chars("éàü", 1), "àü");
    assert_eq!(skip_chars("abc", 3), "");
    assert_eq!(skip_chars("abc", 4), "");
    assert_eq!(take_chars("abc", 4), "abc");
    assert_eq!(take_chars("éàü", 2), "éà");
    assert_eq!(take_chars("abc", 0), "");
    assert_eq!(join("up/", "report.txt"), "up/report.txt");
    assert_eq!(join("", ""), "");
}

#[test]
fn remote_key_is_prefix_then_name() {
    assert_eq!(remote_key("up/", "report.txt"), "up/report.txt");
    assert_eq!(remote_key("", "report.txt"), "report.txt");
    assert_eq!(remote_key("machine-a_", "données.csv"), "machine-a_données.csv");
}

#[test]
fn inbound_keys_begin_with_the_download_prefix() {
    assert!(is_inbound_key("down/", "down/notes.txt"));
    assert!(is_inbound_key("down/", "down/"));
    assert!(!is_inbound_key("down/", "up/notes.txt"));
    assert!(!is_inbound_key("down/", "notes.txt"));
    assert!(!is_inbound_key("down/", "x/down/notes.txt"));
}

#[test]
fn local_name_is_the_key_without_the_prefix() {
    assert_eq!(local_name("down/", "down/notes.txt"), Some("notes.txt".to_string()));
    assert_eq!(local_name("down/", "down/a/b.txt"), Some("a/b.txt".to_string()));
    assert_eq!(local_name("down/", "down/"), Some(String::new()));
    assert_eq!(local_name("", "notes.txt"), Some("notes.txt".to_string()));
    assert_eq!(local_name("down/", "up/notes.txt"), None);
}

#[test]
fn archive_names() {
    assert_eq!(archive_extension(), ".zip");
    assert_eq!(archive_name("data"), "data.zip");
    assert_eq!(expanded_name("bundle.zip"), Some("bundle".to_string()));
    assert_eq!(expanded_name("a/b/bundle.zip"), Some("a/b/bundle".to_string()));
    assert_eq!(expanded_name("x.zip"), Some("x".to_string()));
    assert_eq!(expanded_name("bundle.tar.zip"), Some("bundle.tar".to_string()));
    assert_eq!(expanded_name(".zip"), None);
    assert_eq!(expanded_name("a/.zip"), None);
    assert_eq!(expanded_name("bundle.ZIP"), None);
    assert_eq!(expanded_name("bundle.zip.txt"), None);
    assert_eq!(expanded_name("zip"), None);
    assert_eq!(expanded_name(""), None);
}

#[test]
fn prefixes_overlap_when_one_begins_with_the_other() {
    assert!(config("up/", "down/").has_disjoint_prefixes());
    assert!(!config("up/", "up/").has_disjoint_prefixes());
    assert!(!config("up/", "up/in/").has_disjoint_prefixes());
    assert!(!config("up/out/", "up/").has_disjoint_prefixes());
    assert!(!config("", "down/").has_disjoint_prefixes());
    assert!(!config("up/", "").has_disjoint_prefixes());
    assert!(config("a", "b").has_disjoint_prefixes());
}

#[test]
fn listener_address_is_host_colon_port() {
    let server = ServerConfig { enabled: true, host: "127.0.0.1".to_string(), port: 7878 };
    assert_eq!(server.listen_address(), Some("127.0.0.1:7878".to_string()));
    let highest = ServerConfig { enabled: true, host: "localhost".to_string(), port: 65535 };
    assert_eq!(highest.listen_address(), Some("localhost:65535".to_string()));
    let lowest = ServerConfig { enabled: true, host: String::new(), port: 0 };
    assert_eq!(lowest.listen_address(), Some(":0".to_string()));
}

#[test]
fn listener_that_is_switched_off_has_no_address() {
    let server = ServerConfig { enabled: false, host: "127.0.0.1".to_string(), port: 7878 };
    assert_eq!(server.listen_address(), None);
}

#[test]
fn decimal_has_no_leading_zeros() {
    assert_eq!(decimal(0), "0");
    assert_eq!(decimal(9), "9");
    assert_eq!(decimal(10), "10");
    assert_eq!(decimal(1234), "1234");
    assert_eq!(decimal(40506), "40506");
    assert_eq!(decimal(65535), "65535");
    for number in [0u16, 7, 80, 100, 443, 8080, 60000, u16::MAX] {
        assert_eq!(decimal(number), number.to_string());
    }
}

#[test]
fn child_paths_are_joined_with_slashes() {
    assert_eq!(child_path("", "a.txt"), "a.txt");
    assert_eq!(child_path("sub", "b.txt"), "sub/b.txt");
    assert_eq!(child_path("sub/deeper", "c"), "sub/deeper/c");
}

#[test]
fn recorded_steps_can_be_replayed() {
    let unit = plan_object("down/", "down/bundle.zip").unwrap();
    let all_well = vec![Ok(()); 5];
    assert_eq!(
        unit.advance_all(InboundStage::Get, &all_well),
        InboundStage::Finished(ItemOutcome::Success)
    );
    assert_eq!(unit.advance_all(InboundStage::Get, &vec![Ok(()); 2]), InboundStage::DeleteRemote);
    assert_eq!(unit.advance_all(InboundStage::Get, &Vec::new()), InboundStage::Get);
    let put_fails = vec![Ok(()), Ok(()), Ok(()), Err(StepError::Transfer), Ok(())];
    assert_eq!(
        OutboundStage::Pack.advance_all(&put_fails),
        OutboundStage::Finished(ItemOutcome::Failed(StepError::Transfer))
    );
    assert_eq!(
        OutboundStage::Read.advance_all(&vec![Ok(()); 3]),
        OutboundStage::Finished(ItemOutcome::Success)
    );
    assert_eq!(OutboundStage::Read.advance_all(&vec![Ok(()); 2]), OutboundStage::RemovePayload);
}

#[test]
fn planned_file_keeps_its_name() {
    let unit = plan_child("up/", Some("report.txt"), ChildKind::File).unwrap();
    assert_eq!(unit.source_name, "report.txt");
    assert_eq!(unit.payload_name, "report.txt");
    assert_eq!(unit.remote_key, "up/report.txt");
    assert!(!unit.directory_origin);
    assert_eq!(unit.first_stage(), OutboundStage::Read);
}

#[test]
fn planned_directory_becomes_an_archive() {
    let unit = plan_child("up/", Some("data"), ChildKind::Directory).unwrap();
    assert_eq!(unit.source_name, "data");
    assert_eq!(unit.payload_name, "data.zip");
    assert_eq!(unit.remote_key, "up/data.zip");
    assert!(unit.directory_origin);
    assert_eq!(unit.first_stage(), OutboundStage::Pack);
}

#[test]
fn upload_steps_follow_one_another() {
    let mut stage = OutboundStage::Pack;
    let mut seen = vec![stage];
    while stage.outcome().is_none() {
        stage = stage.advance(Ok(()));
        seen.push(stage);
    }
    assert_eq!(
        seen,
        vec![
            OutboundStage::Pack,
            OutboundStage::RemoveDirectory,
            OutboundStage::Read,
            OutboundStage::Put,
            OutboundStage::RemovePayload,
            OutboundStage::Finished(ItemOutcome::Success),
        ]
    );
    assert_eq!(stage.outcome(), Some(ItemOutcome::Success));
    assert_eq!(stage.advance(Err(StepError::Transfer)), stage);
}

#[test]
fn upload_step_that_fails_ends_the_upload() {
    assert_eq!(
        OutboundStage::Pack.advance(Err(StepError::ArchiveWrite)),
        OutboundStage::Finished(ItemOutcome::Failed(StepError::ArchiveWrite))
    );
    for stage in [
        OutboundStage::RemoveDirectory,
        OutboundStage::Read,
        OutboundStage::Put,
        OutboundStage::RemovePayload,
    ] {
        assert_eq!(
            stage.advance(Err(StepError::Transfer)),
            OutboundStage::Finished(ItemOutcome::Failed(StepError::Transfer))
        );
    }
    assert_eq!(OutboundStage::Put.outcome(), None);
}

#[test]
fn planned_object_knows_where_it_lands() {
    let plain = plan_object("down/", "down/notes.txt").unwrap();
    assert_eq!(plain.key, "down/notes.txt");
    assert_eq!(plain.local_name, "notes.txt");
    assert_eq!(plain.expanded_name, None);
    assert!(!plain.is_archive());
    assert_eq!(plain.first_stage(), InboundStage::Get);

    let archive = plan_object("down/", "down/bundle.zip").unwrap();
    assert_eq!(archive.local_name, "bundle.zip");
    assert_eq!(archive.expanded_name, Some("bundle".to_string()));
    assert!(archive.is_archive());

    assert_eq!(plan_object("down/", "up/notes.txt"), None);
}

#[test]
fn selection_keeps_the_order_of_the_listing() {
    let listing: Vec<RemoteObjectDescriptor> =
        ["down/b", "up/x", "down/a.zip", "other", "down/c"]
            .iter()
            .map(|k| RemoteObjectDescriptor { key: k.to_string(), size: 1 })
            .collect();
    let units = select_inbound("down/", &listing);
    let keys: Vec<&str> = units.iter().map(|u| u.key.as_str()).collect();
    let names: Vec<&str> = units.iter().map(|u| u.local_name.as_str()).collect();
    assert_eq!(keys, vec!["down/b", "down/a.zip", "down/c"]);
    assert_eq!(names, vec!["b", "a.zip", "c"]);
    assert_eq!(units[1].expanded_name, Some("a".to_string()));
    assert!(select_inbound("down/", &Vec::new()).is_empty());
}

#[test]
fn descriptor_takes_the_reported_size() {
    let listed = RemoteObjectDescriptor::new("down/a", Some(12));
    assert_eq!(listed, RemoteObjectDescriptor { key: "down/a".to_string(), size: 12 });
    assert_eq!(RemoteObjectDescriptor::new("k", None).size, 0);
    assert_eq!(RemoteObjectDescriptor::new("k", Some(-1)).size, 0);
    assert_eq!(RemoteObjectDescriptor::new("k", Some(0)).size, 0);
    assert_eq!(RemoteObjectDescriptor::new("k", Some(i64::MAX)).size, i64::MAX as u64);
}

#[test]
fn listing_goes_on_only_with_a_token_after_a_cut() {
    assert_eq!(next_page(Some(true), Some("t1")), Some("t1".to_string()));
    assert_eq!(next_page(Some(true), None), None);
    assert_eq!(next_page(Some(false), Some("t1")), None);
    assert_eq!(next_page(None, Some("t1")), None);
    assert_eq!(next_page(None, None), None);
}

#[test]
fn download_steps_of_a_plain_object() {
    let unit = plan_object("down/", "down/notes.txt").unwrap();
    let writing = unit.advance(InboundStage::Get, Ok(()));
    assert_eq!(writing, InboundStage::Write);
    let deleting = unit.advance(writing, Ok(()));
    assert_eq!(deleting, InboundStage::DeleteRemote);
    assert_eq!(unit.advance(deleting, Ok(())), InboundStage::Finished(ItemOutcome::Success));
    assert_eq!(
        unit.advance(deleting, Err(StepError::NotFound)),
        InboundStage::Finished(ItemOutcome::Success)
    );
    assert_eq!(
        unit.advance(deleting, Err(StepError::Transfer)),
        InboundStage::Finished(ItemOutcome::Failed(StepError::Transfer))
    );
}

#[test]
fn download_steps_of_an_archive() {
    let unit = plan_object("down/", "down/bundle.zip").unwrap();
    let unpacking = unit.advance(InboundStage::DeleteRemote, Ok(()));
    assert_eq!(unpacking, InboundStage::Unpack);
    assert_eq!(unit.advance(InboundStage::DeleteRemote, Err(StepError::NotFound)), unpacking);
    let removing = unit.advance(unpacking, Ok(()));
    assert_eq!(removing, InboundStage::RemoveArchive);
    assert_eq!(unit.advance(removing, Ok(())), InboundStage::Finished(ItemOutcome::Success));
    assert_eq!(
        unit.advance(unpacking, Err(StepError::ArchiveRead)),
        InboundStage::Finished(ItemOutcome::Failed(StepError::ArchiveRead))
    );
    assert_eq!(
        unit.advance(removing, Err(StepError::Transfer)),
        InboundStage::Finished(ItemOutcome::Failed(StepError::Transfer))
    );
}

#[test]
fn download_of_a_vanished_object_is_skipped() {
    let unit = plan_object("down/", "down/notes.txt").unwrap();
    let gone = unit.advance(InboundStage::Get, Err(StepError::NotFound));
    assert_eq!(gone, InboundStage::Finished(ItemOutcome::Skipped(SkipReason::ObjectGone)));
    assert_eq!(gone.outcome(), Some(ItemOutcome::Skipped(SkipReason::ObjectGone)));
    assert_eq!(unit.advance(gone, Ok(())), gone);
    assert_eq!(
        unit.advance(InboundStage::Get, Err(StepError::Transfer)),
        InboundStage::Finished(ItemOutcome::Failed(StepError::Transfer))
    );
    assert_eq!(
        unit.advance(InboundStage::Write, Err(StepError::NotFound)),
        InboundStage::Finished(ItemOutcome::Failed(StepError::NotFound))
    );
    assert_eq!(InboundStage::Write.outcome(), None);
}

#[test]
fn report_exit_code_tells_of_failures() {
    let mut report = CycleReport::new();
    assert_eq!(report.exit_code(), 0);
    assert_eq!(report.failed_count(), 0);
    report.record(ItemOutcome::Success);
    report.record(ItemOutcome::Skipped(SkipReason::InvalidName));
    assert_eq!(report.exit_code(), 0);
    report.record(ItemOutcome::Failed(StepError::Transfer));
    report.record(ItemOutcome::Success);
    report.record(ItemOutcome::Failed(StepError::ArchiveWrite));
    assert_eq!(report.exit_code(), 1);
    assert_eq!(report.failed_count(), 2);
    assert_eq!(report.outcomes.len(), 5);
    assert_eq!(report.outcomes[2], ItemOutcome::Failed(StepError::Transfer));
}

#[test]
fn loop_stops_only_when_its_directory_fails_at_the_start() {
    let start = LoopPhase::start();
    assert_eq!(start, LoopPhase::Prepare { first: true });
    assert_eq!(start.advance(false), LoopPhase::Stopped);
    assert_eq!(LoopPhase::Stopped.advance(true), LoopPhase::Stopped);
    assert_eq!(start.advance(true), LoopPhase::Scan);
    assert_eq!(LoopPhase::Scan.advance(true), LoopPhase::Sleep);
    assert_eq!(LoopPhase::Scan.advance(false), LoopPhase::Sleep);
    assert_eq!(LoopPhase::Sleep.advance(true), LoopPhase::Prepare { first: false });
    assert_eq!(LoopPhase::Prepare { first: false }.advance(false), LoopPhase::Sleep);
    assert_eq!(LoopPhase::Prepare { first: false }.advance(true), LoopPhase::Scan);
}

#[test]
fn archive_bytes_are_exact() {
    assert_eq!(pack(&Vec::new()), vec![0x50, 0x49, 0x4b, 0x41]);
    let bytes = pack(&vec![
        directory("d"),
        file("d/é", vec![9, 8]),
    ]);
    let mut expected: Vec<u8> = vec![0x50, 0x49, 0x4b, 0x41];
    expected.extend([0, 1, 0, 0, 0, 0, 0, 0, 0, b'd']);
    expected.extend([1, 4, 0, 0, 0, 0, 0, 0, 0, b'd', b'/', 0xc3, 0xa9]);
    expected.extend([2, 0, 0, 0, 0, 0, 0, 0, 9, 8]);
    assert_eq!(bytes, expected);
}

#[test]
fn archive_unpacks_to_what_was_packed() {
    let entries = vec![
        directory("empty"),
        file("ünïcödé/文件.txt", b"hello".to_vec()),
        file("zero", Vec::new()),
        directory(""),
    ];
    assert_eq!(unpack(&pack(&entries)), Ok(entries));
    assert_eq!(unpack(&pack(&Vec::new())), Ok(Vec::new()));
}

#[test]
fn read_only_entries_carry_their_own_tags() {
    let entries = vec![
        ArchiveEntry { path: "d".to_string(), read_only: true, content: None },
        ArchiveEntry { path: "f".to_string(), read_only: true, content: Some(vec![7]) },
    ];
    let bytes = pack(&entries);
    let mut expected: Vec<u8> = vec![0x50, 0x49, 0x4b, 0x41];
    expected.extend([2, 1, 0, 0, 0, 0, 0, 0, 0, b'd']);
    expected.extend([3, 1, 0, 0, 0, 0, 0, 0, 0, b'f', 1, 0, 0, 0, 0, 0, 0, 0, 7]);
    assert_eq!(bytes, expected);
    assert_eq!(unpack(&bytes), Ok(entries));
}

#[test]
fn bytes_without_the_header_are_no_archive() {
    assert_eq!(unpack(&[]), Err(ArchiveReadError::BadHeader));
    assert_eq!(unpack(&[0x50, 0x49, 0x4b]), Err(ArchiveReadError::BadHeader));
    assert_eq!(unpack(&[0x50, 0x4b, 0x03, 0x04, 0, 0]), Err(ArchiveReadError::BadHeader));
    assert_eq!(unpack(b"PIKa"), Err(ArchiveReadError::BadHeader));
}

#[test]
fn broken_entries_are_rejected() {
    let good = pack(&vec![file("a", vec![1, 2, 3])]);
    for cut in 5..good.len() {
        assert_eq!(unpack(&good[..cut]), Err(ArchiveReadError::Malformed));
    }
    let mut unknown_tag = good.clone();
    unknown_tag[4] = 4;
    assert_eq!(unpack(&unknown_tag), Err(ArchiveReadError::Malformed));
    let mut long_path = good.clone();
    long_path[12] = 0xff;
    assert_eq!(unpack(&long_path), Err(ArchiveReadError::Malformed));
    let mut trailing = good.clone();
    trailing.push(0);
    assert_eq!(unpack(&trailing), Err(ArchiveReadError::Malformed));
}

#[test]
fn path_that_is_not_utf8_is_rejected() {
    let mut bytes = pack(&vec![directory("ab")]);
    let last = bytes.len() - 1;
    bytes[last] = 0xff;
    assert_eq!(unpack(&bytes), Err(ArchiveReadError::Malformed));
    bytes[last] = b'c';
    assert_eq!(unpack(&bytes), Ok(vec![directory("ac")]));
}
