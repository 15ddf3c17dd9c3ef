use paccat::pattern::Match;
use paccat::scan::{
    is_binary, pager_exit_result, ArchiveEvent, EntryProcessor, EntryState, ScanOpts, SinkKind,
    StepAction,
};

fn strings(v: &[&str]) -> Vec<String> {
    v.iter().map(|s| s.to_string()).collect()
}

fn opts() -> ScanOpts {
    ScanOpts {
        list: false,
        extract: false,
        install: false,
        binary: false,
        executable: false,
        all: false,
        use_pager: false,
        elevated: false,
        root: "/".to_string(),
    }
}

fn start(path: &str, mode: u32) -> ArchiveEvent {
    ArchiveEvent::EntryStart { path: path.to_string(), mode, uid: 42, gid: 7 }
}

fn chunk(data: &[u8]) -> ArchiveEvent {
    ArchiveEvent::DataChunk { data: data.to_vec() }
}

#[test]
fn zero_byte_in_first_512_is_binary() {
    assert!(is_binary(&[b'A', 0, b'B']));
}

#[test]
fn printable_ascii_is_not_binary() {
    assert!(!is_binary(b"plain text, nothing else"));
}

#[test]
fn zero_byte_after_512_is_not_binary() {
    let mut data = vec![b'a'; 600];
    data[599] = 0;
    assert!(!is_binary(&data));
}

#[test]
fn zero_byte_at_511_is_binary() {
    let mut data = vec![b'a'; 600];
    data[511] = 0;
    assert!(is_binary(&data));
}

#[test]
fn empty_chunk_is_not_binary() {
    assert!(!is_binary(&[]));
}

#[test]
fn extract_round_trip_preserves_bytes_and_mode() {
    let mut m = Match::new(false, strings(&["a.txt"])).unwrap();
    let mut p = EntryProcessor::new(ScanOpts { extract: true, binary: true, ..opts() });
    let events = vec![
        start("usr/share/a.txt", 0o100644),
        chunk(b"hello "),
        chunk(b"world"),
        ArchiveEvent::EntryEnd,
    ];
    let mut written: Vec<u8> = Vec::new();
    let mut dest_mode = 0;
    let mut dest_name = String::new();
    for ev in events {
        match p.on_event(&mut m, ev) {
            StepAction::BeginExtract { dest, mode, .. } => {
                dest_mode = mode;
                dest_name = dest;
            }
            StepAction::WriteChunk { data } => written.extend_from_slice(&data),
            StepAction::FallbackWrite { data } => written.extend_from_slice(&data),
            _ => (),
        }
    }
    assert_eq!(written, b"hello world");
    assert_eq!(dest_mode, 0o100644);
    assert_eq!(dest_name, "a.txt");
}

#[test]
fn extraction_forwards_binary_content_verbatim() {
    let mut m = Match::new(false, strings(&["blob"])).unwrap();
    let mut p = EntryProcessor::new(ScanOpts { extract: true, binary: true, ..opts() });
    assert!(matches!(
        p.on_event(&mut m, start("usr/lib/blob", 0o100755)),
        StepAction::BeginExtract { .. }
    ));
    let payload = [0u8, 1, 2, 0, 255];
    match p.on_event(&mut m, chunk(&payload)) {
        StepAction::WriteChunk { data } => assert_eq!(data, payload.to_vec()),
        _ => panic!("binary chunk must still reach the destination file"),
    }
}

#[test]
fn install_prefixes_the_root_and_keeps_ownership() {
    let mut m = Match::new(false, strings(&["a.txt"])).unwrap();
    let mut p = EntryProcessor::new(ScanOpts {
        install: true,
        binary: true,
        elevated: true,
        root: "/".to_string(),
        ..opts()
    });
    match p.on_event(&mut m, start("usr/share/a.txt", 0o100600)) {
        StepAction::BeginExtract { path, dest, mode, uid, gid, chown_if_new } => {
            assert_eq!(path, "usr/share/a.txt");
            assert_eq!(dest, "/usr/share/a.txt");
            assert_eq!(mode, 0o100600);
            assert_eq!(uid, 42);
            assert_eq!(gid, 7);
            assert!(chown_if_new);
        }
        _ => panic!("an installed entry must open a destination file"),
    }
}

#[test]
fn unelevated_install_never_chowns() {
    let mut m = Match::new(false, strings(&["a.txt"])).unwrap();
    let mut p =
        EntryProcessor::new(ScanOpts { install: true, binary: true, elevated: false, ..opts() });
    match p.on_event(&mut m, start("a.txt", 0o100644)) {
        StepAction::BeginExtract { chown_if_new, .. } => assert!(!chown_if_new),
        _ => panic!("an installed entry must open a destination file"),
    }
}

#[test]
fn list_mode_announces_without_opening_a_sink() {
    let mut m = Match::new(false, strings(&["a.txt"])).unwrap();
    let mut p = EntryProcessor::new(ScanOpts { list: true, ..opts() });
    match p.on_event(&mut m, start("usr/a.txt", 0o100644)) {
        StepAction::AnnouncePath { path } => assert_eq!(path, "usr/a.txt"),
        _ => panic!("list mode must announce the path"),
    }
    assert_eq!(p.state, EntryState::Skip);
    assert!(matches!(p.on_event(&mut m, chunk(b"data")), StepAction::Ignore));
}

#[test]
fn print_mode_streams_through_passthrough() {
    let mut m = Match::new(false, strings(&["a.txt"])).unwrap();
    let mut p = EntryProcessor::new(opts());
    match p.on_event(&mut m, start("usr/a.txt", 0o100644)) {
        StepAction::BeginStream { pager, title } => {
            assert!(!pager);
            assert_eq!(title, "/usr/a.txt");
        }
        _ => panic!("print mode must open a stream"),
    }
    match p.on_event(&mut m, chunk(b"text")) {
        StepAction::WriteChunk { data } => assert_eq!(data, b"text".to_vec()),
        _ => panic!("text chunks are forwarded"),
    }
    assert!(matches!(p.on_event(&mut m, ArchiveEvent::EntryEnd), StepAction::FinishEntry {
        pager: false
    }));
}

#[test]
fn binary_through_passthrough_is_written_raw() {
    // without a pager the binary check never abandons the entry
    let mut m = Match::new(false, strings(&["blob"])).unwrap();
    let mut p = EntryProcessor::new(opts());
    assert!(matches!(p.on_event(&mut m, start("blob", 0o100644)), StepAction::BeginStream { .. }));
    assert!(matches!(p.on_event(&mut m, chunk(&[0, 1, 2])), StepAction::WriteChunk { .. }));
}

#[test]
fn pager_falls_back_and_abandons_binary_entries() {
    let mut m = Match::new(false, strings(&["blob"])).unwrap();
    let mut p = EntryProcessor::new(ScanOpts { use_pager: true, ..opts() });
    assert!(matches!(
        p.on_event(&mut m, start("usr/lib/blob", 0o100644)),
        StepAction::BeginStream { pager: true, .. }
    ));
    match p.on_event(&mut m, chunk(&[0u8, 1, 2])) {
        StepAction::AbandonBinary { name } => assert_eq!(name, "blob"),
        _ => panic!("a binary entry without --binary is abandoned"),
    }
    assert_eq!(p.state, EntryState::Skip);
    assert!(matches!(p.on_event(&mut m, chunk(b"more")), StepAction::Ignore));
    // the pager is gone, so the entry end closes a plain sink
    assert!(matches!(p.on_event(&mut m, ArchiveEvent::EntryEnd), StepAction::FinishEntry {
        pager: false
    }));
}

#[test]
fn pager_falls_back_but_writes_when_binary_allowed() {
    let mut m = Match::new(false, strings(&["blob"])).unwrap();
    let mut p = EntryProcessor::new(ScanOpts { use_pager: true, binary: true, ..opts() });
    assert!(matches!(
        p.on_event(&mut m, start("blob", 0o100644)),
        StepAction::BeginStream { pager: true, .. }
    ));
    match p.on_event(&mut m, chunk(&[0u8, 9])) {
        StepAction::FallbackWrite { data } => assert_eq!(data, vec![0u8, 9]),
        _ => panic!("with --binary the chunk is written through pass-through"),
    }
    assert_eq!(p.sink, SinkKind::PassThrough);
    assert_eq!(p.state, EntryState::Reading);
}

#[test]
fn pager_sink_is_awaited_at_entry_end() {
    let mut m = Match::new(false, strings(&["a.txt"])).unwrap();
    let mut p = EntryProcessor::new(ScanOpts { use_pager: true, ..opts() });
    assert!(matches!(
        p.on_event(&mut m, start("a.txt", 0o100644)),
        StepAction::BeginStream { pager: true, .. }
    ));
    assert!(matches!(p.on_event(&mut m, chunk(b"text")), StepAction::WriteChunk { .. }));
    assert!(matches!(p.on_event(&mut m, ArchiveEvent::EntryEnd), StepAction::FinishEntry {
        pager: true
    }));
    assert_eq!(p.sink, SinkKind::NoSink);
}

#[test]
fn non_regular_entries_are_skipped() {
    let mut m = Match::new(false, strings(&["*"])).unwrap();
    let mut p = EntryProcessor::new(opts());
    // a directory and a symlink
    assert!(matches!(p.on_event(&mut m, start("usr/share", 0o040755)), StepAction::Ignore));
    assert!(matches!(p.on_event(&mut m, start("usr/link", 0o120777)), StepAction::Ignore));
    assert!(!m.all_matched());
}

#[test]
fn executable_filter_skips_plain_files() {
    let mut m = Match::new(false, strings(&["*"])).unwrap();
    let mut p = EntryProcessor::new(ScanOpts { executable: true, ..opts() });
    assert!(matches!(p.on_event(&mut m, start("usr/doc.txt", 0o100644)), StepAction::Ignore));
    assert!(!m.all_matched());
    assert!(matches!(
        p.on_event(&mut m, start("usr/bin/tool", 0o100755)),
        StepAction::BeginStream { .. }
    ));
    assert!(m.all_matched());
}

#[test]
fn unmatched_entries_leave_the_processor_skipping() {
    let mut m = Match::new(false, strings(&["wanted.txt"])).unwrap();
    let mut p = EntryProcessor::new(opts());
    assert!(matches!(p.on_event(&mut m, start("other.txt", 0o100644)), StepAction::Ignore));
    assert_eq!(p.state, EntryState::Skip);
    assert!(matches!(p.on_event(&mut m, chunk(b"junk")), StepAction::Ignore));
}

#[test]
fn first_occurrence_mode_prints_only_once() {
    // the same path in two archives: the second occurrence is not reopened
    let mut m = Match::new(false, strings(&["a.txt"])).unwrap();
    let mut p = EntryProcessor::new(opts());
    assert!(matches!(p.on_event(&mut m, start("a.txt", 0o100644)), StepAction::BeginStream {
        ..
    }));
    assert!(matches!(p.on_event(&mut m, ArchiveEvent::EntryEnd), StepAction::FinishEntry { .. }));
    assert!(matches!(p.on_event(&mut m, start("a.txt", 0o100644)), StepAction::Ignore));
}

#[test]
fn all_mode_reports_every_occurrence() {
    let mut m = Match::new(false, strings(&["a.txt"])).unwrap();
    let mut p = EntryProcessor::new(ScanOpts { all: true, ..opts() });
    assert!(matches!(p.on_event(&mut m, start("a.txt", 0o100644)), StepAction::BeginStream {
        ..
    }));
    assert!(matches!(p.on_event(&mut m, ArchiveEvent::EntryEnd), StepAction::FinishEntry { .. }));
    assert!(matches!(p.on_event(&mut m, start("a.txt", 0o100644)), StepAction::BeginStream {
        ..
    }));
}

#[test]
fn pager_exit_status_decides_the_failure() {
    assert!(pager_exit_result(true, 0).is_ok());
    assert_eq!(pager_exit_result(false, 3), Err(3));
}

#[test]
fn scan_options_follow_the_arguments() {
    let args = paccat::Args {
        filedb: false,
        localdb: false,
        root: None,
        dbpath: None,
        config: None,
        color: paccat::ColorWhen::Always,
        refresh: 0,
        cachedir: None,
        all: true,
        regex: false,
        binary: true,
        executable: false,
        extract: false,
        install: false,
        list: false,
        debug: false,
        targets: vec!["pkg".to_string()],
        files: vec!["f".to_string()],
    };
    let o = ScanOpts::from_args(&args, true, true, false, "/".to_string());
    assert!(o.all && o.binary && o.use_pager && !o.list && !o.extract && !o.install);
    assert_eq!(o.root, "/");
    // listing suppresses the pager even in color
    let args = paccat::Args { list: true, ..args };
    let o = ScanOpts::from_args(&args, true, true, false, "/".to_string());
    assert!(o.list && !o.use_pager);
}
