use zip_archiver::archive::Method;
use zip_archiver::compress::{run_compress, CompressJob, CompressOutcome, StepStatus};
use zip_archiver::extract::{
    check_stored_name, list_members, run_decompress, DecompressOutcome, ExtractJob, ExtractStep,
};
use zip_archiver::paths::check_safe_path;
use zip_archiver::state::SharedRun;
use zip_archiver::tree::{walk_tree, Entry, EntryKind, FsNode};

fn file(name: &str, data: &[u8]) -> FsNode {
    FsNode::File { name: name.as_bytes().to_vec(), data: data.to_vec(), mtime: 1_700_000_000 }
}

fn dir(name: &str, children: Vec<FsNode>) -> FsNode {
    FsNode::Dir { name: name.as_bytes().to_vec(), children }
}

fn sample_tree() -> Vec<FsNode> {
    vec![file("a.txt", b"hello"), dir("sub", vec![file("b.txt", b"0123456789")])]
}

fn entry(path: &str, kind: EntryKind, data: &[u8]) -> Entry {
    Entry { path: path.as_bytes().to_vec(), kind, data: data.to_vec(), mtime: 0 }
}

#[test]
fn walker_orders_depth_first_dirs_before_contents() {
    let entries = walk_tree(&sample_tree());
    let paths: Vec<Vec<u8>> = entries.iter().map(|e| e.path.clone()).collect();
    assert_eq!(
        paths,
        vec![b"a.txt".to_vec(), b"sub".to_vec(), b"sub/b.txt".to_vec()]
    );
    assert!(matches!(entries[0].kind, EntryKind::File));
    assert!(matches!(entries[1].kind, EntryKind::Dir));
    assert!(matches!(entries[2].kind, EntryKind::File));
    assert_eq!(entries[0].data, b"hello".to_vec());
    assert_eq!(entries[1].data, Vec::<u8>::new());
    assert_eq!(entries[2].data, b"0123456789".to_vec());
}

#[test]
fn concrete_scenario_three_members_and_faithful_bytes() {
    let entries = walk_tree(&sample_tree());
    let run = SharedRun::new();
    let archive = match run_compress(entries, Method::Deflate, &run) {
        CompressOutcome::Success { archive, events } => {
            assert_eq!(events.len(), 3);
            archive
        }
        _ => panic!("compression failed"),
    };
    let names = list_members(&archive).expect("listing");
    assert_eq!(
        names,
        vec![b"a.txt".to_vec(), b"sub/".to_vec(), b"sub/b.txt".to_vec()]
    );
    match run_decompress(&archive, &run) {
        DecompressOutcome::Success { entries, events } => {
            assert_eq!(entries.len(), 3);
            assert_eq!(events.len(), 3);
            assert_eq!(entries[0].path, b"a.txt".to_vec());
            assert!(matches!(entries[0].kind, EntryKind::File));
            assert_eq!(entries[0].data, b"hello".to_vec());
            assert_eq!(entries[0].data.len(), 5);
            assert_eq!(entries[1].path, b"sub".to_vec());
            assert!(matches!(entries[1].kind, EntryKind::Dir));
            assert_eq!(entries[2].path, b"sub/b.txt".to_vec());
            assert!(matches!(entries[2].kind, EntryKind::File));
            assert_eq!(entries[2].data, b"0123456789".to_vec());
            assert_eq!(entries[2].data.len(), 10);
        }
        _ => panic!("extraction failed"),
    }
}

#[test]
fn round_trip_reproduces_tree_store_and_deflate() {
    let tree = vec![
        dir("empty", vec![]),
        dir(
            "outer",
            vec![
                file("x.bin", &[0u8, 255u8, 7u8, 7u8]),
                dir("inner", vec![file("y", b"")]),
            ],
        ),
        file("z.txt", b"zzz"),
    ];
    for method in [Method::Store, Method::Deflate] {
        let entries = walk_tree(&tree);
        let run = SharedRun::new();
        let archive = match run_compress(walk_tree(&tree), method, &run) {
            CompressOutcome::Success { archive, .. } => archive,
            _ => panic!("compression failed"),
        };
        match run_decompress(&archive, &run) {
            DecompressOutcome::Success { entries: got, .. } => {
                assert_eq!(got.len(), entries.len());
                for (g, e) in got.iter().zip(entries.iter()) {
                    assert_eq!(g.path, e.path);
                    assert_eq!(
                        matches!(g.kind, EntryKind::Dir),
                        matches!(e.kind, EntryKind::Dir)
                    );
                    assert_eq!(g.data, e.data);
                }
            }
            _ => panic!("extraction failed"),
        }
    }
}

#[test]
fn member_count_equals_independent_walk_count() {
    let tree = sample_tree();
    let first_walk = walk_tree(&tree);
    let run = SharedRun::new();
    let archive = match run_compress(first_walk, Method::Deflate, &run) {
        CompressOutcome::Success { archive, .. } => archive,
        _ => panic!("compression failed"),
    };
    let second_walk = walk_tree(&tree);
    let names = list_members(&archive).expect("listing");
    assert_eq!(names.len(), second_walk.len());
}

#[test]
fn deflate_actually_compresses() {
    let entries = vec![entry("zeros.bin", EntryKind::File, &[0u8; 10000])];
    let run = SharedRun::new();
    match run_compress(entries, Method::Deflate, &run) {
        CompressOutcome::Success { archive, .. } => {
            assert!(archive.len() < 10000);
            match run_decompress(&archive, &run) {
                DecompressOutcome::Success { entries, .. } => {
                    assert_eq!(entries[0].data, vec![0u8; 10000]);
                }
                _ => panic!("extraction failed"),
            }
        }
        _ => panic!("compression failed"),
    }
}

#[test]
fn abort_after_n_of_m_entries_stops_with_processed_n() {
    let tree = vec![
        file("one", b"1"),
        file("two", b"2"),
        file("three", b"3"),
        file("four", b"4"),
    ];
    let mut job = CompressJob::new(walk_tree(&tree), Method::Deflate);
    assert_eq!(job.total(), 4);
    for _ in 0..2 {
        assert!(matches!(job.step(), StepStatus::Wrote));
    }
    let (processed, events) = job.cancel();
    assert_eq!(processed, 2);
    assert_eq!(events.len(), 2);
    assert_eq!(events[0].processed, 1);
    assert_eq!(events[0].total, 4);
    assert_eq!(events[0].name, b"one".to_vec());
    assert_eq!(events[1].processed, 2);
    assert_eq!(events[1].name, b"two".to_vec());
}

#[test]
fn abort_during_extraction_keeps_only_materialized_prefix() {
    let run = SharedRun::new();
    let archive = match run_compress(walk_tree(&sample_tree()), Method::Deflate, &run) {
        CompressOutcome::Success { archive, .. } => archive,
        _ => panic!("compression failed"),
    };
    let mut job = ExtractJob::new(&archive).expect("open");
    assert_eq!(job.total(), 3);
    assert!(matches!(job.step(), ExtractStep::Materialized));
    let (processed, entries, events) = job.cancel();
    assert_eq!(processed, 1);
    assert_eq!(entries.len(), 1);
    assert_eq!(entries[0].path, b"a.txt".to_vec());
    assert_eq!(events.len(), 1);
}

#[test]
fn abort_requested_before_any_entry_writes_nothing() {
    let run = SharedRun::new();
    assert_eq!(run.set_running(), Ok(true));
    assert_eq!(run.request_abort(), Ok(true));
    match run_compress(walk_tree(&sample_tree()), Method::Deflate, &run) {
        CompressOutcome::Aborted { processed, events } => {
            assert_eq!(processed, 0);
            assert_eq!(events.len(), 0);
        }
        _ => panic!("expected an aborted run"),
    }
}

#[test]
fn traversal_member_rejects_whole_archive() {
    let run = SharedRun::new();
    let entries = vec![
        entry("fine.txt", EntryKind::File, b"ok"),
        entry("../evil.txt", EntryKind::File, b"boom"),
    ];
    let archive = match run_compress(entries, Method::Store, &run) {
        CompressOutcome::Success { archive, .. } => archive,
        _ => panic!("compression failed"),
    };
    match run_decompress(&archive, &run) {
        DecompressOutcome::Failure { kind } => {
            assert_eq!(kind, zip_archiver::ErrorKind::ArchiveFormatError);
        }
        _ => panic!("a traversal member must reject the archive"),
    }
}

#[test]
fn absolute_and_backslash_members_reject_whole_archive() {
    let run = SharedRun::new();
    for bad in ["/etc/passwd", "a\\b", "a//b", "a/./b", "inner/.."] {
        let entries = vec![entry(bad, EntryKind::File, b"x")];
        let archive = match run_compress(entries, Method::Store, &run) {
            CompressOutcome::Success { archive, .. } => archive,
            _ => panic!("compression failed"),
        };
        assert!(
            matches!(run_decompress(&archive, &run), DecompressOutcome::Failure { .. }),
            "{bad} must be rejected"
        );
    }
}

#[test]
fn garbage_bytes_fail_with_format_error() {
    let run = SharedRun::new();
    let garbage: Vec<u8> = vec![1, 2, 3, 4, 5, 6, 7, 8];
    match run_decompress(&garbage, &run) {
        DecompressOutcome::Failure { kind } => {
            assert_eq!(kind, zip_archiver::ErrorKind::ArchiveFormatError);
        }
        _ => panic!("garbage must fail"),
    }
    assert!(list_members(&garbage).is_err());
}

#[test]
fn invalid_utf8_name_fails_as_filesystem_error() {
    let run = SharedRun::new();
    let entries = vec![Entry {
        path: vec![0xFF, 0xFE],
        kind: EntryKind::File,
        data: b"x".to_vec(),
        mtime: 0,
    }];
    match run_compress(entries, Method::Store, &run) {
        CompressOutcome::Failure { kind } => {
            assert_eq!(kind, zip_archiver::ErrorKind::FilesystemError);
        }
        _ => panic!("an unencodable name must fail"),
    }
}

#[test]
fn duplicate_entry_names_fail_compression() {
    let run = SharedRun::new();
    let entries = vec![
        entry("same", EntryKind::File, b"1"),
        entry("same", EntryKind::File, b"2"),
    ];
    assert!(matches!(
        run_compress(entries, Method::Store, &run),
        CompressOutcome::Failure { .. }
    ));
}

#[test]
fn empty_tree_round_trips_to_empty_archive() {
    let run = SharedRun::new();
    let entries = walk_tree(&vec![]);
    assert_eq!(entries.len(), 0);
    let archive = match run_compress(entries, Method::Deflate, &run) {
        CompressOutcome::Success { archive, events } => {
            assert_eq!(events.len(), 0);
            archive
        }
        _ => panic!("compression failed"),
    };
    assert_eq!(list_members(&archive).expect("listing").len(), 0);
    match run_decompress(&archive, &run) {
        DecompressOutcome::Success { entries, events } => {
            assert_eq!(entries.len(), 0);
            assert_eq!(events.len(), 0);
        }
        _ => panic!("extraction failed"),
    }
}

#[test]
fn progress_events_carry_counts_totals_and_names() {
    let run = SharedRun::new();
    match run_compress(walk_tree(&sample_tree()), Method::Deflate, &run) {
        CompressOutcome::Success { archive, events } => {
            let expect = [b"a.txt".to_vec(), b"sub".to_vec(), b"sub/b.txt".to_vec()];
            for (i, ev) in events.iter().enumerate() {
                assert_eq!(ev.processed, i + 1);
                assert_eq!(ev.total, 3);
                assert_eq!(ev.name, expect[i]);
            }
            match run_decompress(&archive, &run) {
                DecompressOutcome::Success { events, .. } => {
                    for (i, ev) in events.iter().enumerate() {
                        assert_eq!(ev.processed, i + 1);
                        assert_eq!(ev.total, 3);
                        assert_eq!(ev.name, expect[i]);
                    }
                }
                _ => panic!("extraction failed"),
            }
        }
        _ => panic!("compression failed"),
    }
}

#[test]
fn path_checks_accept_safe_and_reject_unsafe() {
    let ok = ["a", "a/b", "a.b/c.d", "deep/er/est"];
    for p in ok {
        assert!(check_safe_path(&p.as_bytes().to_vec()), "{p} should pass");
    }
    let bad = ["", ".", "..", "/a", "a/", "a//b", "a/./b", "a/../b", "x/..", "a\\b", "../a"];
    for p in bad {
        assert!(!check_safe_path(&p.as_bytes().to_vec()), "{p} should fail");
    }
    assert!(check_stored_name(&b"sub/".to_vec()));
    assert!(check_stored_name(&b"a.txt".to_vec()));
    assert!(!check_stored_name(&b"../".to_vec()));
    assert!(!check_stored_name(&b"//".to_vec()));
}
