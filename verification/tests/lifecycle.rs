use zip_archiver::archive::Method;
use zip_archiver::compress::{begin_compress, CompressOutcome};
use zip_archiver::extract::{begin_decompress, DecompressOutcome};
use zip_archiver::state::{RunState, SharedRun};
use zip_archiver::tree::{walk_tree, Entry, EntryKind, FsNode};
use zip_archiver::ErrorKind;

fn small_tree() -> Vec<FsNode> {
    vec![FsNode::File { name: b"f".to_vec(), data: b"data".to_vec(), mtime: 0 }]
}

#[test]
fn run_state_transitions_follow_the_lifecycle() {
    let mut s = RunState::initial();
    assert_eq!(s, RunState::Idle);
    assert!(!s.is_abort_requested());

    // Abort before Running has no effect: the next operation proceeds.
    assert!(!s.request_abort());
    assert_eq!(s, RunState::Idle);

    assert!(s.set_running());
    assert_eq!(s, RunState::Running);
    // Running is entered only from Idle.
    assert!(!s.set_running());
    assert_eq!(s, RunState::Running);

    assert!(s.request_abort());
    assert_eq!(s, RunState::Abort);
    assert!(s.is_abort_requested());
    // A second request changes nothing.
    assert!(!s.request_abort());
    assert_eq!(s, RunState::Abort);
    // Running cannot be entered from Abort.
    assert!(!s.set_running());
    assert_eq!(s, RunState::Abort);

    s.reset_idle();
    assert_eq!(s, RunState::Idle);
}

#[test]
fn state_is_idle_before_and_after_every_outcome() {
    let run = SharedRun::new();
    assert_eq!(run.current(), Ok(RunState::Idle));

    // A successful run.
    let archive = match begin_compress(walk_tree(&small_tree()), Method::Deflate, &run) {
        CompressOutcome::Success { archive, .. } => archive,
        _ => panic!("compression failed"),
    };
    assert_eq!(run.current(), Ok(RunState::Idle));

    // An induced failure: garbage bytes are rejected.
    let garbage: Vec<u8> = vec![9, 9, 9, 9];
    assert!(matches!(
        begin_decompress(&garbage, &run),
        DecompressOutcome::Failure { .. }
    ));
    assert_eq!(run.current(), Ok(RunState::Idle));

    // An induced abort: the flag is flipped while the state is Running.
    assert_eq!(run.set_running(), Ok(true));
    assert_eq!(run.request_abort(), Ok(true));
    match zip_archiver::extract::run_decompress(&archive, &run) {
        DecompressOutcome::Aborted { processed, entries, .. } => {
            assert_eq!(processed, 0);
            assert_eq!(entries.len(), 0);
        }
        _ => panic!("expected an aborted run"),
    }
    assert_eq!(run.reset_idle(), Ok(()));
    assert_eq!(run.current(), Ok(RunState::Idle));

    // The state is usable again afterwards.
    assert!(matches!(
        begin_decompress(&archive, &run),
        DecompressOutcome::Success { .. }
    ));
    assert_eq!(run.current(), Ok(RunState::Idle));
}

#[test]
fn second_operation_while_running_is_a_concurrency_failure() {
    let run = SharedRun::new();
    assert_eq!(run.set_running(), Ok(true));
    let entries = vec![Entry {
        path: b"f".to_vec(),
        kind: EntryKind::File,
        data: b"x".to_vec(),
        mtime: 0,
    }];
    match begin_compress(entries, Method::Store, &run) {
        CompressOutcome::Failure { kind } => assert_eq!(kind, ErrorKind::ConcurrencyError),
        _ => panic!("a busy state must refuse a second operation"),
    }
    // The refused attempt does not disturb the in-flight state.
    assert_eq!(run.current(), Ok(RunState::Running));
}

#[test]
fn shared_handles_reach_the_same_flag() {
    let run = SharedRun::new();
    let other = run.handle();
    assert_eq!(run.set_running(), Ok(true));
    assert_eq!(other.current(), Ok(RunState::Running));
    assert_eq!(other.request_abort(), Ok(true));
    assert_eq!(run.is_abort_requested(), Ok(true));
    assert_eq!(run.reset_idle(), Ok(()));
    assert_eq!(other.current(), Ok(RunState::Idle));
}
