use feedline::feedline::{
    any_error, append_required, fix_file, fix_files, needs_feedline, repaired_bytes, Assessment,
    PathCheck,
};
use feedline::status::STATUS;
use rayon::prelude::ParallelIterator;
use rayon::prelude::IntoParallelRefIterator;

fn check(file: &str, assessment: Assessment, write_ok: bool) -> PathCheck {
    PathCheck { file: file.to_string(), assessment, write_ok }
}

#[test]
fn appends_newline_to_unterminated_file() {
    let content = b"line without end x".to_vec();
    let repaired = repaired_bytes(&content);
    assert_eq!(repaired.len(), content.len() + 1);
    assert_eq!(&repaired[..content.len()], &content[..]);
    assert_eq!(*repaired.last().unwrap(), b'\n');

    let r = fix_file("nonewline.txt".to_string(), Assessment::LastByte(b'x'), true);
    assert_eq!(r.status, STATUS::SUCCESS);
    assert_eq!(r.file, "nonewline.txt");
    assert_eq!(r.message, None);
}

#[test]
fn terminated_file_unchanged() {
    let content = b"already done\n".to_vec();
    let repaired = repaired_bytes(&content);
    assert_eq!(repaired, content);

    assert!(!needs_feedline(b'\n'));
    let r = fix_file("hasnewline.txt".to_string(), Assessment::LastByte(b'\n'), true);
    assert_eq!(r.status, STATUS::SKIP);
    assert_eq!(r.message, Some("file already has a feedline".to_string()));
    assert!(!append_required(&Assessment::LastByte(b'\n')));
}

#[test]
fn crlf_counts_as_terminated() {
    let content = b"windows line\r\n".to_vec();
    assert_eq!(repaired_bytes(&content), content);
    let content = b"bare cr\r".to_vec();
    let repaired = repaired_bytes(&content);
    assert_eq!(repaired, b"bare cr\r\n".to_vec());
}

#[test]
fn empty_file_skipped() {
    let content: Vec<u8> = Vec::new();
    assert_eq!(repaired_bytes(&content), content);

    let r = fix_file("empty.txt".to_string(), Assessment::EmptyFile, true);
    assert_eq!(r.status, STATUS::SKIP);
    assert_eq!(r.message, Some("file is empty".to_string()));
    assert!(!append_required(&Assessment::EmptyFile));
}

#[test]
fn directory_skipped_without_append() {
    let r = fix_file("some/dir".to_string(), Assessment::Directory, true);
    assert_eq!(r.status, STATUS::SKIP);
    assert_eq!(r.message, Some("path is a directory".to_string()));
    assert!(!append_required(&Assessment::Directory));
}

#[test]
fn symlink_warned_without_append() {
    let r = fix_file("link".to_string(), Assessment::Symlink, true);
    assert_eq!(r.status, STATUS::WARN);
    assert_eq!(r.message, Some("path is a symlink".to_string()));
    assert!(!append_required(&Assessment::Symlink));
}

#[test]
fn missing_path_is_error() {
    let r = fix_file("missing.txt".to_string(), Assessment::Missing, true);
    assert_eq!(r.status, STATUS::ERROR);
    assert_eq!(r.message, Some("path does not exist".to_string()));
    assert!(!append_required(&Assessment::Missing));
}

#[test]
fn not_regular_is_error() {
    let r = fix_file("/dev/null".to_string(), Assessment::NotRegular, true);
    assert_eq!(r.status, STATUS::ERROR);
    assert_eq!(r.message, Some("path is not a file".to_string()));
    assert!(!append_required(&Assessment::NotRegular));
}

#[test]
fn io_failure_is_error() {
    let r = fix_file("locked.txt".to_string(), Assessment::IoFailure, true);
    assert_eq!(r.status, STATUS::ERROR);
    assert_eq!(r.message, Some("failed checking feedline".to_string()));

    let r = fix_file("readonly.txt".to_string(), Assessment::LastByte(b'x'), false);
    assert_eq!(r.status, STATUS::ERROR);
    assert_eq!(r.message, Some("failed checking feedline".to_string()));
}

#[test]
fn repair_is_idempotent() {
    for content in [
        b"ends in x".to_vec(),
        b"done\n".to_vec(),
        Vec::new(),
        b"\n".to_vec(),
        b"x".to_vec(),
    ] {
        let once = repaired_bytes(&content);
        let twice = repaired_bytes(&once);
        assert_eq!(twice, once);
    }

    let content = b"needs one".to_vec();
    let once = repaired_bytes(&content);
    let last = *once.last().unwrap();
    assert!(!needs_feedline(last));
    let second = fix_file("fixed.txt".to_string(), Assessment::LastByte(last), true);
    assert_eq!(second.status, STATUS::SKIP);
}

#[test]
fn batch_keeps_input_order_and_isolation() {
    let checks = vec![
        check("b.txt", Assessment::Missing, true),
        check("a.txt", Assessment::LastByte(b'x'), true),
        check("c.txt", Assessment::Directory, true),
    ];
    let results = fix_files(checks);
    assert_eq!(results.len(), 3);
    assert_eq!(results[0].file, "b.txt");
    assert_eq!(results[0].status, STATUS::ERROR);
    assert_eq!(results[1].file, "a.txt");
    assert_eq!(results[1].status, STATUS::SUCCESS);
    assert_eq!(results[2].file, "c.txt");
    assert_eq!(results[2].status, STATUS::SKIP);
}

#[test]
fn batch_statuses_match_parallel_evaluation() {
    let mixed = vec![
        ("m.txt", Assessment::Missing),
        ("e.txt", Assessment::EmptyFile),
        ("n.txt", Assessment::LastByte(b'x')),
        ("h.txt", Assessment::LastByte(b'\n')),
        ("d", Assessment::Directory),
        ("l", Assessment::Symlink),
        ("s", Assessment::NotRegular),
        ("i.txt", Assessment::IoFailure),
    ];

    let sequential = fix_files(
        mixed.iter().map(|(f, a)| check(f, *a, true)).collect(),
    );
    let mut sequential_ranks: Vec<u8> =
        sequential.iter().map(|r| r.status.rank()).collect();
    sequential_ranks.sort();

    let parallel: Vec<_> = mixed
        .par_iter()
        .map(|(f, a)| fix_file(f.to_string(), *a, true))
        .collect();
    let mut parallel_ranks: Vec<u8> = parallel.iter().map(|r| r.status.rank()).collect();
    parallel_ranks.sort();

    assert_eq!(sequential_ranks, parallel_ranks);
}

#[test]
fn end_to_end_scenario() {
    let nonewline = b"ends in x".to_vec();
    let repaired = repaired_bytes(&nonewline);
    assert_eq!(*repaired.last().unwrap(), b'\n');

    let checks = vec![
        check("missing.txt", Assessment::Missing, true),
        check("empty.txt", Assessment::EmptyFile, true),
        check("nonewline.txt", Assessment::LastByte(b'x'), true),
        check("hasnewline.txt", Assessment::LastByte(b'\n'), true),
    ];
    let results = fix_files(checks);
    let statuses: Vec<STATUS> = results.iter().map(|r| r.status).collect();
    assert_eq!(
        statuses,
        vec![STATUS::ERROR, STATUS::SKIP, STATUS::SUCCESS, STATUS::SKIP]
    );
    assert!(any_error(&results));

    let clean = fix_files(vec![
        check("empty.txt", Assessment::EmptyFile, true),
        check("nonewline.txt", Assessment::LastByte(b'x'), true),
    ]);
    assert!(!any_error(&clean));
}
