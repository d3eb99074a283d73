use rlf::pipeline::{conclude, count_changed, plan_file, FileAction, FileOutcome};

#[test]
fn three_file_run() {
    // A directory holding a CRLF text file, a binary file and an
    // already-normalized text file: one file changes, the others are left
    // alone, and the progress count reports exactly the changed one.
    let a_txt: Vec<u8> = b"line1\r\nline2\rline3\n".to_vec();
    let b_bin: Vec<u8> = vec![0x00, 0x01, 0x02];
    let c_txt: Vec<u8> = b"already\nunix\n".to_vec();
    let discovered = [&a_txt, &b_bin, &c_txt];
    assert_eq!(discovered.len(), 3);

    let mut outcomes: Vec<FileOutcome> = Vec::new();
    for contents in discovered {
        let action = plan_file(contents);
        if let FileAction::Rewrite { ref bytes } = action {
            assert_eq!(*bytes, b"line1\nline2\nline3\n".to_vec());
        }
        outcomes.push(conclude(&action, true));
    }

    assert_eq!(
        outcomes,
        vec![FileOutcome::Changed, FileOutcome::SkippedBinary, FileOutcome::Unchanged]
    );
    assert_eq!(count_changed(&outcomes), 1);
}

#[test]
fn binary_file_is_skipped() {
    let contents: Vec<u8> = vec![0x00, 0x01, 0x02];
    assert!(matches!(plan_file(&contents), FileAction::SkipBinary));
}

#[test]
fn lf_only_file_is_kept_unchanged() {
    let contents: Vec<u8> = b"already\nunix\n".to_vec();
    assert!(matches!(plan_file(&contents), FileAction::KeepUnchanged));
}

#[test]
fn empty_file_is_text_and_unchanged() {
    let contents: Vec<u8> = Vec::new();
    assert!(matches!(plan_file(&contents), FileAction::KeepUnchanged));
}

#[test]
fn classification_reads_only_the_first_kilobyte() {
    // A NUL byte past the 1024-byte sample does not make the file binary.
    let mut contents: Vec<u8> = vec![b'a'; 1024];
    contents.push(0x00);
    assert!(matches!(plan_file(&contents), FileAction::KeepUnchanged));

    // A NUL byte inside the sample does, whatever valid text surrounds it.
    let mut early: Vec<u8> = vec![b'a'; 1023];
    early.push(0x00);
    early.extend_from_slice(b"plenty of valid text afterwards");
    assert!(matches!(plan_file(&early), FileAction::SkipBinary));
}

#[test]
fn rewrite_carries_the_normalized_bytes() {
    let contents: Vec<u8> = b"a\r\nb\rc".to_vec();
    match plan_file(&contents) {
        FileAction::Rewrite { bytes } => assert_eq!(bytes, b"a\nb\nc".to_vec()),
        _ => panic!("a CRLF file must be rewritten"),
    }
}

#[test]
fn failed_write_concludes_failed() {
    let contents: Vec<u8> = b"a\r\n".to_vec();
    let action = plan_file(&contents);
    assert_eq!(conclude(&action, false), FileOutcome::Failed);
    assert_eq!(conclude(&action, true), FileOutcome::Changed);
}

#[test]
fn one_failed_file_does_not_affect_the_count_of_others() {
    // A file that disappears before processing ends as Failed; the files
    // around it still count as before.
    let without_failure = vec![FileOutcome::Changed, FileOutcome::Unchanged, FileOutcome::Changed];
    let with_failure = vec![
        FileOutcome::Changed,
        FileOutcome::Failed,
        FileOutcome::Unchanged,
        FileOutcome::Changed,
    ];
    assert_eq!(count_changed(&without_failure), 2);
    assert_eq!(count_changed(&with_failure), 2);
}

#[test]
fn counting_skips_and_failures_is_zero() {
    let outcomes = vec![FileOutcome::SkippedBinary, FileOutcome::Unchanged, FileOutcome::Failed];
    assert_eq!(count_changed(&outcomes), 0);
}
