//! The per-file pipeline and the run's bookkeeping: sample, classify,
//! normalize, and count the files whose bytes were rewritten.

use vstd::prelude::*;
use crate::classify::{is_text_spec, is_text_sample, SAMPLE_LEN};
use crate::normalize::{contains_cr, normalize_spec, normalize_bytes};

verus! {

/// The sampled prefix that classification looks at: the first `SAMPLE_LEN`
/// bytes, or the whole contents if shorter.
pub open spec fn sample_of(s: Seq<u8>) -> Seq<u8> {
    if s.len() <= SAMPLE_LEN {
        s
    } else {
        s.take(SAMPLE_LEN as int)
    }
}

/// What is to be done with one file, decided from its bytes alone.
pub enum FileAction {
    /// The sample classified as binary: leave the file untouched.
    SkipBinary,
    /// Text, but no CR present: leave the file untouched.
    KeepUnchanged,
    /// Text with CR present: overwrite the file with the rewritten bytes.
    Rewrite { bytes: Vec<u8> },
}

/// The terminal state of one file after its cycle.
#[derive(Clone, Copy, Debug, PartialEq, Eq, Structural)]
pub enum FileOutcome {
    /// Classified binary and skipped.
    SkippedBinary,
    /// Text that needed no rewrite.
    Unchanged,
    /// Text whose bytes were rewritten and written back.
    Changed,
    /// Reading or writing the file failed; the file was abandoned.
    Failed,
}

/// Copies the classification sample out of the contents.
fn take_sample(contents: &Vec<u8>) -> (s: Vec<u8>)
    ensures
        s@ == sample_of(contents@),
{
    let n = contents.len();
    let m = if n <= SAMPLE_LEN {
        n
    } else {
        SAMPLE_LEN
    };
    let mut s: Vec<u8> = Vec::new();
    let mut i: usize = 0;
    while i < m
        invariant
            0 <= i <= m,
            m <= contents@.len(),
            s@ == contents@.take(i as int),
        decreases m - i,
    {
        s.push(contents[i]);
        proof {
            assert(contents@.take(i as int).push(contents@[i as int]) =~= contents@.take(
                i as int + 1,
            ));
        }
        i = i + 1;
    }
    proof {
        if n <= SAMPLE_LEN {
            assert(contents@.take(n as int) =~= contents@);
        }
    }
    s
}

/// Decides one file's fate from its full contents: skip it as binary, keep
/// it as already normalized, or rewrite it with the normalized bytes.
pub fn plan_file(contents: &Vec<u8>) -> (r: FileAction)
    ensures
        r is SkipBinary <==> !is_text_spec(sample_of(contents@)),
        r is KeepUnchanged <==> is_text_spec(sample_of(contents@)) && !contains_cr(contents@),
        r is Rewrite <==> is_text_spec(sample_of(contents@)) && contains_cr(contents@),
        r matches FileAction::Rewrite { bytes } ==> bytes@ == normalize_spec(contents@),
{
    let sample = take_sample(contents);
    if !is_text_sample(&sample) {
        return FileAction::SkipBinary;
    }
    match normalize_bytes(contents) {
        None => FileAction::KeepUnchanged,
        Some(bytes) => FileAction::Rewrite { bytes },
    }
}

/// The terminal state that one file reaches, given its planned action and
/// whether the write back (attempted only for a rewrite) succeeded.
pub fn conclude(action: &FileAction, write_ok: bool) -> (r: FileOutcome)
    ensures
        r is SkippedBinary <==> action is SkipBinary,
        r is Unchanged <==> action is KeepUnchanged,
        r is Changed <==> action is Rewrite && write_ok,
        r is Failed <==> action is Rewrite && !write_ok,
{
    match action {
        FileAction::SkipBinary => FileOutcome::SkippedBinary,
        FileAction::KeepUnchanged => FileOutcome::Unchanged,
        FileAction::Rewrite { .. } => if write_ok {
            FileOutcome::Changed
        } else {
            FileOutcome::Failed
        },
    }
}

/// How many outcomes are `Changed`: the progress count the run reports.
pub open spec fn changed_count(outcomes: Seq<FileOutcome>) -> int
    decreases outcomes.len(),
{
    if outcomes.len() == 0 {
        0
    } else {
        changed_count(outcomes.drop_last()) + if outcomes.last() is Changed {
            1int
        } else {
            0int
        }
    }
}

/// Counts the files whose bytes were rewritten.
pub fn count_changed(outcomes: &Vec<FileOutcome>) -> (n: usize)
    ensures
        n == changed_count(outcomes@),
{
    let total = outcomes.len();
    let mut count: usize = 0;
    let mut i: usize = 0;
    while i < total
        invariant
            0 <= i <= total,
            total == outcomes@.len(),
            count <= i,
            count == changed_count(outcomes@.take(i as int)),
        decreases total - i,
    {
        proof {
            assert(outcomes@.take(i as int + 1).drop_last() =~= outcomes@.take(i as int));
            assert(outcomes@.take(i as int + 1).last() == outcomes@[i as int]);
        }
        match outcomes[i] {
            FileOutcome::Changed => {
                count = count + 1;
            },
            _ => {},
        }
        i = i + 1;
    }
    proof {
        assert(outcomes@.take(total as int) =~= outcomes@);
    }
    count
}

/// A file that did not end `Changed` — in particular one that failed and was
/// abandoned — leaves the progress count of the other files untouched.
pub proof fn lemma_non_changed_outcome_not_counted(outcomes: Seq<FileOutcome>, o: FileOutcome)
    requires
        !(o is Changed),
    ensures
        changed_count(outcomes.push(o)) == changed_count(outcomes),
{
    assert(outcomes.push(o).drop_last() =~= outcomes);
}

} // verus!
