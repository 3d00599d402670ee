//! The lines of a manifest of invalidation tests.
//!
//! A line names an operator and two scene files, separated by white space:
//! `== a.yaml b.yaml` says that the second scene, rendered after the first,
//! leaves every tile valid, `!= a.yaml b.yaml` that it leaves a tile dirty.
//! What follows a `#` is a comment. A line without a word is skipped.
//!
//! Lines are read as bytes; white space is the white space of ASCII.

use vstd::prelude::*;

verus! {

/// What a test expects of the tiles after its second scene.
#[derive(Clone, Copy, Debug, PartialEq, Eq, Structural)]
pub enum InvalidationOp {
    /// No tile is dirty.
    Equal,
    /// A tile is dirty.
    NotEqual,
}

/// Where a word stands in a line: from its first byte to behind its last.
#[derive(Clone, Copy, Debug, PartialEq, Eq, Structural)]
pub struct Word {
    pub start: usize,
    pub end: usize,
}

/// A test of a manifest: the operator and where in the line the names of the
/// two scene files stand.
#[derive(Clone, Copy, Debug, PartialEq, Eq, Structural)]
pub struct InvalidationTest {
    pub op: InvalidationOp,
    pub file1: Word,
    pub file2: Word,
}

/// Why a line is no test.
#[derive(Clone, Copy, Debug, PartialEq, Eq, Structural)]
pub enum ManifestError {
    /// The line has words, but not three of them.
    WordCount,
    /// The first word is neither `==` nor `!=`.
    UnknownOperator,
}

/// Whether a test has passed, given whether a tile is dirty after its second
/// scene.
pub fn test_passes(op: InvalidationOp, has_dirty: bool) -> (pass: bool)
    ensures
        pass == match op {
            InvalidationOp::Equal => !has_dirty,
            InvalidationOp::NotEqual => has_dirty,
        },
{
    match op {
        InvalidationOp::Equal => !has_dirty,
        InvalidationOp::NotEqual => has_dirty,
    }
}

/// White space of ASCII: the space, and the controls from the tabulator to
/// the carriage return.
pub open spec fn spec_is_space(b: u8) -> bool {
    b == 32 || (9 <= b <= 13)
}

/// Where the comment of a line starts: at its first `#`, or at its end.
pub open spec fn content_end(line: Seq<u8>) -> int
    decreases line.len(),
{
    if line.len() == 0 || line[0] == 35 {
        0
    } else {
        1 + content_end(line.skip(1))
    }
}

/// The words of `line` from byte `i` to byte `end`, where a word that began
/// at `start` is being read.
pub open spec fn words_from(line: Seq<u8>, i: int, end: int, start: Option<int>) -> Seq<Word>
    decreases end - i,
{
    if i >= end {
        match start {
            Some(a) => seq![Word { start: a as usize, end: end as usize }],
            None => Seq::empty(),
        }
    } else if spec_is_space(line[i]) {
        match start {
            Some(a) => seq![Word { start: a as usize, end: i as usize }] + words_from(
                line,
                i + 1,
                end,
                None,
            ),
            None => words_from(line, i + 1, end, None),
        }
    } else {
        words_from(
            line,
            i + 1,
            end,
            if start is Some {
                start
            } else {
                Some(i)
            },
        )
    }
}

/// The words of a line before its comment.
pub open spec fn words(line: Seq<u8>) -> Seq<Word> {
    words_from(line, 0, content_end(line), None)
}

/// The operator that a word spells.
pub open spec fn spec_op(word: Seq<u8>) -> Option<InvalidationOp> {
    if word == seq![61u8, 61u8] {
        Some(InvalidationOp::Equal)
    } else if word == seq![33u8, 61u8] {
        Some(InvalidationOp::NotEqual)
    } else {
        None
    }
}

/// What a line of a manifest says: nothing, a test, or why it is no test.
pub open spec fn spec_parse_line(line: Seq<u8>) -> Result<Option<InvalidationTest>, ManifestError> {
    let w = words(line);
    if w.len() == 0 {
        Ok(None)
    } else if w.len() != 3 {
        Err(ManifestError::WordCount)
    } else {
        match spec_op(line.subrange(w[0].start as int, w[0].end as int)) {
            Some(op) => Ok(Some(InvalidationTest { op, file1: w[1], file2: w[2] })),
            None => Err(ManifestError::UnknownOperator),
        }
    }
}

fn is_space(b: u8) -> (r: bool)
    ensures
        r == spec_is_space(b),
{
    b == 32 || (9 <= b && b <= 13)
}

/// Where the comment of a line starts.
fn find_content_end(line: &[u8]) -> (end: usize)
    ensures
        end == content_end(line@),
        end <= line@.len(),
{
    let mut i: usize = 0;
    assert(line@.skip(0) =~= line@);
    while i < line.len() && line[i] != 35
        invariant
            i <= line@.len(),
            content_end(line@) == i + content_end(line@.skip(i as int)),
        decreases line@.len() - i,
    {
        proof {
            assert(line@.skip(i as int).skip(1) =~= line@.skip(i + 1));
            assert(line@.skip(i as int)[0] == line@[i as int]);
        }
        i += 1;
    }
    proof {
        if i < line@.len() {
            assert(line@.skip(i as int)[0] == line@[i as int]);
        }
    }
    i
}

/// Reads one line of a manifest.
pub fn parse_manifest_line(line: &[u8]) -> (r: Result<Option<InvalidationTest>, ManifestError>)
    ensures
        r == spec_parse_line(line@),
        r matches Ok(Some(test)) ==> test.file1.start < test.file1.end <= test.file2.start
            < test.file2.end <= line@.len(),
{
    let end = find_content_end(line);
    let mut found: Vec<Word> = Vec::new();
    let mut start: Option<usize> = None;
    let mut i: usize = 0;
    while i < end
        invariant
            i <= end <= line@.len(),
            end == content_end(line@),
            start matches Some(a) ==> a < i,
            words(line@) == found@ + words_from(
                line@,
                i as int,
                end as int,
                match start {
                    Some(a) => Some(a as int),
                    None => None,
                },
            ),
            forall|k: int|
                0 <= k < found@.len() ==> (#[trigger] found@[k]).start < found@[k].end <= i,
            forall|k: int|
                0 <= k < found@.len() - 1 ==> (#[trigger] found@[k]).end <= found@[k + 1].start,
            start matches Some(a) ==> forall|k: int|
                0 <= k < found@.len() ==> (#[trigger] found@[k]).end <= a,
        decreases end - i,
    {
        let ghost before = found@;
        if is_space(line[i]) {
            match start {
                Some(a) => {
                    found.push(Word { start: a, end: i });
                    start = None;
                    assert(found@ + words_from(line@, i + 1, end as int, None) =~= before + (
                    seq![Word { start: a, end: i }] + words_from(
                        line@,
                        i + 1,
                        end as int,
                        None,
                    )));
                },
                None => {},
            }
        } else if start.is_none() {
            start = Some(i);
        }
        i += 1;
    }
    match start {
        Some(a) => {
            let ghost before = found@;
            found.push(Word { start: a, end });
            assert(found@ =~= before + seq![Word { start: a, end }]);
        },
        None => {
            assert(found@ + Seq::<Word>::empty() =~= found@);
        },
    }
    assert(found@ == words(line@));
    if found.len() == 0 {
        return Ok(None);
    }
    if found.len() != 3 {
        return Err(ManifestError::WordCount);
    }
    let a = found[0].start;
    let b = found[0].end;
    let ghost word = line@.subrange(a as int, b as int);
    let op = if b - a == 2 && line[a] == 61 && line[a + 1] == 61 {
        assert(word =~= seq![61u8, 61u8]);
        InvalidationOp::Equal
    } else if b - a == 2 && line[a] == 33 && line[a + 1] == 61 {
        assert(word =~= seq![33u8, 61u8]);
        InvalidationOp::NotEqual
    } else {
        proof {
            if word == seq![61u8, 61u8] || word == seq![33u8, 61u8] {
                assert(word.len() == 2);
                assert(word[0] == line@[a as int] && word[1] == line@[a + 1]);
            }
        }
        return Err(ManifestError::UnknownOperator);
    };
    Ok(Some(InvalidationTest { op, file1: found[1], file2: found[2] }))
}

} // verus!
