//! The revision sequence provider: the ordered, immutable history one
//! bisection run searches.
//!
//! The embedding program obtains the raw history text (one revision per
//! line, newest first, with hash, date and message separated by commas,
//! as a version-control log prints it); everything from there on is
//! verified.  [`Git::new`] parses the text into commits ordered oldest
//! first, and the derived queries [`Git::count`] and [`Git::oldest`]
//! size and seed the search.

use vstd::prelude::*;

verus! {

/// Why the revision history cannot be used.
#[derive(Clone, Copy, Debug, PartialEq, Eq, Structural)]
pub enum HistoryError {
    /// The history text cannot be read as a revision sequence, or holds
    /// no revision at all.
    HistoryUnavailable,
}

/// One revision of the history: an opaque stable identifier and two
/// pieces of free-text metadata.
#[derive(Debug)]
pub struct Commit {
    /// The revision's identifier, e.g. a content hash.
    pub hash: String,
    /// When the revision was made, as the log printed it.
    pub date: String,
    /// The revision's label, up to the third comma of its log line.
    pub message: String,
}

/// The mathematical content of a [`Commit`]: its three fields as
/// character sequences.
pub ghost struct CommitModel {
    /// The identifier.
    pub hash: Seq<char>,
    /// The date text.
    pub date: Seq<char>,
    /// The label text.
    pub message: Seq<char>,
}

impl View for Commit {
    type V = CommitModel;

    open spec fn view(&self) -> CommitModel {
        CommitModel { hash: self.hash@, date: self.date@, message: self.message@ }
    }
}

/// The index of the first `c` in `s`, or `s.len()` if `s` holds none.
pub open spec fn first_index(s: Seq<char>, c: char) -> nat
    decreases s.len(),
{
    if s.len() == 0 {
        0
    } else if s[0] == c {
        0
    } else {
        (1 + first_index(s.drop_first(), c)) as nat
    }
}

/// `first_index` is what its name says: it is in bounds, it points at
/// `c` unless `s` holds none, and nothing before it is `c`.
pub proof fn lemma_first_index(s: Seq<char>, c: char)
    ensures
        first_index(s, c) <= s.len(),
        first_index(s, c) < s.len() ==> s[first_index(s, c) as int] == c,
        forall|j: int| 0 <= j < first_index(s, c) ==> s[j] != c,
    decreases s.len(),
{
    if s.len() > 0 && s[0] != c {
        lemma_first_index(s.drop_first(), c);
        assert forall|j: int| 0 <= j < first_index(s, c) implies s[j] != c by {
            if j > 0 {
                assert(s.drop_first()[j - 1] == s[j]);
            }
        }
    }
}

/// What one log line means: the text up to the first comma is the hash,
/// up to the next comma the date, up to a third comma or the end the
/// message.  A line without two commas means nothing.
pub open spec fn parse_line_spec(s: Seq<char>) -> Option<CommitModel> {
    let i = first_index(s, ',') as int;
    if i == s.len() {
        None
    } else {
        let after_hash = s.skip(i + 1);
        let j = first_index(after_hash, ',') as int;
        if j == after_hash.len() {
            None
        } else {
            let after_date = after_hash.skip(j + 1);
            let k = first_index(after_date, ',') as int;
            Some(
                CommitModel {
                    hash: s.take(i),
                    date: after_hash.take(j),
                    message: after_date.take(k),
                },
            )
        }
    }
}

/// What the whole log text means: one commit per newline-separated
/// line, in the order the text gives them.  The text means nothing if
/// any line does — in particular, an empty text means nothing.
pub open spec fn parse_log_spec(s: Seq<char>) -> Option<Seq<CommitModel>>
    decreases s.len(),
    via parse_log_spec_decreases
{
    let i = first_index(s, '\n') as int;
    if i == s.len() {
        match parse_line_spec(s) {
            Some(c) => Some(seq![c]),
            None => None,
        }
    } else {
        match parse_line_spec(s.take(i)) {
            Some(c) => match parse_log_spec(s.skip(i + 1)) {
                Some(rest) => Some(seq![c] + rest),
                None => None,
            },
            None => None,
        }
    }
}

#[via_fn]
proof fn parse_log_spec_decreases(s: Seq<char>) {
    lemma_first_index(s, '\n');
}

/// The index of the first `c` in `s`, or `s`'s length if `s` holds
/// none.
fn find_char(s: &str, c: char) -> (i: usize)
    ensures
        i as nat == first_index(s@, c),
        i <= s@.len(),
{
    proof {
        lemma_first_index(s@, c);
    }
    let n: usize = s.unicode_len();
    let mut i: usize = 0;
    while i < n
        invariant
            n == s@.len(),
            i <= n,
            forall|j: int| 0 <= j < i ==> s@[j] != c,
            first_index(s@, c) <= s@.len(),
            first_index(s@, c) < s@.len() ==> s@[first_index(s@, c) as int] == c,
            forall|j: int| 0 <= j < first_index(s@, c) ==> s@[j] != c,
        decreases n - i,
    {
        if s.get_char(i) == c {
            return i;
        }
        i = i + 1;
    }
    n
}

/// Parse one log line.
fn parse_line(s: &str) -> (r: Option<Commit>)
    ensures
        match r {
            Some(c) => parse_line_spec(s@) == Some(c@),
            None => parse_line_spec(s@) is None,
        },
{
    let n: usize = s.unicode_len();
    let i: usize = find_char(s, ',');
    if i == n {
        return None;
    }
    let hash: String = s.substring_char(0, i).to_owned();
    let after_hash: &str = s.substring_char(i + 1, n);
    let m: usize = after_hash.unicode_len();
    let j: usize = find_char(after_hash, ',');
    if j == m {
        return None;
    }
    let date: String = after_hash.substring_char(0, j).to_owned();
    let after_date: &str = after_hash.substring_char(j + 1, m);
    let k: usize = find_char(after_date, ',');
    let message: String = after_date.substring_char(0, k).to_owned();
    Some(Commit { hash, date, message })
}

/// Parse a whole log text, one commit per line, in the text's own
/// order.
fn parse_log(s: &str) -> (r: Option<Vec<Commit>>)
    ensures
        match r {
            Some(v) => parse_log_spec(s@) == Some(v@.map_values(|c: Commit| c@)),
            None => parse_log_spec(s@) is None,
        },
    decreases s@.len(),
{
    let n: usize = s.unicode_len();
    let i: usize = find_char(s, '\n');
    if i == n {
        match parse_line(s) {
            Some(c) => {
                let mut v: Vec<Commit> = Vec::new();
                v.push(c);
                proof {
                    assert(v@.map_values(|c: Commit| c@) =~= seq![c@]);
                }
                Some(v)
            },
            None => None,
        }
    } else {
        let head: &str = s.substring_char(0, i);
        let tail: &str = s.substring_char(i + 1, n);
        match parse_line(head) {
            Some(c) => match parse_log(tail) {
                Some(mut rest) => {
                    rest.insert(0, c);
                    proof {
                        assert(rest@.map_values(|c: Commit| c@) =~= seq![c@] + rest@.drop_first(
                        ).map_values(|c: Commit| c@));
                    }
                    Some(rest)
                },
                None => None,
            },
            None => None,
        }
    }
}

/// The revision history one bisection run searches.
#[derive(Debug)]
pub struct Git {
    /// The revisions, oldest first.
    pub commits: Vec<Commit>,
}

impl Git {
    /// Read the history from a log text as the version-control tool
    /// prints it: one revision per line, newest first, hash, date and
    /// message separated by commas.  The commits are stored oldest
    /// first.  Fails with `HistoryUnavailable` — and only then — if the
    /// text does not parse, which includes an empty text; a history
    /// that was read holds at least one commit.
    pub fn new(log: &str) -> (r: Result<Git, HistoryError>)
        ensures
            match r {
                Ok(g) => {
                    &&& parse_log_spec(log@) is Some
                    &&& g.commits@.map_values(|c: Commit| c@) == parse_log_spec(
                        log@,
                    )->Some_0.reverse()
                    &&& g.commits@.len() >= 1
                },
                Err(e) => {
                    &&& parse_log_spec(log@) is None
                    &&& e == HistoryError::HistoryUnavailable
                },
            },
    {
        match parse_log(log) {
            None => Err(HistoryError::HistoryUnavailable),
            Some(mut parsed) => {
                let ghost full = parsed@.map_values(|c: Commit| c@);
                let mut commits: Vec<Commit> = Vec::new();
                while parsed.len() > 0
                    invariant
                        parsed@.map_values(|c: Commit| c@) == full.take(parsed@.len() as int),
                        commits@.len() + parsed@.len() == full.len(),
                        forall|k: int|
                            0 <= k < commits@.len() ==> (#[trigger] commits@[k])@ == full[full.len()
                                - 1 - k],
                    decreases parsed@.len(),
                {
                    let ghost before = parsed@;
                    match parsed.pop() {
                        Some(c) => {
                            proof {
                                assert(before.map_values(|c: Commit| c@).drop_last()
                                    =~= before.drop_last().map_values(|c: Commit| c@));
                                assert(c@ == before.map_values(|c: Commit| c@).last());
                                assert(before.map_values(|c: Commit| c@)
                                    == full.take(before.len() as int));
                            }
                            commits.push(c);
                        },
                        None => {},
                    }
                }
                proof {
                    assert(commits@.map_values(|c: Commit| c@) =~= full.reverse());
                }
                Ok(Git { commits })
            },
        }
    }

    /// How many revisions the history holds.
    pub fn count(&self) -> (n: usize)
        ensures
            n == self.commits@.len(),
    {
        self.commits.len()
    }

    /// The oldest revision, if the history holds any.
    pub fn oldest(&self) -> (c: Option<&Commit>)
        ensures
            match c {
                Some(c) => self.commits@.len() > 0 && c == &self.commits[0],
                None => self.commits@.len() == 0,
            },
    {
        if self.commits.len() == 0 {
            None
        } else {
            Some(&self.commits[0])
        }
    }
}

} // verus!
