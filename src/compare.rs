//! Comparison of two texts given as sequences of line reads.
//!
//! Each file is walked in lockstep with the other: a pair of lines is skipped
//! when either line holds one of the filters; otherwise the two lines must be
//! equal. The first cause of failure is reported: a line that could not be
//! read, a file that ends before the other, or two lines that differ.

use crate::slash_fmt::{slash_text, slashed};
use crate::text::{decimal, has_substring, push_decimal, push_text, str_contains};
use vstd::prelude::*;

verus! {

/// Why two texts do not compare equal, as a mathematical value.
pub enum Failure {
    Open { path: Seq<char>, cause: Seq<char> },
    Read { path: Seq<char>, cause: Seq<char> },
    Shorter { path: Seq<char>, lines: nat },
    Mismatch {
        line: nat,
        path_1: Seq<char>,
        text_1: Seq<char>,
        path_2: Seq<char>,
        text_2: Seq<char>,
    },
}

/// Why two texts do not compare equal. Paths are held in their
/// forward-slash display form.
pub enum CompareError {
    /// A file could not be opened.
    Open { path: String, cause: String },
    /// A line could not be read or decoded from a file.
    Read { path: String, cause: String },
    /// A file has fewer lines than the other; `lines` is its line count.
    Shorter { path: String, lines: usize },
    /// The first pair of lines, not skipped by a filter, that differ.
    Mismatch { line: usize, path_1: String, text_1: String, path_2: String, text_2: String },
}

impl View for CompareError {
    type V = Failure;

    open spec fn view(&self) -> Failure {
        match self {
            CompareError::Open { path, cause } => Failure::Open { path: path@, cause: cause@ },
            CompareError::Read { path, cause } => Failure::Read { path: path@, cause: cause@ },
            CompareError::Shorter { path, lines } => Failure::Shorter {
                path: path@,
                lines: *lines as nat,
            },
            CompareError::Mismatch { line, path_1, text_1, path_2, text_2 } => Failure::Mismatch {
                line: *line as nat,
                path_1: path_1@,
                text_1: text_1@,
                path_2: path_2@,
                text_2: text_2@,
            },
        }
    }
}

/// The message that describes a failure.
pub open spec fn failure_message(f: Failure) -> Seq<char> {
    match f {
        Failure::Open { path, cause } => "Error '"@ + cause + "' opening '"@ + path + "'."@,
        Failure::Read { path, cause } => "Error '"@ + cause + "' reading line from '"@ + path
            + "'."@,
        Failure::Shorter { path, lines } => "'"@ + path + "' is shorter and contains "@ + decimal(
            lines,
        ) + " lines."@,
        Failure::Mismatch { line, path_1, text_1, path_2, text_2 } => "Mismatch at line "@
            + decimal(line) + ":\n\t"@ + path_1 + ": '"@ + text_1 + "'\n\t"@ + path_2 + ": '"@
            + text_2 + "'"@,
    }
}

impl CompareError {
    /// The failure to open the file at `path`, for the reason `cause`.
    pub fn open_failure(path: &str, cause: &str) -> (r: CompareError)
        ensures
            r@ == (Failure::Open { path: slashed(path@), cause: cause@ }),
    {
        CompareError::Open { path: slash_text(path), cause: cause.to_owned() }
    }

    /// A message that describes the failure.
    pub fn message(&self) -> (r: String)
        ensures
            r@ == failure_message(self@),
    {
        let mut m = String::new();
        match self {
            CompareError::Open { path, cause } => {
                push_text(&mut m, "Error '");
                push_text(&mut m, cause.as_str());
                push_text(&mut m, "' opening '");
                push_text(&mut m, path.as_str());
                push_text(&mut m, "'.");
            },
            CompareError::Read { path, cause } => {
                push_text(&mut m, "Error '");
                push_text(&mut m, cause.as_str());
                push_text(&mut m, "' reading line from '");
                push_text(&mut m, path.as_str());
                push_text(&mut m, "'.");
            },
            CompareError::Shorter { path, lines } => {
                push_text(&mut m, "'");
                push_text(&mut m, path.as_str());
                push_text(&mut m, "' is shorter and contains ");
                push_decimal(&mut m, *lines);
                push_text(&mut m, " lines.");
            },
            CompareError::Mismatch { line, path_1, text_1, path_2, text_2 } => {
                push_text(&mut m, "Mismatch at line ");
                push_decimal(&mut m, *line);
                push_text(&mut m, ":\n\t");
                push_text(&mut m, path_1.as_str());
                push_text(&mut m, ": '");
                push_text(&mut m, text_1.as_str());
                push_text(&mut m, "'\n\t");
                push_text(&mut m, path_2.as_str());
                push_text(&mut m, ": '");
                push_text(&mut m, text_2.as_str());
                push_text(&mut m, "'");
            },
        }
        m
    }
}

/// The texts of the filters; no filters is the same as an empty list.
pub open spec fn filter_texts(filters: Option<&[&str]>) -> Seq<Seq<char>> {
    match filters {
        Some(f) => f@.map_values(|x: &str| x@),
        None => Seq::empty(),
    }
}

/// A pair of lines is skipped when either line holds one of the filters.
pub open spec fn skipped(l1: Seq<char>, l2: Seq<char>, filters: Seq<Seq<char>>) -> bool {
    exists|j: int|
        0 <= j < filters.len() && (has_substring(l1, #[trigger] filters[j]) || has_substring(
            l2,
            filters[j],
        ))
}

/// The text of a line read that succeeded.
pub open spec fn text_of(r: Result<String, String>) -> Seq<char> {
    match r {
        Ok(t) => t@,
        Err(_) => Seq::empty(),
    }
}

/// The cause of a line read that failed.
pub open spec fn cause_of(r: Result<String, String>) -> Seq<char> {
    match r {
        Ok(_) => Seq::empty(),
        Err(c) => c@,
    }
}

/// The outcome of comparing the line reads `s1` of the file shown as `shown_1`
/// with the line reads `s2` of the file shown as `shown_2`, from the pair at
/// index `i` on.
pub open spec fn outcome_from(
    shown_1: Seq<char>,
    s1: Seq<Result<String, String>>,
    shown_2: Seq<char>,
    s2: Seq<Result<String, String>>,
    filters: Seq<Seq<char>>,
    i: nat,
) -> Result<(), Failure>
    decreases s1.len() - i,
{
    if i >= s1.len() {
        if i < s2.len() {
            Err(Failure::Shorter { path: shown_1, lines: i })
        } else {
            Ok(())
        }
    } else if s1[i as int] is Err {
        Err(Failure::Read { path: shown_1, cause: cause_of(s1[i as int]) })
    } else if i >= s2.len() {
        Err(Failure::Shorter { path: shown_2, lines: i })
    } else if s2[i as int] is Err {
        Err(Failure::Read { path: shown_2, cause: cause_of(s2[i as int]) })
    } else if skipped(text_of(s1[i as int]), text_of(s2[i as int]), filters) || text_of(
        s1[i as int],
    ) == text_of(s2[i as int]) {
        outcome_from(shown_1, s1, shown_2, s2, filters, i + 1)
    } else {
        Err(
            Failure::Mismatch {
                line: i + 1,
                path_1: shown_1,
                text_1: text_of(s1[i as int]),
                path_2: shown_2,
                text_2: text_of(s2[i as int]),
            },
        )
    }
}

/// The outcome of comparing two whole files.
pub open spec fn outcome(
    shown_1: Seq<char>,
    s1: Seq<Result<String, String>>,
    shown_2: Seq<char>,
    s2: Seq<Result<String, String>>,
    filters: Seq<Seq<char>>,
) -> Result<(), Failure> {
    outcome_from(slashed(shown_1), s1, slashed(shown_2), s2, filters, 0)
}

/// The view of a comparison's result.
pub open spec fn result_view(r: Result<(), CompareError>) -> Result<(), Failure> {
    match r {
        Ok(()) => Ok(()),
        Err(e) => Err(e@),
    }
}

/// Whether the pair of lines `l1`, `l2` is skipped by one of the filters.
pub fn is_skipped(l1: &str, l2: &str, filters: Option<&[&str]>) -> (r: bool)
    ensures
        r == skipped(l1@, l2@, filter_texts(filters)),
{
    match filters {
        None => false,
        Some(f) => {
            let ghost ft = filter_texts(filters);
            let mut j: usize = 0;
            while j < f.len()
                invariant
                    ft == filter_texts(filters),
                    filters == Some(f),
                    ft == f@.map_values(|x: &str| x@),
                    j <= f@.len(),
                    forall|k: int|
                        0 <= k < j ==> !has_substring(l1@, #[trigger] ft[k]) && !has_substring(
                            l2@,
                            ft[k],
                        ),
                decreases f@.len() - j,
            {
                let fj: &str = f[j];
                let hit = str_contains(l1, fj) || str_contains(l2, fj);
                assert(ft[j as int] == fj@);
                if hit {
                    assert(ft.len() == f@.len());
                    assert(skipped(l1@, l2@, ft));
                    return true;
                }
                j = j + 1;
            }
            false
        },
    }
}

/// A line read as a mathematical value: its text, or the cause of its
/// failure.
pub open spec fn read_view(r: Result<String, String>) -> Result<Seq<char>, Seq<char>> {
    match r {
        Ok(t) => Ok(t@),
        Err(c) => Err(c@),
    }
}

/// The read at index `i` of `s`, or `None` past its end.
pub open spec fn read_at(s: Seq<Result<String, String>>, i: nat) -> Option<
    Result<Seq<char>, Seq<char>>,
> {
    if i < s.len() {
        Some(read_view(s[i as int]))
    } else {
        None
    }
}

/// The view of a read handed over by reference, `None` at the end of a file.
pub open spec fn next_view(l: Option<&Result<String, String>>) -> Option<
    Result<Seq<char>, Seq<char>>,
> {
    match l {
        Some(r) => Some(read_view(*r)),
        None => None,
    }
}

/// What one step of the walk decides, after `i` pairs have passed, given the
/// next read of each file (`None` at its end): `None` to go on, or the
/// outcome of the whole comparison.
pub open spec fn step_outcome(
    shown_1: Seq<char>,
    shown_2: Seq<char>,
    filters: Seq<Seq<char>>,
    i: nat,
    l1: Option<Result<Seq<char>, Seq<char>>>,
    l2: Option<Result<Seq<char>, Seq<char>>>,
) -> Option<Result<(), Failure>> {
    match l1 {
        None => match l2 {
            None => Some(Ok(())),
            Some(_) => Some(Err(Failure::Shorter { path: shown_1, lines: i })),
        },
        Some(Err(c)) => Some(Err(Failure::Read { path: shown_1, cause: c })),
        Some(Ok(t1)) => match l2 {
            None => Some(Err(Failure::Shorter { path: shown_2, lines: i })),
            Some(Err(c)) => Some(Err(Failure::Read { path: shown_2, cause: c })),
            Some(Ok(t2)) => if skipped(t1, t2, filters) || t1 == t2 {
                None
            } else {
                Some(
                    Err(
                        Failure::Mismatch {
                            line: i + 1,
                            path_1: shown_1,
                            text_1: t1,
                            path_2: shown_2,
                            text_2: t2,
                        },
                    ),
                )
            },
        },
    }
}

/// The view of a step's decision.
pub open spec fn decision_view(r: Option<Result<(), CompareError>>) -> Option<Result<(), Failure>> {
    match r {
        Some(x) => Some(result_view(x)),
        None => None,
    }
}

/// The walk over two files is the sequence of its steps.
pub proof fn lemma_outcome_by_steps(
    shown_1: Seq<char>,
    s1: Seq<Result<String, String>>,
    shown_2: Seq<char>,
    s2: Seq<Result<String, String>>,
    filters: Seq<Seq<char>>,
    i: nat,
)
    ensures
        outcome_from(shown_1, s1, shown_2, s2, filters, i) == match step_outcome(
            shown_1,
            shown_2,
            filters,
            i,
            read_at(s1, i),
            read_at(s2, i),
        ) {
            Some(r) => r,
            None => outcome_from(shown_1, s1, shown_2, s2, filters, i + 1),
        },
        step_outcome(shown_1, shown_2, filters, i, read_at(s1, i), read_at(s2, i)) is None ==> i < s1.len(),
{
    if i < s1.len() {
        assert(text_of(s1[i as int]) == match read_view(s1[i as int]) {
            Ok(t) => t,
            Err(_) => Seq::empty(),
        });
        if i < s2.len() {
            assert(text_of(s2[i as int]) == match read_view(s2[i as int]) {
                Ok(t) => t,
                Err(_) => Seq::empty(),
            });
        }
    }
}

/// The state of a walk over two files in lockstep: the display form of each
/// path and the number of pairs of lines that have passed.
pub struct LineWalk {
    path_1: String,
    path_2: String,
    paired: usize,
}

impl View for LineWalk {
    type V = (Seq<char>, Seq<char>, nat);

    closed spec fn view(&self) -> (Seq<char>, Seq<char>, nat) {
        (self.path_1@, self.path_2@, self.paired as nat)
    }
}

impl LineWalk {
    /// A walk over the files at `path_1` and `path_2`, before their first
    /// lines.
    pub fn new(path_1: &str, path_2: &str) -> (r: LineWalk)
        ensures
            r@ == (slashed(path_1@), slashed(path_2@), 0nat),
    {
        LineWalk { path_1: slash_text(path_1), path_2: slash_text(path_2), paired: 0 }
    }

    /// The number of pairs of lines that have passed.
    pub fn paired(&self) -> (r: usize)
        ensures
            r == self@.2,
    {
        self.paired
    }

    /// Takes the next read of each file (`None` at its end) and returns
    /// `None` to go on, or the outcome of the comparison.
    pub fn step(
        &mut self,
        l1: Option<&Result<String, String>>,
        l2: Option<&Result<String, String>>,
        filters: Option<&[&str]>,
    ) -> (r: Option<Result<(), CompareError>>)
        requires
            l1 is Some ==> old(self)@.2 < usize::MAX,
        ensures
            decision_view(r) == step_outcome(
                old(self)@.0,
                old(self)@.1,
                filter_texts(filters),
                old(self)@.2,
                next_view(l1),
                next_view(l2),
            ),
            final(self)@ == (old(self)@.0, old(self)@.1, if r is None {
                old(self)@.2 + 1
            } else {
                old(self)@.2
            }),
    {
        let t1 = match l1 {
            None => {
                return match l2 {
                    None => Some(Ok(())),
                    Some(_) => Some(
                        Err(CompareError::Shorter { path: self.path_1.clone(), lines: self.paired }),
                    ),
                };
            },
            Some(Err(cause)) => {
                return Some(
                    Err(CompareError::Read { path: self.path_1.clone(), cause: cause.clone() }),
                );
            },
            Some(Ok(t)) => t,
        };
        let t2 = match l2 {
            None => {
                return Some(
                    Err(CompareError::Shorter { path: self.path_2.clone(), lines: self.paired }),
                );
            },
            Some(Err(cause)) => {
                return Some(
                    Err(CompareError::Read { path: self.path_2.clone(), cause: cause.clone() }),
                );
            },
            Some(Ok(t)) => t,
        };
        let skip = is_skipped(t1.as_str(), t2.as_str(), filters);
        let same = t1.eq(t2);
        if !skip && !same {
            return Some(
                Err(
                    CompareError::Mismatch {
                        line: self.paired + 1,
                        path_1: self.path_1.clone(),
                        text_1: t1.clone(),
                        path_2: self.path_2.clone(),
                        text_2: t2.clone(),
                    },
                ),
            );
        }
        self.paired = self.paired + 1;
        None
    }
}

/// Compares the line reads `lines_1` of the file at `path_1` with the line
/// reads `lines_2` of the file at `path_2`. Each sequence holds a file's
/// lines in order, without their terminators; a read that failed is an `Err`
/// with its cause, and nothing after it is ever looked at.
///
/// Lines are paired by position. A pair is skipped when either line holds
/// one of `filters`. The first of these ends the comparison with an error:
/// a failed read, a file that has no line where the other has one (it is
/// named, with its line count), two lines that differ (with their 1-based
/// line number and both texts). Paths are shown with forward slashes.
pub fn compare_lines(
    path_1: &str,
    lines_1: &[Result<String, String>],
    path_2: &str,
    lines_2: &[Result<String, String>],
    filters: Option<&[&str]>,
) -> (r: Result<(), CompareError>)
    ensures
        result_view(r) == outcome(path_1@, lines_1@, path_2@, lines_2@, filter_texts(filters)),
{
    let ghost ft = filter_texts(filters);
    let ghost s1 = lines_1@;
    let ghost s2 = lines_2@;
    let mut walk = LineWalk::new(path_1, path_2);
    loop
        invariant
            walk@.0 == slashed(path_1@),
            walk@.1 == slashed(path_2@),
            s1 == lines_1@,
            s2 == lines_2@,
            ft == filter_texts(filters),
            walk@.2 <= s1.len(),
            outcome_from(walk@.0, s1, walk@.1, s2, ft, walk@.2) == outcome(
                path_1@,
                s1,
                path_2@,
                s2,
                ft,
            ),
        decreases s1.len() - walk@.2,
    {
        let i = walk.paired();
        let l1 = if i < lines_1.len() {
            Some(&lines_1[i])
        } else {
            None
        };
        let l2 = if i < lines_2.len() {
            Some(&lines_2[i])
        } else {
            None
        };
        proof {
            lemma_outcome_by_steps(walk@.0, s1, walk@.1, s2, ft, i as nat);
            assert(next_view(l1) == read_at(s1, i as nat));
            assert(next_view(l2) == read_at(s2, i as nat));
        }
        if let Some(r) = walk.step(l1, l2, filters) {
            return r;
        }
    }
}

/// Every read in `s` succeeded.
pub open spec fn all_read(s: Seq<Result<String, String>>) -> bool {
    forall|i: int| 0 <= i < s.len() ==> #[trigger] s[i] is Ok
}

/// The pairs before index `k` are read and either equal or skipped, so the
/// walk passes them.
proof fn lemma_pass_prefix(
    shown_1: Seq<char>,
    s1: Seq<Result<String, String>>,
    shown_2: Seq<char>,
    s2: Seq<Result<String, String>>,
    filters: Seq<Seq<char>>,
    i: nat,
    k: nat,
)
    requires
        i <= k <= s1.len(),
        k <= s2.len(),
        forall|m: int|
            i <= m < k ==> #[trigger] s1[m] is Ok && s2[m] is Ok && (text_of(s1[m]) == text_of(
                s2[m],
            ) || skipped(text_of(s1[m]), text_of(s2[m]), filters)),
    ensures
        outcome_from(shown_1, s1, shown_2, s2, filters, i) == outcome_from(shown_1, s1, shown_2, s2, filters, k),
    decreases k - i,
{
    if i < k {
        assert(s1[i as int] is Ok);
        lemma_pass_prefix(shown_1, s1, shown_2, s2, filters, i + 1, k);
    }
}

/// Comparing a file with itself succeeds, whatever the filters, when every
/// line of it can be read.
pub proof fn law_self_comparison(
    path: Seq<char>,
    lines: Seq<Result<String, String>>,
    filters: Seq<Seq<char>>,
)
    requires
        all_read(lines),
    ensures
        outcome(path, lines, path, lines, filters) == Ok::<(), Failure>(()),
{
    law_identical_files(path, lines, path, lines, filters);
}

/// Two files with the same readable lines compare equal, whatever the
/// filters.
pub proof fn law_identical_files(
    shown_1: Seq<char>,
    s1: Seq<Result<String, String>>,
    shown_2: Seq<char>,
    s2: Seq<Result<String, String>>,
    filters: Seq<Seq<char>>,
)
    requires
        all_read(s1),
        all_read(s2),
        s1.len() == s2.len(),
        forall|i: int| 0 <= i < s1.len() ==> text_of(#[trigger] s1[i]) == text_of(s2[i]),
    ensures
        outcome(shown_1, s1, shown_2, s2, filters) == Ok::<(), Failure>(()),
{
    lemma_pass_prefix(slashed(shown_1), s1, slashed(shown_2), s2, filters, 0, s1.len());
}

/// When the lines of file `a` are the first lines of file `b`, and `b` has
/// more, the comparison names `a` as the shorter file with its line count, in
/// either argument position.
pub proof fn law_shorter_file_named(
    shown_a: Seq<char>,
    sa: Seq<Result<String, String>>,
    shown_b: Seq<char>,
    sb: Seq<Result<String, String>>,
    filters: Seq<Seq<char>>,
)
    requires
        all_read(sa),
        all_read(sb),
        sa.len() < sb.len(),
        forall|i: int| 0 <= i < sa.len() ==> text_of(#[trigger] sa[i]) == text_of(sb[i]),
    ensures
        outcome(shown_a, sa, shown_b, sb, filters) == Err::<(), Failure>(
            Failure::Shorter { path: slashed(shown_a), lines: sa.len() },
        ),
        outcome(shown_b, sb, shown_a, sa, filters) == Err::<(), Failure>(
            Failure::Shorter { path: slashed(shown_a), lines: sa.len() },
        ),
{
    lemma_pass_prefix(slashed(shown_a), sa, slashed(shown_b), sb, filters, 0, sa.len());
    assert forall|m: int| 0 <= m < sa.len() implies #[trigger] sb[m] is Ok && sa[m] is Ok && (
    text_of(sb[m]) == text_of(sa[m]) || skipped(text_of(sb[m]), text_of(sa[m]), filters)) by {
        assert(sa[m] is Ok);
    }
    lemma_pass_prefix(slashed(shown_b), sb, slashed(shown_a), sa, filters, 0, sa.len());
    assert(sb[sa.len() as int] is Ok);
}

/// When line `k` (counted from 1) is the first pair of lines that differ and
/// no filter skips it, the comparison reports line `k` with both texts.
pub proof fn law_first_difference(
    shown_1: Seq<char>,
    s1: Seq<Result<String, String>>,
    shown_2: Seq<char>,
    s2: Seq<Result<String, String>>,
    filters: Seq<Seq<char>>,
    k: nat,
)
    requires
        all_read(s1),
        all_read(s2),
        1 <= k <= s1.len(),
        k <= s2.len(),
        forall|i: int| 0 <= i < k - 1 ==> text_of(#[trigger] s1[i]) == text_of(s2[i]),
        text_of(s1[k - 1]) != text_of(s2[k - 1]),
        !skipped(text_of(s1[k - 1]), text_of(s2[k - 1]), filters),
    ensures
        outcome(shown_1, s1, shown_2, s2, filters) == Err::<(), Failure>(
            Failure::Mismatch {
                line: k,
                path_1: slashed(shown_1),
                text_1: text_of(s1[k - 1]),
                path_2: slashed(shown_2),
                text_2: text_of(s2[k - 1]),
            },
        ),
{
    lemma_pass_prefix(slashed(shown_1), s1, slashed(shown_2), s2, filters, 0, (k - 1) as nat);
    assert(s1[k - 1] is Ok && s2[k - 1] is Ok);
}

/// When the line at index `k` of file `bad` cannot be read, and every line
/// before it is read and equal to the one of file `good`, which has a
/// readable line at `k` too, the comparison reports a read failure of `bad`,
/// in either argument position.
pub proof fn law_unreadable_line(
    shown_bad: Seq<char>,
    bad: Seq<Result<String, String>>,
    shown_good: Seq<char>,
    good: Seq<Result<String, String>>,
    filters: Seq<Seq<char>>,
    k: nat,
)
    requires
        k < bad.len(),
        k < good.len(),
        bad[k as int] is Err,
        forall|i: int| 0 <= i <= k ==> #[trigger] good[i] is Ok,
        forall|i: int| 0 <= i < k ==> #[trigger] bad[i] is Ok,
        forall|i: int| 0 <= i < k ==> text_of(#[trigger] bad[i]) == text_of(good[i]),
    ensures
        outcome(shown_bad, bad, shown_good, good, filters) == Err::<(), Failure>(
            Failure::Read { path: slashed(shown_bad), cause: cause_of(bad[k as int]) },
        ),
        outcome(shown_good, good, shown_bad, bad, filters) == Err::<(), Failure>(
            Failure::Read { path: slashed(shown_bad), cause: cause_of(bad[k as int]) },
        ),
{
    assert forall|m: int| 0 <= m < k implies #[trigger] bad[m] is Ok && good[m] is Ok && (
    text_of(bad[m]) == text_of(good[m]) || skipped(text_of(bad[m]), text_of(good[m]), filters)) by {
        assert(good[m] is Ok);
    }
    lemma_pass_prefix(slashed(shown_bad), bad, slashed(shown_good), good, filters, 0, k);
    assert forall|m: int| 0 <= m < k implies #[trigger] good[m] is Ok && bad[m] is Ok && (
    text_of(good[m]) == text_of(bad[m]) || skipped(text_of(good[m]), text_of(bad[m]), filters)) by {
        assert(bad[m] is Ok);
    }
    lemma_pass_prefix(slashed(shown_good), good, slashed(shown_bad), bad, filters, 0, k);
    assert(good[k as int] is Ok);
}

/// Two files of equal length whose lines differ only where a filter occurs
/// compare equal under those filters; with no filters, nothing is skipped.
pub proof fn law_filtered_lines_ignored(
    shown_1: Seq<char>,
    s1: Seq<Result<String, String>>,
    shown_2: Seq<char>,
    s2: Seq<Result<String, String>>,
    filters: Seq<Seq<char>>,
)
    requires
        all_read(s1),
        all_read(s2),
        s1.len() == s2.len(),
        forall|i: int|
            0 <= i < s1.len() ==> text_of(#[trigger] s1[i]) == text_of(s2[i]) || skipped(
                text_of(s1[i]),
                text_of(s2[i]),
                filters,
            ),
    ensures
        outcome(shown_1, s1, shown_2, s2, filters) == Ok::<(), Failure>(()),
        forall|a: Seq<char>, b: Seq<char>| !#[trigger] skipped(a, b, Seq::empty()),
{
    lemma_pass_prefix(slashed(shown_1), s1, slashed(shown_2), s2, filters, 0, s1.len());
}

} // verus!
