//! Session registrar and debounced event dispatch for file-system watch
//! sessions: each session covers a set of paths, and its change
//! notifications are classified, filtered and delivered per session.

pub mod error;
pub mod opts;
pub mod dispatch;
pub mod registrar;

use vstd::prelude::*;

use error::{WatchError, WatchResult};
use opts::{resolves, starts_with_root, EventType, RegisterOpts};

verus! {

/// One classified change, delivered on a session's event stream.
#[derive(Debug)]
pub struct FSEvent {
    pub uid: usize,
    pub event_type: EventType,
    pub path: String,
}

impl View for FSEvent {
    type V = (usize, EventType, Seq<char>);

    open spec fn view(&self) -> (usize, EventType, Seq<char>) {
        (self.uid, self.event_type, self.path@)
    }
}

/// A command of the controlling process.
#[derive(Debug)]
pub enum InputCmd {
    Register(RegisterOpts),
    Unregister(usize),
}

/// The paths of `paths` whose flag in `dropped` is false, in order.
pub open spec fn kept(paths: Seq<Seq<char>>, dropped: Seq<bool>) -> Seq<Seq<char>>
    decreases paths.len(),
{
    if paths.len() == 0 {
        Seq::empty()
    } else {
        let rest = kept(paths.drop_last(), dropped);
        if dropped[paths.len() - 1] {
            rest
        } else {
            rest.push(paths.last())
        }
    }
}

/// Whether any answer of `row` is yes.
pub open spec fn any_yes(row: Seq<bool>) -> bool {
    exists|j: int| 0 <= j < row.len() && row[j]
}

/// For each row of answers, whether any of them is yes.
pub open spec fn marks_of(answers: Seq<Seq<bool>>) -> Seq<bool> {
    Seq::new(answers.len(), |i: int| any_yes(answers[i]))
}

/// Whether `out` is `paths` without those that are the same file as one of
/// `n_others` other paths, for some answers of the file system to the
/// question "same file?" (row `i`: path `i` against each other path).
pub open spec fn filtered_by(paths: Seq<Seq<char>>, n_others: int, out: Seq<Seq<char>>) -> bool {
    exists|answers: Seq<Seq<bool>>|
        {
            &&& answers.len() == paths.len()
            &&& forall|i: int| 0 <= i < answers.len() ==> (#[trigger] answers[i]).len() == n_others
            &&& out == kept(paths, marks_of(answers))
        }
}

/// Whether `out` is `paths` without those that are the same file as an
/// earlier one, for some answers of the file system to the question "same
/// file?" (row `i`: path `i` against each path before it).
pub open spec fn deduplicated(paths: Seq<Seq<char>>, out: Seq<Seq<char>>) -> bool {
    exists|answers: Seq<Seq<bool>>|
        {
            &&& answers.len() == paths.len()
            &&& forall|i: int| 0 <= i < answers.len() ==> (#[trigger] answers[i]).len() == i
            &&& out == kept(paths, marks_of(answers))
        }
}

/// The views of a list of strings.
pub open spec fn texts(v: Seq<String>) -> Seq<Seq<char>> {
    v.map_values(|s: String| s@)
}

/// Relies on same_file's `is_same_file`: whether the two paths name the same
/// file on disk; false where either cannot be read.
#[verifier::external_body]
fn same_file(a: &String, b: &String) -> (r: bool) {
    same_file::is_same_file(a, b).unwrap_or(false)
}

/// Keeps the paths whose flag in `dropped` is false, in order.
pub fn retain_marked(paths: &Vec<String>, dropped: &Vec<bool>) -> (r: Vec<String>)
    requires
        paths@.len() == dropped@.len(),
    ensures
        texts(r@) == kept(texts(paths@), dropped@),
{
    let mut out: Vec<String> = Vec::new();
    let mut i: usize = 0;
    while i < paths.len()
        invariant
            0 <= i <= paths@.len(),
            paths@.len() == dropped@.len(),
            texts(out@) == kept(texts(paths@.subrange(0, i as int)), dropped@),
        decreases paths@.len() - i,
    {
        assert(texts(paths@.subrange(0, i + 1)).drop_last() =~= texts(paths@.subrange(0, i as int)));
        if !dropped[i] {
            out.push(paths[i].clone());
        }
        assert(texts(out@) =~= kept(texts(paths@.subrange(0, i + 1)), dropped@));
        i += 1;
    }
    assert(paths@.subrange(0, paths@.len() as int) =~= paths@);
    out
}

/// For each row of answers, whether any of them is yes.
pub fn mark_any(answers: &Vec<Vec<bool>>) -> (r: Vec<bool>)
    ensures
        r@ == marks_of(answers@.map_values(|row: Vec<bool>| row@)),
{
    let mut marks: Vec<bool> = Vec::new();
    let mut i: usize = 0;
    while i < answers.len()
        invariant
            0 <= i <= answers@.len(),
            marks@.len() == i,
            forall|k: int| 0 <= k < i ==> marks@[k] == any_yes(#[trigger] answers@[k]@),
        decreases answers@.len() - i,
    {
        let row = &answers[i];
        let mut hit = false;
        let mut j: usize = 0;
        while j < row.len()
            invariant
                0 <= j <= row@.len(),
                hit == exists|m: int| 0 <= m < j && row@[m],
            decreases row@.len() - j,
        {
            if row[j] {
                hit = true;
            }
            j += 1;
        }
        marks.push(hit);
        i += 1;
    }
    assert(marks@ =~= marks_of(answers@.map_values(|row: Vec<bool>| row@)));
    marks
}

/// Asks the file system, for each path, whether it is the same file as each
/// of `others`.
fn same_file_answers(paths: &Vec<String>, others: &Vec<String>) -> (r: Vec<Vec<bool>>)
    ensures
        r@.len() == paths@.len(),
        forall|i: int| 0 <= i < r@.len() ==> (#[trigger] r@[i])@.len() == others@.len(),
{
    let mut answers: Vec<Vec<bool>> = Vec::new();
    let mut i: usize = 0;
    while i < paths.len()
        invariant
            0 <= i <= paths@.len(),
            answers@.len() == i,
            forall|k: int| 0 <= k < i ==> (#[trigger] answers@[k])@.len() == others@.len(),
        decreases paths@.len() - i,
    {
        let mut row: Vec<bool> = Vec::new();
        let mut j: usize = 0;
        while j < others.len()
            invariant
                0 <= j <= others@.len(),
                0 <= i < paths@.len(),
                row@.len() == j,
            decreases others@.len() - j,
        {
            row.push(same_file(&paths[i], &others[j]));
            j += 1;
        }
        answers.push(row);
        i += 1;
    }
    answers
}

/// Asks the file system, for each path, whether it is the same file as each
/// path before it.
fn earlier_same_file_answers(paths: &Vec<String>) -> (r: Vec<Vec<bool>>)
    ensures
        r@.len() == paths@.len(),
        forall|i: int| 0 <= i < r@.len() ==> (#[trigger] r@[i])@.len() == i,
{
    let mut answers: Vec<Vec<bool>> = Vec::new();
    let mut i: usize = 0;
    while i < paths.len()
        invariant
            0 <= i <= paths@.len(),
            answers@.len() == i,
            forall|k: int| 0 <= k < i ==> (#[trigger] answers@[k])@.len() == k,
        decreases paths@.len() - i,
    {
        let mut row: Vec<bool> = Vec::new();
        let mut j: usize = 0;
        while j < i
            invariant
                0 <= j <= i,
                i < paths@.len(),
                row@.len() == j,
            decreases i - j,
        {
            row.push(same_file(&paths[i], &paths[j]));
            j += 1;
        }
        answers.push(row);
        i += 1;
    }
    answers
}

/// Drops the paths that are the same file as one of `ignores` (by file
/// identity, so also through links), keeping the order of the others.
pub fn retain_unignored(paths: &Vec<String>, ignores: &Vec<String>) -> (r: Vec<String>)
    ensures
        filtered_by(texts(paths@), ignores@.len() as int, texts(r@)),
{
    let answers = same_file_answers(paths, ignores);
    let marks = mark_any(&answers);
    let r = retain_marked(paths, &marks);
    let ghost rows = answers@.map_values(|row: Vec<bool>| row@);
    assert(rows.len() == texts(paths@).len());
    assert(forall|i: int| 0 <= i < rows.len() ==> (#[trigger] rows[i]).len() == ignores@.len() as int);
    r
}

/// Drops each path that is the same file as an earlier one, so that every
/// file stays once, under its first path.
pub fn dedup_by_identity(paths: &Vec<String>) -> (r: Vec<String>)
    ensures
        deduplicated(texts(paths@), texts(r@)),
{
    let answers = earlier_same_file_answers(paths);
    let marks = mark_any(&answers);
    let r = retain_marked(paths, &marks);
    let ghost rows = answers@.map_values(|row: Vec<bool>| row@);
    assert(rows.len() == texts(paths@).len());
    assert(forall|i: int| 0 <= i < rows.len() ==> (#[trigger] rows[i]).len() == i);
    r
}

/// The outcome of resolving a session's patterns: the paths to watch, and
/// the diagnostics of its patterns and of its ignore patterns.
#[derive(Debug)]
pub struct PathReport {
    pub paths: Vec<String>,
    pub pattern_errs: Vec<WatchError>,
    pub ignore_errs: Vec<WatchError>,
}

/// Resolves the patterns and the ignore patterns of `opts` against the
/// normalized working directory, drops from what the patterns matched every
/// path that is the same file as something the ignore patterns matched, and
/// keeps each remaining file once. Fails only where the working directory
/// cannot be normalized.
pub fn get_paths(opts: &RegisterOpts) -> (r: WatchResult<PathReport>)
    ensures
        r is Err ==> r->Err_0 is IoError,
        r is Ok ==> exists|
            cwd: Seq<char>,
            found: Seq<Seq<char>>,
            ignored: Seq<Seq<char>>,
            unignored: Seq<Seq<char>>,
        |
            {
                &&& starts_with_root(cwd)
                &&& resolves(cwd, opts.patterns@, found, r->Ok_0.pattern_errs@)
                &&& resolves(cwd, opts.ignores@, ignored, r->Ok_0.ignore_errs@)
                &&& filtered_by(found, ignored.len() as int, unignored)
                &&& deduplicated(unignored, texts(r->Ok_0.paths@))
            },
{
    let cwd = opts.validate_cwd()?;
    let (found, pattern_errs) = RegisterOpts::globs_to_paths(cwd.as_str(), &opts.patterns);
    let (ignored, ignore_errs) = RegisterOpts::globs_to_paths(cwd.as_str(), &opts.ignores);
    let unignored = retain_unignored(&found, &ignored);
    let paths = dedup_by_identity(&unignored);
    let r = PathReport { paths, pattern_errs, ignore_errs };
    assert(texts(ignored@).len() == ignored@.len());
    assert(resolves(cwd@, opts.patterns@, texts(found@), r.pattern_errs@));
    Ok(r)
}

} // verus!
