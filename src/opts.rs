use vstd::prelude::*;

use normpath::PathExt;
use notify_debouncer_full::DebouncedEvent;

use crate::dispatch::raw_notification;
use crate::error::{WatchError, WatchResult};

verus! {

/// The kinds of change a session can ask to hear about.
#[derive(Debug, Clone, Copy, PartialEq, Eq, Structural)]
pub enum EventType {
    Create,
    Change,
    Delete,
}

/// The top-level kind of a raw notification, as the notification source
/// reports it, before classification.
#[derive(Debug, Clone, Copy, PartialEq, Eq, Structural)]
pub enum RawKind {
    Any,
    Access,
    Create,
    Modify,
    /// The source side of a rename, reported alone.
    RenameFrom,
    Remove,
    Other,
}

/// The classification of a raw kind: creations, modifications and removals
/// map to the three event types; everything else (accesses, unknown kinds,
/// the source side of a rename) is dropped.
pub open spec fn classify(kind: RawKind) -> Option<EventType> {
    match kind {
        RawKind::Create => Some(EventType::Create),
        RawKind::Modify => Some(EventType::Change),
        RawKind::Remove => Some(EventType::Delete),
        _ => None,
    }
}

impl EventType {
    /// Classifies a raw notification kind.
    pub fn from_raw_kind(kind: RawKind) -> (r: Option<EventType>)
        ensures
            r == classify(kind),
    {
        match kind {
            RawKind::Create => Some(EventType::Create),
            RawKind::Modify => Some(EventType::Change),
            RawKind::Remove => Some(EventType::Delete),
            _ => None,
        }
    }

    /// Whether a raw notification of `kind` is classified as this type.
    pub fn matches_kind(&self, kind: RawKind) -> (r: bool)
        ensures
            r == (classify(kind) == Some(*self)),
    {
        match (self, kind) {
            (EventType::Create, RawKind::Create) => true,
            (EventType::Change, RawKind::Modify) => true,
            (EventType::Delete, RawKind::Remove) => true,
            _ => false,
        }
    }
}

impl EventType {
    /// Classifies a debounced notification by its top-level kind, as
    /// `from_raw_kind` does; the event itself is opaque here, so the kind
    /// is read through `raw_notification`.
    pub fn from_notify_event(event: &DebouncedEvent) -> (r: Option<EventType>) {
        let n = raw_notification(event);
        Self::from_raw_kind(n.kind)
    }
}

/// Every raw kind has exactly one classification: one of the three event
/// types, or none (dropped); classifying the same kind twice agrees.
pub proof fn lemma_classification_total(k1: RawKind, k2: RawKind)
    ensures
        classify(k1) == Some(EventType::Create) || classify(k1) == Some(EventType::Change)
            || classify(k1) == Some(EventType::Delete) || classify(k1) is None,
        k1 == k2 ==> classify(k1) == classify(k2),
        classify(k1) is Some <==> (k1 is Create || k1 is Modify || k1 is Remove),
        k1 is RenameFrom ==> classify(k1) is None,
{
}

/// Options of a register command.
#[derive(Debug)]
pub struct RegisterOpts {
    pub cwd: String,
    pub debounce_changes: u64,
    pub watch_for: Vec<EventType>,
    pub patterns: Vec<String>,
    pub ignores: Vec<String>,
    pub uid: usize,
}

/// The event types a session hears about when it names none.
pub open spec fn all_event_types() -> Seq<EventType> {
    seq![EventType::Create, EventType::Change, EventType::Delete]
}

impl RegisterOpts {
    /// The working directory used when none is given.
    pub fn default_cwd() -> (r: String)
        ensures
            r@ == seq!['.'],
    {
        let r = String::from_str(".");
        proof {
            reveal_strlit(".");
        }
        r
    }

    /// The debounce window, in milliseconds, used when none is given.
    pub fn default_deb_changes() -> (r: u64)
        ensures
            r == 400,
    {
        400
    }

    /// The interest filter used when none is given: all three types.
    pub fn default_watch_for() -> (r: Vec<EventType>)
        ensures
            r@ == all_event_types(),
    {
        let r = vec![EventType::Create, EventType::Change, EventType::Delete];
        assert(r@ =~= all_event_types());
        r
    }

    /// The pattern list used when none is given: the working directory.
    pub fn default_patterns() -> (r: Vec<String>)
        ensures
            r@.len() == 1,
            r@[0]@ == seq!['.'],
    {
        vec![Self::default_cwd()]
    }

    /// Options with every default and the given uid.
    pub fn new(uid: usize) -> (r: Self)
        ensures
            r.uid == uid,
            r.cwd@ == seq!['.'],
            r.debounce_changes == 400,
            r.watch_for@ == all_event_types(),
            r.patterns@.len() == 1,
            r.patterns@[0]@ == seq!['.'],
            r.ignores@.len() == 0,
    {
        RegisterOpts {
            cwd: Self::default_cwd(),
            debounce_changes: Self::default_deb_changes(),
            watch_for: Self::default_watch_for(),
            patterns: Self::default_patterns(),
            ignores: Vec::new(),
            uid,
        }
    }
}

/// Whether `p` starts at the root, which on Unix makes it absolute.
pub open spec fn starts_with_root(p: Seq<char>) -> bool {
    p.len() > 0 && p[0] == '/'
}

/// `pat` itself where it is absolute, else `pat` under `cwd`.
pub open spec fn absolute_pattern(cwd: Seq<char>, pat: Seq<char>) -> Seq<char> {
    if starts_with_root(pat) {
        pat
    } else {
        cwd + seq!['/'] + pat
    }
}

/// The texts of the entries of `entries` that are present, in order.
pub open spec fn present(entries: Seq<Option<String>>) -> Seq<Seq<char>>
    decreases entries.len(),
{
    if entries.len() == 0 {
        Seq::empty()
    } else {
        let rest = present(entries.drop_last());
        match entries.last() {
            Some(s) => rest.push(s@),
            None => rest,
        }
    }
}

/// Whether `e` is a diagnostic about the pattern `pat`.
pub open spec fn names_pattern(e: WatchError, pat: Seq<char>) -> bool {
    match e {
        WatchError::PatternError(p, _) => p@ == pat,
        WatchError::ExPatternError(p) => p@ == pat,
        _ => false,
    }
}

/// One pattern's share of a resolution: its paths, and its diagnostic.
pub type Outcome = (Seq<Seq<char>>, Option<WatchError>);

/// Whether `out` is a possible share of the pattern `pat` anchored at
/// `cwd`. A pattern that is not valid glob syntax yields no path and one
/// `PatternError`. A valid one yields absolute paths, and at most an
/// `ExPatternError`, which comes only with no path (it matched nothing);
/// which paths it yields the file system decides.
pub open spec fn outcome_fits(cwd: Seq<char>, pat: Seq<char>, out: Outcome) -> bool {
    if !glob_syntax_ok(absolute_pattern(cwd, pat)) {
        &&& out.0.len() == 0
        &&& out.1 is Some
        &&& out.1->Some_0 is PatternError
        &&& names_pattern(out.1->Some_0, pat)
    } else {
        &&& forall|k: int| 0 <= k < out.0.len() ==> starts_with_root(#[trigger] out.0[k])
        &&& out.1 is Some ==> {
            &&& out.1->Some_0 is ExPatternError
            &&& names_pattern(out.1->Some_0, pat)
            &&& out.0.len() == 0
        }
    }
}

/// The paths of the shares, concatenated in pattern order.
pub open spec fn joined_paths(outs: Seq<Outcome>) -> Seq<Seq<char>>
    decreases outs.len(),
{
    if outs.len() == 0 {
        Seq::empty()
    } else {
        joined_paths(outs.drop_last()) + outs.last().0
    }
}

/// The diagnostics of the shares, in pattern order.
pub open spec fn joined_diags(outs: Seq<Outcome>) -> Seq<WatchError>
    decreases outs.len(),
{
    if outs.len() == 0 {
        Seq::empty()
    } else {
        let rest = joined_diags(outs.drop_last());
        match outs.last().1 {
            Some(e) => rest.push(e),
            None => rest,
        }
    }
}

/// Whether `paths` and `diags` are the resolution of `patterns` anchored at
/// `cwd`: one fitting share per pattern, joined in pattern order.
pub open spec fn resolves(
    cwd: Seq<char>,
    patterns: Seq<String>,
    paths: Seq<Seq<char>>,
    diags: Seq<WatchError>,
) -> bool {
    exists|outs: Seq<Outcome>|
        {
            &&& outs.len() == patterns.len()
            &&& forall|j: int|
                0 <= j < patterns.len() ==> outcome_fits(cwd, patterns[j]@, #[trigger] outs[j])
            &&& paths == joined_paths(outs)
            &&& diags == joined_diags(outs)
        }
}

/// Relies on std's `Path::is_absolute`: on Unix a path is absolute when it
/// starts with the root.
#[verifier::external_body]
fn is_absolute(path: &str) -> (r: bool)
    ensures
        r == starts_with_root(path@),
{
    std::path::Path::new(path).is_absolute()
}

/// Relies on normpath's `PathExt::normalize`: the path made absolute and
/// normalized against the file system (through `fs::canonicalize` on
/// Unix), as text; so a result starts at the root.
#[verifier::external_body]
fn normalize_path(path: &str) -> (r: Result<String, std::io::Error>)
    ensures
        r is Ok ==> starts_with_root(r->Ok_0@),
{
    std::path::Path::new(path).normalize().map(|p| p.into_path_buf().display().to_string())
}

/// Whether `pattern` is valid glob syntax, as glob's parser decides it.
pub uninterp spec fn glob_syntax_ok(pattern: Seq<char>) -> bool;

/// Relies on glob's `glob`: the entries that match `pattern` on the file
/// system, each as text (`None` where an entry could not be read or is not
/// text), or the error for a pattern that is not valid glob syntax. Whether
/// it fails is decided by parsing the pattern, before any file is read.
#[verifier::external_body]
fn glob_entries(pattern: &str) -> (r: Result<Vec<Option<String>>, glob::PatternError>)
    ensures
        r is Ok <==> glob_syntax_ok(pattern@),
{
    glob::glob(pattern).map(|paths| paths.map(|e| e.ok().and_then(|p| p.to_str().map(String::from))).collect())
}

/// Anchors `pat` at `cwd` unless it is absolute.
pub fn anchor_pattern(cwd: &str, pat: &str) -> (r: String)
    ensures
        r@ == absolute_pattern(cwd@, pat@),
{
    if is_absolute(pat) {
        pat.to_owned()
    } else {
        let mut r = cwd.to_owned();
        r.append("/");
        r.append(pat);
        proof {
            reveal_strlit("/");
        }
        r
    }
}

/// What one valid pattern contributes, given the normalized form of each of
/// its matches (`None` where a match could not be read or normalized): the
/// normalized paths in order, and a diagnostic where it matched nothing.
pub fn settle_pattern(pat: &String, normalized: &Vec<Option<String>>) -> (r: (
    Vec<String>,
    Option<WatchError>,
))
    ensures
        r.0@.map_values(|s: String| s@) == present(normalized@),
        r.1 is Some <==> normalized@.len() == 0,
        r.1 is Some ==> r.1->Some_0 is ExPatternError && names_pattern(r.1->Some_0, pat@),
{
    let mut paths: Vec<String> = Vec::new();
    let mut i: usize = 0;
    while i < normalized.len()
        invariant
            0 <= i <= normalized@.len(),
            paths@.map_values(|s: String| s@) == present(normalized@.subrange(0, i as int)),
        decreases normalized@.len() - i,
    {
        assert(normalized@.subrange(0, i + 1).drop_last() =~= normalized@.subrange(0, i as int));
        match &normalized[i] {
            Some(p) => {
                paths.push(p.clone());
            },
            None => {},
        }
        assert(paths@.map_values(|s: String| s@) =~= present(normalized@.subrange(0, i + 1)));
        i += 1;
    }
    assert(normalized@.subrange(0, normalized@.len() as int) =~= normalized@);
    if normalized.len() == 0 {
        (paths, Some(WatchError::ExPatternError(pat.clone())))
    } else {
        (paths, None)
    }
}

proof fn lemma_present_rooted(entries: Seq<Option<String>>)
    requires
        forall|k: int|
            0 <= k < entries.len() && (#[trigger] entries[k]) is Some ==> starts_with_root(
                entries[k]->Some_0@,
            ),
    ensures
        forall|k: int| 0 <= k < present(entries).len() ==> starts_with_root(#[trigger] present(entries)[k]),
    decreases entries.len(),
{
    if entries.len() > 0 {
        let rest = entries.drop_last();
        assert forall|k: int| 0 <= k < rest.len() && (#[trigger] rest[k]) is Some implies starts_with_root(
            rest[k]->Some_0@,
        ) by {
            assert(rest[k] == entries[k]);
        }
        lemma_present_rooted(rest);
        let last = entries.len() - 1;
        assert forall|k: int| 0 <= k < present(entries).len() implies starts_with_root(
            #[trigger] present(entries)[k],
        ) by {
            if k < present(rest).len() {
                assert(present(entries)[k] == present(rest)[k]);
            } else {
                assert(entries[last] is Some);
            }
        }
    }
}

impl RegisterOpts {
    /// The working directory, normalized against the file system.
    pub fn validate_cwd(&self) -> (r: WatchResult<String>)
        ensures
            r is Err ==> r->Err_0 is IoError,
            r is Ok ==> starts_with_root(r->Ok_0@),
    {
        match normalize_path(self.cwd.as_str()) {
            Ok(p) => Ok(p),
            Err(e) => Err(WatchError::IoError(e)),
        }
    }

    /// The paths that the patterns match, anchored at the normalized working
    /// directory, and a diagnostic for each pattern that is invalid or
    /// matches nothing.
    pub fn patterns_to_paths(&self) -> (r: WatchResult<(Vec<String>, Vec<WatchError>)>)
        ensures
            r is Err ==> r->Err_0 is IoError,
            r is Ok ==> exists|cwd: Seq<char>|
                starts_with_root(cwd) && resolves(
                    cwd,
                    self.patterns@,
                    r->Ok_0.0@.map_values(|s: String| s@),
                    r->Ok_0.1@,
                ),
    {
        let cwd = self.validate_cwd()?;
        let r = Self::globs_to_paths(cwd.as_str(), &self.patterns);
        assert(starts_with_root(cwd@));
        Ok(r)
    }

    /// The paths that the ignore patterns match, anchored at the normalized
    /// working directory, and a diagnostic for each of them that is invalid
    /// or matches nothing.
    pub fn ignores_to_paths(&self) -> (r: WatchResult<(Vec<String>, Vec<WatchError>)>)
        ensures
            r is Err ==> r->Err_0 is IoError,
            r is Ok ==> exists|cwd: Seq<char>|
                starts_with_root(cwd) && resolves(
                    cwd,
                    self.ignores@,
                    r->Ok_0.0@.map_values(|s: String| s@),
                    r->Ok_0.1@,
                ),
    {
        let cwd = self.validate_cwd()?;
        let r = Self::globs_to_paths(cwd.as_str(), &self.ignores);
        assert(starts_with_root(cwd@));
        Ok(r)
    }

    /// Resolves one pattern, anchored at `cwd`, to the normalized paths it
    /// matches, with a diagnostic where it is invalid or matches nothing.
    pub fn resolve_pattern(cwd: &str, pat: &String) -> (r: (Vec<String>, Option<WatchError>))
        ensures
            outcome_fits(cwd@, pat@, (r.0@.map_values(|s: String| s@), r.1)),
    {
        let abs = anchor_pattern(cwd, pat.as_str());
        match glob_entries(abs.as_str()) {
            Ok(entries) => {
                let mut normalized: Vec<Option<String>> = Vec::new();
                let mut k: usize = 0;
                while k < entries.len()
                    invariant
                        0 <= k <= entries@.len(),
                        normalized@.len() == k,
                        forall|m: int|
                            0 <= m < normalized@.len() && (#[trigger] normalized@[m]) is Some
                                ==> starts_with_root(normalized@[m]->Some_0@),
                    decreases entries@.len() - k,
                {
                    let n = match &entries[k] {
                        Some(p) => match normalize_path(p.as_str()) {
                            Ok(q) => Some(q),
                            Err(_) => None,
                        },
                        None => None,
                    };
                    normalized.push(n);
                    k += 1;
                }
                let r = settle_pattern(pat, &normalized);
                proof {
                    lemma_present_rooted(normalized@);
                }
                r
            },
            Err(e) => (Vec::new(), Some(WatchError::PatternError(pat.clone(), e))),
        }
    }

    /// Resolves each pattern, anchored at `cwd`, to the normalized paths it
    /// matches, in pattern order; collects a diagnostic for each pattern that
    /// is invalid or matches nothing, in pattern order.
    pub fn globs_to_paths(cwd: &str, patterns: &Vec<String>) -> (r: (Vec<String>, Vec<WatchError>))
        ensures
            resolves(cwd@, patterns@, r.0@.map_values(|s: String| s@), r.1@),
            forall|k: int| 0 <= k < r.0@.len() ==> starts_with_root(#[trigger] r.0@[k]@),
            patterns@.len() == 0 ==> r.0@.len() == 0 && r.1@.len() == 0,
    {
        let mut paths: Vec<String> = Vec::new();
        let mut errs: Vec<WatchError> = Vec::new();
        let ghost mut outs: Seq<Outcome> = Seq::empty();
        let mut i: usize = 0;
        while i < patterns.len()
            invariant
                0 <= i <= patterns@.len(),
                outs.len() == i,
                forall|j: int| 0 <= j < i ==> outcome_fits(cwd@, patterns@[j]@, #[trigger] outs[j]),
                paths@.map_values(|s: String| s@) == joined_paths(outs),
                errs@ == joined_diags(outs),
                forall|k: int| 0 <= k < paths@.len() ==> starts_with_root(#[trigger] paths@[k]@),
            decreases patterns@.len() - i,
        {
            let (found, diag) = Self::resolve_pattern(cwd, &patterns[i]);
            let ghost out: Outcome = (found@.map_values(|s: String| s@), diag);
            let ghost old_paths = paths@;
            let mut found = found;
            let ghost found_v = found@;
            paths.append(&mut found);
            assert(paths@ == old_paths + found_v);
            assert(paths@.map_values(|s: String| s@) =~= old_paths.map_values(|s: String| s@)
                + found_v.map_values(|s: String| s@));
            assert forall|k: int| 0 <= k < paths@.len() implies starts_with_root(#[trigger] paths@[k]@) by {
                if k >= old_paths.len() {
                    assert(paths@[k] == found_v[k - old_paths.len()]);
                    assert(out.0[k - old_paths.len()] == found_v[k - old_paths.len()]@);
                    if !glob_syntax_ok(absolute_pattern(cwd@, patterns@[i as int]@)) {
                        assert(out.0.len() == 0);
                    }
                }
            }
            match diag {
                Some(e) => {
                    errs.push(e);
                },
                None => {},
            }
            proof {
                let new_outs = outs.push(out);
                assert(new_outs.drop_last() =~= outs);
                outs = new_outs;
            }
            i += 1;
        }
        assert(outs.len() == patterns@.len());
        (paths, errs)
    }
}

} // verus!
