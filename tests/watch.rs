use std::path::PathBuf;
use std::time::Instant;

use cheetah::dispatch::{collect_batch, deliver_batch, event_for, flush_events, raw_notification, watches, RawNotification};
use cheetah::error::WatchError;
use cheetah::opts::{anchor_pattern, settle_pattern, EventType, RawKind, RegisterOpts};
use cheetah::registrar::WatcherRegistrar;
use cheetah::{dedup_by_identity, get_paths, mark_any, retain_marked, retain_unignored, FSEvent};
use notify_debouncer_full::notify::event::{CreateKind, ModifyKind, RemoveKind, RenameMode};
use notify_debouncer_full::notify::{Event, EventKind};
use notify_debouncer_full::DebouncedEvent;

fn raw(kind: RawKind, path: &str) -> RawNotification {
    RawNotification { kind, paths: vec![Some(path.to_string())] }
}

fn debounced(kind: EventKind, path: &str) -> DebouncedEvent {
    DebouncedEvent::new(Event::new(kind).add_path(PathBuf::from(path)), Instant::now())
}

fn all() -> Vec<EventType> {
    RegisterOpts::default_watch_for()
}

fn triple(e: &FSEvent) -> (usize, EventType, String) {
    (e.uid, e.event_type, e.path.clone())
}

#[test]
fn classification_of_each_kind() {
    assert_eq!(EventType::from_raw_kind(RawKind::Create), Some(EventType::Create));
    assert_eq!(EventType::from_raw_kind(RawKind::Modify), Some(EventType::Change));
    assert_eq!(EventType::from_raw_kind(RawKind::Remove), Some(EventType::Delete));
    assert_eq!(EventType::from_raw_kind(RawKind::Access), None);
    assert_eq!(EventType::from_raw_kind(RawKind::Any), None);
    assert_eq!(EventType::from_raw_kind(RawKind::Other), None);
    assert_eq!(EventType::from_raw_kind(RawKind::RenameFrom), None);
}

#[test]
fn classification_is_deterministic() {
    for k in [RawKind::RenameFrom, RawKind::Any, RawKind::Access, RawKind::Create, RawKind::Modify, RawKind::Remove, RawKind::Other] {
        assert_eq!(EventType::from_raw_kind(k), EventType::from_raw_kind(k));
    }
}

#[test]
fn matches_kind_agrees_with_classification() {
    assert!(EventType::Create.matches_kind(RawKind::Create));
    assert!(EventType::Change.matches_kind(RawKind::Modify));
    assert!(EventType::Delete.matches_kind(RawKind::Remove));
    assert!(!EventType::Create.matches_kind(RawKind::Modify));
    assert!(!EventType::Delete.matches_kind(RawKind::Access));
    assert!(!EventType::Change.matches_kind(RawKind::RenameFrom));
}

#[test]
fn from_notify_event_reads_the_kind() {
    let c = debounced(EventKind::Create(CreateKind::File), "/w/a");
    let m = debounced(EventKind::Modify(ModifyKind::Any), "/w/a");
    let r = debounced(EventKind::Remove(RemoveKind::File), "/w/a");
    let a = debounced(EventKind::Any, "/w/a");
    assert_eq!(EventType::from_notify_event(&c), Some(EventType::Create));
    assert_eq!(EventType::from_notify_event(&m), Some(EventType::Change));
    assert_eq!(EventType::from_notify_event(&r), Some(EventType::Delete));
    assert_eq!(EventType::from_notify_event(&a), None);
    let from = debounced(EventKind::Modify(ModifyKind::Name(RenameMode::From)), "/w/a");
    let to = debounced(EventKind::Modify(ModifyKind::Name(RenameMode::To)), "/w/b");
    assert_eq!(EventType::from_notify_event(&from), None);
    assert_eq!(EventType::from_notify_event(&to), Some(EventType::Change));
    assert_eq!(raw_notification(&from).kind, RawKind::RenameFrom);
}

#[test]
fn raw_notification_copies_kind_and_paths() {
    let ev = Event::new(EventKind::Modify(ModifyKind::Any))
        .add_path(PathBuf::from("/w/from"))
        .add_path(PathBuf::from("/w/to"));
    let n = raw_notification(&DebouncedEvent::new(ev, Instant::now()));
    assert_eq!(n.kind, RawKind::Modify);
    assert_eq!(n.paths, vec![Some("/w/from".to_string()), Some("/w/to".to_string())]);
    let bare = raw_notification(&debounced(EventKind::Other, "/w/x"));
    assert_eq!(bare.kind, RawKind::Other);
}

#[test]
fn defaults_of_new_options() {
    let o = RegisterOpts::new(9);
    assert_eq!(o.uid, 9);
    assert_eq!(o.cwd, ".");
    assert_eq!(o.debounce_changes, 400);
    assert_eq!(o.watch_for, vec![EventType::Create, EventType::Change, EventType::Delete]);
    assert_eq!(o.patterns, vec![".".to_string()]);
    assert!(o.ignores.is_empty());
    assert_eq!(RegisterOpts::default_cwd(), ".");
    assert_eq!(RegisterOpts::default_deb_changes(), 400);
    assert_eq!(RegisterOpts::default_patterns(), vec![".".to_string()]);
}

#[test]
fn watches_finds_members_only() {
    let wf = vec![EventType::Create, EventType::Delete];
    assert!(watches(&wf, EventType::Create));
    assert!(watches(&wf, EventType::Delete));
    assert!(!watches(&wf, EventType::Change));
    assert!(!watches(&Vec::new(), EventType::Create));
}

#[test]
fn event_for_uses_the_first_path() {
    let n = RawNotification {
        kind: RawKind::Modify,
        paths: vec![Some("/x/first".to_string()), Some("/x/second".to_string())],
    };
    let e = event_for(4, &all(), &n).unwrap();
    assert_eq!(triple(&e), (4, EventType::Change, "/x/first".to_string()));
}

#[test]
fn event_for_drops_pathless_and_non_text() {
    let none = RawNotification { kind: RawKind::Create, paths: Vec::new() };
    assert!(event_for(1, &all(), &none).is_none());
    let odd = RawNotification { kind: RawKind::Create, paths: vec![None, Some("/x".to_string())] };
    assert!(event_for(1, &all(), &odd).is_none());
    let empty = RawNotification { kind: RawKind::Create, paths: vec![Some(String::new())] };
    assert!(event_for(1, &all(), &empty).is_none());
    assert!(flush_events(1, &all(), &vec![empty]).is_empty());
}

#[test]
fn filter_keeps_only_create() {
    let batch = vec![raw(RawKind::Modify, "/x/a"), raw(RawKind::Remove, "/x/b"), raw(RawKind::Create, "/x/c")];
    let out = flush_events(2, &vec![EventType::Create], &batch);
    assert_eq!(out.len(), 1);
    assert_eq!(triple(&out[0]), (2, EventType::Create, "/x/c".to_string()));
}

#[test]
fn flush_keeps_batch_order_and_drops_noise() {
    let batch = vec![
        raw(RawKind::Create, "/w/b.txt"),
        raw(RawKind::Access, "/w/b.txt"),
        raw(RawKind::Remove, "/w/a.txt"),
        raw(RawKind::Other, "/w/a.txt"),
        raw(RawKind::Modify, "/w/c.txt"),
    ];
    let out = flush_events(7, &all(), &batch);
    let got: Vec<_> = out.iter().map(triple).collect();
    assert_eq!(
        got,
        vec![
            (7, EventType::Create, "/w/b.txt".to_string()),
            (7, EventType::Delete, "/w/a.txt".to_string()),
            (7, EventType::Change, "/w/c.txt".to_string()),
        ]
    );
}

#[test]
fn empty_batch_flushes_nothing() {
    assert!(flush_events(1, &all(), &Vec::new()).is_empty());
}

#[test]
fn sessions_do_not_leak_into_each_other() {
    let a = flush_events(1, &all(), &vec![raw(RawKind::Modify, "/x")]);
    let b = flush_events(2, &all(), &vec![raw(RawKind::Modify, "/y")]);
    assert!(a.iter().all(|e| e.uid == 1 && e.path == "/x"));
    assert!(b.iter().all(|e| e.uid == 2 && e.path == "/y"));
    assert_eq!(a.len(), 1);
    assert_eq!(b.len(), 1);
}

#[test]
fn one_modify_batch_gives_one_change() {
    let events = Ok(vec![debounced(EventKind::Modify(ModifyKind::Any), "/w/file")]);
    let out = collect_batch(3, &all(), &events);
    assert_eq!(out.len(), 1);
    assert_eq!(triple(&out[0]), (3, EventType::Change, "/w/file".to_string()));
}

#[test]
fn error_batch_yields_nothing() {
    let events = Err(vec![notify_debouncer_full::notify::Error::generic("overflow")]);
    assert!(collect_batch(3, &all(), &events).is_empty());
}

#[test]
fn deliver_batch_sends_in_order() {
    let (tx, rx) = std::sync::mpsc::channel();
    let events = Ok(vec![
        debounced(EventKind::Create(CreateKind::File), "/w/b.txt"),
        debounced(EventKind::Remove(RemoveKind::File), "/w/b.txt"),
    ]);
    deliver_batch(&tx, 7, &all(), events);
    let first = rx.try_recv().unwrap();
    let second = rx.try_recv().unwrap();
    assert_eq!(triple(&first), (7, EventType::Create, "/w/b.txt".to_string()));
    assert_eq!(triple(&second), (7, EventType::Delete, "/w/b.txt".to_string()));
    assert!(rx.try_recv().is_err());
}

#[test]
fn end_to_end_create_then_delete() {
    let create = collect_batch(7, &all(), &Ok(vec![debounced(EventKind::Create(CreateKind::File), "/t/watched/b.txt")]));
    assert_eq!(create.len(), 1);
    assert_eq!(triple(&create[0]), (7, EventType::Create, "/t/watched/b.txt".to_string()));
    let delete = collect_batch(7, &all(), &Ok(vec![debounced(EventKind::Remove(RemoveKind::File), "/t/watched/b.txt")]));
    assert_eq!(delete.len(), 1);
    assert_eq!(triple(&delete[0]), (7, EventType::Delete, "/t/watched/b.txt".to_string()));
    let mut reg = WatcherRegistrar::new();
    let mut opts = RegisterOpts::new(7);
    opts.debounce_changes = 50;
    assert!(reg.register_watcher(opts, &[]).is_ok());
    assert!(reg.unregister_watcher(7).is_ok());
    assert!(matches!(reg.unregister_watcher(7), Err(WatchError::UidNotFound(7))));
}

#[test]
fn duplicate_uid_is_refused_until_unregistered() {
    let mut reg = WatcherRegistrar::default();
    assert!(reg.register_watcher(RegisterOpts::new(1), &[]).is_ok());
    assert!(matches!(reg.register_watcher(RegisterOpts::new(1), &[]), Err(WatchError::DuplicateUid(1))));
    assert!(reg.register_watcher(RegisterOpts::new(2), &[]).is_ok());
    assert!(reg.unregister_watcher(1).is_ok());
    assert!(!reg.is_registered(1));
    assert!(reg.is_registered(2));
    assert!(reg.register_watcher(RegisterOpts::new(1), &[]).is_ok());
    assert!(reg.is_registered(1));
}

#[test]
fn unknown_uid_is_not_found() {
    let mut reg = WatcherRegistrar::new();
    assert!(matches!(reg.unregister_watcher(42), Err(WatchError::UidNotFound(42))));
}

#[test]
fn failed_watch_registers_nothing() {
    let mut reg = WatcherRegistrar::new();
    let missing = vec!["/no/such/path/for/watching".to_string()];
    assert!(matches!(reg.register_watcher(RegisterOpts::new(5), &missing), Err(WatchError::NotifyError(_))));
    assert!(matches!(reg.unregister_watcher(5), Err(WatchError::UidNotFound(5))));
    assert!(reg.register_watcher(RegisterOpts::new(5), &[]).is_ok());
}

#[test]
fn registered_root_session_streams_nothing_unprompted() {
    let mut reg = WatcherRegistrar::new();
    let rx = reg.register_watcher(RegisterOpts::new(8), &["/".to_string()]).unwrap();
    assert!(rx.try_recv().is_err());
    assert!(reg.unregister_watcher(8).is_ok());
}

#[test]
fn anchor_relative_and_absolute() {
    assert_eq!(anchor_pattern("/home/u", "src/*.rs"), "/home/u/src/*.rs");
    assert_eq!(anchor_pattern("/home/u", "/etc/*"), "/etc/*");
    assert_eq!(anchor_pattern("/home/u", ""), "/home/u/");
}

#[test]
fn settle_pattern_with_no_match_reports() {
    let (paths, err) = settle_pattern(&"nothing*".to_string(), &Vec::new());
    assert!(paths.is_empty());
    assert!(matches!(err, Some(WatchError::ExPatternError(p)) if p == "nothing*"));
}

#[test]
fn settle_pattern_keeps_normalized_matches() {
    let normalized = vec![Some("/a".to_string()), None, Some("/b".to_string())];
    let (paths, err) = settle_pattern(&"*".to_string(), &normalized);
    assert_eq!(paths, vec!["/a".to_string(), "/b".to_string()]);
    assert!(err.is_none());
}

#[test]
fn retain_marked_drops_flagged() {
    let paths = vec!["/a".to_string(), "/b".to_string(), "/c".to_string()];
    assert_eq!(retain_marked(&paths, &vec![false, true, false]), vec!["/a".to_string(), "/c".to_string()]);
}

#[test]
fn mark_any_is_any_yes_per_row() {
    let rows = vec![vec![false, true], vec![], vec![false, false], vec![true]];
    assert_eq!(mark_any(&rows), vec![true, false, false, true]);
}

#[test]
fn dedup_keeps_first_path_of_each_file() {
    let paths = vec!["/proc".to_string(), "/".to_string(), "/proc/.".to_string(), "/.".to_string()];
    assert_eq!(dedup_by_identity(&paths), vec!["/proc".to_string(), "/".to_string()]);
    assert!(dedup_by_identity(&Vec::new()).is_empty());
}

#[test]
fn globs_with_no_patterns_give_nothing() {
    let (paths, errs) = RegisterOpts::globs_to_paths("/tmp", &Vec::new());
    assert!(paths.is_empty());
    assert!(errs.is_empty());
}

#[test]
fn invalid_glob_gives_one_diagnostic_and_no_path() {
    let (paths, errs) = RegisterOpts::globs_to_paths("/tmp", &vec!["[".to_string()]);
    assert!(paths.is_empty());
    assert_eq!(errs.len(), 1);
    assert!(matches!(&errs[0], WatchError::PatternError(p, _) if p == "["));
}

#[test]
fn resolve_pattern_matches_absolute_path() {
    let (paths, diag) = RegisterOpts::resolve_pattern("/tmp", &"/proc".to_string());
    assert_eq!(paths, vec!["/proc".to_string()]);
    assert!(diag.is_none());
}

#[test]
fn validated_cwd_is_absolute() {
    let o = RegisterOpts::new(1);
    let cwd = o.validate_cwd().unwrap();
    assert!(cwd.starts_with('/'));
}

#[test]
fn retain_unignored_by_file_identity() {
    let paths = vec!["/".to_string(), "/proc".to_string()];
    assert_eq!(retain_unignored(&paths, &Vec::new()), paths);
    assert_eq!(retain_unignored(&paths, &vec!["/.".to_string()]), vec!["/proc".to_string()]);
}

#[test]
fn patterns_resolve_against_the_file_system() {
    let mut o = RegisterOpts::new(1);
    o.cwd = "/".to_string();
    o.patterns = vec!["/proc".to_string(), "/no/such/entry/xyz".to_string(), "[".to_string()];
    let (paths, errs) = o.patterns_to_paths().unwrap();
    assert_eq!(paths, vec!["/proc".to_string()]);
    assert_eq!(errs.len(), 2);
    assert!(matches!(&errs[0], WatchError::ExPatternError(p) if p == "/no/such/entry/xyz"));
    assert!(matches!(&errs[1], WatchError::PatternError(p, _) if p == "["));
}

#[test]
fn missing_cwd_is_an_io_error() {
    let mut o = RegisterOpts::new(1);
    o.cwd = "/no/such/dir/for/cwd".to_string();
    assert!(matches!(o.validate_cwd(), Err(WatchError::IoError(_))));
    assert!(matches!(o.patterns_to_paths(), Err(WatchError::IoError(_))));
    assert!(matches!(get_paths(&o), Err(WatchError::IoError(_))));
}

#[test]
fn get_paths_applies_ignores() {
    let mut o = RegisterOpts::new(1);
    o.cwd = "/".to_string();
    o.patterns = vec!["/".to_string(), "/proc".to_string(), "/".to_string()];
    o.ignores = vec!["/proc".to_string()];
    let report = get_paths(&o).unwrap();
    assert_eq!(report.paths, vec!["/".to_string()]);
    assert!(report.pattern_errs.is_empty());
    assert!(report.ignore_errs.is_empty());
}
