use cosmic_files::operation::{check_before_step, copy_destination};
use cosmic_files::controller::Controller;
use cosmic_files::notifiers::{actively_writing_add, actively_writing_remove, actively_writing_tick, is_actively_writing_to, FileWritingNotifier};
use cosmic_files::operation::{
    copy_unique_path, extract_destination, get_directory_name, progress_step, transit_answer, ControllerState,
    FolderName, Operation, OperationError, OperationErrorType, OperationSelection, ProgressStep, ReplaceResult,
    TextArg, TextKey, TransitAnswer, TransitState,
};
use cosmic_files::recursive::{replace_step, ReplaceStep,
    finish_plan, plan_entries, record_completed, resolve_replace, should_walk, EntryType, Op, OpKind, PlanError, WalkEntry,
};

fn names(v: &[&str]) -> Vec<String> {
    v.iter().map(|s| s.to_string()).collect()
}

#[test]
fn a_copy_into_its_own_folder_gets_a_numbered_name() {
    let existing = names(&["foo.txt", "cosmic", "dir0"]);
    assert_eq!(copy_unique_path("/fs/foo.txt", false, "/fs", &existing, "Copy"), "/fs/foo (Copy 1).txt");
    assert_eq!(copy_unique_path("/fs/dir0", true, "/fs", &existing, "Copy"), "/fs/dir0 (Copy 1)");
    assert_eq!(copy_unique_path("/fs/cosmic", false, "/fs", &existing, "Copy"), "/fs/cosmic (Copy 1)");
}

#[test]
fn repeated_copies_take_the_next_free_number() {
    let mut existing = names(&["cosmic"]);
    for i in 1..5 {
        let to = copy_unique_path("/fs/cosmic", false, "/fs", &existing, "Copy");
        assert_eq!(to, format!("/fs/cosmic (Copy {i})"));
        existing.push(format!("cosmic (Copy {i})"));
    }
}

#[test]
fn a_copy_elsewhere_keeps_its_name_and_archives_keep_their_extension() {
    assert_eq!(copy_unique_path("/a/ferris", false, "/b", &names(&["other"]), "Copy"), "/b/ferris");
    assert_eq!(
        copy_unique_path("/a/x.tar.gz", false, "/a", &names(&["x.tar.gz"]), "Copy"),
        "/a/x (Copy 1).tar.gz"
    );
}

#[test]
fn archives_extract_into_a_folder_named_after_them() {
    assert_eq!(get_directory_name("photos.tar.gz"), "photos");
    assert_eq!(get_directory_name("notes.zip"), "notes");
    assert_eq!(get_directory_name("plain"), "plain");
    assert_eq!(extract_destination("a.zip", "/out", false, &vec![], "Copy"), "/out/a");
    assert_eq!(extract_destination("a.zip", "/out", true, &names(&["a"]), "Copy"), "/out/a (Copy 1)");
}

#[test]
fn stopped_operations_mark_their_controller() {
    let mut c = Controller::new();
    let e = OperationError::from_state(ControllerState::Failed, &mut c, "failed".into(), "cancelled".into());
    assert_eq!(e.message(), "failed");
    assert!(c.is_failed());
    let mut c = Controller::new();
    let e = OperationError::from_state(ControllerState::Paused, &mut c, "failed".into(), "cancelled".into());
    assert_eq!(e.message(), "cancelled");
    assert!(c.is_cancelled());
    let mut c = Controller::new();
    let e = OperationError::from_err("disk full".into(), &mut c);
    assert_eq!(e.message(), "disk full");
    assert!(c.is_failed());
    let mut c = Controller::new();
    let e = OperationError::from_kind(OperationErrorType::PasswordRequired, &mut c);
    assert_eq!(e.message(), "Password required");
    assert!(c.is_failed());
}

#[test]
fn conflicts_are_answered_to_the_copy_engine() {
    assert_eq!(transit_answer(ReplaceResult::Replace(true)), TransitAnswer::OverwriteAll);
    assert_eq!(transit_answer(ReplaceResult::Replace(false)), TransitAnswer::Overwrite);
    assert_eq!(transit_answer(ReplaceResult::Skip(true)), TransitAnswer::SkipAll);
    assert_eq!(transit_answer(ReplaceResult::Skip(false)), TransitAnswer::Skip);
    assert_eq!(transit_answer(ReplaceResult::KeepBoth), TransitAnswer::Abort);
    assert_eq!(transit_answer(ReplaceResult::Cancel), TransitAnswer::Abort);
    assert_eq!(
        progress_step(TransitState::Normal, None, None),
        ProgressStep::Answer(TransitAnswer::ContinueOrAbort)
    );
    assert_eq!(
        progress_step(TransitState::Exists, Some("/a/f"), Some("/a/f")),
        ProgressStep::Answer(TransitAnswer::Abort)
    );
    assert_eq!(progress_step(TransitState::Exists, Some("/a/f"), None), ProgressStep::Answer(TransitAnswer::Abort));
    assert_eq!(
        progress_step(TransitState::Exists, Some("/a/f"), Some("/b/f")),
        ProgressStep::AskReplace { from: "/a/f".into(), to: "/b/f".into() }
    );
}

#[test]
fn operation_texts() {
    let op = Operation::Copy { paths: names(&["/a/x", "/a/y"]), to: "/b".into() };
    let t = op.pending_text(40, ControllerState::Paused);
    assert_eq!(t.key, TextKey::Copying);
    assert_eq!(
        t.args,
        vec![
            TextArg::Items(2),
            TextArg::From(FolderName::Named("a".into())),
            TextArg::To(FolderName::Named("b".into())),
            TextArg::Progress(ControllerState::Paused, 40),
        ]
    );
    assert_eq!(op.completed_text().key, TextKey::Copied);
    assert!(op.show_progress_notification());
    assert!(!Operation::NewFolder { path: "/a/n".into() }.show_progress_notification());
    let mixed = Operation::Delete { paths: names(&["/a/x", "/c/y"]) };
    assert_eq!(mixed.pending_text(0, ControllerState::Running).args[1], TextArg::From(FolderName::Unknown));
}

#[test]
fn planning_a_move_adds_cleanups_run_in_reverse() {
    let entries = vec![
        WalkEntry { path: "/a/d".into(), file_type: EntryType::Dir },
        WalkEntry { path: "/a/d/f".into(), file_type: EntryType::File },
        WalkEntry { path: "/a/d/l".into(), file_type: EntryType::Symlink("f".into()) },
    ];
    let (ops, cleanups) = plan_entries("/a/d", "/b/d", &entries, true, 10).unwrap();
    let kinds: Vec<OpKind> = ops.iter().map(|o| o.kind.clone()).collect();
    assert_eq!(kinds, vec![OpKind::Mkdir, OpKind::Move, OpKind::Symlink { target: "f".into() }]);
    let tos: Vec<&str> = ops.iter().map(|o| o.to.as_str()).collect();
    assert_eq!(tos, vec!["/b/d", "/b/d/f", "/b/d/l"]);
    assert_eq!(ops[2].origin, 12);
    let all = finish_plan(ops, cleanups);
    let kinds: Vec<OpKind> = all.iter().map(|o| o.kind.clone()).collect();
    assert_eq!(
        kinds,
        vec![
            OpKind::Mkdir,
            OpKind::Move,
            OpKind::Symlink { target: "f".into() },
            OpKind::Remove,
            OpKind::Remove,
            OpKind::Rmdir
        ]
    );
    let (ops, cleanups) = plan_entries("/a/d", "/b/d", &entries, false, 0).unwrap();
    assert_eq!(ops[1].kind, OpKind::Copy);
    assert!(cleanups.is_empty());
}

#[test]
fn planning_stops_at_unknown_entries() {
    let entries = vec![
        WalkEntry { path: "/a/d/f".into(), file_type: EntryType::File },
        WalkEntry { path: "/a/d/p".into(), file_type: EntryType::Other },
    ];
    assert!(matches!(plan_entries("/a/d", "/b", &entries, false, 0), Err(PlanError::UnknownFileType(p)) if p == "/a/d/p"));
    let outside = vec![WalkEntry { path: "/z/f".into(), file_type: EntryType::File }];
    assert!(matches!(plan_entries("/a/d", "/b", &outside, false, 0), Err(PlanError::NotUnderParent { .. })));
}

#[test]
fn answers_for_all_are_remembered() {
    let mut remembered = None;
    assert_eq!(resolve_replace(&mut remembered, ReplaceResult::Skip(false)), ReplaceResult::Skip(false));
    assert_eq!(remembered, None);
    assert_eq!(resolve_replace(&mut remembered, ReplaceResult::Replace(true)), ReplaceResult::Replace(true));
    assert_eq!(remembered, Some(ReplaceResult::Replace(true)));
    assert_eq!(resolve_replace(&mut remembered, ReplaceResult::Cancel), ReplaceResult::Replace(true));
    assert!(should_walk("/a", "/b"));
    assert!(!should_walk("/a", "/a/"));
}

#[test]
fn completed_top_level_items_are_selected() {
    let mut sel = OperationSelection { ignored: names(&["/a/x"]), selected: vec![] };
    let op = Op { kind: OpKind::Copy, from: "/a/x".into(), to: "/b/x".into(), origin: 0 };
    record_completed(&mut sel, &op);
    assert_eq!(sel.selected, names(&["/b/x"]));
    let inner = Op { kind: OpKind::Copy, from: "/a/x/y".into(), to: "/b/x/y".into(), origin: 1 };
    record_completed(&mut sel, &inner);
    assert_eq!(sel.selected, names(&["/b/x"]));
}

#[test]
fn files_being_written_are_tracked() {
    let mut n = FileWritingNotifier::new();
    assert!(!actively_writing_tick(&n));
    actively_writing_add(&mut n, "/a/f".into());
    actively_writing_add(&mut n, "/a/g".into());
    assert!(actively_writing_tick(&n));
    assert!(is_actively_writing_to(&n, "/a/f"));
    actively_writing_remove(&mut n, "/a/f");
    assert!(!is_actively_writing_to(&n, "/a/f"));
    assert!(is_actively_writing_to(&n, "/a/g"));
    actively_writing_remove(&mut n, "/a/g");
    assert!(!actively_writing_tick(&n));
}

#[test]
fn each_step_checks_the_controller_first() {
    let mut c = Controller::new();
    assert!(matches!(check_before_step(&mut c, "failed".into(), "cancelled".into()), Some(Ok(()))));
    c.pause();
    assert!(check_before_step(&mut c, "failed".into(), "cancelled".into()).is_none());
    assert!(c.is_paused());
    c.cancel();
    match check_before_step(&mut c, "failed".into(), "cancelled".into()) {
        Some(Err(e)) => assert_eq!(e.message(), "cancelled"),
        _ => panic!("a cancelled operation stops"),
    }
    c.set_state(ControllerState::Failed);
    match check_before_step(&mut c, "failed".into(), "cancelled".into()) {
        Some(Err(e)) => assert_eq!(e.message(), "failed"),
        _ => panic!("a failed operation stops"),
    }
    assert!(c.is_failed());
}

#[test]
fn planning_errors_name_the_entry() {
    let entries = vec![WalkEntry { path: "/a/d/p".into(), file_type: EntryType::Other }];
    match plan_entries("/a/d", "/b", &entries, false, 0) {
        Err(PlanError::UnknownFileType(p)) => assert_eq!(p, "/a/d/p"),
        _ => panic!("expected an unknown file type"),
    }
    let outside = vec![WalkEntry { path: "/z/f".into(), file_type: EntryType::File }];
    match plan_entries("/a/d", "/b", &outside, false, 0) {
        Err(PlanError::NotUnderParent { parent, path }) => {
            assert_eq!(parent, "/a/d");
            assert_eq!(path, "/z/f");
        }
        _ => panic!("expected an entry outside the parent"),
    }
}

#[test]
fn conflicts_decide_the_next_step() {
    let op = Op { kind: OpKind::Copy, from: "/a/x.txt".into(), to: "/b/x.txt".into(), origin: 0 };
    let existing = names(&["x.txt"]);
    let mut remembered = None;
    assert_eq!(
        replace_step(&mut remembered, ReplaceResult::KeepBoth, &op, false, &existing, "Copy"),
        ReplaceStep::Redirect("/b/x (Copy 1).txt".into())
    );
    assert_eq!(
        replace_step(&mut remembered, ReplaceResult::Replace(false), &op, false, &existing, "Copy"),
        ReplaceStep::Overwrite("/b/x.txt".into())
    );
    assert_eq!(remembered, None);
    assert_eq!(replace_step(&mut remembered, ReplaceResult::Skip(true), &op, false, &existing, "Copy"), ReplaceStep::Skip);
    // The remembered answer wins over a later one.
    assert_eq!(replace_step(&mut remembered, ReplaceResult::Cancel, &op, false, &existing, "Copy"), ReplaceStep::Skip);
    let mut fresh = None;
    assert_eq!(replace_step(&mut fresh, ReplaceResult::Cancel, &op, false, &existing, "Copy"), ReplaceStep::Stop);
    let root = Op { kind: OpKind::Copy, from: "/x".into(), to: "/".into(), origin: 0 };
    assert_eq!(replace_step(&mut fresh, ReplaceResult::KeepBoth, &root, false, &existing, "Copy"), ReplaceStep::NoParent);
}

#[test]
fn items_copied_or_moved_go_into_the_target_folder() {
    let existing = names(&["foo.txt"]);
    assert_eq!(copy_destination("/fs/foo.txt", "/fs", true, false, &existing, "Copy"), Some("/fs/foo (Copy 1).txt".to_string()));
    assert_eq!(copy_destination("/fs/foo.txt", "/fs/", true, false, &existing, "Copy"), Some("/fs/foo (Copy 1).txt".to_string()));
    assert_eq!(copy_destination("/a/foo.txt", "/b", true, false, &existing, "Copy"), Some("/b/foo.txt".to_string()));
    assert_eq!(copy_destination("/fs/foo.txt", "/fs", false, false, &existing, "Copy"), Some("/fs/foo.txt".to_string()));
    assert_eq!(copy_destination("/", "/b", true, true, &existing, "Copy"), None);
}
