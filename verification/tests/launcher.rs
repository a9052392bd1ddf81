use lynxrdp_client::launcher::{parse_port, parse_size, Editor, Effect, Launcher, ListEvent, Screen};
use lynxrdp_client::profiles::{Profile, Profiles};

#[test]
fn ports_parse_or_explain() {
    assert_eq!(parse_port("", "SSH port"), Ok(None));
    assert_eq!(parse_port("  ", "SSH port"), Ok(None));
    assert_eq!(parse_port("2222", "SSH port"), Ok(Some(2222)));
    assert!(parse_port("0", "SSH port").is_err());
    assert!(parse_port("70000", "SSH port").is_err());
    assert!(parse_port("nope", "SSH port").is_err());
    // The message names the field so the user knows which one to fix.
    assert!(parse_port("x", "LynxRDP port")
        .unwrap_err()
        .contains("LynxRDP port"));
}

#[test]
fn sizes_parse_or_explain() {
    assert_eq!(parse_size(""), Ok(None));
    assert_eq!(parse_size("1920x1080"), Ok(Some((1920, 1080))));
    assert_eq!(parse_size(" 1280 X 720 "), Ok(Some((1280, 720))));
    assert!(parse_size("1920").is_err());
    assert!(parse_size("0x1080").is_err());
    assert!(parse_size("axb").is_err());
    assert!(parse_size("1920x").is_err());
}

fn editor_with(profile: Profile) -> Editor {
    Editor::new(profile, None)
}

#[test]
fn an_editor_starts_from_the_profile() {
    let mut p = Profile::new("w");
    p.host = "h".into();
    p.ssh_port = Some(2222);
    p.size = Some((800, 600));
    p.ssh_options = vec!["A=1".into(), "B=2".into()];
    p.identity = Some("/k/id".into());
    let e = editor_with(p);
    assert_eq!(e.ssh_port, "2222");
    assert_eq!(e.size, "800x600");
    assert_eq!(e.ssh_options, "A=1\nB=2");
    assert_eq!(e.identity, "/k/id");
}

#[test]
fn unset_optional_fields_start_blank() {
    // Blank means "use the default", so these must not read as "0".
    let e = editor_with(Profile::new("w"));
    assert!(e.ssh_port.is_empty());
    assert!(e.remote_port.is_empty());
    assert!(e.size.is_empty());
    assert!(e.identity.is_empty());
    assert!(e.ssh_options.is_empty());
}

#[test]
fn collect_folds_the_text_fields_back_in() {
    let mut p = Profile::new("  spaced  ");
    p.host = "  host  ".into();
    p.user = " alice ".into();
    let mut e = editor_with(p);
    e.ssh_port = "2222".into();
    e.size = "1024x768".into();
    e.ssh_options = "A=1\n\n  B=2  \n".into();
    e.identity = " /k/id ".into();
    let out = e.collect().unwrap();
    // Surrounding whitespace would otherwise reach ssh.
    assert_eq!(out.name, "spaced");
    assert_eq!(out.host, "host");
    assert_eq!(out.user, "alice");
    assert_eq!(out.ssh_port, Some(2222));
    assert_eq!(out.size, Some((1024, 768)));
    assert_eq!(out.ssh_options, vec!["A=1", "B=2"]);
    assert_eq!(out.identity, Some("/k/id".to_string()));
}

#[test]
fn collect_reports_the_first_problem() {
    let mut e = editor_with(Profile::new("w"));
    // No host yet.
    assert!(e.collect().unwrap_err().contains("host"));
    e.profile.host = "h".into();
    e.ssh_port = "abc".into();
    assert!(e.collect().unwrap_err().contains("SSH port"));
    e.ssh_port.clear();
    e.size = "wide".into();
    assert!(e.collect().unwrap_err().contains("1920x1080"));
}

#[test]
fn blank_option_lines_are_dropped_rather_than_refused() {
    // Typing a trailing newline in the box is normal and must not be an
    // error, even though a blank option would be.
    let mut p = Profile::new("w");
    p.host = "h".into();
    let mut e = editor_with(p);
    e.ssh_options = "A=1\n\n\n".into();
    assert_eq!(e.collect().unwrap().ssh_options, vec!["A=1"]);
}

const PATH: &str = "/home/alice/connections.toml";

fn launcher_on(loaded: Result<Vec<Profile>, &str>) -> Launcher {
    let loaded = match loaded {
        Ok(items) => Profiles::from_items(items),
        Err(why) => Err(why.to_string()),
    };
    Launcher::new(PATH.to_string(), loaded)
}

fn named(name: &str, host: &str) -> Profile {
    let mut p = Profile::new(name);
    p.host = host.into();
    p
}

const BROKEN: &str = "this is not toml at all";

#[test]
fn an_unreadable_file_puts_the_launcher_in_a_read_only_state() {
    let launcher = launcher_on(Err(BROKEN));
    assert!(launcher.load_failed);
    assert!(launcher.error.is_some());
    assert!(launcher.store.items.is_empty());
    assert!(!launcher.can_add());
}

#[test]
fn a_readable_file_does_not() {
    let launcher = launcher_on(Ok(vec![named("a", "h")]));
    assert!(!launcher.load_failed);
    assert_eq!(launcher.store.items.len(), 1);
    assert_eq!(launcher.selected, Some(0));
    // A missing file is the state before the first save, not a failure.
    let launcher = launcher_on(Ok(Vec::new()));
    assert!(!launcher.load_failed);
    assert_eq!(launcher.selected, None);
}

#[test]
fn a_save_over_an_unreadable_file_is_refused() {
    // What this guards: New -> Save replacing a file full of connections with
    // the single one just typed.
    let mut launcher = launcher_on(Err(BROKEN));
    launcher.store.upsert(named("new one", "h"));
    launcher.status = "Saved new one".into();
    assert_eq!(launcher.save(), Effect::Nothing);
    // And it must not still be claiming to have saved.
    assert!(launcher.status.is_empty());
    assert!(launcher.error.unwrap().contains("Not saving"));
}

#[test]
fn moving_the_bad_file_aside_makes_the_launcher_writable_again() {
    let mut launcher = launcher_on(Err(BROKEN));
    assert_eq!(launcher.list_event(ListEvent::MoveAside), Effect::MoveAside);
    launcher.move_bad_file_aside(Ok("/home/alice/connections.toml.bad".to_string()));
    assert!(!launcher.load_failed);
    assert!(launcher.error.is_none());
    assert_eq!(
        launcher.status,
        "Moved the unreadable file to /home/alice/connections.toml.bad"
    );

    launcher.store.upsert(named("new one", "h"));
    assert_eq!(launcher.save(), Effect::Save);
    assert!(launcher.error.is_none(), "{:?}", launcher.error);
}

/// Put `launcher` in the editor, as though `original` had been opened.
fn editing(launcher: &mut Launcher, profile: Profile, original: Option<&str>) {
    launcher.view = Screen::Edit(Box::new(Editor::new(profile, original.map(str::to_string))));
}

#[test]
fn an_untouched_edit_keeps_the_connection() {
    let mut p = named("w", "h");
    p.user = "alice".into();
    p.ssh_port = Some(2222);
    p.remote_port = Some(3389);
    p.size = Some((800, 600));
    p.ssh_options = vec!["A=1".into(), "B=2".into()];
    p.identity = Some("/k/id".into());
    let mut launcher = launcher_on(Ok(vec![p.clone()]));
    assert_eq!(launcher.list_event(ListEvent::Edit), Effect::Nothing);
    match &launcher.view {
        Screen::Edit(e) => {
            assert_eq!(e.original.as_deref(), Some("w"));
            assert_eq!(e.ssh_port, "2222");
            assert_eq!(e.remote_port, "3389");
            assert_eq!(e.size, "800x600");
            assert_eq!(e.ssh_options, "A=1\nB=2");
            assert_eq!(e.identity, "/k/id");
            assert_eq!(e.collect().as_ref(), Ok(&p));
        }
        Screen::List => panic!("the editor did not open"),
    }
    assert_eq!(launcher.save_editor(), Effect::Save);
    assert_eq!(launcher.store.items, vec![p]);
}

#[test]
fn a_new_connection_starts_with_blank_fields_and_a_free_name() {
    let mut launcher = launcher_on(Ok(vec![named("New connection", "h")]));
    assert_eq!(launcher.list_event(ListEvent::New), Effect::Nothing);
    match &launcher.view {
        Screen::Edit(e) => {
            assert_eq!(e.original, None);
            assert_eq!(e.profile.name, "New connection 2");
            assert!(e.ssh_port.is_empty() && e.remote_port.is_empty());
            assert!(e.identity.is_empty() && e.size.is_empty() && e.ssh_options.is_empty());
        }
        Screen::List => panic!("the editor did not open"),
    }
}

#[test]
fn renaming_onto_another_connection_is_refused_rather_than_merging() {
    let mut launcher = launcher_on(Ok(Vec::new()));
    launcher.store.upsert(named("work", "work.example"));
    launcher.store.upsert(named("home", "home.example"));

    let mut renamed = named("home", "work.example");
    renamed.user = "alice".into();
    editing(&mut launcher, renamed, Some("work"));
    assert_eq!(launcher.save_editor(), Effect::Nothing);

    assert!(launcher.error.unwrap().contains("already"));
    // Both survive, with their own hosts, and the editor stays open so
    // the name can be corrected.
    assert_eq!(launcher.store.items.len(), 2);
    assert_eq!(launcher.store.items[1].host, "home.example");
    assert!(matches!(launcher.view, Screen::Edit(_)));
    assert!(!launcher.status.contains("Saved"));
}

#[test]
fn a_new_connection_may_not_take_a_name_in_use() {
    let mut launcher = launcher_on(Ok(Vec::new()));
    launcher.store.upsert(named("work", "work.example"));
    editing(&mut launcher, named("work", "somewhere.else"), None);
    launcher.save_editor();
    assert_eq!(
        launcher.error.as_deref(),
        Some(
            "There is already a connection called \"work\". Names have to be unique, so choose another."
        )
    );
    assert_eq!(launcher.store.items.len(), 1);
    assert_eq!(launcher.store.items[0].host, "work.example");
}

#[test]
fn saving_a_connection_under_its_own_name_still_works() {
    // The exclusion the check needs: an edit that leaves the name alone
    // is the common case and must not be mistaken for a clash.
    let mut launcher = launcher_on(Ok(Vec::new()));
    launcher.store.upsert(named("work", "old.example"));
    editing(&mut launcher, named("work", "new.example"), Some("work"));
    assert_eq!(launcher.save_editor(), Effect::Save);
    assert!(launcher.error.is_none(), "{:?}", launcher.error);
    assert_eq!(launcher.store.items.len(), 1);
    assert_eq!(launcher.store.items[0].host, "new.example");
    assert_eq!(launcher.status, "Saved work");
}

#[test]
fn a_rename_to_a_free_name_still_moves_the_entry() {
    let mut launcher = launcher_on(Ok(Vec::new()));
    launcher.store.upsert(named("work", "work.example"));
    editing(&mut launcher, named("office", "work.example"), Some("work"));
    launcher.save_editor();
    assert!(launcher.error.is_none(), "{:?}", launcher.error);
    let names: Vec<_> = launcher.store.items.iter().map(|p| &p.name).collect();
    assert_eq!(names, vec!["office"]);
    assert_eq!(launcher.selected, Some(0));
}

#[test]
fn a_session_that_exits_badly_is_reported() {
    let mut launcher = launcher_on(Ok(Vec::new()));
    launcher.status = "Connecting to work".into();
    launcher.drain_failures(&vec![
        "work (example.org) ended -- exit code 127".to_string()
    ]);
    let error = launcher.error.expect("a failed session was not reported");
    assert!(error.contains("work (example.org)"), "{error}");
    assert!(error.contains("ended"), "{error}");
    assert!(launcher.status.is_empty());
}

#[test]
fn several_sessions_failing_at_once_are_all_accounted_for() {
    // One assignment per failure would leave only the last on the status line
    // and lose the rest silently.
    let mut launcher = launcher_on(Ok(Vec::new()));
    launcher.drain_failures(&vec![
        "work (example.org) ended -- exit code 127".to_string(),
        "lab (example.org) ended -- exit code 127".to_string(),
    ]);
    let error = launcher.error.clone().expect("nothing was reported");
    assert!(error.contains("(example.org) ended"), "{error}");
    assert!(error.contains("one other session"), "{error}");
    launcher.drain_failures(&vec!["a".to_string(), "b".to_string(), "c".to_string()]);
    assert_eq!(
        launcher.error.as_deref(),
        Some("c\n(2 other sessions failed as well)")
    );
    // Nothing to report leaves what is shown alone.
    launcher.drain_failures(&Vec::new());
    assert_eq!(launcher.message().1, true);
}

#[test]
fn a_delete_takes_two_clicks_on_one_row() {
    let mut launcher = launcher_on(Ok(vec![named("a", "h"), named("b", "h")]));
    assert_eq!(launcher.list_event(ListEvent::Delete), Effect::Nothing);
    assert!(launcher.confirming());
    // Choosing another row takes the question back.
    launcher.list_event(ListEvent::Select(1));
    assert!(!launcher.confirming());
    launcher.list_event(ListEvent::Delete);
    assert_eq!(launcher.store.items.len(), 2);
    assert_eq!(launcher.list_event(ListEvent::Delete), Effect::Save);
    assert_eq!(launcher.store.items.len(), 1);
    assert_eq!(launcher.store.items[0].name, "a");
}

#[test]
fn connecting_checks_the_profile_first() {
    let mut launcher = launcher_on(Ok(vec![named("a", "h"), named("b", "")]));
    assert_eq!(launcher.connect(0), Effect::Start(0));
    assert_eq!(launcher.connect(1), Effect::Nothing);
    assert!(launcher.error.as_deref().unwrap().starts_with("b cannot be used: "));
    assert_eq!(launcher.connect(2), Effect::Nothing);
}
