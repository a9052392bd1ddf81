use lynxrdp_client::profiles::{
    aside_name, config_dir, is_false, reserve_aside, size_string, temp_path, ConfigEnv, Created,
    Platform, Profile, Profiles, Reserve, FILE_NAME, MAX_ASIDE, MAX_FIELD, MAX_PROFILES,
};

fn sample() -> Profile {
    let mut p = Profile::new("workstation");
    p.host = "10.0.0.5".into();
    p.user = "alice".into();
    p
}

// ---- Profile ------------------------------------------------------

#[test]
fn a_new_profile_has_the_conveniences_switched_on() {
    // Default would give false for both, which is the wrong starting
    // point for a form: these are opt-out features.
    let p = Profile::new("x");
    assert!(p.dynamic_resize);
    assert!(p.clipboard);
}

#[test]
fn destination_joins_user_and_host() {
    assert_eq!(sample().destination(), "alice@10.0.0.5");
    let mut p = sample();
    p.user.clear();
    assert_eq!(p.destination(), "10.0.0.5");
}

#[test]
fn a_plain_profile_produces_just_a_destination() {
    // Everything else is a default, so nothing else should be passed.
    assert_eq!(sample().args(), vec!["alice@10.0.0.5"]);
}

#[test]
fn every_setting_reaches_the_command_line() {
    let mut p = sample();
    p.ssh_port = Some(2222);
    p.identity = Some("/k/id".into());
    p.ssh_options = vec![
        "ProxyJump=bastion".into(),
        "StrictHostKeyChecking=yes".into(),
    ];
    p.remote_port = Some(3391);
    p.size = Some((1920, 1080));
    p.fullscreen = true;
    p.dynamic_resize = false;
    p.clipboard = false;
    let args = p.args();
    assert_eq!(args[0], "alice@10.0.0.5");
    assert!(args.windows(2).any(|w| w == ["--port", "2222"]));
    assert!(args.windows(2).any(|w| w == ["--identity", "/k/id"]));
    assert!(args
        .windows(2)
        .any(|w| w == ["--ssh-option", "ProxyJump=bastion"]));
    assert!(args
        .windows(2)
        .any(|w| w == ["--ssh-option", "StrictHostKeyChecking=yes"]));
    assert!(args.windows(2).any(|w| w == ["--remote-port", "3391"]));
    assert!(args.windows(2).any(|w| w == ["--size", "1920x1080"]));
    assert!(args.iter().any(|a| a == "--fullscreen"));
    assert!(args.iter().any(|a| a == "--no-dynamic-resize"));
    assert!(args.iter().any(|a| a == "--no-clipboard"));
}

#[test]
fn the_opt_out_flags_are_absent_when_the_feature_is_on() {
    let p = sample();
    let args = p.args();
    assert!(!args.iter().any(|a| a == "--no-dynamic-resize"));
    assert!(!args.iter().any(|a| a == "--no-clipboard"));
    assert!(!args.iter().any(|a| a == "--fullscreen"));
}

#[test]
fn arguments_are_separate_so_odd_values_cannot_split() {
    // Passed to the process directly, never through a shell, so a value
    // with a space stays one argument.
    let mut p = sample();
    p.identity = Some("/home/a b/id key".into());
    let args = p.args();
    let index = args.iter().position(|a| a == "--identity").unwrap();
    assert_eq!(args[index + 1], "/home/a b/id key");
}

#[test]
fn a_good_profile_has_no_problem() {
    assert_eq!(sample().problem(), None);
}

#[test]
fn a_name_and_host_are_required() {
    let mut p = sample();
    p.name = "  ".into();
    assert!(p.problem().unwrap().contains("name"));

    let mut p = sample();
    p.host = "".into();
    assert!(p.problem().unwrap().contains("host"));
}

#[test]
fn a_host_that_would_confuse_ssh_is_refused() {
    // These would become extra arguments or be split when they reach ssh.
    for host in ["two words", "-oProxyCommand=evil", "a\tb"] {
        let mut p = sample();
        p.host = host.into();
        assert!(p.problem().is_some(), "{host:?} should be refused");
    }
    let mut p = sample();
    p.user = "-oX=1".into();
    assert!(p.problem().is_some());
    let mut p = sample();
    p.user = "bob@elsewhere".into();
    assert!(p.problem().is_some());
}

#[test]
fn zero_ports_and_sizes_are_refused() {
    let mut p = sample();
    p.ssh_port = Some(0);
    assert!(p.problem().is_some());
    let mut p = sample();
    p.remote_port = Some(0);
    assert!(p.problem().is_some());
    let mut p = sample();
    p.size = Some((0, 1080));
    assert!(p.problem().is_some());
}

#[test]
fn ssh_options_must_look_like_options() {
    let mut p = sample();
    p.ssh_options = vec!["not an option".into()];
    let problem = p.problem().unwrap();
    assert!(problem.contains("Key=value"));
    // The option is quoted, so that a stray space in it can be seen.
    assert!(problem.contains("\"not an option\""), "{problem}");
    let mut p = sample();
    p.ssh_options = vec!["  ".into()];
    assert!(p.problem().unwrap().contains("blank"));
}

#[test]
fn overlong_fields_are_refused() {
    let mut p = sample();
    p.name = "n".repeat(MAX_FIELD + 1);
    assert!(p.problem().is_some());
    let mut p = sample();
    p.host = "h".repeat(MAX_FIELD + 1);
    assert!(p.problem().is_some());
}

// ---- Profiles -----------------------------------------------------

#[test]
fn an_absurd_number_of_connections_is_refused() {
    let many = |n: usize| -> Vec<Profile> {
        (0..n).map(|i| Profile::new(&format!("n{i}"))).collect()
    };
    assert!(Profiles::from_items(many(MAX_PROFILES + 1)).is_err());
    assert_eq!(
        Profiles::from_items(many(MAX_PROFILES)).unwrap().items.len(),
        MAX_PROFILES
    );
}

#[test]
fn the_staging_file_is_unique_to_this_process() {
    // A shared "connections.toml.new" is what lets two launcher windows
    // interleave their saves into one file.
    let path = "/cfg/connections.toml";
    let temporary = temp_path(path, 4711);
    assert_ne!(temporary, "/cfg/connections.toml.new");
    assert!(temporary.contains("4711"));
    assert_eq!(temporary, "/cfg/connections.toml.4711.new");
    assert_ne!(temporary, temp_path(path, 4712));
}

#[test]
fn a_bad_file_is_moved_to_the_first_free_name() {
    let path = "/cfg/connections.toml";
    assert_eq!(reserve_aside(1, Created::New), Reserve::Use);
    assert_eq!(aside_name(path, 1), "/cfg/connections.toml.bad");
    // The second one must not overwrite the first: each is the only copy
    // of whatever connections it holds.
    assert_eq!(reserve_aside(1, Created::Taken), Reserve::Next);
    assert_eq!(aside_name(path, 2), "/cfg/connections.toml.bad.2");
    assert_eq!(reserve_aside(2, Created::Failed), Reserve::Broken);
}

#[test]
fn a_hundred_bad_files_is_where_it_stops() {
    // The loop has to end somewhere, and the end has to be an error
    // rather than a silent reuse of the last name.
    assert_eq!(MAX_ASIDE, 100);
    for n in 1..MAX_ASIDE {
        assert_eq!(reserve_aside(n, Created::Taken), Reserve::Next);
    }
    assert_eq!(reserve_aside(MAX_ASIDE, Created::Taken), Reserve::Full);
}

#[test]
fn a_name_in_use_is_reported_except_for_the_profile_being_edited() {
    let mut store = Profiles::default();
    store.upsert(Profile::new("work"));
    store.upsert(Profile::new("home"));

    // Adding: any existing name is taken.
    assert!(store.name_taken("work", None));
    assert!(!store.name_taken("lab", None));
    // Editing "work" and leaving the name alone is not a clash.
    assert!(!store.name_taken("work", Some("work")));
    // Renaming "work" onto "home" is: upsert would merge the two.
    assert!(store.name_taken("home", Some("work")));
    assert!(!store.name_taken("lab", Some("work")));
}

#[test]
fn upsert_replaces_by_name_rather_than_duplicating() {
    let mut store = Profiles::default();
    assert!(!store.upsert(sample()));
    let mut changed = sample();
    changed.host = "10.0.0.9".into();
    assert!(store.upsert(changed));
    assert_eq!(store.items.len(), 1);
    assert_eq!(store.items[0].host, "10.0.0.9");
}

#[test]
fn upsert_keeps_the_order_of_an_edited_entry() {
    // An edit must not make a row jump to the bottom of the list.
    let mut store = Profiles::default();
    store.upsert(Profile::new("a"));
    store.upsert(Profile::new("b"));
    store.upsert(Profile::new("c"));
    let mut edited = Profile::new("b");
    edited.host = "changed".into();
    store.upsert(edited);
    let names: Vec<_> = store.items.iter().map(|p| p.name.clone()).collect();
    assert_eq!(names, vec!["a", "b", "c"]);
    assert_eq!(store.items[1].host, "changed");
}

#[test]
fn remove_reports_whether_it_did_anything() {
    let mut store = Profiles::default();
    store.upsert(sample());
    assert!(store.remove("workstation"));
    assert!(!store.remove("workstation"));
    assert!(store.items.is_empty());
}

#[test]
fn unique_name_avoids_collisions() {
    let mut store = Profiles::default();
    assert_eq!(store.unique_name("New connection"), "New connection");
    store.upsert(Profile::new("New connection"));
    assert_eq!(store.unique_name("New connection"), "New connection 2");
    store.upsert(Profile::new("New connection 2"));
    assert_eq!(store.unique_name("New connection"), "New connection 3");
}

#[test]
fn unique_name_is_free_however_many_there_are() {
    // One gap past the end of a list longer than a file may hold: numbering by
    // the length would land on a name that is taken.
    let mut store = Profiles::default();
    store.upsert(Profile::new("b"));
    for n in 2..=501 {
        store.upsert(Profile::new(&format!("b {n}")));
    }
    store.upsert(Profile::new("b 503"));
    assert_eq!(store.items.len(), 502);
    let name = store.unique_name("b");
    assert_eq!(name, "b 502");
    assert_eq!(store.position(&name), None);
    store.upsert(Profile::new(&name));
    assert_eq!(store.unique_name("b"), "b 504");
}

#[test]
fn unique_name_handles_a_blank_base() {
    let store = Profiles::default();
    assert_eq!(store.unique_name("   "), "New connection");
}

const BARE: ConfigEnv = ConfigEnv {
    platform: Platform::Unix,
    lynxrdp: None,
    xdg: None,
    home: None,
    appdata: None,
};

#[test]
fn the_config_directory_can_be_overridden() {
    // The override is what a portable install would use.
    for platform in [Platform::Unix, Platform::MacOs, Platform::Windows] {
        let env = ConfigEnv {
            platform,
            lynxrdp: Some("/portable".into()),
            home: Some("/home/alice".into()),
            ..BARE
        };
        assert_eq!(config_dir(&env), Some("/portable".to_string()));
    }
    let env = ConfigEnv {
        lynxrdp: Some("/portable".into()),
        ..BARE
    };
    assert_eq!(
        Profiles::default_path(&env),
        Ok(format!("/portable/{FILE_NAME}"))
    );
}

#[test]
fn each_platform_has_its_own_place_for_configuration() {
    let home = Some("/home/alice".to_string());
    assert_eq!(
        config_dir(&ConfigEnv {
            home: home.clone(),
            ..BARE
        }),
        Some("/home/alice/.config/lynxrdp".to_string())
    );
    assert_eq!(
        config_dir(&ConfigEnv {
            xdg: Some("/cfg/".into()),
            home: home.clone(),
            ..BARE
        }),
        Some("/cfg/lynxrdp".to_string())
    );
    assert_eq!(
        config_dir(&ConfigEnv {
            platform: Platform::MacOs,
            home,
            ..BARE
        }),
        Some("/home/alice/Library/Application Support/LynxRDP".to_string())
    );
    assert_eq!(
        config_dir(&ConfigEnv {
            platform: Platform::Windows,
            appdata: Some(r"C:\Users\alice".into()),
            ..BARE
        }),
        Some(r"C:\Users\alice\LynxRDP".to_string())
    );
    // A bare drive is no directory to part the name from, and a slash is part
    // of a name in a path that is taken as it is written.
    for (base, dir) in [
        ("C:", "C:LynxRDP"),
        (r"C:\", r"C:\LynxRDP"),
        ("C:/cfg/", "C:/cfg/LynxRDP"),
        ("1:", r"1:\LynxRDP"),
        (r"\\?\C:", r"\\?\C:\LynxRDP"),
        (r"\\?\C:\x/", r"\\?\C:\x/\LynxRDP"),
    ] {
        assert_eq!(
            config_dir(&ConfigEnv {
                platform: Platform::Windows,
                appdata: Some(base.into()),
                ..BARE
            }),
            Some(dir.to_string())
        );
    }
    assert_eq!(config_dir(&BARE), None);
    assert!(Profiles::default_path(&BARE).is_err());
}

#[test]
fn sizes_are_written_as_they_are_read() {
    assert_eq!(size_string((800, 600)), "800x600");
    assert!(is_false(&false));
    assert!(!is_false(&true));
}
