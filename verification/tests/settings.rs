use lynxrdp_client::profiles::Platform;
use lynxrdp_client::settings::{
    salvage_check, FileRead, LoadError, Settings, ThemeChoice, Updates,
};

fn parse(text: &str) -> Result<Settings, LoadError> {
    Settings::parse(text, Ok(None), None)
}

fn load(text: &str, theme: Result<Option<ThemeChoice>, String>) -> Result<Settings, LoadError> {
    Settings::load(
        "/cfg/settings.toml",
        FileRead::Text(text.to_string(), theme, None),
    )
}

#[test]
fn preferences_survive_a_restart() {
    let settings = Settings {
        theme: ThemeChoice::Light,
        compact_rows: true,
        show_command_line: true,
        updates: Updates {
            check: false,
            prereleases: Some(true),
            last_check: Some(1_757_000_000),
        },
    };
    let file = "theme = \"light\"\ncompact_rows = true\nshow_command_line = true\nzoom = 1.5\n\n\
                [updates]\ncheck = false\nprereleases = true\nlast_check = 1757000000\n";
    assert_eq!(load(file, Ok(Some(ThemeChoice::Light))), Ok(settings));
}

#[test]
fn a_missing_file_is_the_defaults() {
    assert_eq!(
        Settings::load("/nowhere/settings.toml", FileRead::Missing),
        Ok(Settings::default())
    );
}

#[test]
fn a_file_that_cannot_be_read_turns_the_check_off() {
    let err = Settings::load("/cfg/s", FileRead::Failed("denied".into())).unwrap_err();
    assert_eq!(err.cause, "reading /cfg/s: denied");
    assert!(!err.salvaged.updates.check);
}

#[test]
fn a_key_from_a_newer_client_is_ignored_rather_than_fatal() {
    // Losing every preference because one of them is from a later version
    // would be a worse outcome than ignoring the one we do not understand.
    let got = load(
        "theme = \"dark\"\nsomething_new = 3\n",
        Ok(Some(ThemeChoice::Dark)),
    );
    assert_eq!(got.unwrap().theme, ThemeChoice::Dark);
}

#[test]
fn an_unparseable_file_is_reported_rather_than_silently_reset() {
    // The caller shows this on the status line and carries on with what
    // was salvaged.
    let err = load("this is not toml", Ok(None)).unwrap_err();
    assert!(err.cause.contains("parsing settings"), "{}", err.cause);
    // With nothing to go on, the one preference that reaches the network
    // is off: the file may well have said so.
    assert!(!err.salvaged.updates.check);
    assert_eq!(err.salvaged.theme, ThemeChoice::System);
}

#[test]
fn a_bad_value_costs_only_that_value() {
    let err = load(
        "theme = \"blue\"\nzoom = 1.5\ncompact_rows = true\n\n[updates]\ncheck = false\nlast_check = 5\n",
        Err("unknown variant `blue`".into()),
    )
    .unwrap_err();
    assert!(err.cause.contains("theme"), "{}", err.cause);
    let got = err.salvaged;
    assert_eq!(got.theme, ThemeChoice::System, "the bad value is defaulted");
    assert!(got.compact_rows);
    assert!(!got.updates.check, "the opt-out survived the typo");
    assert_eq!(got.updates.last_check, Some(5));
}

#[test]
fn every_bad_value_is_named() {
    let err = Settings::parse(
        "compact_rows = 1\nshow_command_line = \"x\"\n[updates]\nprereleases = 2\nlast_check = -1\n",
        Ok(None),
        Some("a zoom factor".into()),
    )
    .unwrap_err();
    for label in [
        "compact_rows: ",
        "show_command_line: ",
        "zoom: a zoom factor",
        "updates.prereleases: ",
        "updates.last_check: ",
    ] {
        assert!(err.cause.contains(label), "{label} not in {}", err.cause);
    }
    assert_eq!(err.salvaged, Settings::default());
}

#[test]
fn the_update_opt_out_survives_a_file_that_is_not_toml() {
    // A capital False, and a line truncated by a crash, are each enough
    // to make the whole file unparseable. What it still says plainly
    // about the check is kept; what it does not say is read as off.
    let salvaged = |text: &str| parse(text).unwrap_err().salvaged.updates.check;
    assert!(!salvaged("theme = \"dark\"\n[updates]\ncheck = False\n"));
    assert!(!salvaged("[updates]\ncheck = false\nlast_ch"));
    assert!(salvaged(
        "zoom = 1.2\n[updates]\ncheck = true\nprereleases = ye"
    ));
    // A `check` under some other table is not the one that matters.
    assert!(!salvaged(
        "[other]\ncheck = true\n[updates]\nlast_check = x\n"
    ));
    assert!(!salvaged("check = true\n[updates]\nlast_check = x\n"));
    assert!(!salvaged("garbage"));
    assert_eq!(salvage_check("[updates]\ncheck = true\n"), Some(true));
    assert_eq!(salvage_check("garbage"), None);
}

#[test]
fn a_present_but_unreadable_check_reads_as_off() {
    // Unlike an absent key, somebody wrote this; until they fix it the
    // only reading that keeps the promise is the quiet one.
    let err = parse("[updates]\ncheck = \"yes\"\n").unwrap_err();
    assert!(err.cause.contains("updates.check"), "{}", err.cause);
    assert!(!err.salvaged.updates.check);
    let err = parse("updates = 3\n").unwrap_err();
    assert!(!err.salvaged.updates.check);
    // And an absent one is the default, which is on.
    assert!(
        load("theme = \"dark\"\n", Ok(Some(ThemeChoice::Dark)))
            .unwrap()
            .updates
            .check
    );
}

#[test]
fn the_settings_file_sits_beside_the_connections_file() {
    let beside = Settings::path_beside;
    assert_eq!(beside(Platform::Unix, Some("/cfg")), "/cfg/settings.toml");
    assert_eq!(beside(Platform::MacOs, Some("/cfg/")), "/cfg/settings.toml");
    assert_eq!(beside(Platform::Unix, None), "settings.toml");
    assert_eq!(beside(Platform::Unix, Some("")), "settings.toml");
    assert_eq!(
        beside(Platform::Windows, Some(r"C:\x")),
        r"C:\x\settings.toml"
    );
    assert_eq!(beside(Platform::Windows, Some("C:")), "C:settings.toml");
    assert_eq!(
        beside(Platform::Windows, Some(r"\\?\C:\x")),
        r"\\?\C:\x\settings.toml"
    );
}
