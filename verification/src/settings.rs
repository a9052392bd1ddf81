//! View preferences for the launcher: theme, row density, updates.
//!
//! A file of its own beside the connections file. An unreadable connections
//! file must stop writes; an unreadable settings file should fall back to the
//! defaults and be rewritten by the next change. So this one is parsed
//! leniently -- one field at a time, so a value that cannot be read costs that
//! value and not the rest.
//!
//! The one preference that is not a shrug is `updates.check`, the only thing in
//! here that reaches the network. A typo in `theme` must not be what turns it
//! back on: a file that cannot be read is treated as having the check *off*,
//! keeping whatever the file still says about it plainly, rather than as the
//! defaults, whose check is on.

use vstd::prelude::*;

use crate::profiles;
use crate::profiles::Platform;
use crate::text;

verus! {

/// File name inside the configuration directory.
pub const FILE_NAME: &'static str = "settings.toml";

/// Which theme the user picked.
#[derive(Clone, Copy, Debug, PartialEq, Eq, Structural)]
pub enum ThemeChoice {
    /// Follow the desktop where that can be read.
    System,
    Light,
    Dark,
}

/// What the updater is allowed to do.
#[derive(Clone, Copy, Debug, PartialEq, Eq, Structural)]
pub struct Updates {
    /// Ask for the release list, once a day at most.
    pub check: bool,
    /// Offer release candidates. `None` means "the same kind of build I am
    /// running"; `Some` is an explicit choice and is obeyed.
    pub prereleases: Option<bool>,
    /// When the last check happened, in seconds since the epoch, so that
    /// starting the launcher five times in a morning is still one request.
    pub last_check: Option<u64>,
}

/// Everything the View menu remembers, but for the zoom factor, which the
/// window keeps beside it.
#[derive(Clone, Copy, Debug, PartialEq, Eq, Structural)]
pub struct Settings {
    pub theme: ThemeChoice,
    /// One-line rows instead of two.
    pub compact_rows: bool,
    /// Show the command line the selected connection would run.
    pub show_command_line: bool,
    /// Update checking.
    pub updates: Updates,
}

/// A settings file that could not be read in full.
///
/// Carries the settings to use as well as the reason, because the caller wants
/// both: the reason for the status line, and the settings -- every value the
/// file still said plainly, and above all the update opt-out -- to run with.
#[derive(Debug, PartialEq, Eq)]
pub struct LoadError {
    pub salvaged: Settings,
    pub cause: String,
}

/// The default of the update preferences. The check is on, because a client
/// that silently stays on an old build is the worse failure, and the check only
/// ever offers.
pub open spec fn default_updates() -> Updates {
    Updates { check: true, prereleases: None, last_check: None }
}

/// The default preferences.
pub open spec fn default_settings() -> Settings {
    Settings {
        theme: ThemeChoice::System,
        compact_rows: false,
        show_command_line: false,
        updates: default_updates(),
    }
}

/// The preferences to run with when the file cannot be read at all: the
/// defaults, except that the update check is as given.
pub open spec fn guarded_settings(check: bool) -> Settings {
    Settings { updates: Updates { check, ..default_updates() }, ..default_settings() }
}

impl Default for ThemeChoice {
    fn default() -> (t: ThemeChoice)
        ensures
            t == ThemeChoice::System,
    {
        ThemeChoice::System
    }
}

impl Default for Updates {
    fn default() -> (u: Updates)
        ensures
            u == default_updates(),
    {
        Updates { check: true, prereleases: None, last_check: None }
    }
}

impl Default for Settings {
    fn default() -> (s: Settings)
        ensures
            s == default_settings(),
    {
        Settings {
            theme: ThemeChoice::System,
            compact_rows: false,
            show_command_line: false,
            updates: Updates::default(),
        }
    }
}

// ---------------------------------------------------------------------------
// Reading TOML
// ---------------------------------------------------------------------------

/// Why the `toml` crate does not read a text as a table, if it does not.
pub uninterp spec fn toml_fault(text: Seq<char>) -> Option<Seq<char>>;

/// What the `toml` crate calls the type of the value under a key, if there is
/// one.
pub uninterp spec fn toml_type(text: Seq<char>, key: Seq<char>) -> Option<Seq<char>>;

/// What the `toml` crate reads as a flag under a key, if there is a value, or
/// why it cannot.
pub uninterp spec fn toml_flag(text: Seq<char>, key: Seq<char>) -> Result<Option<bool>, Seq<char>>;

/// What the `toml` crate reads as a flag under a key of a table under another,
/// if there is a value, or why it cannot.
pub uninterp spec fn toml_flag_in(text: Seq<char>, table: Seq<char>, key: Seq<char>) -> Result<
    Option<bool>,
    Seq<char>,
>;

/// What the `toml` crate reads as a number under a key of a table under
/// another, if there is a value, or why it cannot.
pub uninterp spec fn toml_number_in(text: Seq<char>, table: Seq<char>, key: Seq<char>) -> Result<
    Option<u64>,
    Seq<char>,
>;

/// `str::parse` to a `toml::Table`, for whether it can be read. Why not is
/// named, not stated.
#[verifier::external_body]
fn check_toml(text: &str) -> (r: Result<(), String>)
    ensures
        match r {
            Ok(_) => toml_fault(text@) is None,
            Err(e) => toml_fault(text@) == Some(e@),
        },
{
    text.parse::<toml::Table>().map(|_| ()).map_err(|e| e.to_string())
}

/// `toml::Value::type_str` of the value under a key.
#[verifier::external_body]
fn read_type(text: &str, key: &str) -> (r: Option<String>)
    requires
        toml_fault(text@) is None,
    ensures
        profiles::text_of(r) == toml_type(text@, key@),
{
    let table = text.parse::<toml::Table>().unwrap_or_default();
    table.get(key).map(|v| v.type_str().to_owned())
}

/// `toml::Value::try_into` to a flag, of the value under a key. What it reads
/// is named, not stated.
#[verifier::external_body]
fn read_flag(text: &str, key: &str) -> (r: Result<Option<bool>, String>)
    requires
        toml_fault(text@) is None,
    ensures
        match r {
            Ok(v) => toml_flag(text@, key@) == Ok::<Option<bool>, Seq<char>>(v),
            Err(e) => toml_flag(text@, key@) == Err::<Option<bool>, Seq<char>>(e@),
        },
{
    let table = text.parse::<toml::Table>().unwrap_or_default();
    match table.get(key) {
        None => Ok(None),
        Some(v) => v.clone().try_into().map(Some).map_err(|e| e.message().to_owned()),
    }
}

/// `toml::Value::try_into` to a flag, of the value under a key of a table. What
/// it reads is named, not stated.
#[verifier::external_body]
fn read_flag_in(text: &str, table: &str, key: &str) -> (r: Result<Option<bool>, String>)
    requires
        toml_fault(text@) is None,
    ensures
        match r {
            Ok(v) => toml_flag_in(text@, table@, key@) == Ok::<Option<bool>, Seq<char>>(v),
            Err(e) => toml_flag_in(text@, table@, key@) == Err::<Option<bool>, Seq<char>>(e@),
        },
{
    let root = text.parse::<toml::Table>().unwrap_or_default();
    match root.get(table).and_then(|t| t.get(key)) {
        None => Ok(None),
        Some(v) => v.clone().try_into().map(Some).map_err(|e| e.message().to_owned()),
    }
}

/// `toml::Value::try_into` to a number, of the value under a key of a table.
/// What it reads is named, not stated.
#[verifier::external_body]
fn read_number_in(text: &str, table: &str, key: &str) -> (r: Result<Option<u64>, String>)
    requires
        toml_fault(text@) is None,
    ensures
        match r {
            Ok(v) => toml_number_in(text@, table@, key@) == Ok::<Option<u64>, Seq<char>>(v),
            Err(e) => toml_number_in(text@, table@, key@) == Err::<Option<u64>, Seq<char>>(e@),
        },
{
    let root = text.parse::<toml::Table>().unwrap_or_default();
    match root.get(table).and_then(|t| t.get(key)) {
        None => Ok(None),
        Some(v) => v.clone().try_into().map(Some).map_err(|e| e.message().to_owned()),
    }
}

// ---------------------------------------------------------------------------
// Field by field
// ---------------------------------------------------------------------------

/// What was found under the keys of a settings file: for each a value, none, or
/// why it cannot be read.
#[derive(Debug)]
pub struct Found {
    pub theme: Result<Option<ThemeChoice>, String>,
    pub compact_rows: Result<Option<bool>, String>,
    pub show_command_line: Result<Option<bool>, String>,
    /// Why the zoom factor cannot be read, if it cannot.
    pub zoom: Option<String>,
    pub updates: FoundUpdates,
}

/// What was found under the key of the update preferences.
#[derive(Debug)]
pub enum FoundUpdates {
    Absent,
    Table {
        check: Result<Option<bool>, String>,
        prereleases: Result<Option<bool>, String>,
        last_check: Result<Option<u64>, String>,
    },
    /// Something that is no table, by its type.
    Other(String),
}

/// The value found, or the default where none can be had.
pub open spec fn value_or<T>(found: Result<Option<T>, String>, default: T) -> T {
    match found {
        Ok(Some(v)) => v,
        _ => default,
    }
}

/// What there is to say of a value that cannot be read.
pub open spec fn complaint<T>(label: Seq<char>, found: Result<T, String>) -> Seq<Seq<char>> {
    match found {
        Err(e) => seq![label + ": "@ + e@],
        Ok(_) => Seq::empty(),
    }
}

/// The value of an optional field.
pub open spec fn kept_or<T>(found: Result<Option<T>, String>) -> Option<T> {
    match found {
        Ok(v) => v,
        Err(_) => None,
    }
}

/// The update preferences found. A check that is present and unreadable is not
/// the same as absent: somebody wrote something here, and until it is fixed the
/// only reading that keeps the promise is "off".
pub open spec fn updates_of(found: FoundUpdates) -> Updates {
    match found {
        FoundUpdates::Absent => default_updates(),
        FoundUpdates::Table { check, prereleases, last_check } => Updates {
            check: match check {
                Ok(Some(v)) => v,
                Ok(None) => true,
                Err(_) => false,
            },
            prereleases: kept_or(prereleases),
            last_check: kept_or(last_check),
        },
        FoundUpdates::Other(_) => Updates { check: false, ..default_updates() },
    }
}

/// What there is to say of the update preferences.
pub open spec fn update_complaints(found: FoundUpdates) -> Seq<Seq<char>> {
    match found {
        FoundUpdates::Absent => Seq::empty(),
        FoundUpdates::Table { check, prereleases, last_check } => complaint(
            "updates.check"@,
            check,
        ) + complaint("updates.prereleases"@, prereleases) + complaint(
            "updates.last_check"@,
            last_check,
        ),
        FoundUpdates::Other(kind) => seq!["updates: expected a table, found "@ + kind@],
    }
}

/// The preferences found.
pub open spec fn settings_of(found: Found) -> Settings {
    Settings {
        theme: value_or(found.theme, ThemeChoice::System),
        compact_rows: value_or(found.compact_rows, false),
        show_command_line: value_or(found.show_command_line, false),
        updates: updates_of(found.updates),
    }
}

/// Why the zoom factor cannot be read, as of any other value.
pub open spec fn zoom_complaint(zoom: Option<String>) -> Seq<Seq<char>> {
    match zoom {
        Some(e) => seq!["zoom: "@ + e@],
        None => Seq::empty(),
    }
}

/// What there is to say of a file, value by value.
pub open spec fn complaints(found: Found) -> Seq<Seq<char>> {
    complaint("theme"@, found.theme) + complaint("compact_rows"@, found.compact_rows) + complaint(
        "show_command_line"@,
        found.show_command_line,
    ) + zoom_complaint(found.zoom) + update_complaints(found.updates)
}

fn complain<T>(problems: &mut Vec<String>, label: &str, found: &Result<T, String>)
    ensures
        text::texts(final(problems)@) == text::texts(old(problems)@) + complaint(label@, *found),
{
    match found {
        Err(e) => {
            let mut s = text::copy(label);
            s.push_str(": ");
            s.push_str(e.as_str());
            profiles::push_arg(problems, s);
        },
        Ok(_) => {},
    }
    assert(text::texts(problems@) =~= text::texts(old(problems)@) + complaint(label@, *found));
}

fn flag_or(found: &Result<Option<bool>, String>, default: bool) -> (v: bool)
    ensures
        v == value_or(*found, default),
{
    match found {
        Ok(Some(v)) => *v,
        _ => default,
    }
}

impl Settings {
    /// The preferences of a file, from what was found under its keys.
    ///
    /// A value that cannot be read is left at its default and named in the
    /// error, and every other value is kept.
    pub fn assemble(found: &Found) -> (r: Result<Settings, LoadError>)
        ensures
            match r {
                Ok(s) => complaints(*found).len() == 0 && s == settings_of(*found),
                Err(e) => {
                    &&& complaints(*found).len() > 0
                    &&& e.salvaged == settings_of(*found)
                    &&& e.cause@ == text::join(complaints(*found), "; "@)
                },
            },
    {
        let mut problems: Vec<String> = Vec::new();
        assert(text::texts(problems@) =~= Seq::<Seq<char>>::empty());
        complain(&mut problems, "theme", &found.theme);
        complain(&mut problems, "compact_rows", &found.compact_rows);
        complain(&mut problems, "show_command_line", &found.show_command_line);
        match &found.zoom {
            Some(e) => {
                let ghost before = text::texts(problems@);
                let mut s = text::copy("zoom: ");
                s.push_str(e.as_str());
                profiles::push_arg(&mut problems, s);
                assert(text::texts(problems@) =~= before + zoom_complaint(found.zoom));
            },
            None => {
                assert(text::texts(problems@) =~= text::texts(problems@) + zoom_complaint(
                    found.zoom,
                ));
            },
        }
        let ghost before = text::texts(problems@);
        let updates = match &found.updates {
            FoundUpdates::Absent => Updates::default(),
            FoundUpdates::Table { check, prereleases, last_check } => {
                complain(&mut problems, "updates.check", check);
                complain(&mut problems, "updates.prereleases", prereleases);
                complain(&mut problems, "updates.last_check", last_check);
                Updates {
                    check: match check {
                        Ok(Some(v)) => *v,
                        Ok(None) => true,
                        Err(_) => false,
                    },
                    prereleases: match prereleases {
                        Ok(v) => *v,
                        Err(_) => None,
                    },
                    last_check: match last_check {
                        Ok(v) => *v,
                        Err(_) => None,
                    },
                }
            },
            FoundUpdates::Other(kind) => {
                let mut s = text::copy("updates: expected a table, found ");
                s.push_str(kind.as_str());
                profiles::push_arg(&mut problems, s);
                Updates { check: false, prereleases: None, last_check: None }
            },
        };
        assert(text::texts(problems@) =~= before + update_complaints(found.updates));
        assert(text::texts(problems@) =~= complaints(*found));
        let settings = Settings {
            theme: match &found.theme {
                Ok(Some(t)) => *t,
                _ => ThemeChoice::System,
            },
            compact_rows: flag_or(&found.compact_rows, false),
            show_command_line: flag_or(&found.show_command_line, false),
            updates,
        };
        if problems.len() == 0 {
            Ok(settings)
        } else {
            Err(LoadError { salvaged: settings, cause: text::joined(&problems, "; ") })
        }
    }
}

// ---------------------------------------------------------------------------
// Salvage
// ---------------------------------------------------------------------------

/// A line without its comment and the space around it.
pub open spec fn plain_line(line: Seq<char>) -> Seq<char> {
    text::trim(line.take(text::next_char(line, '#', 0)))
}

/// What a value says, with capitals allowed.
pub open spec fn plain_flag(value: Seq<char>) -> Option<bool> {
    if text::lower(value) == "true"@ {
        Some(true)
    } else if text::lower(value) == "false"@ {
        Some(false)
    } else {
        None
    }
}

/// What the lines of a file that is not valid TOML still say about
/// `updates.check`, from the line `i` on.
///
/// Only a `check = true` or `check = false` under an `[updates]` heading and
/// spelled plainly is trusted -- with a capital allowed, because that is
/// exactly the slip that makes the whole file unparseable.
pub open spec fn said_of_check(lines: Seq<Seq<char>>, i: int, in_updates: bool) -> Option<bool>
    decreases lines.len() - i,
{
    if i >= lines.len() {
        None
    } else {
        let line = plain_line(lines[i]);
        let eq = text::next_char(line, '=', 0);
        if line.len() > 0 && line[0] == '[' {
            said_of_check(lines, i + 1, line == "[updates]"@)
        } else if !in_updates || eq >= line.len() || text::trim(line.take(eq)) != "check"@ {
            said_of_check(lines, i + 1, in_updates)
        } else {
            plain_flag(text::trim(line.skip(eq + 1)))
        }
    }
}

/// What a file that is not valid TOML still says about `updates.check`.
pub open spec fn salvaged_check(text: Seq<char>) -> Option<bool> {
    said_of_check(text::lines(text), 0, false)
}

fn lowered_is(v: &Vec<char>, word: &str) -> (r: bool)
    ensures
        r == (text::lower(v@) == word@),
{
    let want = text::chars_of(word);
    if v.len() != want.len() {
        return false;
    }
    let mut i: usize = 0;
    while i < v.len()
        invariant
            i <= v.len(),
            v.len() == want.len(),
            want@ == word@,
            forall|j: int| 0 <= j < i ==> text::lower(v@)[j] == #[trigger] want@[j],
        decreases v.len() - i,
    {
        if text::to_ascii_lower(v[i]) != want[i] {
            assert(text::lower(v@)[i as int] != want@[i as int]);
            return false;
        }
        i = i + 1;
    }
    assert(text::lower(v@) =~= want@);
    true
}

fn chars_are(v: &Vec<char>, word: &str) -> (r: bool)
    ensures
        r == (v@ == word@),
{
    let want = text::chars_of(word);
    text::same_chars(v, &want)
}

fn flag_in(v: &Vec<char>) -> (r: Option<bool>)
    ensures
        r == plain_flag(v@),
{
    if lowered_is(v, "true") {
        Some(true)
    } else if lowered_is(v, "false") {
        Some(false)
    } else {
        None
    }
}

/// What a file that is not valid TOML still says about `updates.check`.
/// Anything less than certain is `None`, which the caller reads as off.
pub fn salvage_check(text: &str) -> (r: Option<bool>)
    ensures
        r == salvaged_check(text@),
{
    let all = text::chars_of(text);
    let lines = text::lines_of(&all);
    let ghost model = text::rows(lines@);
    let mut in_updates = false;
    let mut i: usize = 0;
    while i < lines.len()
        invariant
            i <= lines.len(),
            model == text::rows(lines@),
            model == text::lines(text@),
            salvaged_check(text@) == said_of_check(model, i as int, in_updates),
        decreases lines.len() - i,
    {
        let raw = &lines[i];
        let hash = text::position(raw, '#', 0);
        let head = text::slice_of(raw, 0, hash);
        assert(head@ =~= model[i as int].take(hash as int));
        let line = text::trimmed_chars(&head);
        assert(line@ == plain_line(model[i as int]));
        i = i + 1;
        if line.len() > 0 && line[0] == '[' {
            in_updates = chars_are(&line, "[updates]");
            continue;
        }
        let eq = text::position(&line, '=', 0);
        if !in_updates || eq >= line.len() {
            continue;
        }
        let key_part = text::slice_of(&line, 0, eq);
        assert(key_part@ =~= line@.take(eq as int));
        let key = text::trimmed_chars(&key_part);
        if !chars_are(&key, "check") {
            continue;
        }
        let value_part = text::slice_of(&line, eq + 1, line.len());
        assert(value_part@ =~= line@.skip(eq + 1));
        let value = text::trimmed_chars(&value_part);
        return flag_in(&value);
    }
    None
}

// ---------------------------------------------------------------------------
// The file
// ---------------------------------------------------------------------------

/// `found` is what the `toml` crate reads from a text.
pub open spec fn read_from(text: Seq<char>, found: Found) -> bool {
    &&& same_flag(found.compact_rows, toml_flag(text, "compact_rows"@))
    &&& same_flag(found.show_command_line, toml_flag(text, "show_command_line"@))
    &&& match toml_type(text, "updates"@) {
        None => found.updates is Absent,
        Some(kind) => if kind == "table"@ {
            found.updates matches FoundUpdates::Table { check, prereleases, last_check }
                && same_flag(check, toml_flag_in(text, "updates"@, "check"@)) && same_flag(
                prereleases,
                toml_flag_in(text, "updates"@, "prereleases"@),
            ) && same_number(last_check, toml_number_in(text, "updates"@, "last_check"@))
        } else {
            found.updates matches FoundUpdates::Other(k) && k@ == kind
        },
    }
}

pub open spec fn same_flag(
    found: Result<Option<bool>, String>,
    named: Result<Option<bool>, Seq<char>>,
) -> bool {
    match found {
        Ok(v) => named == Ok::<Option<bool>, Seq<char>>(v),
        Err(e) => named == Err::<Option<bool>, Seq<char>>(e@),
    }
}

pub open spec fn same_number(
    found: Result<Option<u64>, String>,
    named: Result<Option<u64>, Seq<char>>,
) -> bool {
    match found {
        Ok(v) => named == Ok::<Option<u64>, Seq<char>>(v),
        Err(e) => named == Err::<Option<u64>, Seq<char>>(e@),
    }
}

/// What parsing a text comes to, where this was found of the theme and the zoom
/// factor.
pub open spec fn parsed(
    text: Seq<char>,
    theme: Result<Option<ThemeChoice>, String>,
    zoom: Option<String>,
    r: Result<Settings, LoadError>,
) -> bool {
    match toml_fault(text) {
        Some(fault) => r matches Err(e) && e.cause@ == "parsing settings: "@ + fault && e.salvaged
            == guarded_settings(salvaged_check(text) == Some(true)),
        None => exists|found: Found| #[trigger]
            read_from(text, found) && found.theme == theme && found.zoom == zoom && match r {
                Ok(s) => complaints(found).len() == 0 && s == settings_of(found),
                Err(e) => complaints(found).len() > 0 && e.salvaged == settings_of(found) && e.cause@
                    == text::join(complaints(found), "; "@),
            },
    }
}

/// The settings to run with.
pub open spec fn to_run_with(r: Result<Settings, LoadError>) -> Settings {
    match r {
        Ok(s) => s,
        Err(e) => e.salvaged,
    }
}

/// Whether a text leaves the update check on: it says nothing of it, or plainly
/// that it is on.
pub open spec fn leaves_check_on(text: Seq<char>) -> bool {
    if toml_fault(text) is Some {
        salvaged_check(text) == Some(true)
    } else {
        match toml_type(text, "updates"@) {
            None => true,
            Some(kind) => kind == "table"@ && match toml_flag_in(text, "updates"@, "check"@) {
                Ok(said) => said != Some(false),
                Err(_) => false,
            },
        }
    }
}

impl Settings {
    /// What to run with when the file cannot be read at all.
    pub fn unreadable() -> (s: Settings)
        ensures
            s == guarded_settings(false),
    {
        Settings {
            theme: ThemeChoice::System,
            compact_rows: false,
            show_command_line: false,
            updates: Updates { check: false, prereleases: None, last_check: None },
        }
    }

    /// Parse the file's text, one field at a time.
    ///
    /// `theme` is what was found of the theme, and `zoom` why the zoom factor
    /// cannot be read, if it cannot: both are read where their types are.
    ///
    /// A file that is not TOML at all cannot be read field by field. That case
    /// is [`Settings::unreadable`] plus whatever [`salvage_check`] can still
    /// make out, so that a truncated or mistyped file never turns a chosen
    /// `check = false` into a request to the network.
    pub fn parse(
        text: &str,
        theme: Result<Option<ThemeChoice>, String>,
        zoom: Option<String>,
    ) -> (r: Result<Settings, LoadError>)
        ensures
            parsed(text@, theme, zoom, r),
    {
        match check_toml(text) {
            Ok(_) => {},
            Err(fault) => {
                let mut salvaged = Settings::unreadable();
                match salvage_check(text) {
                    Some(check) => {
                        salvaged.updates.check = check;
                    },
                    None => {},
                }
                let mut cause = text::copy("parsing settings: ");
                cause.push_str(fault.as_str());
                return Err(LoadError { salvaged, cause });
            },
        }
        let updates = match read_type(text, "updates") {
            None => FoundUpdates::Absent,
            Some(kind) => if text::same(kind.as_str(), "table") {
                FoundUpdates::Table {
                    check: read_flag_in(text, "updates", "check"),
                    prereleases: read_flag_in(text, "updates", "prereleases"),
                    last_check: read_number_in(text, "updates", "last_check"),
                }
            } else {
                FoundUpdates::Other(kind)
            },
        };
        let found = Found {
            theme,
            compact_rows: read_flag(text, "compact_rows"),
            show_command_line: read_flag(text, "show_command_line"),
            zoom,
            updates,
        };
        assert(read_from(text@, found));
        Settings::assemble(&found)
    }

    /// Where the settings file sits, given the directory of the connections
    /// file, where it has one.
    pub fn path_beside(platform: Platform, dir: Option<&str>) -> (s: String)
        ensures
            s@ == match dir {
                Some(d) => profiles::joined_on(platform, d@, FILE_NAME@),
                None => FILE_NAME@,
            },
    {
        match dir {
            Some(d) => profiles::join_on(platform, d, FILE_NAME),
            None => text::copy(FILE_NAME),
        }
    }
}

impl LoadError {
    /// The same error, with the file it comes from.
    pub fn reading(self, path: &str) -> (e: LoadError)
        ensures
            e.salvaged == self.salvaged,
            e.cause@ == "reading "@ + path@ + ": "@ + self.cause@,
    {
        let mut cause = text::copy("reading ");
        cause.push_str(path);
        cause.push_str(": ");
        cause.push_str(self.cause.as_str());
        LoadError { salvaged: self.salvaged, cause }
    }
}

/// What became of reading the file.
#[derive(Debug)]
pub enum FileRead {
    /// Its text, and what was found of the theme and the zoom factor.
    Text(String, Result<Option<ThemeChoice>, String>, Option<String>),
    /// There is none.
    Missing,
    /// It cannot be read, and why.
    Failed(String),
}

impl Settings {
    /// The preferences of a file. A missing one is the defaults, not an error.
    ///
    /// An `Err` still carries settings to run with.
    pub fn load(path: &str, read: FileRead) -> (r: Result<Settings, LoadError>)
        ensures
            match read {
                FileRead::Missing => r == Ok::<Settings, LoadError>(default_settings()),
                FileRead::Failed(error) => r matches Err(e) && e.salvaged == guarded_settings(false)
                    && e.cause@ == "reading "@ + path@ + ": "@ + error@,
                FileRead::Text(t, theme, zoom) => match toml_fault(t@) {
                    Some(fault) => r matches Err(e) && e.salvaged == guarded_settings(
                        salvaged_check(t@) == Some(true),
                    ) && e.cause@ == "reading "@ + path@ + ": "@ + ("parsing settings: "@ + fault),
                    None => exists|found: Found| #[trigger]
                        read_from(t@, found) && found.theme == theme && found.zoom == zoom
                            && match r {
                            Ok(s) => complaints(found).len() == 0 && s == settings_of(found),
                            Err(e) => complaints(found).len() > 0 && e.salvaged == settings_of(
                                found,
                            ) && e.cause@ == "reading "@ + path@ + ": "@ + text::join(
                                complaints(found),
                                "; "@,
                            ),
                        },
                },
            },
    {
        match read {
            FileRead::Missing => Ok(Settings::default()),
            FileRead::Failed(error) => {
                let e = LoadError { salvaged: Settings::unreadable(), cause: error };
                Err(e.reading(path))
            },
            FileRead::Text(t, theme, zoom) => match Settings::parse(t.as_str(), theme, zoom) {
                Ok(s) => Ok(s),
                Err(e) => Err(e.reading(path)),
            },
        }
    }
}

// ---------------------------------------------------------------------------
// Laws
// ---------------------------------------------------------------------------

/// A value that cannot be read costs that value alone: it is as by default, and
/// every other value is kept.
pub proof fn law_bad_value_costs_only_that_value(found: Found, problem: String)
    ensures
        ({
            let kept = settings_of(found);
            &&& settings_of(Found { theme: Err(problem), ..found }) == (Settings {
                theme: ThemeChoice::System,
                ..kept
            })
            &&& settings_of(Found { compact_rows: Err(problem), ..found }) == (Settings {
                compact_rows: false,
                ..kept
            })
            &&& settings_of(Found { show_command_line: Err(problem), ..found }) == (Settings {
                show_command_line: false,
                ..kept
            })
            &&& settings_of(Found { zoom: Some(problem), ..found }) == kept
        }),
{
}

/// So it is with the values of the update table, but that a check which cannot
/// be read is off.
pub proof fn law_bad_update_value_costs_only_that_value(
    check: Result<Option<bool>, String>,
    prereleases: Result<Option<bool>, String>,
    last_check: Result<Option<u64>, String>,
    problem: String,
)
    ensures
        ({
            let kept = updates_of(FoundUpdates::Table { check, prereleases, last_check });
            &&& updates_of(FoundUpdates::Table { check: Err(problem), prereleases, last_check })
                == (Updates { check: false, ..kept })
            &&& updates_of(FoundUpdates::Table { check, prereleases: Err(problem), last_check })
                == (Updates { prereleases: None, ..kept })
            &&& updates_of(FoundUpdates::Table { check, prereleases, last_check: Err(problem) })
                == (Updates { last_check: None, ..kept })
        }),
{
}

/// The update check is on only where nothing was said of it, or where it was
/// plainly said to be on.
pub proof fn law_check_is_on_only_if_nothing_speaks_against_it(found: FoundUpdates)
    ensures
        updates_of(found).check <==> match found {
            FoundUpdates::Absent => true,
            FoundUpdates::Table { check, .. } => check == Ok::<Option<bool>, String>(None) || check
                == Ok::<Option<bool>, String>(Some(true)),
            FoundUpdates::Other(_) => false,
        },
{
}

/// Whatever else is wrong with a file, the update check is on exactly where the
/// file leaves it on: a broken file turns no opt-out into a request.
pub proof fn law_opt_out_survives_a_broken_file(
    text: Seq<char>,
    theme: Result<Option<ThemeChoice>, String>,
    zoom: Option<String>,
    r: Result<Settings, LoadError>,
)
    requires
        parsed(text, theme, zoom, r),
    ensures
        to_run_with(r).updates.check == leaves_check_on(text),
{
}

/// Where nothing is set the theme is the system's, the rows are wide, the command
/// line is hidden and updates are looked for.
pub proof fn law_settings_to_begin_with()
    ensures
        ({
            let s = default_settings();
            &&& s.theme == ThemeChoice::System && !s.compact_rows && !s.show_command_line
            &&& s.updates.check && s.updates.prereleases is None && s.updates.last_check is None
        }),
        forall|check: bool| #![auto] guarded_settings(check).updates.check == check,
        forall|check: bool| #![auto]
            guarded_settings(check).theme == ThemeChoice::System && !guarded_settings(
                check,
            ).compact_rows && !guarded_settings(check).show_command_line && guarded_settings(
                check,
            ).updates.prereleases is None && guarded_settings(check).updates.last_check is None,
        FILE_NAME@ == "settings.toml"@,
{
}

/// Every value that was read is the setting of its own name, and one that was
/// not there is as it is to begin with.
pub proof fn law_values_are_the_settings(
    theme: ThemeChoice,
    compact: bool,
    command: bool,
    check: bool,
    pre: Option<bool>,
    last: Option<u64>,
    found: Found,
)
    requires
        found.theme == Ok::<Option<ThemeChoice>, String>(Some(theme)),
        found.compact_rows == Ok::<Option<bool>, String>(Some(compact)),
        found.show_command_line == Ok::<Option<bool>, String>(Some(command)),
        found.updates == (FoundUpdates::Table {
            check: Ok(Some(check)),
            prereleases: Ok(pre),
            last_check: Ok(last),
        }),
        found.zoom is None,
    ensures
        ({
            let s = settings_of(found);
            &&& s.theme == theme && s.compact_rows == compact && s.show_command_line == command
            &&& s.updates.check == check && s.updates.prereleases == pre && s.updates.last_check
                == last
        }),
        complaints(found).len() == 0,
        settings_of(Found { theme: Ok(None), ..found }).theme == ThemeChoice::System,
        !settings_of(Found { compact_rows: Ok(None), ..found }).compact_rows,
        !settings_of(Found { show_command_line: Ok(None), ..found }).show_command_line,
        settings_of(Found { updates: FoundUpdates::Absent, ..found }).updates.check,
{
}

/// Every value that could not be read is complained of by its name, in the order
/// of the settings.
pub proof fn law_complaints_name_the_value(
    a: String,
    b: String,
    c: String,
    d: String,
    e: String,
    f: String,
    g: String,
)
    ensures
        complaints(
            Found {
                theme: Err(a),
                compact_rows: Err(b),
                show_command_line: Err(c),
                zoom: Some(d),
                updates: FoundUpdates::Table {
                    check: Err(e),
                    prereleases: Err(f),
                    last_check: Err(g),
                },
            },
        ) == seq![
            "theme: "@ + a@,
            "compact_rows: "@ + b@,
            "show_command_line: "@ + c@,
            "zoom: "@ + d@,
            "updates.check: "@ + e@,
            "updates.prereleases: "@ + f@,
            "updates.last_check: "@ + g@,
        ],
        update_complaints(FoundUpdates::Other(a)) == seq!["updates: expected a table, found "@ + a@],
        update_complaints(FoundUpdates::Absent).len() == 0,
{
    reveal_strlit(": ");
    reveal_strlit("theme");
    reveal_strlit("theme: ");
    reveal_strlit("compact_rows");
    reveal_strlit("compact_rows: ");
    reveal_strlit("show_command_line");
    reveal_strlit("show_command_line: ");
    reveal_strlit("updates.check");
    reveal_strlit("updates.check: ");
    reveal_strlit("updates.prereleases");
    reveal_strlit("updates.prereleases: ");
    reveal_strlit("updates.last_check");
    reveal_strlit("updates.last_check: ");
    assert("theme"@ + ": "@ + a@ =~= "theme: "@ + a@);
    assert("compact_rows"@ + ": "@ + b@ =~= "compact_rows: "@ + b@);
    assert("show_command_line"@ + ": "@ + c@ =~= "show_command_line: "@ + c@);
    assert("updates.check"@ + ": "@ + e@ =~= "updates.check: "@ + e@);
    assert("updates.prereleases"@ + ": "@ + f@ =~= "updates.prereleases: "@ + f@);
    assert("updates.last_check"@ + ": "@ + g@ =~= "updates.last_check: "@ + g@);
}

/// In a file that cannot be parsed, the first line that sets "check" below the
/// heading "[updates]" says whether updates are looked for: "true" or "false" in
/// any case. Every other line is passed over, and so is the same line below
/// another heading.
pub proof fn law_opt_out_is_found_by_its_line(
    lines: Seq<Seq<char>>,
    i: int,
    inside: bool,
    key: Seq<char>,
    value: Seq<char>,
)
    requires
        0 <= i < lines.len(),
    ensures
        plain_line(lines[i]) == "[updates]"@ ==> said_of_check(lines, i, inside) == said_of_check(
            lines,
            i + 1,
            true,
        ),
        plain_line(lines[i]).len() > 0 && plain_line(lines[i])[0] == '[' && plain_line(lines[i])
            != "[updates]"@ ==> said_of_check(lines, i, inside) == said_of_check(lines, i + 1, false),
        plain_line(lines[i]).len() == 0 ==> said_of_check(lines, i, inside) == said_of_check(
            lines,
            i + 1,
            inside,
        ),
        plain_line(lines[i]) == key + seq!['='] + value && text::trim(key) == "check"@ && (forall|
            k: int,
        |
            0 <= k < key.len() ==> key[k] != '=' && key[k] != '[') && inside ==> said_of_check(
            lines,
            i,
            inside,
        ) == plain_flag(text::trim(value)),
        plain_line(lines[i]) == key + seq!['='] + value && text::trim(key) != "check"@ && (forall|
            k: int,
        |
            0 <= k < key.len() ==> key[k] != '=' && key[k] != '[') ==> said_of_check(lines, i, inside)
            == said_of_check(lines, i + 1, inside),
        !inside && plain_line(lines[i]).len() > 0 && plain_line(lines[i])[0] != '[' ==> said_of_check(
            lines,
            i,
            inside,
        ) == said_of_check(lines, i + 1, false),
        said_of_check(lines, lines.len() as int, inside) is None,
{
    reveal_strlit("[updates]");
    let line = plain_line(lines[i]);
    if line == key + seq!['='] + value && (forall|k: int|
        0 <= k < key.len() ==> key[k] != '=' && key[k] != '[') {
        let n = key.len() as int;
        assert(line[n] == '=');
        assert forall|k: int| 0 <= k < n implies line[k] != '=' by {
            assert(line[k] == key[k]);
        }
        lemma_next_stops(line, '=', 0, n);
        assert(line.take(n) =~= key);
        assert(line.skip(n + 1) =~= value);
        if n > 0 {
            assert(line[0] == key[0]);
        }
    }
}

proof fn lemma_next_stops(s: Seq<char>, c: char, from: int, i: int)
    requires
        0 <= from <= i < s.len(),
        s[i] == c,
        forall|k: int| from <= k < i ==> s[k] != c,
    ensures
        text::next_char(s, c, from) == i,
    decreases i - from,
{
    if from < i {
        lemma_next_stops(s, c, from + 1, i);
    }
}

/// What stands behind a hash sign is a comment; a flag is one of two words.
pub proof fn law_comments_are_left_out(said: Seq<char>, comment: Seq<char>)
    requires
        forall|k: int| 0 <= k < said.len() ==> said[k] != '#',
    ensures
        plain_line(said + seq!['#'] + comment) == text::trim(said),
        plain_flag(said) == Some(true) <==> text::lower(said) == "true"@,
        plain_flag(said) == Some(false) <==> text::lower(said) == "false"@,
{
    reveal_strlit("true");
    reveal_strlit("false");
    assert("true"@.len() != "false"@.len());
    let s = said + seq!['#'] + comment;
    assert forall|k: int| 0 <= k < said.len() implies s[k] != '#' by {
        assert(s[k] == said[k]);
    }
    lemma_next_stops(s, '#', 0, said.len() as int);
    assert(s.take(said.len() as int) =~= said);
}

/// A file that can be parsed gives the theme that was read from it, or the
/// system's, and a zoom that could not be read is complained of.
pub proof fn law_read_theme_is_the_setting(
    text: Seq<char>,
    theme: Result<Option<ThemeChoice>, String>,
    zoom: Option<String>,
    r: Result<Settings, LoadError>,
)
    requires
        parsed(text, theme, zoom, r),
        toml_fault(text) is None,
    ensures
        theme matches Ok(Some(t)) ==> to_run_with(r).theme == t,
        theme == Ok::<Option<ThemeChoice>, String>(None) ==> to_run_with(r).theme
            == ThemeChoice::System,
        theme is Err || zoom is Some ==> r is Err,
        toml_flag(text, "compact_rows"@) matches Ok(Some(v)) ==> to_run_with(r).compact_rows == v,
        toml_flag(text, "show_command_line"@) matches Ok(Some(v)) ==> to_run_with(r).show_command_line
            == v,
        toml_flag(text, "compact_rows"@) is Err || toml_flag(text, "show_command_line"@) is Err ==> r is Err,
{
    let found = choose|found: Found| #[trigger]
        read_from(text, found) && found.theme == theme && found.zoom == zoom && match r {
            Ok(s) => complaints(found).len() == 0 && s == settings_of(found),
            Err(e) => complaints(found).len() > 0 && e.salvaged == settings_of(found) && e.cause@
                == text::join(complaints(found), "; "@),
        };
    assert(read_from(text, found));
}

} // verus!
