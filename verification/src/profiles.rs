//! Saved connections for the launcher.
//!
//! What a saved connection means, what is wrong with one, and what command
//! line it produces.
//!
//! No credentials are stored here. SSH already owns authentication. A profile
//! names an identity *file* at most, which is a path, not a secret.

use vstd::prelude::*;

use crate::text;

verus! {

/// File name inside the configuration directory.
pub const FILE_NAME: &'static str = "connections.toml";

/// Most profiles we will keep. Guards against a corrupt or hostile file
/// making the launcher unusable.
pub const MAX_PROFILES: usize = 500;

/// Longest name, host or user we accept, in bytes.
pub const MAX_FIELD: usize = 255;

/// How many rejected copies of the connections file we will keep before
/// refusing to make another.
pub const MAX_ASIDE: u32 = 100;

/// What the standard library's `Debug` writes for a string: the text in
/// quotes, with what does not print escaped.
pub uninterp spec fn quoted(s: Seq<char>) -> Seq<char>;

/// The standard library's `Debug` for a string. What it writes is named, not
/// stated: it goes by the Unicode tables.
#[verifier::external_body]
pub(crate) fn quote(s: &str) -> (r: String)
    ensures
        r@ == quoted(s@),
{
    format!("{s:?}")
}

/// Whether a flag is off, and so left out of the file.
pub fn is_false(value: &bool) -> (r: bool)
    ensures
        r == !*value,
{
    !*value
}

// ---------------------------------------------------------------------------
// One connection
// ---------------------------------------------------------------------------

/// One saved connection.
#[derive(Debug, PartialEq, Eq)]
pub struct Profile {
    /// What the user sees in the list. Unique within the store.
    pub name: String,
    /// Host name or address, or an alias of the SSH configuration.
    pub host: String,
    /// SSH user. Empty means whatever SSH would pick.
    pub user: String,
    /// SSH port. `None` means the default, or whatever the config says.
    pub ssh_port: Option<u16>,
    /// Identity file passed as `ssh -i`.
    pub identity: Option<String>,
    /// Extra `-o key=value` options.
    pub ssh_options: Vec<String>,
    /// LynxRDP port on the server's loopback interface.
    pub remote_port: Option<u16>,
    /// Initial screen size. `None` uses the server's default.
    pub size: Option<(u16, u16)>,
    /// Start the session fullscreen.
    pub fullscreen: bool,
    /// Let the remote screen follow the window size.
    pub dynamic_resize: bool,
    /// Synchronise the clipboard.
    pub clipboard: bool,
}

/// A saved connection as its texts and numbers.
#[verifier::ext_equal]
pub struct ProfileModel {
    pub name: Seq<char>,
    pub host: Seq<char>,
    pub user: Seq<char>,
    pub ssh_port: Option<u16>,
    pub identity: Option<Seq<char>>,
    pub ssh_options: Seq<Seq<char>>,
    pub remote_port: Option<u16>,
    pub size: Option<(u16, u16)>,
    pub fullscreen: bool,
    pub dynamic_resize: bool,
    pub clipboard: bool,
}

/// The characters of an optional string.
pub open spec fn text_of(s: Option<String>) -> Option<Seq<char>> {
    match s {
        Some(t) => Some(t@),
        None => None,
    }
}

impl View for Profile {
    type V = ProfileModel;

    open spec fn view(&self) -> ProfileModel {
        ProfileModel {
            name: self.name@,
            host: self.host@,
            user: self.user@,
            ssh_port: self.ssh_port,
            identity: text_of(self.identity),
            ssh_options: text::texts(self.ssh_options@),
            remote_port: self.remote_port,
            size: self.size,
            fullscreen: self.fullscreen,
            dynamic_resize: self.dynamic_resize,
            clipboard: self.clipboard,
        }
    }
}

/// A connection that sets nothing.
pub open spec fn unset(name: Seq<char>, conveniences: bool) -> ProfileModel {
    ProfileModel {
        name,
        host: seq![],
        user: seq![],
        ssh_port: None,
        identity: None,
        ssh_options: seq![],
        remote_port: None,
        size: None,
        fullscreen: false,
        dynamic_resize: conveniences,
        clipboard: conveniences,
    }
}

/// Whether a text is more than one word: white space between other characters.
pub open spec fn spaced(s: Seq<char>) -> bool {
    exists|i: int, j: int, k: int|
        0 <= i < j < k < s.len() && !text::white_space(#[trigger] s[i]) && text::white_space(
            #[trigger] s[j],
        ) && !text::white_space(#[trigger] s[k])
}

pub open spec fn has_char(s: Seq<char>, c: char) -> bool {
    exists|i: int| 0 <= i < s.len() && s[i] == c
}

pub open spec fn dashed(s: Seq<char>) -> bool {
    s.len() > 0 && s[0] == '-'
}

/// `{width}x{height}`.
pub open spec fn size_text(size: (u16, u16)) -> Seq<char> {
    text::decimal(size.0 as nat) + seq!['x'] + text::decimal(size.1 as nat)
}

/// What is wrong with an SSH option, if anything.
pub open spec fn option_problem(option: Seq<char>) -> Option<Seq<char>> {
    if text::blank(option) {
        Some("An SSH option is blank."@)
    } else if !has_char(option, '=') {
        Some("SSH option "@ + quoted(option) + " should look like Key=value."@)
    } else {
        None
    }
}

/// What is wrong with the first bad one of a list of SSH options.
pub open spec fn options_problem(options: Seq<Seq<char>>) -> Option<Seq<char>>
    decreases options.len(),
{
    if options.len() == 0 {
        None
    } else {
        match option_problem(options[0]) {
            Some(p) => Some(p),
            None => options_problem(options.drop_first()),
        }
    }
}

impl ProfileModel {
    /// `user@host`, or just the host when no user is set.
    pub open spec fn destination(self) -> Seq<char> {
        if self.user.len() == 0 {
            self.host
        } else {
            self.user + seq!['@'] + self.host
        }
    }

    /// What is wrong with the connection, if anything: the first of these.
    pub open spec fn problem(self) -> Option<Seq<char>> {
        if text::blank(self.name) {
            Some("A name is required."@)
        } else if text::byte_len(self.name) > MAX_FIELD {
            Some("The name must be under "@ + text::decimal(MAX_FIELD as nat) + " characters."@)
        } else if text::blank(self.host) {
            Some("A host is required."@)
        } else if text::byte_len(self.host) > MAX_FIELD || text::byte_len(self.user) > MAX_FIELD {
            Some(
                "The host and user must each be under "@ + text::decimal(MAX_FIELD as nat)
                    + " characters."@,
            )
        } else if spaced(self.host) {
            Some("The host must not contain spaces."@)
        } else if dashed(self.host) || dashed(self.user) {
            Some("The host and user must not start with '-'."@)
        } else if has_char(self.user, '@') || spaced(self.user) {
            Some("The user must not contain '@' or spaces."@)
        } else if self.ssh_port == Some(0u16) || self.remote_port == Some(0u16) {
            Some("Ports must be between 1 and 65535."@)
        } else if self.size matches Some((w, h)) && (w == 0 || h == 0) {
            Some("The screen size must be positive."@)
        } else {
            options_problem(self.ssh_options)
        }
    }

    /// The command line that starts the session: the destination, then what is
    /// set, each value an argument of its own.
    pub open spec fn args(self) -> Seq<Seq<char>> {
        seq![self.destination()] + port_args("--port"@, self.ssh_port) + valued(
            "--identity"@,
            self.identity,
        ) + flagged("--ssh-option"@, self.ssh_options) + port_args(
            "--remote-port"@,
            self.remote_port,
        ) + valued("--size"@, sized(self.size)) + switch("--fullscreen"@, self.fullscreen) + switch(
            "--no-dynamic-resize"@,
            !self.dynamic_resize,
        ) + switch("--no-clipboard"@, !self.clipboard)
    }
}

/// A flag with its value, where there is one.
pub open spec fn valued(flag: Seq<char>, value: Option<Seq<char>>) -> Seq<Seq<char>> {
    match value {
        Some(v) => seq![flag, v],
        None => seq![],
    }
}

/// A flag with a port, where there is one.
pub open spec fn port_args(flag: Seq<char>, port: Option<u16>) -> Seq<Seq<char>> {
    match port {
        Some(p) => seq![flag, text::decimal(p as nat)],
        None => seq![],
    }
}

pub open spec fn sized(size: Option<(u16, u16)>) -> Option<Seq<char>> {
    match size {
        Some(s) => Some(size_text(s)),
        None => None,
    }
}

/// A flag on its own, where it is on.
pub open spec fn switch(flag: Seq<char>, on: bool) -> Seq<Seq<char>> {
    if on {
        seq![flag]
    } else {
        seq![]
    }
}

/// Each value behind a flag.
pub open spec fn flagged(flag: Seq<char>, values: Seq<Seq<char>>) -> Seq<Seq<char>>
    decreases values.len(),
{
    if values.len() == 0 {
        seq![]
    } else {
        flagged(flag, values.drop_last()) + seq![flag, values.last()]
    }
}

fn is_spaced(s: &str) -> (r: bool)
    ensures
        r == spaced(s@),
{
    let v = text::chars_of(s);
    let mut word = false;
    let mut gap = false;
    let mut i: usize = 0;
    let ghost mut first: int = 0;
    let ghost mut hole: int = 0;
    while i < v.len()
        invariant
            i <= v.len(),
            v@ == s@,
            word ==> 0 <= first < i && !text::white_space(v@[first]),
            !word ==> !gap && forall|a: int| 0 <= a < i ==> text::white_space(#[trigger] v@[a]),
            gap ==> word && first < hole < i && text::white_space(v@[hole]),
            !gap ==> forall|a: int, b: int|
                0 <= a < b < i && !text::white_space(#[trigger] v@[a]) ==> !text::white_space(
                    #[trigger] v@[b],
                ),
            forall|a: int, b: int, c: int|
                0 <= a < b < c < i && !text::white_space(#[trigger] v@[a]) && text::white_space(
                    #[trigger] v@[b],
                ) ==> text::white_space(#[trigger] v@[c]),
        decreases v.len() - i,
    {
        if text::is_white_space(v[i]) {
            if word && !gap {
                gap = true;
                proof {
                    hole = i as int;
                }
            }
        } else {
            if gap {
                assert(!text::white_space(v@[first]) && text::white_space(v@[hole])
                    && !text::white_space(v@[i as int]));
                return true;
            }
            if !word {
                word = true;
                proof {
                    first = i as int;
                }
            }
        }
        i = i + 1;
    }
    false
}

fn is_blank(s: &str) -> (r: bool)
    ensures
        r == text::blank(s@),
{
    let t = text::trimmed(s);
    proof {
        text::lemma_trim_blank(s@);
    }
    t.as_str().is_empty()
}

fn holds_char(s: &str, c: char) -> (r: bool)
    ensures
        r == has_char(s@, c),
{
    let v = text::chars_of(s);
    let i = text::position(&v, c, 0);
    if i < v.len() {
        assert(s@[i as int] == c);
    }
    i < v.len()
}

fn is_dashed(s: &str) -> (r: bool)
    ensures
        r == dashed(s@),
{
    let v = text::chars_of(s);
    v.len() > 0 && v[0] == '-'
}

/// `{width}x{height}`.
pub fn size_string(size: (u16, u16)) -> (s: String)
    ensures
        s@ == size_text(size),
{
    let mut s = text::decimal_of(size.0 as u64);
    s.push('x');
    let h = text::decimal_of(size.1 as u64);
    s.push_str(h.as_str());
    assert(s@ =~= size_text(size));
    s
}

fn limit_text(before: &str) -> (s: String)
    ensures
        s@ == before@ + text::decimal(MAX_FIELD as nat) + " characters."@,
{
    let mut s = text::copy(before);
    let n = text::decimal_of(MAX_FIELD as u64);
    s.push_str(n.as_str());
    s.push_str(" characters.");
    s
}

fn some_text(s: &str) -> (r: Option<String>)
    ensures
        r matches Some(t) && t@ == s@,
{
    Some(text::copy(s))
}

impl Clone for Profile {
    fn clone(&self) -> (r: Profile)
        ensures
            r@ == self@,
    {
        Profile {
            name: text::copy(self.name.as_str()),
            host: text::copy(self.host.as_str()),
            user: text::copy(self.user.as_str()),
            ssh_port: self.ssh_port,
            identity: match &self.identity {
                Some(p) => Some(text::copy(p.as_str())),
                None => None,
            },
            ssh_options: text::copy_all(&self.ssh_options),
            remote_port: self.remote_port,
            size: self.size,
            fullscreen: self.fullscreen,
            dynamic_resize: self.dynamic_resize,
            clipboard: self.clipboard,
        }
    }
}

impl Default for Profile {
    fn default() -> (r: Profile)
        ensures
            r@ == unset(seq![], false),
    {
        let p = Profile {
            name: String::new(),
            host: String::new(),
            user: String::new(),
            ssh_port: None,
            identity: None,
            ssh_options: Vec::new(),
            remote_port: None,
            size: None,
            fullscreen: false,
            dynamic_resize: false,
            clipboard: false,
        };
        assert(p@ =~= unset(seq![], false));
        p
    }
}

impl Profile {
    /// A new profile with the defaults the editor should start from.
    ///
    /// `Default` cannot be used for this: `dynamic_resize` and `clipboard`
    /// are on unless turned off, and a flag's default is off.
    pub fn new(name: &str) -> (p: Profile)
        ensures
            p@ == unset(name@, true),
    {
        let mut p = Profile::default();
        p.name = text::copy(name);
        p.dynamic_resize = true;
        p.clipboard = true;
        assert(p@ =~= unset(name@, true));
        p
    }

    /// `user@host`, or just the host when no user is set.
    pub fn destination(&self) -> (s: String)
        ensures
            s@ == self@.destination(),
    {
        if self.user.as_str().is_empty() {
            text::copy(self.host.as_str())
        } else {
            let mut s = text::copy(self.user.as_str());
            s.push('@');
            s.push_str(self.host.as_str());
            assert(s@ =~= self@.destination());
            s
        }
    }

    /// What is wrong with this profile, if anything.
    ///
    /// Returned as a message for the editor to show rather than an error to
    /// propagate, because the caller is a form the user is still filling in.
    pub fn problem(&self) -> (r: Option<String>)
        ensures
            text_of(r) == self@.problem(),
    {
        if is_blank(self.name.as_str()) {
            return some_text("A name is required.");
        }
        if text::bytes_in(self.name.as_str()) > MAX_FIELD {
            return Some(limit_text("The name must be under "));
        }
        if is_blank(self.host.as_str()) {
            return some_text("A host is required.");
        }
        if text::bytes_in(self.host.as_str()) > MAX_FIELD || text::bytes_in(self.user.as_str())
            > MAX_FIELD {
            return Some(limit_text("The host and user must each be under "));
        }
        // A host with white space would be split when it reaches ssh, and a
        // leading dash would be read as an option.
        if is_spaced(self.host.as_str()) {
            return some_text("The host must not contain spaces.");
        }
        if is_dashed(self.host.as_str()) || is_dashed(self.user.as_str()) {
            return some_text("The host and user must not start with '-'.");
        }
        if holds_char(self.user.as_str(), '@') || is_spaced(self.user.as_str()) {
            return some_text("The user must not contain '@' or spaces.");
        }
        let ssh_zero = match self.ssh_port {
            Some(p) => p == 0,
            None => false,
        };
        let remote_zero = match self.remote_port {
            Some(p) => p == 0,
            None => false,
        };
        if ssh_zero || remote_zero {
            return some_text("Ports must be between 1 and 65535.");
        }
        match self.size {
            Some((w, h)) => {
                if w == 0 || h == 0 {
                    return some_text("The screen size must be positive.");
                }
            },
            None => {},
        }
        self.option_error()
    }

    fn option_error(&self) -> (r: Option<String>)
        ensures
            text_of(r) == options_problem(self@.ssh_options),
    {
        let ghost all = self@.ssh_options;
        let mut i: usize = 0;
        assert(all.skip(0) =~= all);
        while i < self.ssh_options.len()
            invariant
                i <= self.ssh_options.len(),
                all == text::texts(self.ssh_options@),
                options_problem(all) == options_problem(all.skip(i as int)),
            decreases self.ssh_options.len() - i,
        {
            let option = self.ssh_options[i].as_str();
            let ghost rest = all.skip(i as int);
            assert(rest[0] == option@);
            assert(rest.drop_first() =~= all.skip(i + 1));
            if is_blank(option) {
                return some_text("An SSH option is blank.");
            }
            if !holds_char(option, '=') {
                let mut s = text::copy("SSH option ");
                let q = quote(option);
                s.push_str(q.as_str());
                s.push_str(" should look like Key=value.");
                return Some(s);
            }
            i = i + 1;
        }
        None
    }

    /// The command line that starts this session.
    ///
    /// Returned as separate arguments, never a shell string: the launcher
    /// spawns the binary directly, so a host or option containing a space or
    /// a quote cannot turn into extra arguments.
    pub fn args(&self) -> (args: Vec<String>)
        ensures
            text::texts(args@) == self@.args(),
    {
        let mut args: Vec<String> = Vec::new();
        push_arg(&mut args, self.destination());
        assert(text::texts(args@) =~= seq![self@.destination()]);
        push_port(&mut args, "--port", self.ssh_port);
        let identity = match &self.identity {
            Some(path) => Some(text::copy(path.as_str())),
            None => None,
        };
        push_value(&mut args, "--identity", identity);
        push_flagged(&mut args, "--ssh-option", &self.ssh_options);
        push_port(&mut args, "--remote-port", self.remote_port);
        let size = match self.size {
            Some(s) => Some(size_string(s)),
            None => None,
        };
        push_value(&mut args, "--size", size);
        push_switch(&mut args, "--fullscreen", self.fullscreen);
        push_switch(&mut args, "--no-dynamic-resize", !self.dynamic_resize);
        push_switch(&mut args, "--no-clipboard", !self.clipboard);
        args
    }
}

pub(crate) fn push_value(args: &mut Vec<String>, flag: &str, value: Option<String>)
    ensures
        text::texts(final(args)@) == text::texts(old(args)@) + valued(flag@, text_of(value)),
{
    match value {
        Some(v) => {
            push_arg(args, text::copy(flag));
            push_arg(args, v);
        },
        None => {},
    }
    assert(text::texts(args@) =~= text::texts(old(args)@) + valued(flag@, text_of(value)));
}

pub(crate) fn push_port(args: &mut Vec<String>, flag: &str, port: Option<u16>)
    ensures
        text::texts(final(args)@) == text::texts(old(args)@) + port_args(flag@, port),
{
    match port {
        Some(p) => {
            push_arg(args, text::copy(flag));
            push_arg(args, text::decimal_of(p as u64));
        },
        None => {},
    }
    assert(text::texts(args@) =~= text::texts(old(args)@) + port_args(flag@, port));
}

fn push_switch(args: &mut Vec<String>, flag: &str, on: bool)
    ensures
        text::texts(final(args)@) == text::texts(old(args)@) + switch(flag@, on),
{
    if on {
        push_arg(args, text::copy(flag));
    }
    assert(text::texts(args@) =~= text::texts(old(args)@) + switch(flag@, on));
}

pub(crate) fn push_flagged(args: &mut Vec<String>, flag: &str, values: &Vec<String>)
    ensures
        text::texts(final(args)@) == text::texts(old(args)@) + flagged(
            flag@,
            text::texts(values@),
        ),
{
    let ghost before = text::texts(args@);
    let ghost all = text::texts(values@);
    let mut i: usize = 0;
    assert(before + flagged(flag@, all.take(0)) =~= before);
    while i < values.len()
        invariant
            i <= values.len(),
            all == text::texts(values@),
            text::texts(args@) == before + flagged(flag@, all.take(i as int)),
        decreases values.len() - i,
    {
        let ghost head = flagged(flag@, all.take(i as int));
        assert(all.take(i + 1).drop_last() =~= all.take(i as int));
        push_arg(args, text::copy(flag));
        push_arg(args, text::copy(values[i].as_str()));
        assert((before + head).push(flag@).push(all[i as int]) =~= before + (head + seq![
            flag@,
            all[i as int],
        ]));
        i = i + 1;
    }
    assert(all.take(all.len() as int) =~= all);
}

pub(crate) fn push_arg(args: &mut Vec<String>, arg: String)
    ensures
        text::texts(final(args)@) == text::texts(old(args)@).push(arg@),
{
    let ghost before = args@;
    args.push(arg);
    assert(text::texts(args@) =~= text::texts(before).push(arg@));
}

/// The destination leads the command line.
pub proof fn law_args_lead_with_destination(m: ProfileModel)
    ensures
        m.args().len() > 0,
        m.args()[0] == m.destination(),
{
}

/// A connection with no problem has a destination that SSH takes for one: it
/// does not begin with a dash and is not empty.
pub proof fn law_sound_destination(m: ProfileModel)
    requires
        m.problem() is None,
    ensures
        m.destination().len() > 0,
        !dashed(m.destination()),
{
}

// ---------------------------------------------------------------------------
// The list
// ---------------------------------------------------------------------------

/// The saved connections, in the order they are shown.
#[derive(Clone, Debug, PartialEq, Eq)]
pub struct Profiles {
    pub items: Vec<Profile>,
}

/// The connections of a list as their texts and numbers.
pub open spec fn models(items: Seq<Profile>) -> Seq<ProfileModel> {
    items.map_values(|p: Profile| p@)
}

/// The names of a list.
pub open spec fn names(items: Seq<Profile>) -> Seq<Seq<char>> {
    items.map_values(|p: Profile| p.name@)
}

/// Whether `i` is the first place a name stands at.
pub open spec fn is_first(all: Seq<Seq<char>>, name: Seq<char>, i: int) -> bool {
    0 <= i < all.len() && all[i] == name && forall|j: int| 0 <= j < i ==> all[j] != name
}

/// Whether no name stands in a list twice.
pub open spec fn distinct(all: Seq<Seq<char>>) -> bool {
    forall|i: int, j: int| 0 <= i < j < all.len() ==> all[i] != all[j]
}

/// Where a name that stands in a list first stands in it.
pub open spec fn find(all: Seq<Seq<char>>, name: Seq<char>) -> int {
    choose|i: int| is_first(all, name, i)
}

pub proof fn lemma_find(all: Seq<Seq<char>>, name: Seq<char>, i: int)
    requires
        is_first(all, name, i),
    ensures
        find(all, name) == i,
        all.contains(name),
{
    let k = find(all, name);
    assert(is_first(all, name, k));
    assert(all[i] == name);
}

/// A name that stands in a list first stands somewhere.
pub proof fn lemma_find_exists(all: Seq<Seq<char>>, name: Seq<char>)
    requires
        all.contains(name),
    ensures
        is_first(all, name, find(all, name)),
{
    let i = choose|i: int| 0 <= i < all.len() && all[i] == name;
    lemma_first_up_to(all, name, i);
}

proof fn lemma_first_up_to(all: Seq<Seq<char>>, name: Seq<char>, i: int)
    requires
        0 <= i < all.len(),
        all[i] == name,
    ensures
        exists|k: int| is_first(all, name, k),
    decreases i,
{
    if forall|j: int| 0 <= j < i ==> all[j] != name {
        assert(is_first(all, name, i));
    } else {
        let j = choose|j: int| 0 <= j < i && all[j] == name;
        lemma_first_up_to(all, name, j);
    }
}

/// The names of a list of connections.
pub open spec fn model_names(items: Seq<ProfileModel>) -> Seq<Seq<char>> {
    items.map_values(|p: ProfileModel| p.name)
}

/// A list with a connection saved: in place of the one of its name, or at the
/// end.
pub open spec fn upserted(items: Seq<ProfileModel>, p: ProfileModel) -> Seq<ProfileModel> {
    if model_names(items).contains(p.name) {
        items.update(find(model_names(items), p.name), p)
    } else {
        items.push(p)
    }
}

/// A list without the first connection of a name.
pub open spec fn without_name(items: Seq<ProfileModel>, name: Seq<char>) -> Seq<ProfileModel> {
    if model_names(items).contains(name) {
        items.remove(find(model_names(items), name))
    } else {
        items
    }
}

/// The name a new connection starts from: the base without white space around
/// it, or a stock one where nothing is left.
pub open spec fn base_name(base: Seq<char>) -> Seq<char> {
    if text::blank(base) {
        "New connection"@
    } else {
        text::trim(base)
    }
}

/// The base with a number behind it.
pub open spec fn numbered(base: Seq<char>, n: nat) -> Seq<char> {
    base + seq![' '] + text::decimal(n)
}

/// The candidate names, in order: the base, then the base numbered from two.
pub open spec fn candidate(base: Seq<char>, n: nat) -> Seq<char> {
    if n <= 1 {
        base
    } else {
        numbered(base, n)
    }
}

/// Whether `n` is the first candidate that is free.
pub open spec fn first_free(all: Seq<Seq<char>>, base: Seq<char>, n: nat) -> bool {
    n >= 1 && !all.contains(candidate(base, n)) && forall|k: nat|
        1 <= k < n ==> all.contains(#[trigger] candidate(base, k))
}

impl Default for Profiles {
    fn default() -> (r: Profiles)
        ensures
            r.items@.len() == 0,
    {
        Profiles { items: Vec::new() }
    }
}

impl Profiles {
    pub open spec fn names(self) -> Seq<Seq<char>> {
        names(self.items@)
    }

    /// Take a list that was read, unless it would make the launcher unusable.
    pub fn from_items(items: Vec<Profile>) -> (r: Result<Profiles, String>)
        ensures
            match r {
                Ok(p) => items@.len() <= MAX_PROFILES && p.items == items,
                Err(e) => items@.len() > MAX_PROFILES && e@ == text::decimal(items@.len())
                    + " saved connections is more than the "@ + text::decimal(MAX_PROFILES as nat)
                    + " supported"@,
            },
    {
        if items.len() > MAX_PROFILES {
            let mut s = text::decimal_of(items.len() as u64);
            s.push_str(" saved connections is more than the ");
            let n = text::decimal_of(MAX_PROFILES as u64);
            s.push_str(n.as_str());
            s.push_str(" supported");
            return Err(s);
        }
        Ok(Profiles { items })
    }

    /// Position of a profile by name.
    pub fn position(&self, name: &str) -> (r: Option<usize>)
        ensures
            match r {
                Some(i) => is_first(self.names(), name@, i as int),
                None => !self.names().contains(name@),
            },
    {
        let ghost all = self.names();
        let mut i: usize = 0;
        while i < self.items.len()
            invariant
                i <= self.items.len(),
                all == self.names(),
                forall|k: int| 0 <= k < i ==> all[k] != name@,
            decreases self.items.len() - i,
        {
            assert(all[i as int] == self.items@[i as int].name@);
            if text::same(self.items[i].name.as_str(), name) {
                return Some(i);
            }
            i = i + 1;
        }
        None
    }

    /// Add a profile, or replace the one that has the same name.
    ///
    /// Returns whether it replaced an existing entry, which the caller uses
    /// to decide whether the list selection should move.
    pub fn upsert(&mut self, profile: Profile) -> (replaced: bool)
        ensures
            models(final(self).items@) == upserted(models(old(self).items@), profile@),
            replaced == old(self).names().contains(profile.name@),
            if replaced {
                exists|i: int|
                    #[trigger] is_first(old(self).names(), profile.name@, i) && final(self).items@
                        == old(self).items@.update(i, profile)
            } else {
                final(self).items@ == old(self).items@.push(profile)
            },
    {
        match self.position(profile.name.as_str()) {
            Some(index) => {
                assert(is_first(self.names(), profile.name@, index as int));
                assert(self.names()[index as int] == profile.name@);
                proof {
                    assert(model_names(models(self.items@)) =~= self.names());
                    lemma_find(self.names(), profile.name@, index as int);
                }
                let ghost before = self.items@;
                self.items.set(index, profile);
                assert(models(self.items@) =~= models(before).update(index as int, profile@));
                true
            },
            None => {
                let ghost before = self.items@;
                proof {
                    assert(model_names(models(before)) =~= self.names());
                }
                self.items.push(profile);
                assert(models(self.items@) =~= models(before).push(profile@));
                false
            },
        }
    }

    /// Whether a name is another connection's.
    pub open spec fn taken(self, name: Seq<char>, excluding: Option<&str>, r: bool) -> bool {
        &&& r == (self.names().contains(name) && !(excluding matches Some(e) && e@ == name))
    }

    /// Whether `name` belongs to some profile other than `excluding`.
    ///
    /// The name is the key: [`Profiles::upsert`] replaces the entry that has
    /// it, so an editor that saved onto a name already in use would quietly
    /// fold two connections into one. `excluding` is the name the editor
    /// started from, since saving a profile back under its own name is not a
    /// clash.
    pub fn name_taken(&self, name: &str, excluding: Option<&str>) -> (r: bool)
        ensures
            r == (self.names().contains(name@) && !(excluding matches Some(e) && e@ == name@)),
            self.taken(name@, excluding, r),
    {
        let excluded = match excluding {
            Some(e) => text::same(e, name),
            None => false,
        };
        let at = self.position(name);
        proof {
            if let Some(i) = at {
                assert(self.names()[i as int] == name@);
            }
        }
        at.is_some() && !excluded
    }

    /// Remove by name, returning whether anything went.
    pub fn remove(&mut self, name: &str) -> (removed: bool)
        ensures
            models(final(self).items@) == without_name(models(old(self).items@), name@),
            removed == old(self).names().contains(name@),
            if removed {
                exists|i: int|
                    #[trigger] is_first(old(self).names(), name@, i) && final(self).items@
                        == old(self).items@.remove(i)
            } else {
                final(self).items@ == old(self).items@
            },
    {
        match self.position(name) {
            Some(index) => {
                assert(is_first(self.names(), name@, index as int));
                assert(self.names()[index as int] == name@);
                proof {
                    assert(model_names(models(self.items@)) =~= self.names());
                    lemma_find(self.names(), name@, index as int);
                }
                let ghost before = self.items@;
                self.items.remove(index);
                assert(models(self.items@) =~= models(before).remove(index as int));
                true
            },
            None => {
                proof {
                    assert(model_names(models(self.items@)) =~= self.names());
                }
                false
            },
        }
    }

    /// A name not already taken, derived from `base`.
    ///
    /// Used when adding a connection so two entries never collide, since the
    /// name is the key. The base itself comes first, then the base with a
    /// number behind it, and one more candidate than there are connections is
    /// always enough.
    pub fn unique_name(&self, base: &str) -> (r: String)
        requires
            self.items@.len() < usize::MAX,
        ensures
            !self.names().contains(r@),
            exists|n: nat| #[trigger]
                first_free(self.names(), base_name(base@), n) && r@ == candidate(
                    base_name(base@),
                    n,
                ),
    {
        let trimmed = text::trimmed(base);
        proof {
            text::lemma_trim_blank(base@);
        }
        let start = if trimmed.as_str().is_empty() {
            text::copy("New connection")
        } else {
            trimmed
        };
        let ghost b = base_name(base@);
        let ghost all = self.names();
        let total: usize = self.items.len();
        let mut n: usize = 1;
        while n <= total
            invariant
                1 <= n <= total + 1,
                total < usize::MAX,
                total == self.items@.len(),
                b == base_name(base@),
                b == start@,
                all == self.names(),
                forall|k: nat| 1 <= k < n ==> all.contains(#[trigger] candidate(b, k)),
            decreases total + 1 - n,
        {
            let name = candidate_text(start.as_str(), n);
            match self.position(name.as_str()) {
                Some(i) => {
                    assert(all[i as int] == candidate(b, n as nat));
                },
                None => {
                    assert(first_free(all, b, n as nat));
                    return name;
                },
            }
            n = n + 1;
        }
        proof {
            law_unique_name_is_free(all, b);
            assert(first_free(all, b, n as nat));
        }
        candidate_text(start.as_str(), n)
    }
}

fn candidate_numbered(base: &str, n: usize) -> (s: String)
    ensures
        s@ == numbered(base@, n as nat),
{
    let mut s = text::copy(base);
    s.push(' ');
    let d = text::decimal_of(n as u64);
    s.push_str(d.as_str());
    assert(s@ =~= numbered(base@, n as nat));
    s
}

fn candidate_text(base: &str, n: usize) -> (s: String)
    ensures
        s@ == candidate(base@, n as nat),
{
    if n <= 1 {
        text::copy(base)
    } else {
        candidate_numbered(base, n)
    }
}

/// Saving a connection keeps names unique, and leaves every other connection
/// and the order of the list as they were.
pub proof fn law_upsert_keeps_names_unique(items: Seq<ProfileModel>, p: ProfileModel)
    requires
        distinct(model_names(items)),
    ensures
        distinct(model_names(upserted(items, p))),
        upserted(items, p).contains(p),
        model_names(upserted(items, p)) == if model_names(items).contains(p.name) {
            model_names(items)
        } else {
            model_names(items).push(p.name)
        },
        forall|i: int|
            0 <= i < items.len() && (#[trigger] items[i]).name != p.name ==> upserted(items, p)[i]
                == items[i],
{
    let all = model_names(items);
    let after = upserted(items, p);
    if all.contains(p.name) {
        lemma_find_exists(all, p.name);
        let at = find(all, p.name);
        assert(after[at] == p);
        assert(model_names(after) =~= all);
        assert forall|i: int| 0 <= i < items.len() && (#[trigger] items[i]).name != p.name implies after[i]
            == items[i] by {
            assert(all[i] != p.name);
        }
    } else {
        assert(after[items.len() as int] == p);
        assert(model_names(after) =~= all.push(p.name));
    }
}

/// Removing a connection frees its name, keeps names unique and loses no other
/// connection.
pub proof fn law_remove_frees_the_name(items: Seq<ProfileModel>, name: Seq<char>)
    requires
        distinct(model_names(items)),
    ensures
        distinct(model_names(without_name(items, name))),
        !model_names(without_name(items, name)).contains(name),
        forall|i: int|
            0 <= i < items.len() && (#[trigger] items[i]).name != name ==> without_name(
                items,
                name,
            ).contains(items[i]),
{
    let all = model_names(items);
    let after = without_name(items, name);
    if all.contains(name) {
        lemma_find_exists(all, name);
        let at = find(all, name);
        assert(model_names(after) =~= all.remove(at));
        assert forall|i: int| 0 <= i < after.len() implies model_names(after)[i] != name by {
            if i < at {
                assert(model_names(after)[i] == all[i]);
            } else {
                assert(model_names(after)[i] == all[i + 1]);
            }
        }
        assert forall|i: int|
            0 <= i < items.len() && (#[trigger] items[i]).name != name implies after.contains(
            items[i],
        ) by {
            assert(all[i] != name);
            if i < at {
                assert(after[i] == items[i]);
            } else {
                assert(after[i - 1] == items[i]);
            }
        }
    } else {
        assert forall|i: int| 0 <= i < items.len() implies after.contains(#[trigger] items[i]) by {
            assert(after[i] == items[i]);
        }
    }
}

proof fn lemma_candidates_differ(base: Seq<char>, m: nat, n: nat)
    requires
        1 <= m < n,
    ensures
        candidate(base, m) != candidate(base, n),
{
    let a = candidate(base, m);
    let b = candidate(base, n);
    text::lemma_decimal_digits(m);
    text::lemma_decimal_digits(n);
    if a == b {
        if m == 1 {
            assert(b.len() > base.len());
        } else {
            let k = base.len() + 1;
            assert(a.skip(k as int) =~= text::decimal(m));
            assert(b.skip(k as int) =~= text::decimal(n));
            assert(text::value(text::decimal(m)) == text::value(text::decimal(n)));
        }
    }
}

/// However many connections there are, some candidate up to one more than
/// their number is free: the name a new connection gets is one no other
/// connection has.
pub proof fn law_unique_name_is_free(all: Seq<Seq<char>>, base: Seq<char>)
    ensures
        exists|n: nat| 1 <= n <= all.len() + 1 && !all.contains(#[trigger] candidate(base, n)),
{
    if forall|n: nat| 1 <= n <= all.len() + 1 ==> all.contains(#[trigger] candidate(base, n)) {
        let total = (all.len() + 1) as nat;
        let place = Seq::new(
            total,
            |k: int| choose|i: int| 0 <= i < all.len() && all[i] == candidate(base, (k + 1) as nat),
        );
        assert forall|k: int| 0 <= k < total implies 0 <= #[trigger] place[k] < all.len()
            && all[place[k]] == candidate(base, (k + 1) as nat) by {
            assert(all.contains(candidate(base, (k + 1) as nat)));
        }
        assert(place.no_duplicates()) by {
            assert forall|a: int, b: int| 0 <= a < total && 0 <= b < total && a != b implies place[a]
                != place[b] by {
                if a < b {
                    lemma_candidates_differ(base, (a + 1) as nat, (b + 1) as nat);
                } else {
                    lemma_candidates_differ(base, (b + 1) as nat, (a + 1) as nat);
                }
            }
        }
        place.unique_seq_to_set();
        let range = vstd::set_lib::set_int_range(0, all.len() as int);
        vstd::set_lib::lemma_int_range(0, all.len() as int);
        assert(place.to_set().subset_of(range)) by {
            assert forall|x: int| place.to_set().contains(x) implies range.contains(x) by {
                let k = choose|k: int| 0 <= k < place.len() && place[k] == x;
                assert(0 <= place[k] < all.len());
            }
        }
        vstd::set_lib::lemma_len_subset(place.to_set(), range);
        assert(false);
    }
}

// ---------------------------------------------------------------------------
// Files
// ---------------------------------------------------------------------------

/// The suffix of the `n`th name a bad file may be moved to.
pub open spec fn aside_suffix(n: u32) -> Seq<char> {
    if n <= 1 {
        ".bad"@
    } else {
        ".bad."@ + text::decimal(n as nat)
    }
}

/// The `n`th name to move an unreadable connections file to.
///
/// Numbered rather than overwriting, because the file being moved aside is by
/// definition the only copy of connections we could not read.
pub fn aside_name(path: &str, n: u32) -> (s: String)
    ensures
        s@ == path@ + aside_suffix(n),
{
    let mut s = text::copy(path);
    if n <= 1 {
        s.push_str(".bad");
    } else {
        s.push_str(".bad.");
        let d = text::decimal_of(n as u64);
        s.push_str(d.as_str());
        assert(s@ =~= path@ + aside_suffix(n));
    }
    s
}

/// What came of trying to create a file that must not exist yet.
#[derive(Clone, Copy, Debug, PartialEq, Eq, Structural)]
pub enum Created {
    /// It was created.
    New,
    /// It was there already.
    Taken,
    /// Something else went wrong.
    Failed,
}

/// What to do about a name to move a file to.
#[derive(Clone, Copy, Debug, PartialEq, Eq, Structural)]
pub enum Reserve {
    /// The name is ours.
    Use,
    /// Try the next.
    Next,
    /// Give up: every name is taken.
    Full,
    /// Give up: the name could not be created.
    Broken,
}

/// What is done about a name that was tried.
pub open spec fn reserved(n: u32, created: Created, r: Reserve) -> bool {
    &&& r == match created {
            Created::New => Reserve::Use,
            Created::Failed => Reserve::Broken,
            Created::Taken => if n < MAX_ASIDE {
                Reserve::Next
            } else {
                Reserve::Full
            },
        }
}

/// Whether to use the `n`th name, now that creating it came to this.
///
/// The name is created rather than tested for: two windows can reach this at
/// the same moment, and a test would let both pick the same name.
pub fn reserve_aside(n: u32, created: Created) -> (r: Reserve)
    ensures
        r == match created {
            Created::New => Reserve::Use,
            Created::Failed => Reserve::Broken,
            Created::Taken => if n < MAX_ASIDE {
                Reserve::Next
            } else {
                Reserve::Full
            },
        },
        reserved(n, created, r),
{
    match created {
        Created::New => Reserve::Use,
        Created::Failed => Reserve::Broken,
        Created::Taken => if n < MAX_ASIDE {
            Reserve::Next
        } else {
            Reserve::Full
        },
    }
}

/// The names a bad file may be moved to all differ, so none is written over.
pub proof fn law_aside_names_differ(path: Seq<char>, m: u32, n: u32)
    requires
        1 <= m < n,
    ensures
        path + aside_suffix(m) != path + aside_suffix(n),
{
    reveal_strlit(".bad");
    reveal_strlit(".bad.");
    text::lemma_decimal_digits(m as nat);
    text::lemma_decimal_digits(n as nat);
    let a = path + aside_suffix(m);
    let b = path + aside_suffix(n);
    if a == b {
        if m == 1 {
            assert(a.len() == path.len() + 4);
            assert(b.len() > path.len() + 5);
        } else {
            let k = path.len() + 5;
            assert(a.skip(k as int) =~= text::decimal(m as nat));
            assert(b.skip(k as int) =~= text::decimal(n as nat));
        }
    }
}

/// The name a new file is staged under before it takes the place of `path`.
///
/// It carries the process, and that is the whole point: a fixed name would be
/// shared by every launcher a user has open, and two of them saving at once
/// would write the same staging file.
pub fn temp_path(path: &str, process: u32) -> (s: String)
    ensures
        s@ == path@ + seq!['.'] + text::decimal(process as nat) + ".new"@,
{
    let mut s = text::copy(path);
    s.push('.');
    let d = text::decimal_of(process as u64);
    s.push_str(d.as_str());
    s.push_str(".new");
    assert(s@ =~= path@ + seq!['.'] + text::decimal(process as nat) + ".new"@);
    s
}

/// Two processes never stage a file under the same name.
pub proof fn law_staging_names_differ(path: Seq<char>, a: u32, b: u32)
    requires
        a != b,
    ensures
        path + seq!['.'] + text::decimal(a as nat) + ".new"@ != path + seq!['.'] + text::decimal(
            b as nat,
        ) + ".new"@,
{
    let x = path + seq!['.'] + text::decimal(a as nat) + ".new"@;
    let y = path + seq!['.'] + text::decimal(b as nat) + ".new"@;
    if x == y {
        let k = path.len() + 1;
        let tail = ".new"@.len();
        assert(x.subrange(k as int, x.len() - tail) =~= text::decimal(a as nat));
        assert(y.subrange(k as int, y.len() - tail) =~= text::decimal(b as nat));
        text::lemma_decimal_digits(a as nat);
        text::lemma_decimal_digits(b as nat);
    }
}

/// Which of the platforms this runs on, as far as paths and configuration go.
#[derive(Clone, Copy, Debug, PartialEq, Eq, Structural)]
pub enum Platform {
    /// Linux and its like.
    Unix,
    MacOs,
    Windows,
}

/// The parts of the environment that say where configuration lives.
#[derive(Clone, Debug, PartialEq, Eq)]
pub struct ConfigEnv {
    pub platform: Platform,
    /// The override of the configuration directory.
    pub lynxrdp: Option<String>,
    /// The base directory of user configuration.
    pub xdg: Option<String>,
    /// The home directory.
    pub home: Option<String>,
    /// The directory of application data.
    pub appdata: Option<String>,
}

/// A directory and a name in it. The empty path is the directory at hand.
pub open spec fn joined(dir: Seq<char>, name: Seq<char>) -> Seq<char> {
    if dir.len() == 0 || dir.last() == '/' {
        dir + name
    } else {
        dir + seq!['/'] + name
    }
}

fn join(dir: &str, name: &str) -> (s: String)
    ensures
        s@ == joined(dir@, name@),
{
    let slash = dir.is_empty() || text::finishes(dir, "/");
    proof {
        reveal_strlit("/");
        if dir@.len() > 0 {
            let k = dir@.len() - 1;
            assert(dir@.subrange(k, k + 1) =~= seq![dir@.last()]);
            assert("/"@ =~= seq!['/']);
            assert(seq![dir@.last()] == seq!['/'] ==> seq![dir@.last()][0] == seq!['/'][0]);
        }
    }
    let mut s = text::copy(dir);
    if !slash {
        s.push('/');
    }
    s.push_str(name);
    assert(s@ =~= joined(dir@, name@));
    s
}

/// A drive and nothing more. What follows it is relative to the directory that
/// is current on that drive.
pub open spec fn bare_drive(path: Seq<char>) -> bool {
    path.len() == 2 && path[1] == ':' && ('a' <= path[0] <= 'z' || 'A' <= path[0] <= 'Z')
}

/// A path that Windows takes as it is written: a slash in it is part of a name.
pub open spec fn verbatim(path: Seq<char>) -> bool {
    path.len() >= 4 && path[0] == '\\' && path[1] == '\\' && path[2] == '?' && path[3] == '\\'
}

/// A directory and a name in it, on a platform where a path is parted by a
/// backslash, and may be by a slash.
pub open spec fn joined_windows(dir: Seq<char>, name: Seq<char>) -> Seq<char> {
    if dir.len() == 0 || bare_drive(dir) || dir.last() == '\\' || (dir.last() == '/' && !verbatim(
        dir,
    )) {
        dir + name
    } else {
        dir + seq!['\\'] + name
    }
}

/// A directory and a name in it.
pub open spec fn joined_on(platform: Platform, dir: Seq<char>, name: Seq<char>) -> Seq<char> {
    if platform == Platform::Windows {
        joined_windows(dir, name)
    } else {
        joined(dir, name)
    }
}

pub(crate) fn join_on(platform: Platform, dir: &str, name: &str) -> (s: String)
    ensures
        s@ == joined_on(platform, dir@, name@),
{
    if platform != Platform::Windows {
        return join(dir, name);
    }
    let v = text::chars_of(dir);
    let mut s = text::copy(dir);
    let n: usize = v.len();
    let drive = n == 2 && v[1] == ':' && (('a' <= v[0] && v[0] <= 'z') || ('A' <= v[0] && v[0]
        <= 'Z'));
    let literal = n >= 4 && v[0] == '\\' && v[1] == '\\' && v[2] == '?' && v[3] == '\\';
    let ended = n == 0 || v[n - 1] == '\\' || (v[n - 1] == '/' && !literal);
    if !ended && !drive {
        s.push('\\');
    }
    s.push_str(name);
    assert(s@ =~= joined_windows(dir@, name@));
    s
}

/// Where configuration lives. An override that is not empty wins everywhere.
/// Else it is the platform's own place: the base directory of user
/// configuration if that is not empty or a directory of the home directory, the
/// home directory's library, or the directory of application data.
pub open spec fn config_dir_of(env: ConfigEnv) -> Option<Seq<char>> {
    if env.lynxrdp matches Some(dir) && dir@.len() > 0 {
        Some(env.lynxrdp->0@)
    } else {
        match env.platform {
            Platform::MacOs => match env.home {
                Some(home) => Some(
                    joined(
                        joined(joined(home@, "Library"@), "Application Support"@),
                        "LynxRDP"@,
                    ),
                ),
                None => None,
            },
            Platform::Windows => match env.appdata {
                Some(base) => Some(joined_windows(base@, "LynxRDP"@)),
                None => None,
            },
            Platform::Unix => if env.xdg matches Some(dir) && dir@.len() > 0 {
                Some(joined(env.xdg->0@, "lynxrdp"@))
            } else {
                match env.home {
                    Some(home) => Some(joined(joined(home@, ".config"@), "lynxrdp"@)),
                    None => None,
                }
            },
        }
    }
}

/// Configuration directory for this application on this platform.
pub fn config_dir(env: &ConfigEnv) -> (r: Option<String>)
    ensures
        text_of(r) == config_dir_of(*env),
{
    if let Some(dir) = &env.lynxrdp {
        if !dir.as_str().is_empty() {
            return Some(text::copy(dir.as_str()));
        }
    }
    match env.platform {
        Platform::MacOs => match &env.home {
            Some(home) => {
                let library = join(home.as_str(), "Library");
                let support = join(library.as_str(), "Application Support");
                Some(join(support.as_str(), "LynxRDP"))
            },
            None => None,
        },
        Platform::Windows => match &env.appdata {
            Some(base) => Some(join_on(Platform::Windows, base.as_str(), "LynxRDP")),
            None => None,
        },
        Platform::Unix => {
            if let Some(dir) = &env.xdg {
                if !dir.as_str().is_empty() {
                    return Some(join(dir.as_str(), "lynxrdp"));
                }
            }
            match &env.home {
                Some(home) => {
                    let config = join(home.as_str(), ".config");
                    Some(join(config.as_str(), "lynxrdp"))
                },
                None => None,
            }
        },
    }
}

impl Profiles {
    /// Where the connections file lives.
    pub fn default_path(env: &ConfigEnv) -> (r: Result<String, String>)
        ensures
            match r {
                Ok(path) => config_dir_of(*env) matches Some(dir) && path@ == joined_on(
                    env.platform,
                    dir,
                    FILE_NAME@,
                ),
                Err(e) => config_dir_of(*env) is None && e@
                    == "could not determine a configuration directory"@,
            },
    {
        match config_dir(env) {
            Some(dir) => Ok(join_on(env.platform, dir.as_str(), FILE_NAME)),
            None => Err(text::copy("could not determine a configuration directory")),
        }
    }
}

// ---------------------------------------------------------------------------
// Laws of what a connection says and where it is kept
// ---------------------------------------------------------------------------

/// A new connection has its name and nothing else; its screen follows the window
/// and its clipboard is shared.
pub proof fn law_new_connection_is_bare(name: Seq<char>)
    ensures
        ({
            let p = unset(name, true);
            &&& p.name == name
            &&& p.host.len() == 0 && p.user.len() == 0 && p.ssh_options.len() == 0
            &&& p.ssh_port is None && p.remote_port is None && p.size is None && p.identity is None
            &&& !p.fullscreen && p.dynamic_resize && p.clipboard
        }),
        !unset(name, false).dynamic_resize && !unset(name, false).clipboard,
{
}

/// The destination is the host, with the user and an at sign before it where
/// there is a user.
pub proof fn law_destination_is_user_and_host(m: ProfileModel)
    ensures
        m.user.len() == 0 ==> m.destination() == m.host,
        m.user.len() > 0 ==> m.destination().len() == m.user.len() + 1 + m.host.len()
            && m.destination().take(m.user.len() as int) == m.user
            && m.destination()[m.user.len() as int] == '@' && m.destination().skip(
            m.user.len() + 1int,
        ) == m.host,
{
    if m.user.len() > 0 {
        assert(m.destination().take(m.user.len() as int) =~= m.user);
        assert(m.destination().skip(m.user.len() + 1int) =~= m.host);
    }
}

/// A connection is sound if and only if it has a name and a host of at most 255
/// bytes each, a user of no more, no space inside the host or the user, no dash
/// at their front, no at sign in the user, no port and no side of zero, and an
/// equals sign in each option.
pub proof fn law_sound_connection(m: ProfileModel)
    ensures
        m.problem() is None <==> {
            &&& exists|i: int| 0 <= i < m.name.len() && !text::white_space(#[trigger] m.name[i])
            &&& exists|i: int| 0 <= i < m.host.len() && !text::white_space(#[trigger] m.host[i])
            &&& text::byte_len(m.name) <= 255 && text::byte_len(m.host) <= 255 && text::byte_len(
                m.user,
            ) <= 255
            &&& !spaced(m.host) && !spaced(m.user)
            &&& (m.host.len() > 0 ==> m.host[0] != '-') && (m.user.len() > 0 ==> m.user[0] != '-')
            &&& forall|i: int| 0 <= i < m.user.len() ==> m.user[i] != '@'
            &&& m.ssh_port != Some(0u16) && m.remote_port != Some(0u16)
            &&& m.size matches Some((w, h)) ==> w > 0 && h > 0
            &&& forall|k: int|
                0 <= k < m.ssh_options.len() ==> has_char(#[trigger] m.ssh_options[k], '=')
        },
{
    lemma_options_sound(m.ssh_options);
}

proof fn lemma_options_sound(options: Seq<Seq<char>>)
    ensures
        options_problem(options) is None <==> forall|k: int|
            0 <= k < options.len() ==> has_char(#[trigger] options[k], '='),
    decreases options.len(),
{
    if options.len() > 0 {
        let rest = options.drop_first();
        lemma_options_sound(rest);
        lemma_equals_is_no_blank(options[0]);
        if options_problem(options) is None {
            assert forall|k: int| 0 <= k < options.len() implies has_char(
                #[trigger] options[k],
                '=',
            ) by {
                if k > 0 {
                    assert(rest[k - 1] == options[k]);
                }
            }
        }
        if forall|k: int| 0 <= k < options.len() ==> has_char(#[trigger] options[k], '=') {
            assert forall|k: int| 0 <= k < rest.len() implies has_char(#[trigger] rest[k], '=') by {
                assert(rest[k] == options[k + 1]);
            }
            assert(has_char(options[0], '='));
        }
    }
}

proof fn lemma_equals_is_no_blank(s: Seq<char>)
    ensures
        has_char(s, '=') ==> !text::blank(s),
{
    if has_char(s, '=') {
        let i = choose|i: int| 0 <= i < s.len() && s[i] == '=';
        assert(!text::white_space(s[i]));
    }
}

/// A text is spaced where white space stands between two other characters, and
/// only there: white space at its ends does not count.
pub proof fn law_spaces_inside_count(a: Seq<char>, c: char, b: Seq<char>)
    requires
        text::white_space(c),
    ensures
        !text::blank(a) && !text::blank(b) ==> spaced(a + seq![c] + b),
        text::blank(a) && !spaced(b) ==> !spaced(a + seq![c] + b),
        text::blank(b) && !spaced(a) ==> !spaced(a + seq![c] + b),
{
    let s = a + seq![c] + b;
    let n = a.len() as int;
    if !text::blank(a) && !text::blank(b) {
        let i = choose|i: int| 0 <= i < a.len() && !text::white_space(#[trigger] a[i]);
        let k = choose|k: int| 0 <= k < b.len() && !text::white_space(#[trigger] b[k]);
        assert(s[i] == a[i] && s[n] == c && s[n + 1 + k] == b[k]);
    }
    if spaced(s) {
        let (i, j, k) = choose|i: int, j: int, k: int|
            0 <= i < j < k < s.len() && !text::white_space(#[trigger] s[i]) && text::white_space(
                #[trigger] s[j],
            ) && !text::white_space(#[trigger] s[k]);
        if text::blank(a) {
            if i < n {
                assert(s[i] == a[i]);
            }
            assert(i > n);
            assert(b[i - n - 1] == s[i] && b[j - n - 1] == s[j] && b[k - n - 1] == s[k]);
        }
        if text::blank(b) {
            if k > n {
                assert(s[k] == b[k - n - 1]);
            }
            assert(k < n);
            assert(a[i] == s[i] && a[j] == s[j] && a[k] == s[k]);
        }
    }
}

/// What is wrong with a connection is said in its own words, the name first.
pub proof fn law_first_fault_is_named(m: ProfileModel)
    ensures
        text::blank(m.name) ==> m.problem() == Some("A name is required."@),
        !text::blank(m.name) && text::byte_len(m.name) <= 255 && text::blank(m.host) ==> m.problem()
            == Some("A host is required."@),
        m.problem() is Some && !text::blank(m.name) && !text::blank(m.host) && text::byte_len(m.name)
            <= 255 && text::byte_len(m.host) <= 255 && text::byte_len(m.user) <= 255 ==> ({
            &&& spaced(m.host) ==> m.problem() == Some("The host must not contain spaces."@)
            &&& !spaced(m.host) && (m.host[0] == '-' || (m.user.len() > 0 && m.user[0] == '-'))
                ==> m.problem() == Some("The host and user must not start with '-'."@)
        }),
        text::byte_len(m.name) > 255 && !text::blank(m.name) ==> m.problem() == Some(
            "The name must be under "@ + seq!['2', '5', '5'] + " characters."@,
        ),
{
    reveal_with_fuel(text::decimal, 4);
    assert(text::decimal(255) =~= seq!['2', '5', '5']);
}

/// The command line of a session: the destination, then each setting behind its
/// own flag, and the switches of what is on or off against the usual.
pub proof fn law_session_is_told_its_settings(m: ProfileModel)
    ensures
        ({
            let port = match m.ssh_port {
                Some(p) => seq!["--port"@, text::decimal(p as nat)],
                None => Seq::<Seq<char>>::empty(),
            };
            let identity = match m.identity {
                Some(i) => seq!["--identity"@, i],
                None => Seq::<Seq<char>>::empty(),
            };
            let remote = match m.remote_port {
                Some(p) => seq!["--remote-port"@, text::decimal(p as nat)],
                None => Seq::<Seq<char>>::empty(),
            };
            let size = match m.size {
                Some((w, h)) => seq![
                    "--size"@,
                    text::decimal(w as nat) + seq!['x'] + text::decimal(h as nat),
                ],
                None => Seq::<Seq<char>>::empty(),
            };
            let full = if m.fullscreen {
                seq!["--fullscreen"@]
            } else {
                Seq::<Seq<char>>::empty()
            };
            let fixed = if m.dynamic_resize {
                Seq::<Seq<char>>::empty()
            } else {
                seq!["--no-dynamic-resize"@]
            };
            let apart = if m.clipboard {
                Seq::<Seq<char>>::empty()
            } else {
                seq!["--no-clipboard"@]
            };
            m.args() == seq![m.destination()] + port + identity + flagged(
                "--ssh-option"@,
                m.ssh_options,
            ) + remote + size + full + fixed + apart
        }),
{
}

/// Each value of a list stands behind its own flag, in the order of the list.
pub proof fn law_each_value_has_its_flag(flag: Seq<char>, values: Seq<Seq<char>>, k: int)
    requires
        0 <= k < values.len(),
    ensures
        flagged(flag, values).len() == 2 * values.len(),
        flagged(flag, values)[2 * k] == flag,
        flagged(flag, values)[2 * k + 1] == values[k],
    decreases values.len(),
{
    lemma_flagged_len(flag, values.drop_last());
    if k < values.len() - 1 {
        law_each_value_has_its_flag(flag, values.drop_last(), k);
    }
}

proof fn lemma_flagged_len(flag: Seq<char>, values: Seq<Seq<char>>)
    ensures
        flagged(flag, values).len() == 2 * values.len(),
    decreases values.len(),
{
    if values.len() > 0 {
        lemma_flagged_len(flag, values.drop_last());
    }
}

/// Saving under a name that is there replaces the first connection of that name
/// in its place; under another, the connection comes last. Taking a name out
/// takes out the first connection of that name and no other.
pub proof fn law_connections_are_found_by_name(items: Seq<ProfileModel>, p: ProfileModel, i: int)
    requires
        0 <= i < items.len(),
        items[i].name == p.name,
        forall|j: int| 0 <= j < i ==> (#[trigger] items[j]).name != p.name,
    ensures
        upserted(items, p) == items.update(i, p),
        without_name(items, p.name) == items.remove(i),
{
    let all = model_names(items);
    assert(all[i] == p.name);
    assert forall|j: int| 0 <= j < i implies all[j] != p.name by {
        assert(all[j] == items[j].name);
    }
    assert(is_first(all, p.name, i));
    let f = find(all, p.name);
    assert(is_first(all, p.name, f));
    assert(f == i) by {
        if f < i {
            assert(all[f] == p.name);
        }
        if i < f {
            assert(all[i] == p.name);
        }
    }
}

/// A connection of a name that is not there is added last, and there is nothing
/// of that name to take out.
pub proof fn law_new_names_come_last(items: Seq<ProfileModel>, p: ProfileModel)
    requires
        forall|j: int| 0 <= j < items.len() ==> (#[trigger] items[j]).name != p.name,
    ensures
        upserted(items, p) == items.push(p),
        without_name(items, p.name) == items,
{
    let all = model_names(items);
    if all.contains(p.name) {
        let j = choose|j: int| 0 <= j < all.len() && all[j] == p.name;
        assert(items[j].name == p.name);
    }
}

/// A name that is taken gets a number, from two on, behind a space; a blank one
/// is "New connection".
pub proof fn law_taken_names_are_numbered(base: Seq<char>, n: nat)
    ensures
        candidate(base, 1) == base,
        n >= 2 ==> candidate(base, n) == base + " "@ + text::decimal(n),
        text::blank(base) ==> base_name(base) == "New connection"@,
        !text::blank(base) ==> base_name(base) == text::trim(base),
{
    reveal_strlit(" ");
    assert(" "@ =~= seq![' ']);
}

/// An unreadable file is moved to its own name with ".bad" behind it, or ".bad."
/// and a number from two on.
pub proof fn law_unreadable_file_is_named(n: u32)
    ensures
        aside_suffix(1) == ".bad"@,
        n >= 2 ==> aside_suffix(n) == ".bad."@ + text::decimal(n as nat),
        MAX_ASIDE == 100,
        MAX_PROFILES == 500,
        FILE_NAME@ == "connections.toml"@,
{
}

/// A name is put below a directory with one separator between them: the slash,
/// or on Windows the backslash, which a bare drive does without.
pub proof fn law_names_go_below_directories(dir: Seq<char>, name: Seq<char>)
    requires
        dir.len() > 0,
    ensures
        dir.last() != '/' ==> joined_on(Platform::Unix, dir, name) == dir + seq!['/'] + name,
        dir.last() == '/' ==> joined_on(Platform::Unix, dir, name) == dir + name,
        joined_on(Platform::MacOs, dir, name) == joined_on(Platform::Unix, dir, name),
        dir.last() == '\\' ==> joined_on(Platform::Windows, dir, name) == dir + name,
        dir.last() != '\\' && dir.last() != '/' && dir.last() != ':' ==> joined_on(
            Platform::Windows,
            dir,
            name,
        ) == dir + seq!['\\'] + name,
        dir.len() == 2 && dir[0] == 'C' && dir[1] == ':' ==> joined_on(Platform::Windows, dir, name)
            == dir + name,
        dir.last() == '/' && dir[0] != '\\' ==> joined_on(Platform::Windows, dir, name) == dir + name,
{
}

/// The settings are kept where the environment says, else where the platform
/// keeps them: below the home directory, or the directory of the application's
/// data.
pub proof fn law_settings_have_their_place(env: ConfigEnv)
    ensures
        env.lynxrdp matches Some(d) ==> (d@.len() > 0 ==> config_dir_of(env) == Some(d@)),
        !(env.lynxrdp matches Some(d) && d@.len() > 0) ==> ({
            &&& env.platform is Unix ==> (env.xdg matches Some(x) ==> (x@.len() > 0 && x@.last() != '/'
                ==> config_dir_of(env) == Some(x@ + "/lynxrdp"@)))
            &&& env.platform is Unix && !(env.xdg matches Some(x) && x@.len() > 0) ==> (
            env.home matches Some(h) ==> (h@.len() > 0 && h@.last() != '/' ==> config_dir_of(env)
                == Some(h@ + "/.config/lynxrdp"@)))
            &&& env.platform is Unix && env.home is None && !(env.xdg matches Some(x) && x@.len()
                > 0) ==> config_dir_of(env) is None
            &&& env.platform is MacOs ==> (env.home matches Some(h) ==> (h@.len() > 0 && h@.last()
                != '/' ==> config_dir_of(env) == Some(
                h@ + "/Library/Application Support/LynxRDP"@,
            )))
            &&& env.platform is MacOs && env.home is None ==> config_dir_of(env) is None
            &&& env.platform is Windows ==> (env.appdata matches Some(a) ==> (a@.len() > 3
                && a@.last() != '\\' && a@.last() != '/' ==> config_dir_of(env) == Some(
                a@ + "\\LynxRDP"@,
            )))
            &&& env.platform is Windows && env.appdata is None ==> config_dir_of(env) is None
        }),
{
    reveal_strlit("/lynxrdp");
    reveal_strlit("lynxrdp");
    reveal_strlit("/.config/lynxrdp");
    reveal_strlit(".config");
    reveal_strlit("/Library/Application Support/LynxRDP");
    reveal_strlit("Library");
    reveal_strlit("Application Support");
    reveal_strlit("LynxRDP");
    reveal_strlit("\\LynxRDP");
    if !(env.lynxrdp matches Some(d) && d@.len() > 0) {
        if env.xdg is Some {
            assert(env.xdg->0@ + seq!['/'] + "lynxrdp"@ =~= env.xdg->0@ + "/lynxrdp"@);
        }
        if env.home is Some {
            let h = env.home->0@;
            let c = h + seq!['/'] + ".config"@;
            assert(c.last() != '/');
            assert(c + seq!['/'] + "lynxrdp"@ =~= h + "/.config/lynxrdp"@);
            let l = h + seq!['/'] + "Library"@;
            assert(l.last() != '/');
            let a = l + seq!['/'] + "Application Support"@;
            assert(a.last() != '/');
            assert(a + seq!['/'] + "LynxRDP"@ =~= h + "/Library/Application Support/LynxRDP"@);
        }
        if env.appdata is Some {
            assert(env.appdata->0@ + seq!['\\'] + "LynxRDP"@ =~= env.appdata->0@ + "\\LynxRDP"@);
        }
    }
}

/// A text that may be missing is its characters, where it is there.
pub proof fn law_missing_text_is_none(s: Option<String>)
    ensures
        s is None <==> text_of(s) is None,
        s matches Some(t) ==> text_of(s) == Some(t@),
{
}

/// A connection is modelled field by field.
pub proof fn law_connection_is_its_fields(p: Profile)
    ensures
        p@.name == p.name@ && p@.host == p.host@ && p@.user == p.user@,
        p@.ssh_port == p.ssh_port && p@.remote_port == p.remote_port && p@.size == p.size,
        p@.fullscreen == p.fullscreen && p@.dynamic_resize == p.dynamic_resize && p@.clipboard
            == p.clipboard,
        p@.identity == text_of(p.identity),
        p@.ssh_options == text::texts(p.ssh_options@),
{
}

/// Each later fault is named where nothing before it is wrong.
pub proof fn law_later_faults_are_named(m: ProfileModel)
    requires
        !text::blank(m.name),
        text::byte_len(m.name) <= 255,
        !text::blank(m.host),
    ensures
        ({
            let long = text::byte_len(m.host) > 255 || text::byte_len(m.user) > 255;
            let dash = (m.host.len() > 0 && m.host[0] == '-') || (m.user.len() > 0 && m.user[0]
                == '-');
            let at = has_char(m.user, '@') || spaced(m.user);
            let port = m.ssh_port == Some(0u16) || m.remote_port == Some(0u16);
            let flat = m.size matches Some((w, h)) && (w == 0 || h == 0);
            &&& long ==> m.problem() == Some(
                "The host and user must each be under "@ + seq!['2', '5', '5'] + " characters."@,
            )
            &&& !long && spaced(m.host) ==> m.problem() == Some(
                "The host must not contain spaces."@,
            )
            &&& !long && !spaced(m.host) && dash ==> m.problem() == Some(
                "The host and user must not start with '-'."@,
            )
            &&& !long && !spaced(m.host) && !dash && at ==> m.problem() == Some(
                "The user must not contain '@' or spaces."@,
            )
            &&& !long && !spaced(m.host) && !dash && !at && port ==> m.problem() == Some(
                "Ports must be between 1 and 65535."@,
            )
            &&& !long && !spaced(m.host) && !dash && !at && !port && flat ==> m.problem() == Some(
                "The screen size must be positive."@,
            )
            &&& !long && !spaced(m.host) && !dash && !at && !port && !flat && m.ssh_options.len() > 0
                && text::blank(m.ssh_options[0]) ==> m.problem() == Some("An SSH option is blank."@)
            &&& !long && !spaced(m.host) && !dash && !at && !port && !flat && m.ssh_options.len() > 0
                && !text::blank(m.ssh_options[0]) && !has_char(m.ssh_options[0], '=')
                ==> m.problem() == Some(
                "SSH option "@ + quoted(m.ssh_options[0]) + " should look like Key=value."@,
            )
        }),
{
    reveal_with_fuel(text::decimal, 4);
    assert(text::decimal(255) =~= seq!['2', '5', '5']);
}

/// A name is taken where another connection has it.
pub proof fn law_name_of_another_is_taken(p: Profiles, name: Seq<char>, excluding: Option<&str>, r: bool)
    requires
        p.taken(name, excluding, r),
    ensures
        r <==> (exists|i: int| 0 <= i < p.items@.len() && #[trigger] p.items@[i].name@ == name) && !(
        excluding matches Some(e) && e@ == name),
{
    let all = p.names();
    if all.contains(name) {
        let i = choose|i: int| 0 <= i < all.len() && all[i] == name;
        assert(p.items@[i].name@ == name);
    }
    if exists|i: int| 0 <= i < p.items@.len() && #[trigger] p.items@[i].name@ == name {
        let i = choose|i: int| 0 <= i < p.items@.len() && #[trigger] p.items@[i].name@ == name;
        assert(all[i] == name);
    }
}

/// Names are tried one after the other until one is free, up to a hundred of
/// them; a file that cannot be made ends the search.
pub proof fn law_free_name_is_searched(n: u32, created: Created, r: Reserve)
    requires
        reserved(n, created, r),
    ensures
        r == Reserve::Use <==> created is New,
        r == Reserve::Broken <==> created is Failed,
        r == Reserve::Next <==> created is Taken && n < 100,
        r == Reserve::Full <==> created is Taken && n >= 100,
{
}

} // verus!
