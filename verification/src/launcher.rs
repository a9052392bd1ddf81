//! The connection manager window.
//!
//! A list of saved connections, and an editor for them. The window owns no
//! protocol logic at all: it edits [`Profile`] values, asks them whether they
//! are valid, and turns the chosen one into a command line.

use vstd::prelude::*;

use crate::launch;
use crate::profiles;
use crate::profiles::{Profile, Profiles};
use crate::text;

verus! {

// ---------------------------------------------------------------------------
// The fields of the editor
// ---------------------------------------------------------------------------

/// The port a field holds: none where it is blank.
pub open spec fn port_value(s: Seq<char>) -> Option<u16> {
    match text::unsigned(text::trim(s), u16::MAX as nat) {
        Some(n) => Some(n as u16),
        None => None,
    }
}

/// Whether a field is blank or holds a port. Blank means "unset", which is
/// different from a bad one.
pub open spec fn port_ok(s: Seq<char>) -> bool {
    text::trim(s).len() == 0 || (port_value(s) matches Some(p) && p > 0)
}

pub open spec fn port_fault(what: Seq<char>) -> Seq<char> {
    what + " must be a number between 1 and 65535."@
}

/// An empty field means "unset", which is different from a bad one.
pub fn parse_port(text: &str, what: &str) -> (r: Result<Option<u16>, String>)
    ensures
        match r {
            Ok(port) => port_ok(text@) && port == port_value(text@),
            Err(e) => !port_ok(text@) && e@ == port_fault(what@),
        },
{
    let chars = text::chars_of(text);
    let t = text::trimmed_chars(&chars);
    if t.len() == 0 {
        return Ok(None);
    }
    match text::parse_unsigned(&t, u16::MAX as u64) {
        Some(n) => {
            if n > 0 {
                return Ok(Some(n as u16));
            }
        },
        None => {},
    }
    let mut s = text::copy(what);
    s.push_str(" must be a number between 1 and 65535.");
    Err(s)
}

/// The place of the first `x` or `X`.
pub open spec fn cross(s: Seq<char>) -> int {
    let a = text::next_char(s, 'x', 0);
    let b = text::next_char(s, 'X', 0);
    if a <= b {
        a
    } else {
        b
    }
}

/// A size with the sides that stand on both sides of the cross.
pub open spec fn sides(s: Seq<char>) -> Option<(u16, u16)> {
    let t = text::trim(s);
    let i = cross(t);
    if i >= t.len() {
        None
    } else {
        match (
            text::unsigned(text::trim(t.take(i)), u16::MAX as nat),
            text::unsigned(text::trim(t.skip(i + 1)), u16::MAX as nat),
        ) {
            (Some(w), Some(h)) => Some((w as u16, h as u16)),
            _ => None,
        }
    }
}

/// What is wrong with a size that was typed, if anything.
pub open spec fn size_fault(s: Seq<char>) -> Option<Seq<char>> {
    if text::trim(s).len() == 0 {
        None
    } else {
        match sides(s) {
            None => Some("The size should look like 1920x1080."@),
            Some((w, h)) => if w == 0 || h == 0 {
                Some("The size must be positive."@)
            } else {
                None
            },
        }
    }
}

/// The size a field holds: none where it is blank.
pub open spec fn size_value(s: Seq<char>) -> Option<(u16, u16)> {
    if text::trim(s).len() == 0 {
        None
    } else {
        sides(s)
    }
}

fn parse_sides(t: &Vec<char>) -> (r: Option<(u16, u16)>)
    ensures
        r == ({
            let i = cross(t@);
            if i >= t@.len() {
                None
            } else {
                match (
                    text::unsigned(text::trim(t@.take(i)), u16::MAX as nat),
                    text::unsigned(text::trim(t@.skip(i + 1)), u16::MAX as nat),
                ) {
                    (Some(w), Some(h)) => Some((w as u16, h as u16)),
                    _ => None,
                }
            }
        }),
{
    let a = text::position(t, 'x', 0);
    let b = text::position(t, 'X', 0);
    let i: usize = if a <= b {
        a
    } else {
        b
    };
    if i >= t.len() {
        return None;
    }
    let left = text::slice_of(t, 0, i);
    let right = text::slice_of(t, i + 1, t.len());
    assert(left@ =~= t@.take(i as int));
    assert(right@ =~= t@.skip(i + 1));
    let left = text::trimmed_chars(&left);
    let right = text::trimmed_chars(&right);
    let w = match text::parse_unsigned(&left, u16::MAX as u64) {
        Some(w) => w,
        None => {
            return None;
        },
    };
    let h = match text::parse_unsigned(&right, u16::MAX as u64) {
        Some(h) => h,
        None => {
            return None;
        },
    };
    Some((w as u16, h as u16))
}

/// Parse `1920x1080`, accepting a capital X and spaces around the separator.
pub fn parse_size(text: &str) -> (r: Result<Option<(u16, u16)>, String>)
    ensures
        match r {
            Ok(size) => size_fault(text@) is None && size == size_value(text@),
            Err(e) => size_fault(text@) == Some(e@),
        },
{
    let chars = text::chars_of(text);
    let t = text::trimmed_chars(&chars);
    if t.len() == 0 {
        return Ok(None);
    }
    match parse_sides(&t) {
        None => Err(text::copy("The size should look like 1920x1080.")),
        Some((w, h)) => {
            if w == 0 || h == 0 {
                return Err(text::copy("The size must be positive."));
            }
            Ok(Some((w, h)))
        },
    }
}

// ---------------------------------------------------------------------------
// The editor
// ---------------------------------------------------------------------------

/// A profile being edited.
///
/// Numbers and the screen size are held as text while the user types: parsing
/// on every keystroke would fight them, for instance by erasing a half-typed
/// "19" on the way to "1920".
pub struct Editor {
    /// Name this started as, so a rename can remove the old entry. `None`
    /// when adding.
    pub original: Option<String>,
    pub profile: Profile,
    pub ssh_port: String,
    pub remote_port: String,
    pub identity: String,
    pub size: String,
    pub ssh_options: String,
}

pub open spec fn port_text(port: Option<u16>) -> Seq<char> {
    match port {
        Some(p) => text::decimal(p as nat),
        None => seq![],
    }
}

fn port_string(port: Option<u16>) -> (s: String)
    ensures
        s@ == port_text(port),
{
    match port {
        Some(p) => text::decimal_of(p as u64),
        None => String::new(),
    }
}

/// A field that may be left blank.
pub open spec fn optional(s: Seq<char>) -> Option<Seq<char>> {
    if text::trim(s).len() == 0 {
        None
    } else {
        Some(text::trim(s))
    }
}

impl Editor {
    /// The profile that the fields add up to.
    pub open spec fn draft(self) -> profiles::ProfileModel {
        profiles::ProfileModel {
            name: text::trim(self.profile.name@),
            host: text::trim(self.profile.host@),
            user: text::trim(self.profile.user@),
            ssh_port: port_value(self.ssh_port@),
            identity: optional(self.identity@),
            ssh_options: launch::solid_lines(text::lines(self.ssh_options@)),
            remote_port: port_value(self.remote_port@),
            size: size_value(self.size@),
            fullscreen: self.profile.fullscreen,
            dynamic_resize: self.profile.dynamic_resize,
            clipboard: self.profile.clipboard,
        }
    }

    /// What keeps the fields from being saved, if anything: the first of these.
    pub open spec fn fault(self) -> Option<Seq<char>> {
        if !port_ok(self.ssh_port@) {
            Some(port_fault("SSH port"@))
        } else if !port_ok(self.remote_port@) {
            Some(port_fault("LynxRDP port"@))
        } else if size_fault(self.size@) is Some {
            size_fault(self.size@)
        } else {
            self.draft().problem()
        }
    }

    /// Whether the text fields show what the profile holds, as they do when
    /// the editor opens.
    pub open spec fn shows_profile(self) -> bool {
        &&& self.ssh_port@ == port_text(self.profile.ssh_port)
        &&& self.remote_port@ == port_text(self.profile.remote_port)
        &&& self.identity@ == match self.profile.identity {
            Some(path) => path@,
            None => seq![],
        }
        &&& self.size@ == match self.profile.size {
            Some(size) => profiles::size_text(size),
            None => seq![],
        }
        &&& self.ssh_options@ == text::join(text::texts(self.profile.ssh_options@), "\n"@)
    }

    /// An editor that starts from a profile.
    pub fn new(profile: Profile, original: Option<String>) -> (e: Editor)
        ensures
            e.original == original,
            e.profile == profile,
            e.shows_profile(),
    {
        Editor {
            ssh_port: port_string(profile.ssh_port),
            remote_port: port_string(profile.remote_port),
            identity: match &profile.identity {
                Some(path) => text::copy(path.as_str()),
                None => String::new(),
            },
            size: match profile.size {
                Some(size) => profiles::size_string(size),
                None => String::new(),
            },
            ssh_options: text::joined(&profile.ssh_options, "\n"),
            profile,
            original,
        }
    }

    /// Fold the text fields back into the profile, or say what is wrong.
    pub fn collect(&self) -> (r: Result<Profile, String>)
        ensures
            match r {
                Ok(p) => self.fault() is None && p@ == self.draft(),
                Err(e) => self.fault() == Some(e@),
            },
    {
        let ssh_port = match parse_port(self.ssh_port.as_str(), "SSH port") {
            Ok(p) => p,
            Err(e) => {
                return Err(e);
            },
        };
        let remote_port = match parse_port(self.remote_port.as_str(), "LynxRDP port") {
            Ok(p) => p,
            Err(e) => {
                return Err(e);
            },
        };
        let size = match parse_size(self.size.as_str()) {
            Ok(s) => s,
            Err(e) => {
                return Err(e);
            },
        };
        let path = text::trimmed(self.identity.as_str());
        let identity = if path.as_str().is_empty() {
            None
        } else {
            Some(path)
        };
        let chars = text::chars_of(self.ssh_options.as_str());
        let lines = text::lines_of(&chars);
        let ssh_options = launch::solid_of(&lines, 0);
        assert(text::rows(lines@).skip(0) =~= text::lines(self.ssh_options@));
        let p = Profile {
            name: text::trimmed(self.profile.name.as_str()),
            host: text::trimmed(self.profile.host.as_str()),
            user: text::trimmed(self.profile.user.as_str()),
            ssh_port,
            identity,
            ssh_options,
            remote_port,
            size,
            fullscreen: self.profile.fullscreen,
            dynamic_resize: self.profile.dynamic_resize,
            clipboard: self.profile.clipboard,
        };
        assert(p@ =~= self.draft());
        match p.problem() {
            Some(problem) => Err(problem),
            None => Ok(p),
        }
    }
}

/// A port that was saved is read back from its field as itself.
pub proof fn law_port_field_round_trip(port: u16)
    requires
        port > 0,
    ensures
        port_ok(port_text(Some(port))),
        port_value(port_text(Some(port))) == Some(port),
{
    let s = text::decimal(port as nat);
    text::lemma_decimal_digits(port as nat);
    lemma_trim_digits(s);
    text::law_decimal_round_trip(port as nat, u16::MAX as nat);
}

/// A size that was saved is read back from its field as itself.
pub proof fn law_size_field_round_trip(size: (u16, u16))
    requires
        size.0 > 0,
        size.1 > 0,
    ensures
        size_fault(profiles::size_text(size)) is None,
        size_value(profiles::size_text(size)) == Some(size),
{
    let s = profiles::size_text(size);
    let w = text::decimal(size.0 as nat);
    let h = text::decimal(size.1 as nat);
    text::lemma_decimal_digits(size.0 as nat);
    text::lemma_decimal_digits(size.1 as nat);
    assert(s[0] == w[0]);
    assert(s.last() == h.last());
    lemma_trim_solid(s);
    assert forall|k: int| 0 <= k < w.len() implies s[k] != 'x' && s[k] != 'X' by {
        assert(s[k] == w[k]);
        assert(text::is_digit(w[k]));
    }
    assert(s[w.len() as int] == 'x');
    lemma_next_char_at(s, 'x', 0, w.len() as int);
    assert forall|k: int| 0 <= k < s.len() implies s[k] != 'X' by {
        if k > w.len() {
            assert(s[k] == h[k - w.len() - 1]);
            assert(text::is_digit(h[k - w.len() - 1]));
        }
    }
    lemma_next_char_none(s, 'X', 0);
    assert(s.take(w.len() as int) =~= w);
    assert(s.skip(w.len() as int + 1) =~= h);
    lemma_trim_digits(w);
    lemma_trim_digits(h);
    text::law_decimal_round_trip(size.0 as nat, u16::MAX as nat);
    text::law_decimal_round_trip(size.1 as nat, u16::MAX as nat);
}

proof fn lemma_next_char_at(s: Seq<char>, c: char, from: int, at: int)
    requires
        0 <= from <= at < s.len(),
        s[at] == c,
        forall|k: int| from <= k < at ==> s[k] != c,
    ensures
        text::next_char(s, c, from) == at,
    decreases at - from,
{
    if from < at {
        lemma_next_char_at(s, c, from + 1, at);
    }
}

proof fn lemma_next_char_none(s: Seq<char>, c: char, from: int)
    requires
        0 <= from <= s.len(),
        forall|k: int| from <= k < s.len() ==> s[k] != c,
    ensures
        text::next_char(s, c, from) == s.len(),
    decreases s.len() - from,
{
    if from < s.len() {
        lemma_next_char_none(s, c, from + 1);
    }
}

/// A text with no white space at either end is its own trim.
proof fn lemma_trim_solid(s: Seq<char>)
    requires
        s.len() > 0,
        !text::white_space(s[0]),
        !text::white_space(s.last()),
    ensures
        text::trim(s) == s,
{
}

proof fn lemma_trim_digits(s: Seq<char>)
    requires
        text::all_digits(s),
    ensures
        text::trim(s) == s,
{
    assert(text::is_digit(s[0]));
    assert(text::is_digit(s[s.len() - 1]));
    lemma_trim_solid(s);
}

/// A connection as the editor saves one: no white space around its fields, and
/// every option a line of its own.
pub open spec fn tidy(p: profiles::ProfileModel) -> bool {
    &&& text::trim(p.name) == p.name
    &&& text::trim(p.host) == p.host
    &&& text::trim(p.user) == p.user
    &&& p.identity matches Some(path) ==> path.len() > 0 && text::trim(path) == path
    &&& forall|i: int| 0 <= i < p.ssh_options.len() ==> one_line(#[trigger] p.ssh_options[i])
}

/// A line that says something, without white space around it.
pub open spec fn one_line(s: Seq<char>) -> bool {
    s.len() > 0 && text::trim(s) == s && !profiles::has_char(s, '\n')
}

/// White space is trimmed away once: what is left begins and ends in something
/// else.
proof fn lemma_trim_twice(s: Seq<char>)
    ensures
        text::trim(text::trim(s)) == text::trim(s),
        text::trim(s).len() > 0 ==> !text::white_space(text::trim(s)[0]) && !text::white_space(
            text::trim(s).last(),
        ),
        forall|i: int| 0 <= i < text::trim(s).len() ==> s.contains(#[trigger] text::trim(s)[i]),
{
    let t = text::trim_start(s);
    lemma_trim_start(s);
    lemma_trim_end(t);
    if text::trim(s).len() > 0 {
        assert(text::trim(s)[0] == t[0]);
        lemma_trim_solid(text::trim(s));
    }
    assert forall|i: int| 0 <= i < text::trim(s).len() implies s.contains(
        #[trigger] text::trim(s)[i],
    ) by {
        assert(text::trim(s)[i] == t[i]);
    }
}

proof fn lemma_trim_start(s: Seq<char>)
    ensures
        text::trim_start(s).len() > 0 ==> !text::white_space(text::trim_start(s)[0]),
        forall|i: int|
            0 <= i < text::trim_start(s).len() ==> s.contains(#[trigger] text::trim_start(s)[i]),
    decreases s.len(),
{
    if s.len() > 0 && text::white_space(s[0]) {
        let rest = s.drop_first();
        lemma_trim_start(rest);
        assert forall|i: int| 0 <= i < text::trim_start(s).len() implies s.contains(
            #[trigger] text::trim_start(s)[i],
        ) by {
            let j = choose|j: int| 0 <= j < rest.len() && rest[j] == text::trim_start(s)[i];
            assert(s[j + 1] == text::trim_start(s)[i]);
        }
    }
}

proof fn lemma_trim_end(s: Seq<char>)
    ensures
        text::trim_end(s).len() <= s.len(),
        text::trim_end(s).len() > 0 ==> !text::white_space(text::trim_end(s).last()),
        forall|i: int| 0 <= i < text::trim_end(s).len() ==> #[trigger] text::trim_end(s)[i] == s[i],
    decreases s.len(),
{
    if s.len() > 0 && text::white_space(s.last()) {
        lemma_trim_end(s.drop_last());
    }
}

/// One more line behind a text that ends in neither part of a line's ending.
proof fn lemma_one_more_line(a: Seq<char>, b: Seq<char>, from: int)
    requires
        0 <= from < a.len(),
        a.last() != '\n',
        a.last() != '\r',
        b.len() > 0,
        !profiles::has_char(b, '\n'),
    ensures
        text::lines_from(a + seq!['\n'] + b, from) == text::lines_from(a, from).push(b),
    decreases a.len() - from,
{
    let all = a + seq!['\n'] + b;
    let end = text::next_char(a, '\n', from);
    text::lemma_next_char_range(a, '\n', from);
    lemma_next_char_before(a, '\n', from);
    if end < a.len() {
        lemma_next_char_at(all, '\n', from, end);
        assert(end != a.len() - 1);
        lemma_one_more_line(a, b, end + 1);
        assert(all.subrange(from, end) =~= a.subrange(from, end));
        assert(text::lines_from(all, from) =~= text::lines_from(a, from).push(b));
    } else {
        assert(all[a.len() as int] == '\n');
        lemma_next_char_at(all, '\n', from, a.len() as int);
        let line = a.subrange(from, a.len() as int);
        assert(all.subrange(from, a.len() as int) =~= line);
        assert(line.last() == a.last());
        let rest = a.len() + 1;
        assert forall|k: int| rest <= k < all.len() implies all[k] != '\n' by {
            assert(all[k] == b[k - rest]);
        }
        lemma_next_char_none(all, '\n', rest as int);
        assert(all.subrange(rest as int, all.len() as int) =~= b);
        assert(text::lines_from(all, rest as int) =~= seq![b]);
        assert(text::lines_from(all, from) =~= text::lines_from(a, from).push(b));
    }
}

proof fn lemma_next_char_before(s: Seq<char>, c: char, from: int)
    requires
        0 <= from <= s.len(),
    ensures
        forall|k: int| from <= k < text::next_char(s, c, from) ==> s[k] != c,
    decreases s.len() - from,
{
    if from < s.len() && s[from] != c {
        lemma_next_char_before(s, c, from + 1);
    }
}

/// Options that are lines come back from the field that shows them.
proof fn lemma_options_come_back(options: Seq<Seq<char>>)
    requires
        forall|i: int| 0 <= i < options.len() ==> one_line(#[trigger] options[i]),
    ensures
        text::lines(text::join(options, "\n"@)) == options,
        launch::solid_lines(options) == options,
        options.len() > 0 ==> {
            let s = text::join(options, "\n"@);
            s.len() > 0 && s.last() == options.last().last()
        },
    decreases options.len(),
{
    reveal_strlit("\n");
    let s = text::join(options, "\n"@);
    if options.len() == 0 {
        assert(text::lines(s) =~= options);
    } else {
        let rest = options.drop_last();
        let last = options.last();
        assert forall|i: int| 0 <= i < rest.len() implies one_line(#[trigger] rest[i]) by {
            assert(rest[i] == options[i]);
        }
        lemma_options_come_back(rest);
        assert(one_line(options[options.len() - 1]));
        lemma_trim_twice(last);
        text::lemma_trim_blank(last);
        assert(launch::solid_lines(options) =~= rest.push(last));
        assert(rest.push(last) =~= options);
        if options.len() == 1 {
            lemma_next_char_none(last, '\n', 0);
            assert(s.subrange(0, s.len() as int) =~= s);
            assert(text::lines(s) =~= options);
        } else {
            let a = text::join(rest, "\n"@);
            assert(one_line(rest[rest.len() - 1]));
            lemma_trim_twice(rest.last());
            assert("\n"@ =~= seq!['\n']);
            assert(s =~= a + seq!['\n'] + last);
            lemma_one_more_line(a, last, 0);
        }
    }
}

/// Opening a connection and saving it untouched keeps it as it was: no port, no
/// identity file, no size and no option is lost on the way through the fields.
pub proof fn law_untouched_edit_keeps_the_connection(ed: Editor)
    requires
        ed.shows_profile(),
        tidy(ed.profile@),
        ed.profile@.problem() is None,
    ensures
        ed.fault() is None,
        ed.draft() == ed.profile@,
{
    let p = ed.profile@;
    let blank = Seq::<char>::empty();
    assert(text::trim(blank) =~= blank);
    match p.ssh_port {
        Some(n) => law_port_field_round_trip(n),
        None => {},
    }
    match p.remote_port {
        Some(n) => law_port_field_round_trip(n),
        None => {},
    }
    match p.size {
        Some(size) => {
            law_size_field_round_trip(size);
        },
        None => {},
    }
    lemma_options_come_back(p.ssh_options);
    assert(ed.draft() =~= p);
}

proof fn lemma_lines_are_lines(s: Seq<char>, from: int)
    requires
        0 <= from,
    ensures
        forall|i: int|
            0 <= i < text::lines_from(s, from).len() ==> !profiles::has_char(
                #[trigger] text::lines_from(s, from)[i],
                '\n',
            ),
    decreases s.len() - from,
{
    if from < s.len() {
        let end = text::next_char(s, '\n', from);
        text::lemma_next_char_range(s, '\n', from);
        lemma_next_char_before(s, '\n', from);
        let line = s.subrange(from, end);
        assert forall|i: int| 0 <= i < line.len() implies line[i] != '\n' by {
            assert(line[i] == s[from + i]);
        }
        if end < s.len() {
            lemma_lines_are_lines(s, end + 1);
            let all = text::lines_from(s, from);
            let more = text::lines_from(s, end + 1);
            assert forall|i: int| 0 <= i < all.len() implies !profiles::has_char(
                #[trigger] all[i],
                '\n',
            ) by {
                if i > 0 {
                    assert(all[i] == more[i - 1]);
                }
            }
        }
    }
}

proof fn lemma_solid_lines_are_tidy(lines: Seq<Seq<char>>)
    requires
        forall|i: int| 0 <= i < lines.len() ==> !profiles::has_char(#[trigger] lines[i], '\n'),
    ensures
        forall|i: int|
            0 <= i < launch::solid_lines(lines).len() ==> one_line(
                #[trigger] launch::solid_lines(lines)[i],
            ),
    decreases lines.len(),
{
    if lines.len() > 0 {
        let rest = lines.drop_last();
        let last = lines.last();
        assert forall|i: int| 0 <= i < rest.len() implies !profiles::has_char(
            #[trigger] rest[i],
            '\n',
        ) by {
            assert(rest[i] == lines[i]);
        }
        lemma_solid_lines_are_tidy(rest);
        lemma_trim_twice(last);
        text::lemma_trim_blank(last);
        assert(!profiles::has_char(lines[lines.len() - 1], '\n'));
        if !text::blank(last) {
            assert(!profiles::has_char(text::trim(last), '\n')) by {
                assert forall|i: int| 0 <= i < text::trim(last).len() implies text::trim(last)[i]
                    != '\n' by {
                    assert(last.contains(text::trim(last)[i]));
                }
            }
            let kept = launch::solid_lines(lines);
            let before = launch::solid_lines(rest);
            assert forall|i: int| 0 <= i < kept.len() implies one_line(#[trigger] kept[i]) by {
                if i < before.len() {
                    assert(kept[i] == before[i]);
                }
            }
        }
    }
}

/// What the editor saves is tidy, whatever was typed: so a connection that was
/// saved once is kept as it is by every untouched edit after that.
pub proof fn law_saved_connections_are_tidy(ed: Editor)
    ensures
        tidy(ed.draft()),
{
    lemma_trim_twice(ed.profile.name@);
    lemma_trim_twice(ed.profile.host@);
    lemma_trim_twice(ed.profile.user@);
    lemma_trim_twice(ed.identity@);
    lemma_lines_are_lines(ed.ssh_options@, 0);
    lemma_solid_lines_are_tidy(text::lines(ed.ssh_options@));
}

// ---------------------------------------------------------------------------
// The window
// ---------------------------------------------------------------------------

/// Which screen is showing.
pub enum Screen {
    List,
    Edit(Box<Editor>),
}

/// What the user did in the list.
#[derive(Clone, Copy, Debug, PartialEq, Eq, Structural)]
pub enum ListEvent {
    /// The New button.
    New,
    /// A click on a row.
    Select(usize),
    /// A double click on a row.
    Open(usize),
    /// The Connect button.
    Connect,
    /// The Edit button.
    Edit,
    /// The Delete button.
    Delete,
    /// The offer to move an unreadable file aside.
    MoveAside,
}

/// What the application has to do for the window.
#[derive(Clone, Copy, Debug, PartialEq, Eq, Structural)]
pub enum Effect {
    Nothing,
    /// Write the connections file.
    Save,
    /// Start the session of this row.
    Start(usize),
    /// Move the unreadable file aside.
    MoveAside,
}

/// The window's state.
pub struct Launcher {
    /// Where the connections are kept.
    pub path: String,
    pub store: Profiles,
    pub view: Screen,
    pub selected: Option<usize>,
    /// Transient line under the list: what just happened.
    pub status: String,
    /// A problem worth showing in red until it is dealt with.
    pub error: Option<String>,
    /// Name awaiting a second click to confirm deletion.
    pub confirming_delete: Option<String>,
    /// The connections file exists but could not be read.
    ///
    /// Carried as state rather than left as a warning, because it has to
    /// *stop* things rather than describe them: the list is empty, and a save
    /// would publish that emptiness over the real thing.
    pub load_failed: bool,
}

/// What a save over an unreadable file is answered.
pub open spec fn refusal_text(path: Seq<char>) -> Seq<char> {
    "Not saving: "@ + path
        + " could not be read, and writing now would replace whatever is still in it."@
}

impl Launcher {
    /// The selection names a row.
    pub open spec fn wf(self) -> bool {
        self.selected matches Some(i) ==> i < self.store.items@.len()
    }

    /// Everything but the messages.
    pub open spec fn same_but_messages(self, other: Launcher) -> bool {
        self == (Launcher { status: self.status, error: self.error, ..other })
    }

    /// The messages after a save was asked for, when they were these before.
    pub open spec fn save_messages(self, status: Seq<char>, error: Option<Seq<char>>) -> bool {
        if self.load_failed {
            self.status@.len() == 0 && profiles::text_of(self.error) == Some(
                refusal_text(self.path@),
            )
        } else {
            self.status@ == status && profiles::text_of(self.error) == error
        }
    }

    /// What a save amounts to.
    pub open spec fn save_effect(self) -> Effect {
        if self.load_failed {
            Effect::Nothing
        } else {
            Effect::Save
        }
    }

    /// A window on the connections that were read, or on none where that
    /// failed.
    ///
    /// A broken file must not leave a blank window with no explanation, and
    /// must not be silently overwritten either.
    pub fn new(path: String, loaded: Result<Profiles, String>) -> (l: Launcher)
        ensures
            l.wf(),
            l.path == path,
            l.view is List,
            l.status@.len() == 0,
            l.confirming_delete is None,
            l.load_failed == loaded is Err,
            l.selected == if l.store.items@.len() == 0 {
                None
            } else {
                Some(0usize)
            },
            match loaded {
                Ok(store) => l.store == store && l.error is None,
                Err(e) => l.store.items@.len() == 0 && profiles::text_of(l.error) == Some(
                    "Could not read "@ + path@ + ": "@ + e@
                        + ". Fix it, or move it aside, before adding connections."@,
                ),
            },
    {
        let (store, error, load_failed) = match loaded {
            Ok(store) => (store, None, false),
            Err(e) => {
                let mut s = text::copy("Could not read ");
                s.push_str(path.as_str());
                s.push_str(": ");
                s.push_str(e.as_str());
                s.push_str(". Fix it, or move it aside, before adding connections.");
                (Profiles::default(), Some(s), true)
            },
        };
        let selected = if store.items.len() == 0 {
            None
        } else {
            Some(0)
        };
        Launcher {
            path,
            store,
            view: Screen::List,
            selected,
            status: String::new(),
            error,
            confirming_delete: None,
            load_failed,
        }
    }

    /// Ask for the connections to be written, unless the file could not be
    /// read.
    ///
    /// A backstop only: by the time it is reached the status line may
    /// already claim success, so a refusal takes that claim back.
    pub fn save(&mut self) -> (e: Effect)
        ensures
            final(self).same_but_messages(*old(self)),
            final(self).save_messages(old(self).status@, profiles::text_of(old(self).error)),
            e == old(self).save_effect(),
    {
        if self.load_failed {
            self.status = String::new();
            let mut s = text::copy("Not saving: ");
            s.push_str(self.path.as_str());
            s.push_str(
                " could not be read, and writing now would replace whatever is still in it.",
            );
            self.error = Some(s);
            return Effect::Nothing;
        }
        Effect::Save
    }

    /// The connections could not be written.
    pub fn save_failed(&mut self, why: &str)
        ensures
            *final(self) == (Launcher { error: final(self).error, ..*old(self) }),
            profiles::text_of(final(self).error) == Some("Could not save connections: "@ + why@),
    {
        let mut s = text::copy("Could not save connections: ");
        s.push_str(why);
        self.error = Some(s);
    }

    /// What moving the unreadable file aside does.
    pub open spec fn moved_aside(self, after: Launcher, moved: Result<String, String>) -> bool {
        &&& after.wf()
        &&& after.path == self.path
        &&& after.view == self.view
        &&& after.confirming_delete == self.confirming_delete
        &&& match moved {
                Ok(to) => {
                    &&& after.store.items@.len() == 0
                    &&& after.selected is None
                    &&& !after.load_failed
                    &&& after.error is None
                    &&& after.status@ == "Moved the unreadable file to "@ + to@
                },
                Err(e) => {
                    &&& after == (Launcher { error: after.error, ..self })
                    &&& profiles::text_of(after.error) == Some(
                        "Could not move "@ + self.path@ + ": "@ + e@,
                    )
                },
            }
    }

    /// The unreadable file was moved out of the way, or was not.
    ///
    /// The way out of [`Launcher::load_failed`] that does not involve a
    /// terminal. It keeps the file rather than deleting it.
    pub fn move_bad_file_aside(&mut self, moved: Result<String, String>)
        requires
            old(self).wf(),
        ensures
            final(self).wf(),
            final(self).path == old(self).path,
            final(self).view == old(self).view,
            final(self).confirming_delete == old(self).confirming_delete,
            match moved {
                Ok(to) => {
                    &&& final(self).store.items@.len() == 0
                    &&& final(self).selected is None
                    &&& !final(self).load_failed
                    &&& final(self).error is None
                    &&& final(self).status@ == "Moved the unreadable file to "@ + to@
                },
                Err(e) => {
                    &&& *final(self) == (Launcher { error: final(self).error, ..*old(self) })
                    &&& profiles::text_of(final(self).error) == Some(
                        "Could not move "@ + old(self).path@ + ": "@ + e@,
                    )
                },
            },
            old(self).moved_aside(*final(self), moved),
    {
        match moved {
            Ok(to) => {
                self.store = Profiles::default();
                self.selected = None;
                self.load_failed = false;
                self.error = None;
                let mut s = text::copy("Moved the unreadable file to ");
                s.push_str(to.as_str());
                self.status = s;
            },
            Err(e) => {
                let mut s = text::copy("Could not move ");
                s.push_str(self.path.as_str());
                s.push_str(": ");
                s.push_str(e.as_str());
                self.error = Some(s);
            },
        }
    }
}

/// What several failures at once are shown as: the newest in full, and how
/// many others there were. Several sessions failing in the same instant is the
/// ordinary case, and they all say the same thing.
pub open spec fn failures_text(messages: Seq<Seq<char>>) -> Seq<char> {
    let newest = messages.last();
    let others = (messages.len() - 1) as nat;
    if others == 0 {
        newest
    } else if others == 1 {
        newest + "\n(one other session failed as well)"@
    } else {
        newest + "\n("@ + text::decimal(others) + " other sessions failed as well)"@
    }
}

impl Launcher {
    /// What failures of sessions do.
    pub open spec fn told_of(self, after: Launcher, messages: Seq<String>) -> bool {
        &&& if messages.len() == 0 {
                after == self
            } else {
                &&& after.same_but_messages(self)
                &&& after.status@.len() == 0
                &&& profiles::text_of(after.error) == Some(
                    failures_text(text::texts(messages)),
                )
            }
    }

    /// Show anything the sessions that just exited had to say, oldest first.
    pub fn drain_failures(&mut self, messages: &Vec<String>)
        ensures
            if messages@.len() == 0 {
                *final(self) == *old(self)
            } else {
                &&& final(self).same_but_messages(*old(self))
                &&& final(self).status@.len() == 0
                &&& profiles::text_of(final(self).error) == Some(
                    failures_text(text::texts(messages@)),
                )
            },
            old(self).told_of(*final(self), messages@),
    {
        if messages.len() == 0 {
            return;
        }
        let others: usize = messages.len() - 1;
        assert(text::texts(messages@).last() == messages@[others as int]@);
        self.status = String::new();
        let mut s = text::copy(messages[others].as_str());
        if others == 1 {
            s.push_str("\n(one other session failed as well)");
        } else if others > 1 {
            s.push_str("\n(");
            let n = text::decimal_of(others as u64);
            s.push_str(n.as_str());
            s.push_str(" other sessions failed as well)");
        }
        self.error = Some(s);
    }

    /// What connecting to one of the connections does.
    pub open spec fn connects(self, after: Launcher, index: usize, e: Effect) -> bool {
        &&& if index >= self.store.items@.len() {
                e == Effect::Nothing && after == self
            } else {
                let p = self.store.items@[index as int]@;
                match p.problem() {
                    Some(problem) => {
                        &&& e == Effect::Nothing
                        &&& after == (Launcher { error: after.error, ..self })
                        &&& profiles::text_of(after.error) == Some(
                            p.name + " cannot be used: "@ + problem,
                        )
                    },
                    None => e == Effect::Start(index) && after == self,
                }
            }
    }

    /// Start the session of a row, unless its profile cannot be used.
    pub fn connect(&mut self, index: usize) -> (e: Effect)
        ensures
            if index >= old(self).store.items@.len() {
                e == Effect::Nothing && *final(self) == *old(self)
            } else {
                let p = old(self).store.items@[index as int]@;
                match p.problem() {
                    Some(problem) => {
                        &&& e == Effect::Nothing
                        &&& *final(self) == (Launcher { error: final(self).error, ..*old(self) })
                        &&& profiles::text_of(final(self).error) == Some(
                            p.name + " cannot be used: "@ + problem,
                        )
                    },
                    None => e == Effect::Start(index) && *final(self) == *old(self),
                }
            },
            old(self).connects(*final(self), index, e),
    {
        if index >= self.store.items.len() {
            return Effect::Nothing;
        }
        match self.store.items[index].problem() {
            Some(problem) => {
                let mut s = text::copy(self.store.items[index].name.as_str());
                s.push_str(" cannot be used: ");
                s.push_str(problem.as_str());
                self.error = Some(s);
                Effect::Nothing
            },
            None => Effect::Start(index),
        }
    }

    /// What an attempt to start a session does.
    pub open spec fn begun(self, after: Launcher, index: usize, failure: Option<String>) -> bool {
        &&& after.same_but_messages(self)
        &&& match failure {
                None => {
                    &&& after.error is None
                    &&& after.status@ == "Connecting to "@
                        + self.store.items@[index as int]@.destination()
                },
                Some(why) => {
                    &&& after.status == self.status
                    &&& profiles::text_of(after.error) == Some(
                        "Could not start the session: "@ + why@,
                    )
                },
            }
    }

    /// The session of a row was started, or could not be.
    pub fn started(&mut self, index: usize, failure: Option<String>)
        requires
            index < old(self).store.items@.len(),
        ensures
            final(self).same_but_messages(*old(self)),
            match failure {
                None => {
                    &&& final(self).error is None
                    &&& final(self).status@ == "Connecting to "@
                        + old(self).store.items@[index as int]@.destination()
                },
                Some(why) => {
                    &&& final(self).status == old(self).status
                    &&& profiles::text_of(final(self).error) == Some(
                        "Could not start the session: "@ + why@,
                    )
                },
            },
            old(self).begun(*final(self), index, failure),
    {
        match failure {
            None => {
                let mut s = text::copy("Connecting to ");
                let d = self.store.items[index].destination();
                s.push_str(d.as_str());
                self.status = s;
                self.error = None;
            },
            Some(why) => {
                let mut s = text::copy("Could not start the session: ");
                s.push_str(why.as_str());
                self.error = Some(s);
            },
        }
    }

    /// Whether the selected row awaits the second click that deletes it.
    pub open spec fn armed(self) -> bool {
        self.selected matches Some(i) && i < self.store.items@.len() && profiles::text_of(
            self.confirming_delete,
        ) == Some(self.store.items@[i as int].name@)
    }

    /// Whether the selected row awaits the second click that deletes it.
    pub fn confirming(&self) -> (r: bool)
        ensures
            r == self.armed(),
    {
        match (self.selected, &self.confirming_delete) {
            (Some(i), Some(name)) => i < self.store.items.len() && text::same(
                self.store.items[i].name.as_str(),
                name.as_str(),
            ),
            _ => false,
        }
    }

    /// What a click on Delete does to the store.
    pub open spec fn deleted(self) -> Seq<profiles::ProfileModel> {
        profiles::without_name(
            profiles::models(self.store.items@),
            self.store.items@[self.selected->0 as int].name@,
        )
    }

    /// What a click on Delete comes to.
    pub open spec fn delete_step(self, after: Launcher, e: Effect) -> bool {
        match self.selected {
            None => e == Effect::Nothing && after == self,
            Some(i) => {
                let name = self.store.items@[i as int].name@;
                if self.armed() {
                    &&& after == (Launcher {
                        store: after.store,
                        selected: if self.deleted().len() == 0 {
                            None
                        } else if i < self.deleted().len() {
                            Some(i)
                        } else {
                            Some((self.deleted().len() - 1) as usize)
                        },
                        confirming_delete: None,
                        status: after.status,
                        error: after.error,
                        ..self
                    })
                    &&& profiles::models(after.store.items@) =~= self.deleted()
                    &&& after.save_messages("Deleted "@ + name, profiles::text_of(self.error))
                    &&& e == self.save_effect()
                } else {
                    &&& after == (Launcher { confirming_delete: after.confirming_delete, ..self })
                    &&& profiles::text_of(after.confirming_delete) == Some(name)
                    &&& e == Effect::Nothing
                }
            },
        }
    }

    /// Delete needs two clicks: the first arms it, the second does it.
    pub fn delete_clicked(&mut self) -> (e: Effect)
        requires
            old(self).wf(),
        ensures
            final(self).wf(),
            old(self).delete_step(*final(self), e),
            old(self).load_failed ==> e != Effect::Save,
    {
        let index: usize = match self.selected {
            Some(i) => i,
            None => {
                return Effect::Nothing;
            },
        };
        let name = text::copy(self.store.items[index].name.as_str());
        if self.confirming() {
            self.store.remove(name.as_str());
            self.confirming_delete = None;
            assert(profiles::models(self.store.items@).len() == self.store.items@.len());
            self.selected = if self.store.items.len() == 0 {
                None
            } else if index < self.store.items.len() {
                Some(index)
            } else {
                Some(self.store.items.len() - 1)
            };
            let mut s = text::copy("Deleted ");
            s.push_str(name.as_str());
            self.status = s;
            self.save()
        } else {
            self.confirming_delete = Some(name);
            Effect::Nothing
        }
    }

    /// Whether a connection may be added: not while the file could not be
    /// read, since the first save would replace it with the one just typed.
    pub fn can_add(&self) -> (r: bool)
        ensures
            r == !self.load_failed,
    {
        !self.load_failed
    }

    /// What an event of the list does.
    pub open spec fn listed(self, after: Launcher, event: ListEvent, e: Effect) -> bool {
        &&& after.wf()
        &&& after.load_failed == self.load_failed
        &&& after.path == self.path
        &&& !(event is Delete) ==> after.store == self.store
        &&& self.load_failed ==> e != Effect::Save
        &&& match event {
                ListEvent::New => {
                    &&& e == Effect::Nothing
                    &&& if self.load_failed {
                        after == self
                    } else {
                        &&& after == (Launcher {
                            view: after.view,
                            confirming_delete: None,
                            ..self
                        })
                        &&& after.view matches Screen::Edit(ed) && ed.original is None
                            && profiles::unset(ed.profile.name@, true) == ed.profile@
                            && ed.profile.name@ == self.fresh_name()
                            && !self.store.names().contains(ed.profile.name@)
                            && ed.shows_profile()
                    }
                },
                ListEvent::Select(i) => {
                    &&& e == Effect::Nothing
                    &&& after == (Launcher {
                        selected: Some(i),
                        confirming_delete: None,
                        ..self
                    })
                },
                ListEvent::Open(i) => {
                    let p = self.store.items@[i as int]@;
                    &&& after.selected == Some(i)
                    &&& after.confirming_delete is None
                    &&& after.view == self.view
                    &&& after.status == self.status
                    &&& match p.problem() {
                        Some(problem) => e == Effect::Nothing && profiles::text_of(
                            after.error,
                        ) == Some(p.name + " cannot be used: "@ + problem),
                        None => e == Effect::Start(i) && after.error == self.error,
                    }
                },
                ListEvent::Connect => match self.selected {
                    None => e == Effect::Nothing && after == self,
                    Some(i) => {
                        let p = self.store.items@[i as int]@;
                        &&& after == (Launcher { error: after.error, ..self })
                        &&& match p.problem() {
                            Some(problem) => e == Effect::Nothing && profiles::text_of(
                                after.error,
                            ) == Some(p.name + " cannot be used: "@ + problem),
                            None => e == Effect::Start(i) && after.error == self.error,
                        }
                    },
                },
                ListEvent::Edit => {
                    &&& e == Effect::Nothing
                    &&& match self.selected {
                        None => after == self,
                        Some(i) => {
                            &&& after == (Launcher {
                                view: after.view,
                                confirming_delete: None,
                                ..self
                            })
                            &&& after.view matches Screen::Edit(ed) && ed.profile@
                                == self.store.items@[i as int]@ && profiles::text_of(
                                ed.original,
                            ) == Some(ed.profile.name@) && ed.shows_profile()
                        },
                    }
                },
                ListEvent::Delete => self.delete_step(after, e),
                ListEvent::MoveAside => {
                    &&& after == self
                    &&& e == if self.load_failed {
                        Effect::MoveAside
                    } else {
                        Effect::Nothing
                    }
                },
            }
    }

    /// React to what the user did in the list.
    pub fn list_event(&mut self, event: ListEvent) -> (e: Effect)
        requires
            old(self).wf(),
            old(self).store.items@.len() < usize::MAX,
            match event {
                ListEvent::Select(i) => i < old(self).store.items@.len(),
                ListEvent::Open(i) => i < old(self).store.items@.len(),
                _ => true,
            },
        ensures
            final(self).wf(),
            final(self).load_failed == old(self).load_failed,
            final(self).path == old(self).path,
            !(event is Delete) ==> final(self).store == old(self).store,
            old(self).load_failed ==> e != Effect::Save,
            match event {
                ListEvent::New => {
                    &&& e == Effect::Nothing
                    &&& if old(self).load_failed {
                        *final(self) == *old(self)
                    } else {
                        &&& *final(self) == (Launcher {
                            view: final(self).view,
                            confirming_delete: None,
                            ..*old(self)
                        })
                        &&& final(self).view matches Screen::Edit(ed) && ed.original is None
                            && profiles::unset(ed.profile.name@, true) == ed.profile@
                            && ed.profile.name@ == old(self).fresh_name()
                            && !old(self).store.names().contains(ed.profile.name@)
                            && ed.shows_profile()
                    }
                },
                ListEvent::Select(i) => {
                    &&& e == Effect::Nothing
                    &&& *final(self) == (Launcher {
                        selected: Some(i),
                        confirming_delete: None,
                        ..*old(self)
                    })
                },
                ListEvent::Open(i) => {
                    let p = old(self).store.items@[i as int]@;
                    &&& final(self).selected == Some(i)
                    &&& final(self).confirming_delete is None
                    &&& final(self).view == old(self).view
                    &&& final(self).status == old(self).status
                    &&& match p.problem() {
                        Some(problem) => e == Effect::Nothing && profiles::text_of(
                            final(self).error,
                        ) == Some(p.name + " cannot be used: "@ + problem),
                        None => e == Effect::Start(i) && final(self).error == old(self).error,
                    }
                },
                ListEvent::Connect => match old(self).selected {
                    None => e == Effect::Nothing && *final(self) == *old(self),
                    Some(i) => {
                        let p = old(self).store.items@[i as int]@;
                        &&& *final(self) == (Launcher { error: final(self).error, ..*old(self) })
                        &&& match p.problem() {
                            Some(problem) => e == Effect::Nothing && profiles::text_of(
                                final(self).error,
                            ) == Some(p.name + " cannot be used: "@ + problem),
                            None => e == Effect::Start(i) && final(self).error == old(self).error,
                        }
                    },
                },
                ListEvent::Edit => {
                    &&& e == Effect::Nothing
                    &&& match old(self).selected {
                        None => *final(self) == *old(self),
                        Some(i) => {
                            &&& *final(self) == (Launcher {
                                view: final(self).view,
                                confirming_delete: None,
                                ..*old(self)
                            })
                            &&& final(self).view matches Screen::Edit(ed) && ed.profile@
                                == old(self).store.items@[i as int]@ && profiles::text_of(
                                ed.original,
                            ) == Some(ed.profile.name@) && ed.shows_profile()
                        },
                    }
                },
                ListEvent::Delete => old(self).delete_step(*final(self), e),
                ListEvent::MoveAside => {
                    &&& *final(self) == *old(self)
                    &&& e == if old(self).load_failed {
                        Effect::MoveAside
                    } else {
                        Effect::Nothing
                    }
                },
            },
            old(self).listed(*final(self), event, e),
    {
        match event {
            ListEvent::New => {
                if !self.load_failed {
                    let name = self.store.unique_name("New connection");
                    let ghost fresh = name@;
                    let profile = Profile::new(name.as_str());
                    self.view = Screen::Edit(Box::new(Editor::new(profile, None)));
                    self.confirming_delete = None;
                    proof {
                        old(self).lemma_fresh_name(fresh);
                    }
                }
                Effect::Nothing
            },
            ListEvent::Select(i) => {
                self.selected = Some(i);
                self.confirming_delete = None;
                Effect::Nothing
            },
            ListEvent::Open(i) => {
                self.selected = Some(i);
                self.confirming_delete = None;
                self.connect(i)
            },
            ListEvent::Connect => match self.selected {
                Some(i) => self.connect(i),
                None => Effect::Nothing,
            },
            ListEvent::Edit => {
                match self.selected {
                    Some(i) => {
                        let profile = self.store.items[i].clone();
                        let original = text::copy(profile.name.as_str());
                        self.view = Screen::Edit(Box::new(Editor::new(profile, Some(original))));
                        self.confirming_delete = None;
                    },
                    None => {},
                }
                Effect::Nothing
            },
            ListEvent::Delete => self.delete_clicked(),
            ListEvent::MoveAside => if self.load_failed {
                Effect::MoveAside
            } else {
                Effect::Nothing
            },
        }
    }

    /// The name a new connection starts with: the stock name, or the first
    /// numbered one that is free.
    pub open spec fn fresh_name(self) -> Seq<char> {
        let base = "New connection"@;
        let all = self.store.names();
        profiles::candidate(base, choose|n: nat| #[trigger] profiles::first_free(all, base, n))
    }

    proof fn lemma_fresh_name(self, name: Seq<char>)
        requires
            exists|n: nat| #[trigger]
                profiles::first_free(
                    self.store.names(),
                    profiles::base_name("New connection"@),
                    n,
                ) && name == profiles::candidate(profiles::base_name("New connection"@), n),
        ensures
            name == self.fresh_name(),
    {
        reveal_strlit("New connection");
        let base = "New connection"@;
        let all = self.store.names();
        assert(!text::white_space(base[0]));
        assert(base[13] == 'n');
        lemma_trim_solid(base);
        assert(!text::blank(base));
        let n = choose|n: nat| #[trigger]
            profiles::first_free(all, base, n) && name == profiles::candidate(base, n);
        let m = choose|m: nat| #[trigger] profiles::first_free(all, base, m);
        assert(m == n) by {
            if m < n {
                assert(all.contains(profiles::candidate(base, m)));
            }
            if n < m {
                assert(all.contains(profiles::candidate(base, n)));
            }
        }
    }
}

/// What a name that is in use is answered.
pub open spec fn taken_text(name: Seq<char>) -> Seq<char> {
    "There is already a connection called "@ + profiles::quoted(name)
        + ". Names have to be unique, so choose another."@
}

/// The list after an edit was saved: the entry it started from goes where its
/// name changed, since entries are keyed by name.
pub open spec fn saved_list(
    items: Seq<profiles::ProfileModel>,
    original: Option<Seq<char>>,
    p: profiles::ProfileModel,
) -> Seq<profiles::ProfileModel> {
    profiles::upserted(
        match original {
            Some(previous) => if previous != p.name {
                profiles::without_name(items, previous)
            } else {
                items
            },
            None => items,
        },
        p,
    )
}

impl Launcher {
    /// Leave the editor without saving.
    pub fn cancel_editor(&mut self)
        ensures
            *final(self) == (Launcher { view: Screen::List, error: None, ..*old(self) }),
    {
        self.view = Screen::List;
        self.error = None;
    }

    /// What saving the connection that is being edited does.
    pub open spec fn edited(self, after: Launcher, e: Effect) -> bool {
        &&& after.wf()
        &&& after.load_failed == self.load_failed
        &&& after.path == self.path
        &&& after.confirming_delete == self.confirming_delete
        &&& self.load_failed ==> e != Effect::Save
        &&& match self.view {
                Screen::List => e == Effect::Nothing && after == self,
                Screen::Edit(ed) => {
                    let p = ed.draft();
                    let original = profiles::text_of(ed.original);
                    if ed.fault() is Some {
                        &&& e == Effect::Nothing
                        &&& after == (Launcher { error: after.error, ..self })
                        &&& profiles::text_of(after.error) == ed.fault()
                    } else if self.store.names().contains(p.name) && original != Some(
                        p.name,
                    ) {
                        &&& e == Effect::Nothing
                        &&& after == (Launcher { error: after.error, ..self })
                        &&& profiles::text_of(after.error) == Some(taken_text(p.name))
                    } else {
                        &&& e == self.save_effect()
                        &&& after.view is List
                        &&& profiles::models(after.store.items@) == saved_list(
                            profiles::models(self.store.items@),
                            original,
                            p,
                        )
                        &&& after.selected matches Some(i) && profiles::is_first(
                            after.store.names(),
                            p.name,
                            i as int,
                        )
                        &&& after.save_messages("Saved "@ + p.name, None)
                    }
                },
            }
    }

    /// Save what the editor holds.
    ///
    /// The name is checked before anything is written, and before the status
    /// line claims success: saving onto a name already in use would not add a
    /// connection but replace the other one.
    pub fn save_editor(&mut self) -> (e: Effect)
        requires
            old(self).wf(),
            old(self).store.items@.len() < usize::MAX,
        ensures
            final(self).wf(),
            final(self).load_failed == old(self).load_failed,
            final(self).path == old(self).path,
            final(self).confirming_delete == old(self).confirming_delete,
            old(self).load_failed ==> e != Effect::Save,
            match old(self).view {
                Screen::List => e == Effect::Nothing && *final(self) == *old(self),
                Screen::Edit(ed) => {
                    let p = ed.draft();
                    let original = profiles::text_of(ed.original);
                    if ed.fault() is Some {
                        &&& e == Effect::Nothing
                        &&& *final(self) == (Launcher { error: final(self).error, ..*old(self) })
                        &&& profiles::text_of(final(self).error) == ed.fault()
                    } else if old(self).store.names().contains(p.name) && original != Some(
                        p.name,
                    ) {
                        &&& e == Effect::Nothing
                        &&& *final(self) == (Launcher { error: final(self).error, ..*old(self) })
                        &&& profiles::text_of(final(self).error) == Some(taken_text(p.name))
                    } else {
                        &&& e == old(self).save_effect()
                        &&& final(self).view is List
                        &&& profiles::models(final(self).store.items@) == saved_list(
                            profiles::models(old(self).store.items@),
                            original,
                            p,
                        )
                        &&& final(self).selected matches Some(i) && profiles::is_first(
                            final(self).store.names(),
                            p.name,
                            i as int,
                        )
                        &&& final(self).save_messages("Saved "@ + p.name, None)
                    }
                },
            },
            old(self).edited(*final(self), e),
    {
        let (collected, original) = match &self.view {
            Screen::List => {
                return Effect::Nothing;
            },
            Screen::Edit(editor) => (
                editor.collect(),
                match &editor.original {
                    Some(name) => Some(text::copy(name.as_str())),
                    None => None,
                },
            ),
        };
        let profile = match collected {
            Ok(p) => p,
            Err(problem) => {
                self.error = Some(problem);
                return Effect::Nothing;
            },
        };
        let excluding = match &original {
            Some(name) => Some(name.as_str()),
            None => None,
        };
        if self.store.name_taken(profile.name.as_str(), excluding) {
            let mut s = text::copy("There is already a connection called ");
            let q = profiles::quote(profile.name.as_str());
            s.push_str(q.as_str());
            s.push_str(". Names have to be unique, so choose another.");
            self.error = Some(s);
            return Effect::Nothing;
        }
        match &original {
            Some(previous) => {
                if !text::same(previous.as_str(), profile.name.as_str()) {
                    self.store.remove(previous.as_str());
                }
            },
            None => {},
        }
        let name = text::copy(profile.name.as_str());
        let ghost before = self.store.items@;
        self.store.upsert(profile);
        proof {
            lemma_upserted_has(profiles::models(before), profile@);
            assert(self.store.names() =~= profiles::model_names(
                profiles::models(self.store.items@),
            ));
        }
        self.selected = self.store.position(name.as_str());
        let mut s = text::copy("Saved ");
        s.push_str(name.as_str());
        self.status = s;
        self.error = None;
        self.view = Screen::List;
        self.save()
    }

    /// The line the window shows, and whether it is a problem.
    pub fn message(&self) -> (r: (String, bool))
        ensures
            match self.error {
                Some(e) => r.0@ == e@ && r.1,
                None => r.0@ == self.status@ && !r.1,
            },
    {
        match &self.error {
            Some(e) => (text::copy(e.as_str()), true),
            None => (text::copy(self.status.as_str()), false),
        }
    }
}

proof fn lemma_upserted_has(items: Seq<profiles::ProfileModel>, p: profiles::ProfileModel)
    ensures
        profiles::model_names(profiles::upserted(items, p)).contains(p.name),
{
    let names = profiles::model_names(items);
    let after = profiles::upserted(items, p);
    if names.contains(p.name) {
        profiles::lemma_find_exists(names, p.name);
        let i = profiles::find(names, p.name);
        assert(profiles::model_names(after)[i] == p.name);
    } else {
        assert(profiles::model_names(after)[items.len() as int] == p.name);
    }
}

/// Saving an edit never costs another connection: each one that is neither the
/// one edited nor of the saved name is still in the list.
pub proof fn law_saving_keeps_the_others(
    items: Seq<profiles::ProfileModel>,
    original: Option<Seq<char>>,
    p: profiles::ProfileModel,
    other: profiles::ProfileModel,
)
    requires
        items.contains(other),
        original != Some(other.name),
        other.name != p.name,
    ensures
        saved_list(items, original, p).contains(other),
{
    let left = match original {
        Some(previous) => if previous != p.name {
            profiles::without_name(items, previous)
        } else {
            items
        },
        None => items,
    };
    let k = choose|k: int| 0 <= k < items.len() && items[k] == other;
    assert(left.contains(other)) by {
        if let Some(previous) = original {
            if previous != p.name && profiles::model_names(items).contains(previous) {
                let names = profiles::model_names(items);
                profiles::lemma_find_exists(names, previous);
                let at = profiles::find(names, previous);
                assert(names[at] == previous && names[k] == other.name);
                if k < at {
                    assert(left[k] == other);
                } else {
                    assert(left[k - 1] == other);
                }
            } else {
                assert(left[k] == other);
            }
        } else {
            assert(left[k] == other);
        }
    }
    let j = choose|j: int| 0 <= j < left.len() && left[j] == other;
    let names = profiles::model_names(left);
    if names.contains(p.name) {
        profiles::lemma_find_exists(names, p.name);
        assert(names[j] == other.name);
        assert(saved_list(items, original, p)[j] == other);
    } else {
        assert(saved_list(items, original, p)[j] == other);
    }
}

// ---------------------------------------------------------------------------
// Laws of the fields and of the list
// ---------------------------------------------------------------------------

/// A port field holds nothing, or a whole number from 1 to 65535 between white
/// space, which is the port.
pub proof fn law_port_field_is_read(s: Seq<char>)
    ensures
        text::trim(s).len() == 0 ==> port_ok(s) && port_value(s) is None,
        text::trim(s).len() > 0 ==> (port_ok(s) <==> (text::unsigned(text::trim(s), 65535) matches Some(
            n,
        ) && n > 0)),
        text::unsigned(text::trim(s), 65535) matches Some(n) ==> port_value(s) == Some(n as u16),
        port_fault("SSH port"@) == "SSH port"@ + " must be a number between 1 and 65535."@,
{
    if text::trim(s).len() == 0 {
        assert(text::trim(s) =~= Seq::<char>::empty());
    }
}

proof fn lemma_cross_at(s: Seq<char>, i: int)
    requires
        0 <= i < s.len(),
        s[i] == 'x' || s[i] == 'X',
        forall|k: int| 0 <= k < i ==> s[k] != 'x' && s[k] != 'X',
    ensures
        cross(s) == i,
{
    lemma_next_is_at(s, 'x', 0, i);
    lemma_next_is_at(s, 'X', 0, i);
}

proof fn lemma_next_is_at(s: Seq<char>, c: char, from: int, i: int)
    requires
        0 <= from <= i < s.len(),
        forall|k: int| from <= k < i ==> s[k] != c,
    ensures
        text::next_char(s, c, from) >= i,
        s[i] == c ==> text::next_char(s, c, from) == i,
    decreases i - from,
{
    if from < i {
        lemma_next_is_at(s, c, from + 1, i);
    } else if s[i] != c {
        lemma_next_goes_on(s, c, i + 1);
    }
}

proof fn lemma_next_goes_on(s: Seq<char>, c: char, from: int)
    requires
        0 <= from,
    ensures
        from <= s.len() ==> text::next_char(s, c, from) >= from,
        from > s.len() ==> text::next_char(s, c, from) == s.len(),
    decreases s.len() - from,
{
    if from < s.len() {
        lemma_next_goes_on(s, c, from + 1);
    }
}

/// A size is the width, a cross of either case, and the height: two whole
/// numbers, neither of them zero, with or without white space around each.
pub proof fn law_size_field_is_read(s: Seq<char>, w: Seq<char>, c: char, h: Seq<char>)
    requires
        text::trim(s) == w + seq![c] + h,
        c == 'x' || c == 'X',
        forall|k: int| 0 <= k < w.len() ==> w[k] != 'x' && w[k] != 'X',
    ensures
        ({
            let width = text::unsigned(text::trim(w), 65535);
            let height = text::unsigned(text::trim(h), 65535);
            &&& width is None || height is None ==> size_fault(s) == Some(
                "The size should look like 1920x1080."@,
            )
            &&& width matches Some(a) ==> (height matches Some(b) ==> (a == 0 || b == 0
                ==> size_fault(s) == Some("The size must be positive."@)) && (a > 0 && b > 0
                ==> size_fault(s) is None && size_value(s) == Some((a as u16, b as u16))))
        }),
{
    let t = text::trim(s);
    let i = w.len() as int;
    assert(t[i] == c);
    assert forall|k: int| 0 <= k < i implies t[k] != 'x' && t[k] != 'X' by {
        assert(t[k] == w[k]);
    }
    lemma_cross_at(t, i);
    assert(t.take(i) =~= w);
    assert(t.skip(i + 1) =~= h);
}

/// An empty size field asks for no size, and one without a cross is refused.
pub proof fn law_size_field_without_a_cross(s: Seq<char>)
    ensures
        text::trim(s).len() == 0 ==> size_fault(s) is None && size_value(s) is None,
        text::trim(s).len() > 0 && (forall|k: int|
            0 <= k < text::trim(s).len() ==> text::trim(s)[k] != 'x' && text::trim(s)[k] != 'X')
            ==> size_fault(s) == Some("The size should look like 1920x1080."@),
{
    let t = text::trim(s);
    if t.len() > 0 && (forall|k: int| 0 <= k < t.len() ==> t[k] != 'x' && t[k] != 'X') {
        let last = t.len() - 1;
        lemma_next_is_at(t, 'x', 0, last);
        lemma_next_is_at(t, 'X', 0, last);
        assert(text::next_char(t, 'x', 0) != last) by {
            lemma_next_is_there(t, 'x', 0);
        }
        assert(text::next_char(t, 'X', 0) != last) by {
            lemma_next_is_there(t, 'X', 0);
        }
    }
}

proof fn lemma_next_is_there(s: Seq<char>, c: char, from: int)
    requires
        0 <= from,
    ensures
        text::next_char(s, c, from) < s.len() ==> s[text::next_char(s, c, from)] == c,
    decreases s.len() - from,
{
    if from < s.len() {
        lemma_next_is_there(s, c, from + 1);
    }
}

/// What is saved is what stands in the fields: the texts without white space at
/// their ends, the ports and the size of their own fields, and the switches.
pub proof fn law_fields_make_the_connection(ed: Editor)
    ensures
        ({
            let d = ed.draft();
            &&& d.name == text::trim(ed.profile.name@)
            &&& d.host == text::trim(ed.profile.host@)
            &&& d.user == text::trim(ed.profile.user@)
            &&& d.ssh_port == port_value(ed.ssh_port@)
            &&& d.remote_port == port_value(ed.remote_port@)
            &&& d.size == size_value(ed.size@)
            &&& d.fullscreen == ed.profile.fullscreen
            &&& d.dynamic_resize == ed.profile.dynamic_resize
            &&& d.clipboard == ed.profile.clipboard
            &&& text::trim(ed.identity@).len() == 0 ==> d.identity is None
            &&& text::trim(ed.identity@).len() > 0 ==> d.identity == Some(text::trim(ed.identity@))
        }),
        ed.fault() is None <==> port_ok(ed.ssh_port@) && port_ok(ed.remote_port@) && size_fault(
            ed.size@,
        ) is None && ed.draft().problem() is None,
        !port_ok(ed.ssh_port@) ==> ed.fault() == Some(
            "SSH port"@ + " must be a number between 1 and 65535."@,
        ),
        port_ok(ed.ssh_port@) && !port_ok(ed.remote_port@) ==> ed.fault() == Some(
            "LynxRDP port"@ + " must be a number between 1 and 65535."@,
        ),
{
}

/// A connection that is sound is started, by its place in the list; one that is
/// not is named with what is wrong with it, and nothing is started.
pub proof fn law_sound_connections_are_started(l: Launcher, after: Launcher, index: usize, e: Effect)
    requires
        l.connects(after, index, e),
    ensures
        e is Start <==> index < l.store.items@.len() && l.store.items@[index as int]@.problem() is None,
        e matches Effect::Start(i) ==> i == index && after == l,
        index < l.store.items@.len() ==> (l.store.items@[index as int]@.problem() matches Some(why)
            ==> (after.error matches Some(m) && m@ == l.store.items@[index as int].name@
            + " cannot be used: "@ + why)),
        after.store == l.store && after.selected == l.selected && after.view == l.view,
{
}

/// The list: what is clicked is selected; what is opened is selected and
/// started; what is edited is the selected one; nothing is added while the file
/// could not be read.
pub proof fn law_list_does_what_is_asked(l: Launcher, after: Launcher, event: ListEvent, e: Effect)
    requires
        l.wf(),
        l.listed(after, event, e),
    ensures
        event matches ListEvent::Select(i) ==> after.selected == Some(i) && e == Effect::Nothing
            && after.store == l.store && after.view == l.view,
        event matches ListEvent::Open(i) ==> after.selected == Some(i) && (e is Start
            <==> l.store.items@[i as int]@.problem() is None) && (e matches Effect::Start(k) ==> k
            == i),
        event is Connect ==> (l.selected matches Some(i) ==> (e is Start
            <==> l.store.items@[i as int]@.problem() is None) && (e matches Effect::Start(k) ==> k
            == i)),
        event is Connect && l.selected is None ==> e == Effect::Nothing && after == l,
        event is Edit ==> (l.selected matches Some(i) ==> (after.view matches Screen::Edit(ed)
            && ed.profile@ == l.store.items@[i as int]@ && (ed.original matches Some(o) && o@
            == l.store.items@[i as int].name@))),
        event is New && l.load_failed ==> after == l && e == Effect::Nothing,
        event is New && !l.load_failed ==> (after.view matches Screen::Edit(ed) && ed.original is None
            && ed.profile.host@.len() == 0 && forall|k: int|
            0 <= k < l.store.items@.len() ==> ed.profile.name@ != #[trigger] l.store.items@[k].name@),
        event is MoveAside ==> after == l && (e == Effect::MoveAside <==> l.load_failed),
        !(event is Delete) ==> after.store == l.store,
        !(event is Delete) ==> e != Effect::Save,
{
    if event is New && !l.load_failed {
        assert forall|k: int| 0 <= k < l.store.items@.len() implies after.view->Edit_0.profile.name@
            != #[trigger] l.store.items@[k].name@ by {
            assert(l.store.names()[k] == l.store.items@[k].name@);
        }
    }
}

/// A connection is deleted at the second click on it, not at the first, and then
/// it alone; the selection stays at its place, or at the last connection.
pub proof fn law_deleting_takes_two_clicks(l: Launcher, after: Launcher, e: Effect, i: usize)
    requires
        l.wf(),
        l.delete_step(after, e),
        l.selected == Some(i),
        forall|j: int, k: int|
            0 <= j < k < l.store.items@.len() ==> (#[trigger] l.store.items@[j]).name@ != (
            #[trigger] l.store.items@[k]).name@,
    ensures
        !(l.confirming_delete matches Some(c) && c@ == l.store.items@[i as int].name@)
            ==> after.store == l.store && e == Effect::Nothing && (after.confirming_delete matches Some(
            c,
        ) && c@ == l.store.items@[i as int].name@),
        (l.confirming_delete matches Some(c) && c@ == l.store.items@[i as int].name@) ==> ({
            let left = l.store.items@.len() - 1;
            &&& profiles::models(after.store.items@) == profiles::models(l.store.items@).remove(
                i as int,
            )
            &&& after.confirming_delete is None
            &&& (e == Effect::Save <==> !l.load_failed)
            &&& left == 0 ==> after.selected is None
            &&& left > 0 && i < left ==> after.selected == Some(i)
            &&& left > 0 && i >= left ==> after.selected == Some((left - 1) as usize)
            &&& !l.load_failed ==> after.status@ == "Deleted "@ + l.store.items@[i as int].name@
        }),
{
    let items = profiles::models(l.store.items@);
    let p = l.store.items@[i as int]@;
    assert(items[i as int] == p);
    assert forall|j: int| 0 <= j < i implies (#[trigger] items[j]).name != p.name by {
        assert(items[j] == l.store.items@[j]@);
    }
    profiles::law_connections_are_found_by_name(items, p, i as int);
}

/// What is edited is saved where it is sound and its name is free or its own, and
/// is selected then; else the list stays as it is and the fault is told.
pub proof fn law_edited_connection_is_saved(l: Launcher, after: Launcher, e: Effect, ed: Editor)
    requires
        l.view == Screen::Edit(Box::new(ed)),
        l.edited(after, e),
    ensures
        ({
            let d = ed.draft();
            let own = ed.original matches Some(o) && o@ == d.name;
            let taken = exists|k: int|
                0 <= k < l.store.items@.len() && #[trigger] l.store.items@[k].name@ == d.name;
            &&& ed.fault() matches Some(why) ==> after.store == l.store && after.view == l.view && e
                == Effect::Nothing && (after.error matches Some(m) && m@ == why)
            &&& ed.fault() is None && taken && !own ==> after.store == l.store && after.view == l.view
                && e == Effect::Nothing && (after.error matches Some(m) && m@
                == "There is already a connection called "@ + profiles::quoted(d.name)
                + ". Names have to be unique, so choose another."@)
            &&& ed.fault() is None && (!taken || own) ==> after.view is List && (e == Effect::Save
                <==> !l.load_failed) && (after.selected matches Some(i) && i
                < after.store.items@.len() && after.store.items@[i as int].name@ == d.name)
            &&& ed.fault() is None && (!taken || own) && !l.load_failed ==> after.status@ == "Saved "@
                + d.name && after.error is None
        }),
{
    let d = ed.draft();
    let all = l.store.names();
    if all.contains(d.name) {
        let k = choose|k: int| 0 <= k < all.len() && all[k] == d.name;
        assert(l.store.items@[k].name@ == d.name);
    }
    if exists|k: int| 0 <= k < l.store.items@.len() && #[trigger] l.store.items@[k].name@ == d.name {
        let k = choose|k: int|
            0 <= k < l.store.items@.len() && #[trigger] l.store.items@[k].name@ == d.name;
        assert(all[k] == d.name);
    }
}

/// A connection that was given another name is no longer there under the old
/// one; one that kept its name stands where it stood.
pub proof fn law_saved_connection_takes_its_place(
    items: Seq<profiles::ProfileModel>,
    p: profiles::ProfileModel,
    previous: Seq<char>,
    i: int,
)
    requires
        0 <= i < items.len(),
        items[i].name == previous,
        forall|j: int| 0 <= j < i ==> (#[trigger] items[j]).name != previous,
    ensures
        previous == p.name ==> saved_list(items, Some(previous), p) == items.update(i, p),
        previous != p.name && (forall|j: int|
            0 <= j < items.len() ==> (#[trigger] items[j]).name != p.name) ==> saved_list(
            items,
            Some(previous),
            p,
        ) == items.remove(i).push(p),
        (forall|j: int| 0 <= j < items.len() ==> (#[trigger] items[j]).name != p.name) ==> saved_list(
            items,
            None,
            p,
        ) == items.push(p),
{
    if previous == p.name {
        profiles::law_connections_are_found_by_name(items, p, i);
    } else if forall|j: int| 0 <= j < items.len() ==> (#[trigger] items[j]).name != p.name {
        profiles::law_connections_are_found_by_name(items, items[i], i);
        let left = items.remove(i);
        assert forall|j: int| 0 <= j < left.len() implies (#[trigger] left[j]).name != p.name by {
            if j < i {
                assert(left[j] == items[j]);
            } else {
                assert(left[j] == items[j + 1]);
            }
        }
        profiles::law_new_names_come_last(left, p);
        profiles::law_new_names_come_last(items, p);
    }
}

/// Nothing is written over a file that could not be read, until it has been moved
/// aside; the list is empty then and can be added to.
pub proof fn law_unreadable_file_is_not_written_over(
    l: Launcher,
    after: Launcher,
    moved: Result<String, String>,
)
    requires
        l.moved_aside(after, moved),
    ensures
        l.load_failed ==> l.save_effect() == Effect::Nothing,
        !l.load_failed ==> l.save_effect() == Effect::Save,
        moved matches Ok(to) ==> !after.load_failed && after.save_effect() == Effect::Save
            && after.store.items@.len() == 0 && after.error is None && after.status@
            == "Moved the unreadable file to "@ + to@,
        moved matches Err(why) ==> after.load_failed == l.load_failed && after.store == l.store && (
        after.error matches Some(m) && m@ == "Could not move "@ + l.path@ + ": "@ + why@),
        refusal_text(l.path@) == "Not saving: "@ + l.path@
            + " could not be read, and writing now would replace whatever is still in it."@,
{
}

/// Of sessions that failed together the last is told, and how many others there
/// were.
pub proof fn law_last_failure_is_told(l: Launcher, after: Launcher, messages: Seq<String>)
    requires
        l.told_of(after, messages),
    ensures
        messages.len() == 0 ==> after == l,
        messages.len() == 1 ==> (after.error matches Some(m) && m@ == messages[0]@),
        messages.len() == 2 ==> (after.error matches Some(m) && m@ == messages[1]@
            + "\n(one other session failed as well)"@),
        messages.len() > 2 ==> (after.error matches Some(m) && m@ == messages.last()@ + "\n("@
            + text::decimal((messages.len() - 1) as nat) + " other sessions failed as well)"@),
        messages.len() > 0 ==> after.status@.len() == 0,
        after.store == l.store && after.selected == l.selected,
{
    if messages.len() > 0 {
        assert(text::texts(messages).last() == messages.last()@);
    }
}

/// A session that starts is told by where it connects to, one that does not by
/// why.
pub proof fn law_start_is_told(l: Launcher, after: Launcher, index: usize, failure: Option<String>)
    requires
        index < l.store.items@.len(),
        l.begun(after, index, failure),
    ensures
        failure is None ==> after.error is None && after.status@ == "Connecting to "@
            + l.store.items@[index as int]@.destination(),
        failure matches Some(why) ==> (after.error matches Some(m) && m@
            == "Could not start the session: "@ + why@),
        after.store == l.store && after.selected == l.selected && after.view == l.view,
{
}

/// Where nothing is selected there is nothing to delete.
pub proof fn law_nothing_selected_is_nothing_deleted(l: Launcher, after: Launcher, e: Effect)
    requires
        l.delete_step(after, e),
        l.selected is None,
    ensures
        after == l,
        e == Effect::Nothing,
{
}

} // verus!
