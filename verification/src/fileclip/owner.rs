//! Owning the X11 clipboard selection.
//!
//! X11 treats the clipboard as a protocol rather than storage, so the owner
//! must stay running and answer conversion requests.

use vstd::prelude::*;

use crate::text;

verus! {

/// The atoms the owner answers to.
#[derive(Clone, Copy, Debug, PartialEq, Eq, Structural)]
pub struct Atoms {
    pub clipboard: u32,
    pub targets: u32,
    pub timestamp: u32,
    pub uri_list: u32,
    pub gnome_copied: u32,
}

/// What no property is named by.
pub const NONE: u32 = 0;

/// What a conversion puts on the requestor's property.
#[derive(Debug, PartialEq, Eq)]
pub enum Conversion {
    /// Nothing: the target is not one we can produce.
    Refused,
    /// The targets there are.
    Targets(Vec<u32>),
    /// The time the selection was taken at.
    Timestamp,
    /// Text of the target's own type.
    Text(String),
}

/// What is offered. Nothing means "nothing to convert", which is also how a
/// lost selection is recorded.
#[derive(Debug, PartialEq, Eq)]
pub struct Owner {
    pub files: Vec<String>,
}

/// A text with every line ending reduced to a line feed.
pub open spec fn unix_lines(s: Seq<char>) -> Seq<char>
    decreases s.len(),
{
    if s.len() == 0 {
        s
    } else if s.len() >= 2 && s[0] == '\r' && s[1] == '\n' {
        seq!['\n'] + unix_lines(s.skip(2))
    } else {
        seq![s[0]] + unix_lines(s.skip(1))
    }
}

/// The list as the GNOME file managers want it: the operation on the first line
/// and line feeds between, not the line endings of the list proper.
pub open spec fn gnome_list(list: Seq<char>) -> Seq<char> {
    "copy\n"@ + unix_lines(list)
}

fn reduce_lines(list: &str) -> (s: String)
    ensures
        s@ == unix_lines(list@),
{
    let v = text::chars_of(list);
    let mut out: Vec<char> = Vec::new();
    let mut i: usize = 0;
    assert(v@.skip(0) =~= v@);
    while i < v.len()
        invariant
            i <= v.len(),
            v@ == list@,
            unix_lines(v@) == out@ + unix_lines(v@.skip(i as int)),
        decreases v.len() - i,
    {
        let ghost rest = v@.skip(i as int);
        let ghost before = out@;
        assert(rest.skip(1) =~= v@.skip(i + 1));
        if v.len() - i >= 2 && v[i] == '\r' && v[i + 1] == '\n' {
            assert(rest.skip(2) =~= v@.skip(i + 2));
            out.push('\n');
            assert(before + (seq!['\n'] + unix_lines(rest.skip(2))) =~= out@ + unix_lines(
                rest.skip(2),
            ));
            i = i + 2;
        } else {
            out.push(v[i]);
            assert(before + (seq![rest[0]] + unix_lines(rest.skip(1))) =~= out@ + unix_lines(
                rest.skip(1),
            ));
            i = i + 1;
        }
    }
    assert(v@.skip(i as int) =~= Seq::<char>::empty());
    assert(out@ + Seq::<char>::empty() =~= out@);
    text::string_of(&out)
}

impl Owner {
    pub fn new() -> (o: Owner)
        ensures
            o.files@.len() == 0,
    {
        Owner { files: Vec::new() }
    }

    /// Offer `paths`, and say whether the selection came to us. `owns` is what
    /// the server says once it was asked for the selection.
    ///
    /// The list goes down before the selection is taken, so a requestor that
    /// asks the instant ownership changes hands cannot be answered with the
    /// previous copy's files.
    pub fn publish(&mut self, paths: Vec<String>, owns: bool) -> (r: Result<(), String>)
        ensures
            if owns {
                r is Ok && final(self).files == paths
            } else {
                &&& r matches Err(e) && e@ == "another program holds the clipboard"@
                &&& final(self).files@.len() == 0
            },
    {
        self.files = paths;
        if !owns {
            self.files = Vec::new();
            return Err(text::copy("another program holds the clipboard"));
        }
        Ok(())
    }

    /// Something else took the clipboard, so there is nothing left to offer --
    /// unless a copy has taken it back since, which the server knows.
    pub fn taken(&mut self, owns: bool)
        ensures
            if owns {
                *final(self) == *old(self)
            } else {
                final(self).files@.len() == 0
            },
    {
        if !owns {
            self.files = Vec::new();
        }
    }

    /// What is handed to one who asks for the files in a form.
    pub open spec fn converts(self, atoms: Atoms, target: u32, list: Seq<char>, c: Conversion) -> bool {
        &&& if self.files@.len() == 0 {
                c is Refused
            } else if target == atoms.targets {
                c matches Conversion::Targets(t) && t@ == seq![
                    atoms.targets,
                    atoms.timestamp,
                    atoms.uri_list,
                    atoms.gnome_copied,
                ]
            } else if target == atoms.timestamp {
                c is Timestamp
            } else if target == atoms.gnome_copied {
                c matches Conversion::Text(t) && t@ == gnome_list(list)
            } else if target == atoms.uri_list {
                c matches Conversion::Text(t) && t@ == list
            } else {
                c is Refused
            }
    }

    /// What a request for `target` is answered. `list` is the offered files as
    /// a list of addresses.
    pub fn convert(&self, atoms: &Atoms, target: u32, list: &str) -> (c: Conversion)
        ensures
            if self.files@.len() == 0 {
                c is Refused
            } else if target == atoms.targets {
                c matches Conversion::Targets(t) && t@ == seq![
                    atoms.targets,
                    atoms.timestamp,
                    atoms.uri_list,
                    atoms.gnome_copied,
                ]
            } else if target == atoms.timestamp {
                c is Timestamp
            } else if target == atoms.gnome_copied {
                c matches Conversion::Text(t) && t@ == gnome_list(list@)
            } else if target == atoms.uri_list {
                c matches Conversion::Text(t) && t@ == list@
            } else {
                c is Refused
            },
            self.converts(*atoms, target, list@, c),
    {
        if self.files.len() == 0 {
            return Conversion::Refused;
        }
        if target == atoms.targets {
            let mut t: Vec<u32> = Vec::new();
            t.push(atoms.targets);
            t.push(atoms.timestamp);
            t.push(atoms.uri_list);
            t.push(atoms.gnome_copied);
            assert(t@ =~= seq![
                atoms.targets,
                atoms.timestamp,
                atoms.uri_list,
                atoms.gnome_copied,
            ]);
            return Conversion::Targets(t);
        }
        if target == atoms.timestamp {
            return Conversion::Timestamp;
        }
        if target == atoms.gnome_copied {
            let mut s = text::copy("copy\n");
            let lines = reduce_lines(list);
            s.push_str(lines.as_str());
            return Conversion::Text(s);
        }
        if target == atoms.uri_list {
            return Conversion::Text(text::copy(list));
        }
        Conversion::Refused
    }
}

/// Where a conversion goes. A requestor from before the conventions names no
/// property, meaning "put it where the target says".
pub fn property_for(property: u32, target: u32) -> (p: u32)
    ensures
        p == if property == NONE {
            target
        } else {
            property
        },
{
    if property == NONE {
        target
    } else {
        property
    }
}

/// What the requestor is told. Every request gets an answer, including one that
/// could not be fulfilled: a requestor left without one blocks until its own
/// timeout, which in a file manager is a frozen window.
pub fn notified_property(property: u32, served: bool) -> (p: u32)
    ensures
        p == if served {
            property
        } else {
            NONE
        },
{
    if served {
        property
    } else {
        NONE
    }
}

/// Carriage returns before line feeds are left out, and nothing else is; the
/// list of the file managers begins with "copy" on a line of its own.
pub proof fn law_lines_end_in_line_feeds(c: char, rest: Seq<char>)
    ensures
        unix_lines(Seq::empty()).len() == 0,
        unix_lines(seq!['\r', '\n'] + rest) == seq!['\n'] + unix_lines(rest),
        c != '\r' ==> unix_lines(seq![c] + rest) == seq![c] + unix_lines(rest),
        rest.len() == 0 || rest[0] != '\n' ==> unix_lines(seq!['\r'] + rest) == seq!['\r']
            + unix_lines(rest),
        gnome_list(rest) == "copy\n"@ + unix_lines(rest),
{
    assert((seq!['\r', '\n'] + rest).skip(2) =~= rest);
    assert((seq![c] + rest).skip(1) =~= rest);
    assert((seq!['\r'] + rest).skip(1) =~= rest);
}

/// One who asks what forms there are is told all four; one who asks for the list
/// gets it as it is, and a file manager in its own form. There is nothing to be
/// had where there are no files, nor in any other form.
pub proof fn law_files_are_handed_out(o: Owner, atoms: Atoms, target: u32, list: Seq<char>, c: Conversion)
    requires
        o.converts(atoms, target, list, c),
        atoms.targets != atoms.timestamp && atoms.targets != atoms.uri_list && atoms.targets
            != atoms.gnome_copied && atoms.timestamp != atoms.uri_list && atoms.timestamp
            != atoms.gnome_copied && atoms.uri_list != atoms.gnome_copied,
    ensures
        o.files@.len() == 0 ==> c is Refused,
        o.files@.len() > 0 ==> {
            &&& target == atoms.targets ==> (c matches Conversion::Targets(t) && t@.len() == 4
                && t@[0] == atoms.targets && t@[1] == atoms.timestamp && t@[2] == atoms.uri_list
                && t@[3] == atoms.gnome_copied)
            &&& target == atoms.timestamp ==> c is Timestamp
            &&& target == atoms.uri_list ==> (c matches Conversion::Text(t) && t@ == list)
            &&& target == atoms.gnome_copied ==> (c matches Conversion::Text(t) && t@ == "copy\n"@
                + unix_lines(list))
            &&& c is Refused <==> target != atoms.targets && target != atoms.timestamp && target
                != atoms.uri_list && target != atoms.gnome_copied
        },
{
}

} // verus!
