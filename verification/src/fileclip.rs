//! Putting files on the *local* clipboard, so a file copied inside the session
//! can be pasted into the local file manager.
//!
//! Every backend offers the same thing: a list of local paths, already
//! downloaded, that the platform's file manager understands. They also refuse
//! the same things -- an empty list, and paths a pasting application would
//! resolve differently from us. What is per-platform is how the list is laid
//! out, and how long the offer has to be kept alive.
//!
//! Paths are resolved by the rules of the system that the client runs on. The
//! contracts say what comes of it where that is a POSIX system, which shows in
//! the result: there, and only there, it starts with a slash.

pub mod owner;
pub mod watch;

use vstd::prelude::*;

use crate::text;

verus! {

/// Whether this build can put files on the local clipboard.
pub const SUPPORTED: bool = true;

/// Size of the header that precedes the names in a file drop block.
pub const DROPFILES_SIZE: u32 = 20;

// ---------------------------------------------------------------------------
// Paths
// ---------------------------------------------------------------------------

/// A path from the root.
pub open spec fn rooted(path: Seq<char>) -> bool {
    path.len() > 0 && path[0] == '/'
}

/// Whether the component of a path at index `i` is a dot alone.
pub open spec fn lone_dot(path: Seq<char>, i: int) -> bool {
    &&& path[i] == '.'
    &&& i == 0 || path[i - 1] == '/'
    &&& i + 1 == path.len() || path[i + 1] == '/'
}

/// A path without empty components and lone dots, so that there is nothing in
/// it to tidy.
pub open spec fn settled(path: Seq<char>) -> bool {
    &&& path.len() > 0
    &&& forall|i: int|
        0 <= i < path.len() - 1 && #[trigger] path[i] == '/' ==> path[i + 1] != '/'
    &&& forall|i: int| 0 <= i < path.len() ==> !#[trigger] lone_dot(path, i)
}

/// What a path may resolve to, from whatever directory. A result that starts
/// with a slash was made by the rules of POSIX: it is the path itself where that
/// is one from the root already and has nothing to tidy, and one that ends in
/// it where it is relative.
pub open spec fn resolves(path: Seq<char>, out: Seq<char>) -> bool {
    &&& path.len() > 0
    &&& rooted(out) && settled(path) ==> if rooted(path) {
        out == path
    } else {
        text::ends_with(out, "/"@ + path)
    }
}

/// `std::path::absolute`. An empty path is an error on every system. On a POSIX
/// system it is purely lexical, puts a relative path behind the directory the
/// process is in, and its result starts with a slash; on Windows no result does.
///
/// Which paths fail besides the empty one, which directory that is, how empty
/// components and lone dots are tidied away, and what comes out on Windows, is
/// not stated: it rests on the process and the system.
#[verifier::external_body]
fn absolute(path: &str) -> (r: Result<String, String>)
    ensures
        r matches Ok(p) ==> resolves(path@, p@),
{
    std::path::absolute(path).map(|p| p.to_string_lossy().into_owned()).map_err(|e| e.to_string())
}

/// What a path that cannot be resolved is answered.
pub open spec fn resolving_text(path: Seq<char>, error: Seq<char>) -> Seq<char> {
    "resolving "@ + path + ": "@ + error
}

/// A message about a path that cannot be resolved.
pub open spec fn starts_resolving(path: Seq<char>, e: Seq<char>) -> bool {
    text::starts_with(e, "resolving "@ + path + ": "@)
}

/// A path that could not be resolved, and a message about it.
pub open spec fn fails_with(found: (String, Result<String, String>), e: Seq<char>) -> bool {
    found.1 is Err && starts_resolving(found.0@, e)
}

/// A message about one of some paths.
pub open spec fn unresolved(paths: Seq<String>, e: Seq<char>) -> bool {
    exists|i: int| 0 <= i < paths.len() && #[trigger] starts_resolving(paths[i]@, e)
}

/// The paths that were found, or the first failure. Each path comes with what
/// resolving it gave.
pub open spec fn collected(found: Seq<(String, Result<String, String>)>) -> Result<
    Seq<Seq<char>>,
    Seq<char>,
>
    decreases found.len(),
{
    if found.len() == 0 {
        Ok(Seq::empty())
    } else {
        match collected(found.drop_last()) {
            Ok(paths) => match found.last().1 {
                Ok(p) => Ok(paths.push(p@)),
                Err(e) => Err(resolving_text(found.last().0@, e@)),
            },
            Err(e) => Err(e),
        }
    }
}

/// The paths that were found, or the first failure.
pub fn collect(found: &Vec<(String, Result<String, String>)>) -> (r: Result<Vec<String>, String>)
    ensures
        match r {
            Ok(paths) => collected(found@) == Ok::<Seq<Seq<char>>, Seq<char>>(
                text::texts(paths@),
            ),
            Err(e) => collected(found@) == Err::<Seq<Seq<char>>, Seq<char>>(e@),
        },
{
    let mut paths: Vec<String> = Vec::new();
    let mut i: usize = 0;
    assert(found@.take(0) =~= Seq::<(String, Result<String, String>)>::empty());
    assert(text::texts(paths@) =~= Seq::<Seq<char>>::empty());
    while i < found.len()
        invariant
            i <= found.len(),
            collected(found@.take(i as int)) == Ok::<Seq<Seq<char>>, Seq<char>>(
                text::texts(paths@),
            ),
        decreases found.len() - i,
    {
        assert(found@.take(i + 1).drop_last() =~= found@.take(i as int));
        match &found[i].1 {
            Ok(p) => {
                crate::profiles::push_arg(&mut paths, text::copy(p.as_str()));
            },
            Err(e) => {
                let mut s = text::copy("resolving ");
                s.push_str(found[i].0.as_str());
                s.push_str(": ");
                s.push_str(e.as_str());
                proof {
                    lemma_failure_stays(found@, i + 1);
                }
                return Err(s);
            },
        }
        i = i + 1;
    }
    assert(found@.take(i as int) =~= found@);
    Ok(paths)
}

proof fn lemma_failure_stays(found: Seq<(String, Result<String, String>)>, i: int)
    requires
        0 <= i <= found.len(),
        collected(found.take(i)) is Err,
    ensures
        collected(found) == collected(found.take(i)),
    decreases found.len(),
{
    if i < found.len() {
        assert(found.drop_last().take(i) =~= found.take(i));
        lemma_failure_stays(found.drop_last(), i);
    } else {
        assert(found.take(i) =~= found);
    }
}

/// Resolve every path against *our* working directory before it is published.
///
/// A clipboard file list carries no base directory, so the pasting application
/// resolves a relative name against its own working directory and gets a file
/// that is missing or, worse, a different one.
pub fn absolute_paths(paths: &Vec<String>) -> (r: Result<Vec<String>, String>)
    ensures
        match r {
            Ok(out) => out@.len() == paths@.len() && forall|i: int|
                0 <= i < out@.len() ==> resolves(paths@[i]@, (#[trigger] out@[i])@),
            Err(e) => unresolved(paths@, e@),
        },
{
    let mut found: Vec<(String, Result<String, String>)> = Vec::new();
    let mut i: usize = 0;
    while i < paths.len()
        invariant
            i <= paths.len(),
            found@.len() == i,
            forall|j: int|
                0 <= j < i ==> (#[trigger] found@[j]).0@ == paths@[j]@ && (found@[j].1 matches Ok(p)
                    ==> resolves(paths@[j]@, p@)),
        decreases paths.len() - i,
    {
        found.push((text::copy(paths[i].as_str()), absolute(paths[i].as_str())));
        i = i + 1;
    }
    let r = collect(&found);
    proof {
        lemma_collected(found@);
        match &r {
            Ok(out) => {
                assert forall|i: int| 0 <= i < out@.len() implies resolves(
                    paths@[i]@,
                    (#[trigger] out@[i])@,
                ) by {
                    assert(text::texts(out@)[i] == out@[i]@);
                    assert(found@[i].1 is Ok);
                }
                assert(text::texts(out@).len() == out@.len());
            },
            Err(e) => {
                let j = choose|j: int|
                    0 <= j < found@.len() && #[trigger] fails_with(found@[j], e@);
                assert(found@[j].0@ == paths@[j]@);
                assert(starts_resolving(paths@[j]@, e@));
            },
        }
    }
    r
}

spec fn all_found(found: Seq<(String, Result<String, String>)>, paths: Seq<Seq<char>>) -> bool {
    &&& paths.len() == found.len()
    &&& forall|i: int|
        0 <= i < found.len() ==> ((#[trigger] found[i]).1 matches Ok(p) && paths[i] == p@)
}

spec fn one_failed(found: Seq<(String, Result<String, String>)>, e: Seq<char>) -> bool {
    exists|i: int| 0 <= i < found.len() && #[trigger] fails_with(found[i], e)
}

proof fn lemma_collected(found: Seq<(String, Result<String, String>)>)
    ensures
        match collected(found) {
            Ok(paths) => all_found(found, paths),
            Err(e) => one_failed(found, e),
        },
    decreases found.len(),
{
    if found.len() > 0 {
        let head = found.drop_last();
        lemma_collected(head);
        match collected(head) {
            Ok(paths) => {
                match found.last().1 {
                    Ok(p) => {
                        let all = paths.push(p@);
                        assert forall|i: int| 0 <= i < found.len() implies ((#[trigger] found[i]).1
                            matches Ok(p) && all[i] == p@) by {
                            if i < head.len() {
                                assert(head[i] == found[i]);
                            }
                        }
                        assert(all_found(found, all));
                    },
                    Err(e) => {
                        let t = resolving_text(found.last().0@, e@);
                        let lead = "resolving "@ + found.last().0@ + ": "@;
                        assert(t.subrange(0, lead.len() as int) =~= lead);
                        assert(fails_with(found[found.len() - 1], t));
                    },
                }
            },
            Err(e) => {
                let i = choose|i: int| 0 <= i < head.len() && #[trigger] fails_with(head[i], e);
                assert(fails_with(found[i], e));
            },
        }
    }
}

/// The list to put on the local clipboard.
///
/// Publishing nothing is a caller bug, and acting on it is destructive: every
/// backend has to take the clipboard before it can offer anything, so an empty
/// list would wipe whatever the user had on it and offer nothing back.
pub fn write_files(paths: &Vec<String>) -> (r: Result<Vec<String>, String>)
    ensures
        if paths@.len() == 0 {
            r matches Err(e) && e@ == "no files to put on the clipboard"@
        } else {
            match r {
                Ok(out) => out@.len() == paths@.len() && forall|i: int|
                    0 <= i < out@.len() ==> resolves(paths@[i]@, (#[trigger] out@[i])@),
                Err(e) => unresolved(paths@, e@),
            }
        },
{
    if paths.len() == 0 {
        return Err(text::copy("no files to put on the clipboard"));
    }
    absolute_paths(paths)
}

// ---------------------------------------------------------------------------
// File drop blocks
// ---------------------------------------------------------------------------

/// A number as the format stores it, least significant byte first.
pub open spec fn le16(n: u16) -> Seq<u8> {
    seq![(n % 256) as u8, (n / 256) as u8]
}

/// Units as the format stores them.
pub open spec fn le_units(units: Seq<u16>) -> Seq<u8> {
    Seq::new(
        (units.len() * 2) as nat,
        |i: int|
            if i % 2 == 0 {
                (units[i / 2] % 256) as u8
            } else {
                (units[i / 2] / 256) as u8
            },
    )
}

/// Names, each ended by a zero.
pub open spec fn ended(names: Seq<Seq<u16>>) -> Seq<u16>
    decreases names.len(),
{
    if names.len() == 0 {
        Seq::empty()
    } else {
        ended(names.drop_last()) + names.last() + seq![0u16]
    }
}

/// The header: where the names start, no place, and that names are wide.
pub open spec fn drop_header() -> Seq<u8> {
    seq![20u8, 0, 0, 0, 0, 0, 0, 0, 0, 0, 0, 0, 0, 0, 0, 0, 1, 0, 0, 0]
}

/// The names of a list, each ended by a zero, and a zero that ends the list.
pub open spec fn name_units(names: Seq<Seq<u16>>) -> Seq<u16> {
    ended(names) + seq![0u16]
}

/// The views of some names.
pub open spec fn unit_views(names: Seq<Vec<u16>>) -> Seq<Seq<u16>> {
    names.map_values(|n: Vec<u16>| n@)
}

fn push_unit(blob: &mut Vec<u8>, n: u16)
    ensures
        final(blob)@ == old(blob)@ + le16(n),
{
    blob.push((n % 256) as u8);
    blob.push((n / 256) as u8);
    assert(blob@ =~= old(blob)@ + le16(n));
}

proof fn lemma_le_push(units: Seq<u16>, n: u16)
    ensures
        le_units(units.push(n)) == le_units(units) + le16(n),
{
    assert(le_units(units.push(n)) =~= le_units(units) + le16(n));
}

/// Lay out a file drop block: a header followed by `names`, each ended by a
/// zero, with a second zero closing the list.
pub fn dropfiles_blob(names: &Vec<Vec<u16>>) -> (blob: Vec<u8>)
    ensures
        blob@ == drop_header() + le_units(name_units(unit_views(names@))),
{
    let mut blob: Vec<u8> = Vec::new();
    push_unit(&mut blob, 20);
    push_unit(&mut blob, 0);
    push_unit(&mut blob, 0);
    push_unit(&mut blob, 0);
    push_unit(&mut blob, 0);
    push_unit(&mut blob, 0);
    push_unit(&mut blob, 0);
    push_unit(&mut blob, 0);
    push_unit(&mut blob, 1);
    push_unit(&mut blob, 0);
    assert(blob@ =~= drop_header());
    let ghost all = unit_views(names@);
    let ghost mut units: Seq<u16> = Seq::empty();
    assert(drop_header() + le_units(units) =~= drop_header());
    assert(all.take(0) =~= Seq::<Seq<u16>>::empty());
    let mut i: usize = 0;
    while i < names.len()
        invariant
            i <= names.len(),
            all == unit_views(names@),
            units == ended(all.take(i as int)),
            blob@ == drop_header() + le_units(units),
        decreases names.len() - i,
    {
        let name = &names[i];
        let ghost before = units;
        let mut j: usize = 0;
        assert(before + name@.take(0) =~= before);
        while j < name.len()
            invariant
                j <= name.len(),
                units == before + name@.take(j as int),
                blob@ == drop_header() + le_units(units),
            decreases name.len() - j,
        {
            push_unit(&mut blob, name[j]);
            proof {
                lemma_le_push(units, name@[j as int]);
                assert(units.push(name@[j as int]) =~= before + name@.take(j + 1));
                assert(drop_header() + le_units(units) + le16(name@[j as int]) =~= drop_header() + (
                le_units(units) + le16(name@[j as int])));
                units = before + name@.take(j + 1);
            }
            j = j + 1;
        }
        push_unit(&mut blob, 0);
        proof {
            lemma_le_push(units, 0);
            assert(name@.take(name@.len() as int) =~= name@);
            assert(all.take(i + 1).drop_last() =~= all.take(i as int));
            assert(units.push(0u16) =~= ended(all.take(i + 1)));
            assert(drop_header() + le_units(units) + le16(0) =~= drop_header() + (le_units(units)
                + le16(0)));
            units = ended(all.take(i + 1));
        }
        i = i + 1;
    }
    push_unit(&mut blob, 0);
    proof {
        assert(all.take(i as int) =~= all);
        lemma_le_push(units, 0);
        assert(units.push(0u16) =~= name_units(all));
        assert(drop_header() + le_units(units) + le16(0) =~= drop_header() + (le_units(units)
            + le16(0)));
    }
    blob
}

/// Where the name that begins at `from` ends.
pub open spec fn name_end(units: Seq<u16>, from: int) -> int
    decreases units.len() - from,
{
    if from >= units.len() || units[from] == 0 {
        from
    } else {
        name_end(units, from + 1)
    }
}

/// The names a file manager reads from a list, from `from` on: up to the first
/// that is empty.
pub open spec fn names_read(units: Seq<u16>, from: int, most: nat) -> Seq<Seq<u16>>
    decreases most,
{
    let end = name_end(units, from);
    if most == 0 || end == from || end >= units.len() {
        Seq::empty()
    } else {
        seq![units.subrange(from, end)] + names_read(units, end + 1, (most - 1) as nat)
    }
}

/// A name that can stand in a list.
pub open spec fn plain_name(name: Seq<u16>) -> bool {
    name.len() > 0 && !name.contains(0u16)
}

proof fn lemma_name_end(units: Seq<u16>, from: int, end: int)
    requires
        0 <= from <= end < units.len(),
        units[end] == 0,
        forall|j: int| from <= j < end ==> units[j] != 0,
    ensures
        name_end(units, from) == end,
    decreases end - from,
{
    if from < end {
        lemma_name_end(units, from + 1, end);
    }
}

proof fn lemma_ended_prefix(names: Seq<Seq<u16>>, k: int)
    requires
        0 <= k <= names.len(),
    ensures
        ended(names.take(k)).len() <= ended(names).len(),
        ended(names).take(ended(names.take(k)).len() as int) == ended(names.take(k)),
    decreases names.len(),
{
    if k < names.len() {
        lemma_ended_prefix(names.drop_last(), k);
        assert(names.drop_last().take(k) =~= names.take(k));
        let n = ended(names.take(k)).len() as int;
        assert(ended(names).take(n) =~= ended(names.drop_last()).take(n));
    } else {
        assert(names.take(k) =~= names);
        assert(ended(names).take(ended(names).len() as int) =~= ended(names));
    }
}

proof fn lemma_names_read(names: Seq<Seq<u16>>, k: int)
    requires
        0 <= k <= names.len(),
        forall|i: int| 0 <= i < names.len() ==> plain_name(#[trigger] names[i]),
    ensures
        names_read(
            name_units(names),
            ended(names.take(k)).len() as int,
            (names.len() - k + 1) as nat,
        ) == names.skip(k),
    decreases names.len() - k,
{
    let units = name_units(names);
    let from = ended(names.take(k)).len() as int;
    if k == names.len() {
        assert(names.take(k) =~= names);
        assert(units[from] == 0);
        assert(name_end(units, from) == from);
        assert(names.skip(k) =~= Seq::<Seq<u16>>::empty());
    } else {
        let name = names[k];
        assert(plain_name(name));
        let more = names.take(k + 1);
        assert(more.drop_last() =~= names.take(k));
        assert(more.last() == name);
        lemma_ended_prefix(names, k + 1);
        let all = ended(names);
        let upto = ended(more);
        assert(upto == ended(names.take(k)) + name + seq![0u16]);
        let end = from + name.len();
        assert forall|j: int| from <= j < end implies units[j] != 0 by {
            assert(units[j] == all[j]);
            assert(all.take(upto.len() as int)[j] == upto[j]);
            assert(upto[j] == name[j - from]);
            assert(name.contains(name[j - from]));
        }
        assert(units[end] == 0) by {
            assert(units[end] == all[end]);
            assert(all.take(upto.len() as int)[end] == upto[end]);
        }
        lemma_name_end(units, from, end);
        assert(units.subrange(from, end) =~= name) by {
            assert forall|j: int| 0 <= j < name.len() implies units.subrange(from, end)[j]
                == name[j] by {
                assert(units[from + j] == all[from + j]);
                assert(all.take(upto.len() as int)[from + j] == upto[from + j]);
            }
        }
        lemma_names_read(names, k + 1);
        assert(upto.len() == end + 1);
        assert(names.skip(k) =~= seq![name] + names.skip(k + 1));
    }
}

/// What is offered is what is pasted: names that are not empty and hold no zero
/// are read back from the list as they are, in order, and no other.
pub proof fn law_names_are_read_back(names: Seq<Seq<u16>>)
    requires
        forall|i: int| 0 <= i < names.len() ==> plain_name(#[trigger] names[i]),
    ensures
        names_read(name_units(names), 0, (names.len() + 1) as nat) == names,
{
    assert(names.take(0) =~= Seq::<Seq<u16>>::empty());
    lemma_names_read(names, 0);
    assert(names.skip(0) =~= names);
}

// ---------------------------------------------------------------------------
// Wide names
// ---------------------------------------------------------------------------

/// A character in UTF-16.
pub open spec fn utf16_of(c: char) -> Seq<u16> {
    let n = c as u32;
    if n < 0x10000 {
        seq![n as u16]
    } else {
        seq![
            (0xd800 + (n - 0x10000) / 0x400) as u16,
            (0xdc00 + (n - 0x10000) % 0x400) as u16,
        ]
    }
}

/// A text in UTF-16.
pub open spec fn utf16(s: Seq<char>) -> Seq<u16>
    decreases s.len(),
{
    if s.len() == 0 {
        Seq::empty()
    } else {
        utf16(s.drop_last()) + utf16_of(s.last())
    }
}

fn wide(s: &str) -> (units: Vec<u16>)
    ensures
        units@ == utf16(s@),
{
    let v = text::chars_of(s);
    let mut units: Vec<u16> = Vec::new();
    let mut i: usize = 0;
    assert(v@.take(0) =~= Seq::<char>::empty());
    while i < v.len()
        invariant
            i <= v.len(),
            units@ == utf16(v@.take(i as int)),
        decreases v.len() - i,
    {
        assert(v@.take(i + 1).drop_last() =~= v@.take(i as int));
        let n: u32 = v[i] as u32;
        let ghost before = units@;
        if n < 0x10000 {
            units.push(n as u16);
        } else {
            units.push((0xd800 + (n - 0x10000) / 0x400) as u16);
            units.push((0xdc00 + (n - 0x10000) % 0x400) as u16);
        }
        assert(units@ =~= before + utf16_of(v@[i as int]));
        i = i + 1;
    }
    assert(v@.take(i as int) =~= v@);
    units
}

fn has_zero(units: &Vec<u16>) -> (r: bool)
    ensures
        r == units@.contains(0u16),
{
    let mut i: usize = 0;
    while i < units.len()
        invariant
            i <= units.len(),
            forall|j: int| 0 <= j < i ==> units@[j] != 0,
        decreases units.len() - i,
    {
        if units[i] == 0 {
            return true;
        }
        i = i + 1;
    }
    false
}

/// The first path that cannot stand in a list, if there is one.
pub open spec fn first_split(paths: Seq<Seq<char>>, i: int) -> Option<Seq<char>>
    decreases paths.len() - i,
{
    if i >= paths.len() {
        None
    } else if utf16(paths[i]).contains(0u16) {
        Some(paths[i])
    } else {
        first_split(paths, i + 1)
    }
}

/// The names of some paths.
pub open spec fn wide_names(paths: Seq<Seq<char>>) -> Seq<Seq<u16>> {
    paths.map_values(|p: Seq<char>| utf16(p))
}

/// The file drop block of some paths, which must already be absolute.
///
/// The block separates names with zeros, so an embedded one would not corrupt
/// the list so much as silently split a path in two.
pub fn hdrop_blob(paths: &Vec<String>) -> (r: Result<Vec<u8>, String>)
    ensures
        match first_split(text::texts(paths@), 0) {
            Some(path) => r matches Err(e) && e@ == path
                + " contains a NUL and cannot go on the clipboard"@,
            None => r matches Ok(blob) && blob@ == drop_header() + le_units(
                name_units(wide_names(text::texts(paths@))),
            ),
        },
{
    let ghost all = text::texts(paths@);
    let mut names: Vec<Vec<u16>> = Vec::new();
    let mut i: usize = 0;
    while i < paths.len()
        invariant
            i <= paths.len(),
            all == text::texts(paths@),
            first_split(all, 0) == first_split(all, i as int),
            unit_views(names@) == wide_names(all).take(i as int),
        decreases paths.len() - i,
    {
        let name = wide(paths[i].as_str());
        if has_zero(&name) {
            let mut e = text::copy(paths[i].as_str());
            e.push_str(" contains a NUL and cannot go on the clipboard");
            return Err(e);
        }
        let ghost before = unit_views(names@);
        let ghost last = name@;
        assert(last == wide_names(all)[i as int]);
        names.push(name);
        assert(unit_views(names@) =~= before.push(last));
        i = i + 1;
        assert(unit_views(names@) =~= wide_names(all).take(i as int));
    }
    assert(wide_names(all).take(i as int) =~= wide_names(all));
    Ok(dropfiles_blob(&names))
}

/// The files a program drops: a head of twenty bytes that says its own length and
/// that the names are wide, then each name and a zero, and one more zero; every
/// unit with its lower byte first.
pub proof fn law_dropped_files_are_laid_out(names: Seq<Seq<u16>>, name: Seq<u16>, i: int)
    ensures
        drop_header().len() == 20,
        drop_header()[0] == 20 && drop_header()[16] == 1,
        forall|k: int| 0 < k < 20 && k != 16 ==> #[trigger] drop_header()[k] == 0,
        name_units(Seq::empty()) == seq![0u16],
        name_units(names.push(name)) == name_units(names).drop_last() + name + seq![0u16, 0u16],
        le_units(name).len() == 2 * name.len(),
        0 <= i < name.len() ==> name[i] == le_units(name)[2 * i] + 256 * le_units(name)[2 * i + 1],
{
    assert(names.push(name).drop_last() =~= names);
    assert(name_units(Seq::empty()) =~= seq![0u16]);
    assert(name_units(names).drop_last() =~= ended(names));
    assert(name_units(names.push(name)) =~= name_units(names).drop_last() + name + seq![0u16, 0u16]);
    if 0 <= i < name.len() {
        let u = name[i];
        assert(le_units(name)[2 * i] == u % 256);
        assert(le_units(name)[2 * i + 1] == u / 256);
    }
}

/// A character below 0x10000 is one unit; every other is two, the upper ten bits
/// of what is above it in the first and the lower ten in the second.
pub proof fn law_characters_are_units(c: char, s: Seq<char>)
    ensures
        (c as u32) < 0x10000 ==> utf16_of(c).len() == 1 && utf16_of(c)[0] == c as u32,
        c as u32 >= 0x10000 ==> utf16_of(c).len() == 2 && 0xd800 <= utf16_of(c)[0] <= 0xdbff
            && 0xdc00 <= utf16_of(c)[1] <= 0xdfff && c as u32 == 0x10000 + 1024 * (utf16_of(c)[0]
            - 0xd800) + (utf16_of(c)[1] - 0xdc00),
        utf16(Seq::empty()).len() == 0,
        utf16(s.push(c)) == utf16(s) + utf16_of(c),
{
    assert(s.push(c).drop_last() =~= s);
}

/// The first path with a zero in it is the one that is told.
pub proof fn law_first_broken_path_is_told(paths: Seq<Seq<char>>, i: int, k: int)
    requires
        0 <= i <= k < paths.len(),
        forall|j: int| i <= j < k ==> !utf16(#[trigger] paths[j]).contains(0u16),
    ensures
        utf16(paths[k]).contains(0u16) ==> first_split(paths, i) == Some(paths[k]),
        k == paths.len() - 1 && !utf16(paths[k]).contains(0u16) ==> first_split(paths, i) is None,
    decreases k - i,
{
    if i < k {
        assert(!utf16(paths[i]).contains(0u16));
        law_first_broken_path_is_told(paths, i + 1, k);
    } else if !utf16(paths[k]).contains(0u16) && k == paths.len() - 1 {
        assert(first_split(paths, k + 1) is None);
    }
}

/// The names of the files are their paths, in wide units and in their order.
pub proof fn law_every_path_is_named(paths: Seq<Seq<char>>, i: int)
    requires
        0 <= i < paths.len(),
    ensures
        wide_names(paths).len() == paths.len(),
        wide_names(paths)[i] == utf16(paths[i]),
{
}

/// Paths are made whole together: all of them in their order, or the first that
/// could not be, with why.
pub proof fn law_paths_are_made_whole_together(
    found: Seq<(String, Result<String, String>)>,
    path: String,
    whole: String,
    why: String,
)
    ensures
        collected(Seq::empty()) == Ok::<Seq<Seq<char>>, Seq<char>>(Seq::empty()),
        collected(found) matches Ok(p) ==> collected(found.push((path, Ok(whole)))) == Ok::<
            Seq<Seq<char>>,
            Seq<char>,
        >(p.push(whole@)),
        collected(found) is Ok ==> collected(found.push((path, Err(why)))) == Err::<
            Seq<Seq<char>>,
            Seq<char>,
        >("resolving "@ + path@ + ": "@ + why@),
        collected(found) is Err ==> collected(found.push((path, Ok(whole)))) == collected(found)
            && collected(found.push((path, Err(why)))) == collected(found),
{
    assert(found.push((path, Ok(whole))).drop_last() =~= found);
    assert(found.push((path, Err(why))).drop_last() =~= found);
}

/// A path from the root is whole as it stands; another goes below a directory.
pub proof fn law_whole_paths_end_in_the_path(path: Seq<char>, out: Seq<char>)
    requires
        resolves(path, out),
        settled(path),
        out.len() > 0,
        out[0] == '/',
    ensures
        path[0] == '/' ==> out == path,
        path[0] != '/' ==> exists|dir: Seq<char>| out == #[trigger] (dir + ("/"@ + path)),
{
    if path[0] != '/' {
        let end = "/"@ + path;
        text::law_parts_are_found(out, end, Seq::empty(), Seq::empty(), 0);
        let dir = out.take(out.len() - end.len());
        assert(out == dir + end);
    }
}

/// A path that could not be made whole is named before why.
pub proof fn law_unresolved_path_is_named(path: Seq<char>, why: Seq<char>, e: Seq<char>)
    ensures
        starts_resolving(path, "resolving "@ + path + ": "@ + why),
        starts_resolving(path, e) ==> e.take(("resolving "@ + path + ": "@).len() as int)
            == "resolving "@ + path + ": "@,
{
    let lead = "resolving "@ + path + ": "@;
    assert((lead + why).subrange(0, lead.len() as int) =~= lead);
    if starts_resolving(path, e) {
        assert(e.take(lead.len() as int) =~= e.subrange(0, lead.len() as int));
    }
}

/// The names are taken unit by unit as they are.
pub proof fn law_names_are_taken_as_they_are(names: Seq<Vec<u16>>, i: int)
    requires
        0 <= i < names.len(),
    ensures
        unit_views(names).len() == names.len(),
        unit_views(names)[i] == names[i]@,
{
}

} // verus!
