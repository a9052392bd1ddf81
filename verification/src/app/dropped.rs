//! What to upload for files and directories dropped on the window.
//!
//! A dropped directory keeps its structure, rooted at the directory's own name;
//! symlinks are not followed, so a link into `/` cannot turn one drop into a
//! copy of the filesystem. The walk asks for one directory at a time and is
//! told what is in it.

use vstd::multiset::Multiset;
use vstd::prelude::*;

use crate::text;

verus! {

/// Largest number of files one drop may upload, so dropping a huge tree does
/// not queue thousands of transfers by accident.
pub const MAX_DROPPED_FILES: usize = 512;

/// What an entry of a directory is, itself and not where it links to.
#[derive(Clone, Copy, Debug, PartialEq, Eq, Structural)]
pub enum EntryKind {
    File,
    Directory,
    /// A symlink or a special file: nothing sensible to upload.
    Other,
}

/// A local path, and its destination below the session's upload directory.
pub type Upload = (String, String);

/// A walk over what was dropped.
#[derive(Debug, PartialEq, Eq)]
pub struct Walk {
    /// What is to upload so far.
    pub found: Vec<Upload>,
    /// The directories still to read.
    pub left: Vec<Upload>,
}

/// A local path and its destination, as texts.
pub type Sent = (Seq<char>, Seq<char>);

/// The views of some paths and their destinations.
pub open spec fn sent(entries: Seq<Upload>) -> Seq<Sent> {
    entries.map_values(|e: Upload| (e.0@, e.1@))
}

/// What a walk has found, and the directories it has still to read.
#[verifier::ext_equal]
pub struct WalkModel {
    pub found: Seq<Sent>,
    pub left: Seq<Sent>,
}

impl View for Walk {
    type V = WalkModel;

    open spec fn view(&self) -> WalkModel {
        WalkModel { found: sent(self.found@), left: sent(self.left@) }
    }
}

/// What a drop of more files than one may upload is answered.
pub open spec fn too_many_text() -> Seq<char> {
    "more than "@ + text::decimal(MAX_DROPPED_FILES as nat) + " files in the dropped directory"@
}

impl WalkModel {
    /// What an entry of the directory that goes to `prefix` makes of a walk.
    pub open spec fn entered(
        self,
        prefix: Seq<char>,
        path: Seq<char>,
        name: Seq<char>,
        kind: EntryKind,
    ) -> Result<WalkModel, Seq<char>> {
        match kind {
            EntryKind::File => if self.found.len() >= MAX_DROPPED_FILES {
                Err(too_many_text())
            } else {
                Ok(WalkModel { found: self.found.push((path, nested(prefix, name))), ..self })
            },
            EntryKind::Directory => Ok(
                WalkModel { left: self.left.push((path, nested(prefix, name))), ..self },
            ),
            EntryKind::Other => Ok(self),
        }
    }
}

/// `dest` is `root` or below it.
pub open spec fn below(root: Seq<char>, dest: Seq<char>) -> bool {
    dest == root || text::starts_with(dest, root + "/"@)
}

/// Where an entry of a directory goes.
pub open spec fn nested(prefix: Seq<char>, name: Seq<char>) -> Seq<char> {
    prefix + "/"@ + name
}

/// Where files of a directory go is below where the directory goes.
pub proof fn law_nested_is_below(root: Seq<char>, prefix: Seq<char>, name: Seq<char>)
    requires
        below(root, prefix),
    ensures
        below(root, nested(prefix, name)),
{
    let dest = nested(prefix, name);
    if prefix == root {
        assert(dest.take((root + "/"@).len() as int) =~= root + "/"@);
    } else {
        assert(text::occurs_at(prefix, root + "/"@, 0));
        assert(dest.subrange(0, (root + "/"@).len() as int) =~= prefix.subrange(
            0,
            (root + "/"@).len() as int,
        ));
    }
}

/// Where a directory that was dropped goes.
pub open spec fn root_of(name: Option<String>) -> Seq<char> {
    match name {
        Some(n) => n@,
        None => "dropped"@,
    }
}

/// A walk that has a directory to read, and has found nothing yet.
pub open spec fn started(path: Seq<char>, root: Seq<char>) -> WalkModel {
    WalkModel { found: Seq::empty(), left: seq![(path, root)] }
}

impl Walk {
    /// No more files than one drop may upload.
    pub open spec fn wf(self) -> bool {
        self.found@.len() <= MAX_DROPPED_FILES
    }

    /// Everything goes to `root` or below it.
    pub open spec fn rooted(self, root: Seq<char>) -> bool {
        &&& forall|i: int| 0 <= i < self.found@.len() ==> below(root, #[trigger] self.found@[i].1@)
        &&& forall|i: int| 0 <= i < self.left@.len() ==> below(root, #[trigger] self.left@[i].1@)
    }

    /// Begin with what was dropped. `name` is the last component of its path,
    /// where it has one.
    pub fn begin(path: String, name: Option<String>, kind: EntryKind) -> (r: Result<Walk, String>)
        ensures
            match r {
                Ok(w) => match kind {
                    EntryKind::File => name matches Some(n) && w@ == (WalkModel {
                        found: seq![(path@, n@)],
                        left: Seq::empty(),
                    }) && w.rooted(n@),
                    EntryKind::Directory => w@ == started(path@, root_of(name)) && w.rooted(
                        root_of(name),
                    ),
                    EntryKind::Other => w@ == (WalkModel {
                        found: Seq::empty(),
                        left: Seq::empty(),
                    }),
                },
                Err(e) => kind is File && name is None && e@ == "dropped path has no file name"@,
            },
            r matches Ok(w) ==> w.wf(),
    {
        let mut found: Vec<Upload> = Vec::new();
        let mut left: Vec<Upload> = Vec::new();
        match kind {
            EntryKind::File => match name {
                Some(n) => {
                    found.push((path, n));
                },
                None => {
                    return Err(text::copy("dropped path has no file name"));
                },
            },
            EntryKind::Directory => {
                let root = match name {
                    Some(n) => n,
                    None => text::copy("dropped"),
                };
                left.push((path, root));
            },
            EntryKind::Other => {},
        }
        let walk = Walk { found, left };
        proof {
            match kind {
                EntryKind::File => {
                    assert(walk@ =~= (WalkModel {
                        found: seq![(path@, name->0@)],
                        left: Seq::empty(),
                    }));
                },
                EntryKind::Directory => {
                    assert(walk@ =~= started(path@, root_of(name)));
                },
                EntryKind::Other => {
                    assert(walk@ =~= (WalkModel { found: Seq::empty(), left: Seq::empty() }));
                },
            }
        }
        Ok(walk)
    }

    /// The next directory to read, and where it goes.
    pub fn next_directory(&mut self) -> (r: Option<Upload>)
        ensures
            match r {
                Some(d) => {
                    &&& old(self)@.left.len() > 0
                    &&& (d.0@, d.1@) == old(self)@.left.last()
                    &&& final(self)@ == (WalkModel {
                        left: old(self)@.left.drop_last(),
                        ..old(self)@
                    })
                },
                None => old(self)@.left.len() == 0 && final(self)@ == old(self)@,
            },
            forall|root: Seq<char>| #[trigger]
                old(self).rooted(root) ==> final(self).rooted(root) && (r matches Some(d) ==> below(
                    root,
                    d.1@,
                )),
            old(self).wf() ==> final(self).wf(),
    {
        let d = self.left.pop();
        proof {
            match &d {
                Some(e) => {
                    let last = old(self).left@.len() - 1;
                    assert(sent(old(self).left@)[last] == (e.0@, e.1@));
                    assert(self@.left =~= old(self)@.left.drop_last());
                },
                None => {},
            }
            assert forall|root: Seq<char>| #[trigger] old(self).rooted(root) implies self.rooted(
                root,
            ) && (d matches Some(e) ==> below(root, e.1@)) by {
                let was = old(self).left@;
                assert forall|i: int| 0 <= i < self.left@.len() implies below(
                    root,
                    #[trigger] self.left@[i].1@,
                ) by {
                    assert(below(root, was[i].1@));
                }
                if was.len() > 0 {
                    assert(below(root, was[was.len() - 1].1@));
                }
            }
        }
        d
    }

    /// An entry of the directory that goes to `prefix`.
    pub fn entry(&mut self, prefix: &str, path: String, name: &str, kind: EntryKind) -> (r: Result<
        (),
        String,
    >)
        requires
            old(self).wf(),
        ensures
            final(self).wf(),
            match r {
                Ok(_) => old(self)@.entered(prefix@, path@, name@, kind) == Ok::<
                    WalkModel,
                    Seq<char>,
                >(final(self)@),
                Err(e) => {
                    &&& old(self)@.entered(prefix@, path@, name@, kind) == Err::<
                        WalkModel,
                        Seq<char>,
                    >(e@)
                    &&& *final(self) == *old(self)
                },
            },
            forall|root: Seq<char>|
                #[trigger] old(self).rooted(root) && below(root, prefix@) ==> final(self).rooted(
                    root,
                ),
    {
        let mut dest = text::copy(prefix);
        dest.push_str("/");
        dest.push_str(name);
        proof {
            assert forall|root: Seq<char>| below(root, prefix@) implies #[trigger] below(
                root,
                dest@,
            ) by {
                law_nested_is_below(root, prefix@, name@);
            }
        }
        match kind {
            EntryKind::Directory => {
                let ghost was = self.left@;
                self.left.push((path, dest));
                proof {
                    assert(self@.left =~= old(self)@.left.push((path@, dest@)));
                    assert forall|root: Seq<char>| #[trigger]
                        old(self).rooted(root) && below(root, prefix@) implies self.rooted(root) by {
                        assert(below(root, dest@));
                        assert forall|i: int| 0 <= i < self.left@.len() implies below(
                            root,
                            #[trigger] self.left@[i].1@,
                        ) by {
                            if i < was.len() {
                                assert(below(root, was[i].1@));
                            }
                        }
                    }
                }
                Ok(())
            },
            EntryKind::File => {
                if self.found.len() >= MAX_DROPPED_FILES {
                    let mut e = text::copy("more than ");
                    let n = text::decimal_of(MAX_DROPPED_FILES as u64);
                    e.push_str(n.as_str());
                    e.push_str(" files in the dropped directory");
                    return Err(e);
                }
                let ghost was = self.found@;
                self.found.push((path, dest));
                proof {
                    assert(self@.found =~= old(self)@.found.push((path@, dest@)));
                    assert forall|root: Seq<char>| #[trigger]
                        old(self).rooted(root) && below(root, prefix@) implies self.rooted(root) by {
                        assert(below(root, dest@));
                        assert forall|i: int| 0 <= i < self.found@.len() implies below(
                            root,
                            #[trigger] self.found@[i].1@,
                        ) by {
                            if i < was.len() {
                                assert(below(root, was[i].1@));
                            }
                        }
                    }
                }
                Ok(())
            },
            EntryKind::Other => Ok(()),
        }
    }
}

// ---------------------------------------------------------------------------
// A whole drop
// ---------------------------------------------------------------------------

/// What is at a place of the file system, itself and not where it links to.
pub enum Tree {
    File,
    Directory(Seq<Node>),
    /// A symlink or a special file.
    Other,
}

/// An entry of a directory, with what is at it.
pub struct Node {
    pub path: Seq<char>,
    pub name: Seq<char>,
    pub tree: Tree,
}

impl Tree {
    pub open spec fn kind(self) -> EntryKind {
        match self {
            Tree::File => EntryKind::File,
            Tree::Directory(_) => EntryKind::Directory,
            Tree::Other => EntryKind::Other,
        }
    }
}

/// An entry as reading a directory gives it.
pub type Entry = (Seq<char>, Seq<char>, EntryKind);

/// The entries that reading a directory gives.
pub open spec fn listing(nodes: Seq<Node>) -> Seq<Entry> {
    nodes.map_values(|n: Node| (n.path, n.name, n.tree.kind()))
}

/// Reading the directory at a path, and every directory in it, gives what is
/// there.
pub open spec fn holds(
    read: spec_fn(Seq<char>) -> Seq<Entry>,
    path: Seq<char>,
    nodes: Seq<Node>,
) -> bool
    decreases nodes,
{
    &&& read(path) == listing(nodes)
    &&& forall|i: int|
        #![trigger nodes[i]]
        0 <= i < nodes.len() ==> match nodes[i].tree {
            Tree::Directory(inside) => holds(read, nodes[i].path, inside),
            _ => true,
        }
}

/// The regular files in a directory that goes to `prefix`, with where each
/// goes: those in the directories in it too, and those behind links not.
pub open spec fn files_in(nodes: Seq<Node>, prefix: Seq<char>) -> Multiset<Sent>
    decreases nodes,
{
    if nodes.len() == 0 {
        Multiset::empty()
    } else {
        let n = nodes[nodes.len() - 1];
        let dest = nested(prefix, n.name);
        files_in(nodes.subrange(0, nodes.len() - 1), prefix).add(
            match n.tree {
                Tree::File => Multiset::singleton((n.path, dest)),
                Tree::Directory(inside) => files_in(inside, dest),
                Tree::Other => Multiset::empty(),
            },
        )
    }
}

/// How many directories are in a directory.
pub open spec fn directories_in(nodes: Seq<Node>) -> nat
    decreases nodes,
{
    if nodes.len() == 0 {
        0
    } else {
        directories_in(nodes.subrange(0, nodes.len() - 1)) + match nodes[nodes.len() - 1].tree {
            Tree::Directory(inside) => 1 + directories_in(inside),
            _ => 0,
        }
    }
}

impl WalkModel {
    /// What the entries of the directory that goes to `prefix` make of a walk.
    pub open spec fn listed(self, prefix: Seq<char>, entries: Seq<Entry>) -> Result<
        WalkModel,
        Seq<char>,
    >
        decreases entries.len(),
    {
        if entries.len() == 0 {
            Ok(self)
        } else {
            let (path, name, kind) = entries.last();
            match self.listed(prefix, entries.drop_last()) {
                Ok(w) => w.entered(prefix, path, name, kind),
                Err(e) => Err(e),
            }
        }
    }

    /// What a walk that reads at most `steps` directories comes to, if it comes
    /// to its end: the next directory is taken and its entries are, until there
    /// is none left.
    pub open spec fn walked(self, read: spec_fn(Seq<char>) -> Seq<Entry>, steps: nat) -> Option<
        Result<Seq<Sent>, Seq<char>>,
    >
        decreases steps,
    {
        if self.left.len() == 0 {
            Some(Ok(self.found))
        } else if steps == 0 {
            None
        } else {
            let (path, dest) = self.left.last();
            let rest = WalkModel { left: self.left.drop_last(), ..self };
            match rest.listed(dest, read(path)) {
                Ok(w) => w.walked(read, (steps - 1) as nat),
                Err(e) => Some(Err(e)),
            }
        }
    }
}

/// A directory that waits to be read, with what is in it.
struct Waiting {
    path: Seq<char>,
    dest: Seq<char>,
    inside: Seq<Node>,
}

spec fn places(waiting: Seq<Waiting>) -> Seq<Sent> {
    waiting.map_values(|w: Waiting| (w.path, w.dest))
}

spec fn files_waiting(waiting: Seq<Waiting>) -> Multiset<Sent>
    decreases waiting.len(),
{
    if waiting.len() == 0 {
        Multiset::empty()
    } else {
        files_waiting(waiting.drop_last()).add(
            files_in(waiting.last().inside, waiting.last().dest),
        )
    }
}

spec fn directories_waiting(waiting: Seq<Waiting>) -> nat
    decreases waiting.len(),
{
    if waiting.len() == 0 {
        0
    } else {
        directories_waiting(waiting.drop_last()) + 1 + directories_in(waiting.last().inside)
    }
}

spec fn all_hold(read: spec_fn(Seq<char>) -> Seq<Entry>, waiting: Seq<Waiting>) -> bool {
    forall|i: int|
        0 <= i < waiting.len() ==> holds(
            read,
            (#[trigger] waiting[i]).path,
            waiting[i].inside,
        )
}

/// The regular files that are entries of a directory themselves.
spec fn own_files(nodes: Seq<Node>, prefix: Seq<char>) -> Seq<Sent>
    decreases nodes.len(),
{
    if nodes.len() == 0 {
        Seq::empty()
    } else {
        let n = nodes.last();
        let before = own_files(nodes.drop_last(), prefix);
        if n.tree is File {
            before.push((n.path, nested(prefix, n.name)))
        } else {
            before
        }
    }
}

/// The directories that are entries of a directory themselves.
spec fn own_directories(nodes: Seq<Node>, prefix: Seq<char>) -> Seq<Waiting>
    decreases nodes.len(),
{
    if nodes.len() == 0 {
        Seq::empty()
    } else {
        let n = nodes.last();
        let before = own_directories(nodes.drop_last(), prefix);
        match n.tree {
            Tree::Directory(inside) => before.push(
                Waiting { path: n.path, dest: nested(prefix, n.name), inside },
            ),
            _ => before,
        }
    }
}

proof fn lemma_waiting_push(waiting: Seq<Waiting>, w: Waiting)
    ensures
        files_waiting(waiting.push(w)) == files_waiting(waiting).add(files_in(w.inside, w.dest)),
        directories_waiting(waiting.push(w)) == directories_waiting(waiting) + 1 + directories_in(
            w.inside,
        ),
{
    assert(waiting.push(w).drop_last() =~= waiting);
}

proof fn lemma_waiting_add(a: Seq<Waiting>, b: Seq<Waiting>)
    ensures
        files_waiting(a + b) == files_waiting(a).add(files_waiting(b)),
        directories_waiting(a + b) == directories_waiting(a) + directories_waiting(b),
    decreases b.len(),
{
    if b.len() == 0 {
        assert(a + b =~= a);
        assert(files_waiting(a + b) =~= files_waiting(a).add(files_waiting(b)));
    } else {
        lemma_waiting_add(a, b.drop_last());
        assert((a + b).drop_last() =~= a + b.drop_last());
        assert(files_waiting(a + b) =~= files_waiting(a).add(files_waiting(b)));
    }
}

/// The files in a directory are its own and those in its directories.
proof fn lemma_own(nodes: Seq<Node>, prefix: Seq<char>)
    ensures
        files_in(nodes, prefix) == own_files(nodes, prefix).to_multiset().add(
            files_waiting(own_directories(nodes, prefix)),
        ),
        directories_in(nodes) == directories_waiting(own_directories(nodes, prefix)),
    decreases nodes.len(),
{
    broadcast use vstd::seq_lib::group_to_multiset_ensures;

    if nodes.len() == 0 {
        assert(files_in(nodes, prefix) =~= own_files(nodes, prefix).to_multiset().add(
            files_waiting(own_directories(nodes, prefix)),
        ));
    } else {
        let head = nodes.drop_last();
        let n = nodes.last();
        assert(nodes.subrange(0, nodes.len() - 1) =~= head);
        lemma_own(head, prefix);
        match n.tree {
            Tree::Directory(inside) => {
                lemma_waiting_push(
                    own_directories(head, prefix),
                    Waiting { path: n.path, dest: nested(prefix, n.name), inside },
                );
            },
            _ => {},
        }
        assert(files_in(nodes, prefix) =~= own_files(nodes, prefix).to_multiset().add(
            files_waiting(own_directories(nodes, prefix)),
        ));
    }
}

proof fn lemma_own_hold(
    read: spec_fn(Seq<char>) -> Seq<Entry>,
    nodes: Seq<Node>,
    prefix: Seq<char>,
)
    requires
        forall|i: int|
            #![trigger nodes[i]]
            0 <= i < nodes.len() ==> match nodes[i].tree {
                Tree::Directory(inside) => holds(read, nodes[i].path, inside),
                _ => true,
            },
    ensures
        all_hold(read, own_directories(nodes, prefix)),
    decreases nodes.len(),
{
    if nodes.len() > 0 {
        let head = nodes.drop_last();
        assert forall|i: int| #![trigger head[i]] 0 <= i < head.len() implies match head[i].tree {
            Tree::Directory(inside) => holds(read, head[i].path, inside),
            _ => true,
        } by {
            assert(head[i] == nodes[i]);
        }
        lemma_own_hold(read, head, prefix);
        let n = nodes[nodes.len() - 1];
    }
}

/// Reading one directory finds its own files and leaves its own directories,
/// unless that is one file too many.
proof fn lemma_listed(w: WalkModel, prefix: Seq<char>, nodes: Seq<Node>)
    requires
        w.found.len() <= MAX_DROPPED_FILES,
    ensures
        if w.found.len() + own_files(nodes, prefix).len() <= MAX_DROPPED_FILES {
            w.listed(prefix, listing(nodes)) == Ok::<WalkModel, Seq<char>>(
                WalkModel {
                    found: w.found + own_files(nodes, prefix),
                    left: w.left + places(own_directories(nodes, prefix)),
                },
            )
        } else {
            w.listed(prefix, listing(nodes)) == Err::<WalkModel, Seq<char>>(too_many_text())
        },
    decreases nodes.len(),
{
    if nodes.len() == 0 {
        assert(w.found + own_files(nodes, prefix) =~= w.found);
        assert(w.left + places(own_directories(nodes, prefix)) =~= w.left);
    } else {
        let head = nodes.drop_last();
        let n = nodes.last();
        lemma_listed(w, prefix, head);
        assert(listing(nodes).drop_last() =~= listing(head));
        assert(listing(nodes).last() == (n.path, n.name, n.tree.kind()));
        let dirs = own_directories(head, prefix);
        match n.tree {
            Tree::File => {
                let one = (n.path, nested(prefix, n.name));
                assert(w.found + own_files(nodes, prefix) =~= (w.found + own_files(
                    head,
                    prefix,
                )).push(one));
            },
            Tree::Directory(inside) => {
                let one = Waiting { path: n.path, dest: nested(prefix, n.name), inside };
                assert(w.left + places(dirs.push(one)) =~= (w.left + places(dirs)).push(
                    (n.path, nested(prefix, n.name)),
                ));
            },
            Tree::Other => {},
        }
    }
}

proof fn lemma_walked(
    w: WalkModel,
    waiting: Seq<Waiting>,
    read: spec_fn(Seq<char>) -> Seq<Entry>,
    steps: nat,
)
    requires
        w.found.len() <= MAX_DROPPED_FILES,
        w.left == places(waiting),
        all_hold(read, waiting),
        steps >= directories_waiting(waiting),
    ensures
        ({
            let all = w.found.to_multiset().add(files_waiting(waiting));
            if all.len() <= MAX_DROPPED_FILES {
                w.walked(read, steps) matches Some(Ok(found)) && found.to_multiset() == all
            } else {
                w.walked(read, steps) == Some(Err::<Seq<Sent>, Seq<char>>(too_many_text()))
            }
        }),
    decreases steps,
{
    broadcast use vstd::seq_lib::group_to_multiset_ensures;

    let all = w.found.to_multiset().add(files_waiting(waiting));
    if waiting.len() == 0 {
        assert(w.left.len() == 0);
        assert(all =~= w.found.to_multiset());
    } else {
        let last = waiting.last();
        let others = waiting.drop_last();
        let nodes = last.inside;
        let rest = WalkModel { left: w.left.drop_last(), ..w };
        assert(w.left.last() == (last.path, last.dest));
        assert(rest.left =~= places(others));
        assert(holds(read, waiting[waiting.len() - 1].path, nodes));
        lemma_own(nodes, last.dest);
        lemma_own_hold(read, nodes, last.dest);
        lemma_listed(rest, last.dest, nodes);
        let own = own_files(nodes, last.dest);
        let dirs = own_directories(nodes, last.dest);
        lemma_waiting_add(others, dirs);
        let found = w.found + own;
        vstd::seq_lib::lemma_multiset_commutative(w.found, own);
        assert(all =~= found.to_multiset().add(files_waiting(others + dirs)));
        if found.len() <= MAX_DROPPED_FILES {
            let next = WalkModel { found, left: rest.left + places(dirs) };
            assert(next.left =~= places(others + dirs));
            assert forall|i: int| 0 <= i < (others + dirs).len() implies holds(
                read,
                (#[trigger] (others + dirs)[i]).path,
                (others + dirs)[i].inside,
            ) by {
                if i < others.len() {
                    assert((others + dirs)[i] == waiting[i]);
                } else {
                    assert((others + dirs)[i] == dirs[i - others.len()]);
                }
            }
            lemma_walked(next, others + dirs, read, (steps - 1) as nat);
        } else {
            assert(all.len() > MAX_DROPPED_FILES);
        }
    }
}

/// A drop of a directory uploads each regular file in it once, to its place
/// below the directory's own name, whatever the order in which directories list
/// what is in them, and no file behind a link; and a drop of more files than one
/// may upload is refused.
pub proof fn law_drop_uploads_each_file_once(
    read: spec_fn(Seq<char>) -> Seq<Entry>,
    path: Seq<char>,
    root: Seq<char>,
    inside: Seq<Node>,
    steps: nat,
)
    requires
        holds(read, path, inside),
        steps > directories_in(inside),
    ensures
        ({
            let all = files_in(inside, root);
            if all.len() <= MAX_DROPPED_FILES {
                started(path, root).walked(read, steps) matches Some(Ok(found))
                    && found.to_multiset() == all
            } else {
                started(path, root).walked(read, steps) == Some(
                    Err::<Seq<Sent>, Seq<char>>(too_many_text()),
                )
            }
        }),
{
    broadcast use vstd::seq_lib::group_to_multiset_ensures;

    let w = Waiting { path, dest: root, inside };
    let none = Seq::<Waiting>::empty();
    lemma_waiting_push(none, w);
    let waiting = none.push(w);
    assert(started(path, root).left =~= places(waiting));
    lemma_walked(started(path, root), waiting, read, steps);
    assert(started(path, root).found.to_multiset().add(files_waiting(waiting)) =~= files_in(
        inside,
        root,
    ));
}

/// A file in a directory goes below where the directory goes, under its own
/// name; a directory that is dropped goes under its own name, or under a stock
/// one where it has none; and five hundred and twelve files may go at once.
pub proof fn law_files_go_below_their_directory(
    prefix: Seq<char>,
    name: Seq<char>,
    dir: Option<String>,
    root: Seq<char>,
    dest: Seq<char>,
)
    ensures
        nested(prefix, name) == prefix + "/"@ + name,
        dir matches Some(n) ==> root_of(dir) == n@,
        dir is None ==> root_of(dir) == "dropped"@,
        below(root, dest) && dest != root ==> dest.len() > root.len() && dest.take(
            root.len() as int,
        ) == root && dest[root.len() as int] == '/',
        MAX_DROPPED_FILES == 512,
{
    reveal_strlit("/");
    if below(root, dest) && dest != root {
        let lead = root + "/"@;
        let part = dest.subrange(0, lead.len() as int);
        assert(part == lead);
        assert(dest.take(root.len() as int) =~= part.take(root.len() as int));
        assert(lead.take(root.len() as int) =~= root);
        assert(dest[root.len() as int] == part[root.len() as int]);
        assert(lead[root.len() as int] == '/');
    }
}

/// What an entry of a directory does to a walk: a file is found at its place,
/// unless that is one too many; a directory is left to read; anything else is
/// passed over.
pub proof fn law_entries_are_found_or_left(
    w: WalkModel,
    prefix: Seq<char>,
    path: Seq<char>,
    name: Seq<char>,
)
    ensures
        w.found.len() < 512 ==> w.entered(prefix, path, name, EntryKind::File) == Ok::<
            WalkModel,
            Seq<char>,
        >(WalkModel { found: w.found.push((path, prefix + "/"@ + name)), left: w.left }),
        w.found.len() >= 512 ==> w.entered(prefix, path, name, EntryKind::File) is Err,
        w.entered(prefix, path, name, EntryKind::Directory) == Ok::<WalkModel, Seq<char>>(
            WalkModel { found: w.found, left: w.left.push((path, prefix + "/"@ + name)) },
        ),
        w.entered(prefix, path, name, EntryKind::Other) == Ok::<WalkModel, Seq<char>>(w),
{
}

/// Each upload is a file of this machine and the place it goes to.
pub proof fn law_uploads_are_pairs(entries: Seq<Upload>, i: int)
    requires
        0 <= i < entries.len(),
    ensures
        sent(entries).len() == entries.len(),
        sent(entries)[i] == (entries[i].0@, entries[i].1@),
{
}

/// A directory that was dropped is read first, and what is in it goes below its
/// name.
pub proof fn law_dropped_directory_is_read_first(path: Seq<char>, root: Seq<char>)
    ensures
        started(path, root).found.len() == 0,
        started(path, root).left == seq![(path, root)],
        too_many_text() == "more than "@ + text::decimal(512) + " files in the dropped directory"@,
{
}

} // verus!
