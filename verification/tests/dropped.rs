use lynxrdp_client::app::dropped::{EntryKind, Walk, MAX_DROPPED_FILES};

/// A directory tree: what is in each directory.
type Tree<'a> = &'a [(&'a str, &'a [(&'a str, EntryKind)])];

/// Walk a tree to the end, and give back where its files go.
fn walk(path: &str, name: &str, tree: Tree) -> Result<Vec<String>, String> {
    let mut walk = Walk::begin(path.to_string(), Some(name.to_string()), EntryKind::Directory)?;
    while let Some((dir, prefix)) = walk.next_directory() {
        let entries = tree.iter().find(|d| d.0 == dir).expect("no such directory").1;
        for (name, kind) in entries {
            walk.entry(&prefix, format!("{dir}/{name}"), name, *kind)?;
        }
    }
    Ok(walk.found.into_iter().map(|f| f.1).collect())
}

#[test]
fn dropping_a_file_uploads_it_under_its_own_name() {
    let got = Walk::begin(
        "/tmp/notes.txt".to_string(),
        Some("notes.txt".to_string()),
        EntryKind::File,
    )
    .unwrap()
    .found;
    assert_eq!(got.len(), 1);
    assert_eq!(got[0].1, "notes.txt");
}

#[test]
fn dropping_a_directory_keeps_its_structure() {
    let mut got = walk(
        "/tmp/project",
        "project",
        &[
            (
                "/tmp/project",
                &[
                    ("src", EntryKind::Directory),
                    ("README.md", EntryKind::File),
                ],
            ),
            ("/tmp/project/src", &[("main.rs", EntryKind::File)]),
        ],
    )
    .unwrap();
    got.sort();
    assert_eq!(got, vec!["project/README.md", "project/src/main.rs"]);
}

#[test]
fn a_symlink_inside_a_dropped_directory_is_not_followed() {
    // Following links would upload files the user never dropped, and a link
    // back to an ancestor would make the walk loop forever.
    let got = walk(
        "/tmp/project",
        "project",
        &[(
            "/tmp/project",
            &[
                ("real.txt", EntryKind::File),
                ("link-to-outside", EntryKind::Other),
                ("link-to-file", EntryKind::Other),
                ("link-to-self", EntryKind::Other),
            ],
        )],
    )
    .unwrap();
    assert_eq!(got, vec!["project/real.txt"]);
}

#[test]
fn destinations_from_a_drop_stay_below_what_was_dropped() {
    let got = walk(
        "/tmp/tree",
        "tree",
        &[
            ("/tmp/tree", &[("a", EntryKind::Directory)]),
            ("/tmp/tree/a", &[("b", EntryKind::Directory)]),
            ("/tmp/tree/a/b", &[("c.txt", EntryKind::File)]),
        ],
    )
    .unwrap();
    assert_eq!(got, vec!["tree/a/b/c.txt"]);
}

#[test]
fn a_file_without_a_name_is_refused() {
    assert_eq!(
        Walk::begin("/".to_string(), None, EntryKind::File),
        Err("dropped path has no file name".to_string())
    );
}

#[test]
fn a_directory_without_a_name_gets_one() {
    let walk = Walk::begin("/".to_string(), None, EntryKind::Directory).unwrap();
    assert_eq!(walk.left, vec![("/".to_string(), "dropped".to_string())]);
}

#[test]
fn a_huge_directory_is_refused() {
    let mut walk = Walk::begin(
        "/tmp/t".to_string(),
        Some("t".to_string()),
        EntryKind::Directory,
    )
    .unwrap();
    for n in 0..MAX_DROPPED_FILES {
        let name = format!("f{n}");
        assert_eq!(
            walk.entry("t", format!("/tmp/t/{name}"), &name, EntryKind::File),
            Ok(())
        );
    }
    assert_eq!(
        walk.entry("t", "/tmp/t/x".to_string(), "x", EntryKind::File),
        Err("more than 512 files in the dropped directory".to_string())
    );
    assert_eq!(walk.found.len(), MAX_DROPPED_FILES);
}

#[test]
fn a_drop_uploads_each_file_once_and_counts_them_all() {
    let names: Vec<String> = (0..300).map(|n| format!("f{n}")).collect();
    let files = |n: usize| -> Vec<(&str, EntryKind)> {
        names[..n].iter().map(|f| (f.as_str(), EntryKind::File)).collect()
    };
    let top = [
        ("a", EntryKind::Directory),
        ("link", EntryKind::Other),
        ("b", EntryKind::Directory),
    ];
    // As many as may go, over two directories.
    let (a, b) = (files(300), files(212));
    let mut got = walk("/t", "t", &[("/t", &top), ("/t/a", &a), ("/t/b", &b)]).unwrap();
    assert_eq!(got.len(), MAX_DROPPED_FILES);
    got.sort();
    let mut expected: Vec<String> = (0..300).map(|n| format!("t/a/f{n}")).collect();
    expected.extend((0..212).map(|n| format!("t/b/f{n}")));
    expected.sort();
    assert_eq!(got, expected);
    // One more is one too many, whichever directory it is in.
    let (a, b) = (files(300), files(213));
    assert_eq!(
        walk("/t", "t", &[("/t", &top), ("/t/a", &a), ("/t/b", &b)]),
        Err("more than 512 files in the dropped directory".to_string())
    );
}
