use lynxrdp_client::fileclip::owner::{
    notified_property, property_for, Atoms, Conversion, Owner, NONE,
};
use lynxrdp_client::fileclip::watch::{
    judge, Heard, Reading, Snapshot, Step, Watch, PATIENCE, PROPERTY_RING,
};
use lynxrdp_client::fileclip::{
    absolute_paths, collect, dropfiles_blob, hdrop_blob, write_files, DROPFILES_SIZE, SUPPORTED,
};

#[test]
fn support_matches_the_platform() {
    // Where there is no backend, write_files must fail cleanly rather
    // than silently pretending to have worked.
    if !SUPPORTED {
        assert!(write_files(&vec!["/tmp/x".to_string()]).is_err());
    }
}

// Nothing to offer is a caller bug: taking the clipboard to publish an
// empty list would just wipe whatever the user had on it.
#[test]
fn an_empty_list_is_refused() {
    assert_eq!(
        write_files(&vec![]),
        Err("no files to put on the clipboard".to_string())
    );
}

#[test]
fn relative_paths_are_resolved_before_publishing() {
    let slash = std::path::MAIN_SEPARATOR;
    let here = absolute_paths(&vec!["x".to_string()]).unwrap();
    let cwd = here[0].strip_suffix('x').unwrap();
    assert!(cwd.ends_with(slash) && std::path::Path::new(cwd).is_absolute());
    let out = absolute_paths(&vec!["staged".to_string(), "staged/a.txt".to_string()]).unwrap();
    assert_eq!(
        out,
        vec![format!("{cwd}staged"), format!("{cwd}staged{slash}a.txt")]
    );
}

#[test]
fn absolute_paths_are_published_as_they_are() {
    let already = if std::path::MAIN_SEPARATOR == '\\' {
        r"C:\tmp\a.txt".to_string()
    } else {
        "/tmp/a.txt".to_string()
    };
    let out = absolute_paths(&vec![already.clone()]).unwrap();
    assert_eq!(out, vec![already.clone()]);
    assert_eq!(write_files(&vec![already.clone()]), Ok(vec![already]));
}

#[test]
fn a_path_that_cannot_be_resolved_is_named() {
    let err = absolute_paths(&vec!["/tmp/a".to_string(), String::new()]).unwrap_err();
    assert!(err.starts_with("resolving : "), "{err}");
    assert_eq!(
        collect(&vec![
            ("a".to_string(), Ok("/a".to_string())),
            ("b".to_string(), Err("gone".to_string())),
            ("c".to_string(), Err("late".to_string())),
        ]),
        Err("resolving b: gone".to_string())
    );
}

/// The names as a file drop block carries them: UTF-16, no terminator (the
/// block builder adds those).
fn wide_name(s: &str) -> Vec<u16> {
    s.encode_utf16().collect()
}

/// Read a file drop block back into the names it offers.
fn names_in(blob: &[u8]) -> Vec<String> {
    let units: Vec<u16> = blob[DROPFILES_SIZE as usize..]
        .chunks_exact(2)
        .map(|c| u16::from_le_bytes(c.try_into().unwrap()))
        .collect();
    // The list ends with a NUL of its own, so the final split is empty.
    units[..units.len() - 1]
        .split(|&u| u == 0)
        .filter(|s| !s.is_empty())
        .map(|s| String::from_utf16(s).unwrap())
        .collect()
}

#[test]
fn a_dropfiles_block_has_a_header_and_a_double_nul_terminated_list() {
    let blob = dropfiles_blob(&vec![wide_name(r"C:\tmp\a.txt")]);
    // The names start straight after the 20 byte header.
    assert_eq!(u32::from_le_bytes(blob[..4].try_into().unwrap()), 20);
    // The names are UTF-16, not bytes.
    assert_eq!(i32::from_le_bytes(blob[16..20].try_into().unwrap()), 1);
    assert_eq!(names_in(&blob), vec![r"C:\tmp\a.txt"]);
    // One NUL ends the name, a second ends the list.
    assert_eq!(&blob[blob.len() - 4..], &[0, 0, 0, 0]);
}

#[test]
fn a_dropfiles_block_separates_several_names() {
    let blob = dropfiles_blob(&vec![
        wide_name(r"C:\a.txt"),
        wide_name(r"C:\b with space.txt"),
        wide_name(r"C:\héllo.txt"),
    ]);
    assert_eq!(
        names_in(&blob),
        vec![r"C:\a.txt", r"C:\b with space.txt", r"C:\héllo.txt"]
    );
}

#[test]
fn a_dropfiles_block_is_exactly_as_long_as_its_contents() {
    // Explorer walks the block by the NULs, so trailing slack would be
    // read as another, empty name.
    let blob = dropfiles_blob(&vec![wide_name("ab"), wide_name("c")]);
    assert_eq!(blob.len(), DROPFILES_SIZE as usize + (3 + 2 + 1) * 2);
}

#[test]
fn hdrop_blob_encodes_the_names_it_is_given() {
    let blob = hdrop_blob(&vec![r"C:\tmp\a.txt".to_string()]).unwrap();
    assert_eq!(blob, dropfiles_blob(&vec![wide_name(r"C:\tmp\a.txt")]));
    // A character beyond the basic plane takes two units.
    let blob = hdrop_blob(&vec!["C:\\\u{1f511}".to_string()]).unwrap();
    assert_eq!(blob, dropfiles_blob(&vec![wide_name("C:\\\u{1f511}")]));
}

#[test]
fn a_name_containing_a_nul_is_refused() {
    // Passing it through would end the name early and offer a file the
    // user never copied.
    assert!(hdrop_blob(&vec!["C:\\tmp\\a\0b.txt".to_string()]).is_err());
}

#[test]
fn a_corrected_answer_moves_the_revision_and_a_repeated_one_does_not() {
    let mut s = Snapshot {
        revision: 1,
        available: true,
        ready: false,
        files: None,
        error: None,
    };
    s.requested();
    assert_eq!(s.revision, 2);
    assert!(!s.ready);
    // The old owner's refusal, taken for the new owner's.
    s.answer(Ok(None));
    assert!(s.ready);
    assert_eq!(s.revision, 2);
    assert_eq!(s.files, None);
    // The new owner's real answer: the viewer has already read revision
    // 2 as "no files" and has to be made to read again.
    let files = vec!["/tmp/a".to_string()];
    s.answer(Ok(Some(files.clone())));
    assert_eq!(s.revision, 3);
    assert_eq!(s.files, Some(files));
    // Saying the same thing again is not news.
    s.answer(Ok(s.files.clone()));
    assert_eq!(s.revision, 3);
    // An error is a change too.
    s.answer(Err("bad".into()));
    assert_eq!(s.revision, 4);
    assert_eq!(s.error.as_deref(), Some("bad"));
}

#[test]
fn a_watch_reads_only_the_latest_answer() {
    let mut w = Watch::begin(0);
    assert_eq!(w.snapshot.read_files(), Reading::Pending);
    assert_eq!(w.hear(Heard::OwnerChanged, 10), Step::Request(1));
    // The answer to the first request describes a clipboard that is gone.
    assert_eq!(w.hear(Heard::Answered(0), 11), Step::Discard);
    assert_eq!(w.hear(Heard::Answered(1), 12), Step::Read);
    w.read(judge(0, true, 8, Ok(vec!["/tmp/a".to_string()])));
    assert_eq!(
        w.snapshot.read_files(),
        Reading::Files(Some(vec!["/tmp/a".to_string()]))
    );
    assert_eq!(w.snapshot.file_counter(), Some(2));
    // The ring comes round again.
    for n in 2..=PROPERTY_RING {
        assert_eq!(
            w.hear(Heard::OwnerChanged, 20),
            Step::Request(n % PROPERTY_RING)
        );
    }
    assert_eq!(w.hear(Heard::Stray, 21), Step::Discard);
}

#[test]
fn a_refusal_leaves_the_watch_going() {
    let mut w = Watch::begin(5);
    assert_eq!(w.snapshot, Snapshot::new());
    assert_eq!(w.hear(Heard::Refused, 6), Step::Nothing);
    assert_eq!(w.snapshot.read_files(), Reading::Files(None));
    assert_eq!(w.snapshot.file_counter(), Some(1));
    // The real answer follows it, and has to reach the viewer.
    assert_eq!(w.hear(Heard::Answered(0), 7), Step::Read);
    w.read(Ok(Some(vec!["/tmp/a".to_string()])));
    assert_eq!(w.snapshot.file_counter(), Some(2));
}

#[test]
fn a_silent_owner_is_given_up_on() {
    let mut w = Watch::begin(5);
    w.tick(4 + PATIENCE);
    assert_eq!(w.snapshot.read_files(), Reading::Pending);
    w.tick(5 + PATIENCE);
    assert_eq!(
        w.snapshot.read_files(),
        Reading::Failed("Clipboard owner did not respond".to_string())
    );
    assert_eq!(w.deadline, None);
    assert_eq!(w.snapshot.file_counter(), Some(1));
    w.snapshot.ended("lost".to_string());
    assert_eq!(w.snapshot.file_counter(), None);
    let mut s = Snapshot::new();
    s.never_began("no display".to_string());
    assert_eq!(s.revision, 1);
    assert_eq!(s.read_files(), Reading::Failed("no display".to_string()));
}

#[test]
fn a_selection_is_judged_by_its_shape() {
    let odd = Err("Unsupported or oversized file clipboard selection".to_string());
    assert_eq!(judge(1, true, 8, Ok(vec![])), odd);
    assert_eq!(judge(0, false, 8, Ok(vec![])), odd);
    assert_eq!(judge(0, true, 32, Ok(vec![])), odd);
    assert_eq!(judge(0, true, 8, Ok(vec![])), Ok(None));
    assert_eq!(
        judge(0, true, 8, Err("no text".to_string())),
        Err("no text".to_string())
    );
}

const ATOMS: Atoms = Atoms {
    clipboard: 1,
    targets: 2,
    timestamp: 3,
    uri_list: 4,
    gnome_copied: 5,
};

#[test]
fn the_owner_answers_what_it_can_produce() {
    let mut o = Owner::new();
    let list = "file:///tmp/a\r\nfile:///tmp/b\r\n";
    assert_eq!(o.convert(&ATOMS, ATOMS.uri_list, list), Conversion::Refused);
    assert_eq!(o.publish(vec!["/tmp/a".to_string()], true), Ok(()));
    assert_eq!(
        o.convert(&ATOMS, ATOMS.uri_list, list),
        Conversion::Text(list.to_string())
    );
    assert_eq!(
        o.convert(&ATOMS, ATOMS.gnome_copied, list),
        Conversion::Text("copy\nfile:///tmp/a\nfile:///tmp/b\n".to_string())
    );
    assert_eq!(
        o.convert(&ATOMS, ATOMS.targets, list),
        Conversion::Targets(vec![2, 3, 4, 5])
    );
    assert_eq!(
        o.convert(&ATOMS, ATOMS.timestamp, list),
        Conversion::Timestamp
    );
    assert_eq!(o.convert(&ATOMS, 99, list), Conversion::Refused);
    // Losing the selection to a copy of our own that came later is no loss.
    o.taken(true);
    assert_eq!(o.files.len(), 1);
    o.taken(false);
    assert!(o.files.is_empty());
    assert_eq!(
        o.publish(vec!["/tmp/a".to_string()], false),
        Err("another program holds the clipboard".to_string())
    );
    assert!(o.files.is_empty());
}

#[test]
fn an_old_requestor_is_answered_in_the_target() {
    assert_eq!(property_for(NONE, 4), 4);
    assert_eq!(property_for(9, 4), 9);
    assert_eq!(notified_property(9, true), 9);
    assert_eq!(notified_property(9, false), NONE);
}
