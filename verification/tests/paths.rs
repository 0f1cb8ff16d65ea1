use mdviz::paths::{drive_root, drives_present, get_all_drives, parent_of, path_parts};

#[test]
fn drives_present_labels() {
    assert_eq!(drives_present(&vec![true, false, true]), vec!["A:".to_string(), "C:".to_string()]);
    let mut all = vec![false; 26];
    all[3] = true;
    all[25] = true;
    assert_eq!(drives_present(&all), vec!["D:".to_string(), "Z:".to_string()]);
    assert!(drives_present(&vec![]).is_empty());
}

#[test]
fn drive_roots() {
    assert_eq!(drive_root(0), "A:\\");
    assert_eq!(drive_root(3), "D:\\");
}

#[test]
fn all_drives_are_labels() {
    let drives = get_all_drives();
    assert!(drives.len() <= 26);
    for d in &drives {
        let b = d.as_bytes();
        assert!(b.len() == 2 && b[0].is_ascii_uppercase() && b[1] == b':');
    }
    for w in drives.windows(2) {
        assert!(w[0] < w[1]);
    }
}

#[test]
fn path_parts_of_a_relative_path() {
    let p = path_parts("docs/notes.md");
    assert_eq!(p.parent.as_deref(), Some("docs"));
    assert_eq!(p.file_name.as_deref(), Some("notes.md"));
    assert_eq!(p.extension.as_deref(), Some("md"));
    assert_eq!(p.file_stem.as_deref(), Some("notes"));
    assert_eq!(parent_of("a/b/c").as_deref(), Some("a/b"));
    assert_eq!(parent_of(""), None);
}

#[test]
fn path_parts_of_plain_names() {
    let p = path_parts("notes.tar.gz");
    assert_eq!(p.parent.as_deref(), Some(""));
    assert_eq!(p.file_name.as_deref(), Some("notes.tar.gz"));
    assert_eq!(p.extension.as_deref(), Some("gz"));
    assert_eq!(p.file_stem.as_deref(), Some("notes.tar"));
    let q = path_parts(".bashrc");
    assert_eq!(q.extension, None);
    assert_eq!(q.file_stem.as_deref(), Some(".bashrc"));
    let r = path_parts("Makefile");
    assert_eq!(r.extension, None);
    assert_eq!(r.file_stem.as_deref(), Some("Makefile"));
    assert_eq!(path_parts("..").file_name, None);
    assert_eq!(parent_of("报告.md").as_deref(), Some(""));
    assert_eq!(parent_of("/"), None);
}

#[test]
fn relative_paths_have_a_parent() {
    for p in ["docs\\x", ".", "..", "a/..", "a//", "报告/数据.md"] {
        assert!(parent_of(p).is_some(), "{}", p);
    }
}
