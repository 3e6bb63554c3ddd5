use dashboard::walk::{find_artifact_dirs, ArtifactWalk, DirEntryInfo};

fn entry(path: &str, is_dir: bool, has_marker: bool) -> DirEntryInfo {
    DirEntryInfo { path: path.to_string(), is_dir, has_marker }
}

#[test]
fn one_directory_splits_into_artifacts_and_subdirs() {
    let scan = find_artifact_dirs(&vec![
        entry("/r/a", true, true),
        entry("/r/notes.txt", false, false),
        entry("/r/b", true, false),
        entry("/r/c", true, true),
    ]);
    assert_eq!(scan.artifacts, vec!["/r/a".to_string(), "/r/c".to_string()]);
    assert_eq!(scan.subdirs, vec!["/r/b".to_string()]);
}

#[test]
fn walk_descends_until_artifacts() {
    let mut walk = ArtifactWalk::new("/r".to_string());
    let mut listed = Vec::new();
    while let Some(dir) = walk.next_dir() {
        listed.push(dir.clone());
        let children = match dir.as_str() {
            "/r" => vec![entry("/r/x", true, false), entry("/r/y", true, true)],
            "/r/x" => vec![entry("/r/x/z", true, true)],
            _ => vec![],
        };
        walk.visit(&children);
    }
    assert_eq!(listed, vec!["/r".to_string(), "/r/x".to_string()]);
    assert_eq!(walk.found, vec!["/r/y".to_string(), "/r/x/z".to_string()]);
}
