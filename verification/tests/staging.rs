use workshop_uploader::stage::copy_filtered_content;
use workshop_uploader::stage::NodeKind;
use workshop_uploader::stage::SourceEntry;
use workshop_uploader::stage::StageOutput;
use workshop_uploader::stage::WalkEvent;

fn file(path: &[&str], data: &[u8]) -> WalkEvent {
    WalkEvent::Found(SourceEntry {
        path: path.iter().map(|s| s.to_string()).collect(),
        kind: NodeKind::File,
        data: data.to_vec(),
    })
}

fn dir(path: &[&str]) -> WalkEvent {
    WalkEvent::Found(SourceEntry {
        path: path.iter().map(|s| s.to_string()).collect(),
        kind: NodeKind::Dir,
        data: Vec::new(),
    })
}

fn stage(events: Vec<WalkEvent>, globs: &[&str], ignore_files: &[&[u8]]) -> StageOutput {
    let globs: Vec<String> = globs.iter().map(|s| s.to_string()).collect();
    let ignore_files: Vec<Vec<u8>> = ignore_files.iter().map(|f| f.to_vec()).collect();
    copy_filtered_content(&events, &globs, &ignore_files).expect("staging failed")
}

fn staged_paths(out: &StageOutput) -> Vec<String> {
    out.files.iter().map(|f| f.path.join("/")).collect()
}

fn find<'a>(out: &'a StageOutput, path: &str) -> Option<&'a [u8]> {
    out.files
        .iter()
        .find(|f| f.path.join("/") == path)
        .map(|f| f.data.as_slice())
}

#[test]
fn excluding_glob_prunes_subdirectory() {
    let events = vec![
        file(&["a.txt"], b"alpha"),
        file(&["b.txt"], b"beta"),
        dir(&["sub"]),
        file(&["sub", "c.txt"], b"gamma"),
        file(&["workshop.toml"], b"item_id = 1"),
    ];
    let out = stage(events, &["!sub/*"], &[]);
    let paths = staged_paths(&out);
    assert_eq!(paths, vec!["a.txt", "b.txt", "workshop.toml"]);
    assert_eq!(find(&out, "a.txt"), Some(b"alpha".as_slice()));
    assert_eq!(find(&out, "b.txt"), Some(b"beta".as_slice()));
    assert_eq!(find(&out, "workshop.toml"), Some(b"item_id = 1".as_slice()));
    assert_eq!(find(&out, "sub/c.txt"), None);
    assert!(out.warnings.is_empty());
}

#[test]
fn discovered_gitignore_excludes_matches_but_not_itself() {
    let events = vec![
        file(&["img.png"], b"png bytes"),
        file(&[".gitignore"], b"*.png\n"),
    ];
    let out = stage(events, &[], &[]);
    assert_eq!(find(&out, "img.png"), None);
    assert_eq!(find(&out, ".gitignore"), Some(b"*.png\n".as_slice()));
    assert_eq!(out.files.len(), 1);
}

#[test]
fn metadata_file_survives_exclude_all() {
    let events = vec![
        file(&["a.txt"], b"alpha"),
        file(&["workshop.toml"], b"item_id = 1"),
    ];
    let out = stage(events, &["!*"], &[]);
    assert_eq!(find(&out, "a.txt"), None);
    assert_eq!(find(&out, "workshop.toml"), Some(b"item_id = 1".as_slice()));
}

#[test]
fn metadata_file_removed_by_exact_reexclusion() {
    let events = vec![
        file(&["a.txt"], b"alpha"),
        file(&["workshop.toml"], b"item_id = 1"),
    ];
    let out = stage(events, &["!*", "!workshop.toml"], &[]);
    assert_eq!(find(&out, "a.txt"), None);
    assert_eq!(find(&out, "workshop.toml"), None);
    assert!(out.files.is_empty());
}

#[test]
fn root_entry_is_never_staged() {
    let root = WalkEvent::Found(SourceEntry {
        path: Vec::new(),
        kind: NodeKind::Dir,
        data: Vec::new(),
    });
    let events = vec![root, file(&["a.txt"], b"alpha")];
    let out = stage(events, &[], &[]);
    assert_eq!(staged_paths(&out), vec!["a.txt"]);
    assert!(out.files.iter().all(|f| !f.path.is_empty()));
}

#[test]
fn staging_twice_from_same_inputs_is_identical() {
    let events = || {
        vec![
            file(&["a.txt"], b"alpha"),
            dir(&["sub"]),
            file(&["sub", "c.bin"], b"\x00\x01"),
            file(&[".gitignore"], b"*.tmp\n"),
            file(&["x.tmp"], b"scratch"),
        ]
    };
    let out1 = stage(events(), &["!sub/*", "keep.txt"], &[b"*.log\n"]);
    let out2 = stage(events(), &["!sub/*", "keep.txt"], &[b"*.log\n"]);
    assert_eq!(out1.files.len(), out2.files.len());
    for (f1, f2) in out1.files.iter().zip(out2.files.iter()) {
        assert_eq!(f1.path, f2.path);
        assert_eq!(f1.data, f2.data);
    }
    assert_eq!(out1.warnings, out2.warnings);
}

#[test]
fn unreadable_entry_is_warned_about_and_skipped() {
    let events = vec![
        file(&["a.txt"], b"alpha"),
        WalkEvent::Unreadable("permission denied: secret.txt".to_string()),
        file(&["b.txt"], b"beta"),
    ];
    let out = stage(events, &[], &[]);
    assert_eq!(staged_paths(&out), vec!["a.txt", "b.txt"]);
    assert_eq!(out.warnings, vec!["permission denied: secret.txt".to_string()]);
}

#[test]
fn later_override_reincludes_earlier_exclusion() {
    let events = vec![
        file(&["keep.txt"], b"keep"),
        file(&["other.txt"], b"other"),
        file(&["readme.md"], b"docs"),
    ];
    let out = stage(events, &["!*.txt", "keep.txt"], &[]);
    assert_eq!(find(&out, "keep.txt"), Some(b"keep".as_slice()));
    assert_eq!(find(&out, "other.txt"), None);
    assert_eq!(find(&out, "readme.md"), Some(b"docs".as_slice()));
}

#[test]
fn inclusion_glob_does_not_exclude_the_rest() {
    let events = vec![file(&["a.txt"], b"alpha"), file(&["b.bin"], b"beta")];
    let out = stage(events, &["a.txt"], &[]);
    assert_eq!(out.files.len(), 2);
}

#[test]
fn gitignore_whitelist_line_wins_within_file() {
    let events = vec![
        file(&[".gitignore"], b"*.png\n!keep.png\n"),
        file(&["img.png"], b"img"),
        file(&["keep.png"], b"kept"),
    ];
    let out = stage(events, &[], &[]);
    assert_eq!(find(&out, "img.png"), None);
    assert_eq!(find(&out, "keep.png"), Some(b"kept".as_slice()));
}

#[test]
fn deeper_gitignore_overrides_shallower() {
    let events = vec![
        file(&[".gitignore"], b"*.log\n"),
        dir(&["sub"]),
        file(&["sub", ".gitignore"], b"!keep.log\n"),
        file(&["sub", "keep.log"], b"kept"),
        file(&["sub", "drop.log"], b"dropped"),
        file(&["top.log"], b"top"),
    ];
    let out = stage(events, &[], &[]);
    assert_eq!(find(&out, "sub/keep.log"), Some(b"kept".as_slice()));
    assert_eq!(find(&out, "sub/drop.log"), None);
    assert_eq!(find(&out, "top.log"), None);
}

#[test]
fn dot_ignore_beats_dot_gitignore() {
    let events = vec![
        file(&[".ignore"], b"a.txt\n"),
        file(&[".gitignore"], b"!a.txt\n"),
        file(&["a.txt"], b"alpha"),
    ];
    let out = stage(events, &[], &[]);
    assert_eq!(find(&out, "a.txt"), None);
}

#[test]
fn override_glob_beats_discovered_ignore_file() {
    let events = vec![
        file(&[".gitignore"], b"*.png\n"),
        file(&["img.png"], b"img"),
    ];
    let out = stage(events, &["img.png"], &[]);
    assert_eq!(find(&out, "img.png"), Some(b"img".as_slice()));
}

#[test]
fn later_external_ignore_file_wins() {
    let events = vec![
        file(&["keep.tmp"], b"kept"),
        file(&["drop.tmp"], b"dropped"),
    ];
    let out = stage(events, &[], &[b"*.tmp\n", b"!keep.tmp\n"]);
    assert_eq!(find(&out, "keep.tmp"), Some(b"kept".as_slice()));
    assert_eq!(find(&out, "drop.tmp"), None);
}

#[test]
fn excluded_directory_prunes_descendants() {
    let events = vec![
        dir(&["sub"]),
        file(&["sub", "c.txt"], b"gamma"),
        file(&["a.txt"], b"alpha"),
    ];
    let out = stage(events, &["!sub"], &[]);
    assert_eq!(find(&out, "sub/c.txt"), None);
    assert_eq!(find(&out, "a.txt"), Some(b"alpha".as_slice()));
}

#[test]
fn invalid_override_glob_is_reported() {
    let events = vec![file(&["a.txt"], b"alpha")];
    let globs = vec!["[z-a]".to_string()];
    let ignore_files: Vec<Vec<u8>> = Vec::new();
    let r = copy_filtered_content(&events, &globs, &ignore_files);
    assert!(r.is_err());
    let e = r.err().unwrap();
    assert_eq!(e.pattern().as_str(), "[z-a]");
}

#[test]
fn invalid_external_ignore_line_is_reported() {
    let events = vec![file(&["a.txt"], b"alpha")];
    let globs: Vec<String> = Vec::new();
    let ignore_files = vec![b"ok.txt\n[z-a]\n".to_vec()];
    let r = copy_filtered_content(&events, &globs, &ignore_files);
    assert!(r.is_err());
}

#[test]
fn invalid_line_in_discovered_ignore_file_is_skipped() {
    let events = vec![
        file(&[".gitignore"], b"[z-a]\n*.png\n"),
        file(&["img.png"], b"img"),
        file(&["a.txt"], b"alpha"),
    ];
    let out = stage(events, &[], &[]);
    assert_eq!(find(&out, "img.png"), None);
    assert_eq!(find(&out, "a.txt"), Some(b"alpha".as_slice()));
}

#[test]
fn unknown_kind_entries_are_silently_skipped() {
    let events = vec![
        WalkEvent::Found(SourceEntry {
            path: vec!["weird.sock".to_string()],
            kind: NodeKind::Unknown,
            data: Vec::new(),
        }),
        file(&["a.txt"], b"alpha"),
    ];
    let out = stage(events, &[], &[]);
    assert_eq!(staged_paths(&out), vec!["a.txt"]);
    assert!(out.warnings.is_empty());
}

#[test]
fn empty_walk_stages_nothing() {
    let out = stage(Vec::new(), &[], &[]);
    assert!(out.files.is_empty());
    assert!(out.warnings.is_empty());
}

#[test]
fn directory_only_pattern_spares_like_named_file() {
    let events = vec![
        file(&[".gitignore"], b"sub/\n"),
        dir(&["sub"]),
        file(&["sub", "c.txt"], b"gamma"),
        file(&["subfile"], b"kept"),
    ];
    let out = stage(events, &[], &[]);
    assert_eq!(find(&out, "sub/c.txt"), None);
    assert_eq!(find(&out, "subfile"), Some(b"kept".as_slice()));
}

#[test]
fn anchored_pattern_matches_only_at_its_directory() {
    let events = vec![
        file(&[".gitignore"], b"/top.log\n"),
        file(&["top.log"], b"top"),
        dir(&["sub"]),
        file(&["sub", "top.log"], b"nested"),
    ];
    let out = stage(events, &[], &[]);
    assert_eq!(find(&out, "top.log"), None);
    assert_eq!(find(&out, "sub/top.log"), Some(b"nested".as_slice()));
}

#[test]
fn unanchored_pattern_matches_at_any_depth() {
    let events = vec![
        dir(&["a"]),
        dir(&["a", "b"]),
        file(&["a", "b", "notes.bak"], b"bak"),
        file(&["notes.bak"], b"bak"),
        file(&["a", "keep.txt"], b"keep"),
    ];
    let out = stage(events, &["!*.bak"], &[]);
    assert_eq!(find(&out, "notes.bak"), None);
    assert_eq!(find(&out, "a/b/notes.bak"), None);
    assert_eq!(find(&out, "a/keep.txt"), Some(b"keep".as_slice()));
}

#[test]
fn one_rule_set_drives_several_walks() {
    let globs = vec!["!*.tmp".to_string()];
    let ignore_files: Vec<Vec<u8>> = Vec::new();
    let rules = workshop_uploader::rules::build_rule_set(&globs, &ignore_files)
        .ok()
        .unwrap();

    let first = vec![file(&["a.txt"], b"alpha"), file(&["x.tmp"], b"scratch")];
    let out1 = workshop_uploader::stage::stage_tree(&rules, &first).ok().unwrap();
    assert_eq!(staged_paths(&out1), vec!["a.txt"]);

    let second = vec![file(&["y.tmp"], b"scratch"), file(&["b.txt"], b"beta")];
    let out2 = workshop_uploader::stage::stage_tree(&rules, &second).ok().unwrap();
    assert_eq!(staged_paths(&out2), vec!["b.txt"]);
}
