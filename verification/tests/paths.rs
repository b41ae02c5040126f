//! Input paths, output paths, globs and lists.

use std::path::Path;

use rimage::cli::paths::{
    accessible_files, apply_glob_pattern, check_input_file, collect_files, contains_glob_meta,
    expand_file_lists, failure_message, get_common_path, get_paths, is_file_list_path, is_glob_pattern,
    normalize_lexically, output_path, paths_equivalent, plan_outputs, read_file_list_entries,
    strip_prefix_components, valid_suffix, validate_output_file_name, Component, FilePath,
    FileStatus, GlobInput, InputPathError, PathsError,
};

/// A path as its components.
fn path(text: &str) -> FilePath {
    let mut components = Vec::new();
    for component in Path::new(text).components() {
        let name = component.as_os_str().as_encoded_bytes().to_vec();
        components.push(match component {
            std::path::Component::Prefix(_) => Component::Prefix(name),
            std::path::Component::RootDir => Component::RootDir,
            std::path::Component::CurDir => Component::CurDir,
            std::path::Component::ParentDir => Component::ParentDir,
            std::path::Component::Normal(_) => Component::Normal(name),
        });
    }
    FilePath { components }
}

fn all(paths: &[&str]) -> Vec<FilePath> {
    paths.iter().map(|text| path(text)).collect()
}

/// Maps inputs to outputs on a file system without links.
fn mapped(
    files: &[&str],
    out_dir: Option<&str>,
    suffix: Option<&str>,
    recursive: bool,
) -> Result<Vec<(FilePath, FilePath)>, String> {
    let files = all(files);
    let statuses = files.iter().map(|_| FileStatus::File).collect();
    let plan = plan_outputs(
        &files,
        &statuses,
        &out_dir.map(path),
        &suffix.map(String::from),
        recursive,
        false,
    );
    let resolved = plan.outputs.iter().map(|_| None).collect();
    get_paths(&plan, &resolved)
        .map_err(|failure| failure_message(failure.error, "subject", "common"))
}

#[test]
fn find_common_path() {
    let paths = all(&["/path/to/image1.jpg", "/path/to/image2.jpg", "/path/to/image3.jpg"]);
    assert_eq!(get_common_path(&paths), Some(path("/path/to")));

    let paths = all(&["/path/to/test/image1.jpg", "/path/image2.jpg", "/path/to/image3.jpg"]);
    assert_eq!(get_common_path(&paths), Some(path("/path")));
}

#[test]
fn common_path_is_none_for_empty_input() {
    assert_eq!(get_common_path(&Vec::new()), None);
}

#[test]
fn common_path_is_none_for_unrelated_windows_drives() {
    let on_drive = |drive: &str, name: &str| FilePath {
        components: vec![
            Component::Prefix(drive.as_bytes().to_vec()),
            Component::RootDir,
            Component::Normal(b"projects".to_vec()),
            Component::Normal(b"a".to_vec()),
            Component::Normal(name.as_bytes().to_vec()),
        ],
    };
    let paths = vec![on_drive("C:", "image1.jpg"), on_drive("D:", "image2.jpg")];
    assert_eq!(get_common_path(&paths), None);
}

#[test]
fn common_path_and_strip_prefix_ignore_ascii_case_on_all_platforms() {
    let paths = all(&["/Photos/a", "/photos/b"]);
    let common = get_common_path(&paths).unwrap();
    assert_eq!(common, path("/Photos"));
    assert_eq!(strip_prefix_components(&path("/photos/b"), &common), Some(path("b")));
}

#[test]
fn paths_equivalent_ignores_ascii_case_on_all_platforms() {
    // Regression: a same-format conversion with `--backup` and a suffix such
    // as `@Backup` maps the output to `img@Backup.png` while the backup is
    // `img@backup.png`. Path comparisons treat names as case-insensitive on
    // every platform (fail-safe), so the collision must be detected before
    // publishing over the backup.
    let same = |a: &str, b: &str| paths_equivalent(&path(a), &path(b), &None, &None);
    assert!(same("/img@Backup.png", "/img@backup.png"));
    assert!(same("/photos/a/B.JPG", "/PHOTOS/A/b.jpg"));
    assert!(!same("/a.png", "/b.png"));
}

/// What a link leads to decides, where both paths lead somewhere.
#[test]
fn paths_equivalent_resolves_symlink_aliases() {
    let file = path("/root/real/a.png");
    assert!(paths_equivalent(
        &path("/root/link/a.png"),
        &file,
        &Some(path("/root/real/a.png")),
        &Some(file.copied())
    ));
    assert!(!paths_equivalent(&path("/root/link/b.png"), &file, &None, &Some(file.copied())));
}

#[test]
fn recursive_single_file_stays_under_output_directory() {
    let paths =
        mapped(&["/root/input/photos/image.jpg"], Some("/root/output"), None, true).unwrap();

    assert_eq!(
        paths,
        vec![(path("/root/input/photos/image.jpg"), path("/root/output/image"))]
    );
}

#[test]
fn recursive_files_preserve_relative_parent_structure() {
    let paths = mapped(
        &["/root/input/a/image.jpg", "/root/input/b/image.jpg"],
        Some("/root/output"),
        None,
        true,
    )
    .unwrap();

    assert_eq!(paths[0].1, path("/root/output/a/image"));
    assert_eq!(paths[1].1, path("/root/output/b/image"));
}

#[test]
fn duplicate_outputs_are_rejected() {
    let error = mapped(
        &["/root/a/image.jpg", "/root/b/image.png"],
        Some("/root/out"),
        None,
        false,
    )
    .unwrap_err();
    assert!(error.contains("same output path"));
}

#[test]
fn invalid_suffixes_are_rejected() {
    for bad in [
        "",
        "..\\evil",
        "a/b",
        "..",
        ".",
        "a\\b",
        "out:2x",
        "na*me",
        "bad\u{1f}",
        "tail.",
        "tail ",
    ] {
        assert!(!valid_suffix(bad), "suffix {bad:?} must be rejected");
    }
    for ok in ["2x", "updated", "v2.1", "a..b"] {
        assert!(valid_suffix(ok), "suffix {ok:?} must be accepted");
    }
}

#[test]
fn normalize_lexically_removes_dot_components() {
    assert_eq!(normalize_lexically(&path("/a/./b/../c")), path("/a/c"));
    assert_eq!(normalize_lexically(&path("a/../b")), path("b"));
}

fn glob_input(path: &str, exists: bool, found: Option<&[&str]>) -> GlobInput {
    GlobInput {
        path: path.as_bytes().to_vec(),
        exists,
        found: found.map(|names| names.iter().map(|name| name.as_bytes().to_vec()).collect()),
    }
}

#[test]
fn collect_files_expands_globs_but_prefers_existing_literals() {
    let matches = ["root/a.jpg", "root/b.jpg", "root/photo1.jpg", "root/photo[1].jpg"];
    let pattern = glob_input("root/*.jpg", false, Some(&matches));
    let files = collect_files(&vec![pattern]);
    assert_eq!(files.len(), 4);
    assert_eq!(files[3], b"root/photo[1].jpg");

    let literal = glob_input("root/photo[1].jpg", true, Some(&["root/photo1.jpg"]));
    assert_eq!(apply_glob_pattern(&literal), vec![b"root/photo[1].jpg".to_vec()]);
    let nothing = glob_input("root/nomatch_*.jpg", false, Some(&[]));
    assert!(collect_files(&vec![nothing]).is_empty());

    // A pattern that is not valid, and a missing file that is no pattern, stand
    // for themselves; inputs keep their order.
    let inputs = vec![
        glob_input("a[", false, None),
        glob_input("missing.jpg", false, None),
        glob_input("*.png", false, Some(&["x.png", "y.png"])),
    ];
    assert_eq!(
        collect_files(&inputs),
        vec![b"a[".to_vec(), b"missing.jpg".to_vec(), b"x.png".to_vec(), b"y.png".to_vec()]
    );
}

#[test]
fn glob_characters_are_found_in_text_only() {
    for pattern in ["*", "a?b", "[x", "x]"] {
        assert!(contains_glob_meta(&pattern.as_bytes().to_vec()));
        assert!(is_glob_pattern(&pattern.as_bytes().to_vec(), false));
        assert!(!is_glob_pattern(&pattern.as_bytes().to_vec(), true));
    }
    assert!(!contains_glob_meta(&b"plain.jpg".to_vec()));
    assert!(!contains_glob_meta(&b"\xff*".to_vec()));
}

#[test]
fn file_list_name_matches_case_insensitively() {
    assert!(is_file_list_path(&path("file.list")));
    assert!(is_file_list_path(&path("./FILE.LIST")));
    assert!(is_file_list_path(&path("dir/File.List")));
    assert!(!is_file_list_path(&path("other.list")));
    assert!(!is_file_list_path(&path("file.txt")));
    assert!(!is_file_list_path(&path("myfile.list")));
}

#[test]
fn file_list_reads_one_path_per_line() {
    let content = b"photos/a.jpg\r\n  photos/b.jpg\t\n\n   \n#not-a-comment.jpg\n".to_vec();

    let entries = read_file_list_entries("file.list", &content).unwrap();
    assert_eq!(entries, vec!["photos/a.jpg", "photos/b.jpg", "#not-a-comment.jpg"]);
}

#[test]
fn file_list_must_be_readable_utf8() {
    let error =
        read_file_list_entries("file.list", &b"\xff\xfe invalid utf-8".to_vec()).unwrap_err();
    assert!(error.contains("file.list"));
}

#[test]
fn expand_file_lists_uses_only_lists_and_ignores_other_inputs() {
    let inputs = all(&["/root/file.list", "/root/direct.jpg"]);
    assert_eq!(expand_file_lists(&inputs), (true, all(&["/root/file.list"])));

    let content = b"photos/a.jpg\nphotos/*.png\n\n".to_vec();
    let entries = read_file_list_entries("/root/file.list", &content).unwrap();
    let inputs = vec![
        glob_input(&entries[0], true, None),
        glob_input(&entries[1], false, Some(&["photos/a.png", "photos/b.png"])),
    ];
    let mut files = collect_files(&inputs);
    files.sort();

    let mut expected =
        vec![b"photos/a.jpg".to_vec(), b"photos/a.png".to_vec(), b"photos/b.png".to_vec()];
    expected.sort();
    assert_eq!(files, expected);
}

#[test]
fn expand_file_lists_without_lists_keeps_all_inputs() {
    let inputs = all(&["/root/direct.jpg", "/root/other.png"]);
    assert_eq!(expand_file_lists(&inputs), (false, inputs));
}

/// The status of a link is that of the file it leads to.
#[test]
fn file_symlinks_are_accepted() {
    assert!(check_input_file(FileStatus::File).is_ok());
    assert!(matches!(
        check_input_file(FileStatus::NotFile),
        Err(InputPathError::MissingOrNotFile("is not a file"))
    ));
    assert!(matches!(
        check_input_file(FileStatus::NotFound),
        Err(InputPathError::MissingOrNotFile("does not exist or is a dangling symbolic link"))
    ));
    assert!(matches!(check_input_file(FileStatus::Failed), Err(InputPathError::Io)));
}

#[test]
fn a_suffix_is_added_to_the_stem() {
    let paths = mapped(&["/in/photo.v2.jpg"], None, Some("@2x"), false).unwrap();
    assert_eq!(paths[0].1, path("/in/photo.v2@2x"));

    assert!(mapped(&["/in/a.jpg"], None, Some("../x"), false)
        .unwrap_err()
        .starts_with("Invalid suffix"));
}

#[test]
fn outputs_that_differ_in_case_collide() {
    assert!(mapped(&["/in/a.jpg", "/in/A.png"], Some("/out"), None, false).is_err());
    assert!(mapped(&["/in/a.jpg", "/in/b.png"], Some("/out"), None, false).is_ok());
    // Beyond ASCII names are compared by the rules of Unicode.
    assert!(mapped(&["/in/\u{c4}.jpg", "/in/\u{e4}.png"], Some("/out"), None, false).is_err());
}

#[test]
fn windows_names_are_checked_on_windows_only() {
    for (name, fault) in [
        (&b"con"[..], PathsError::NameReserved),
        (b"LPT1.txt", PathsError::NameReserved),
        (b"a:b", PathsError::NameInvalid),
        (b"\xff", PathsError::NameNotUnicode),
    ] {
        assert_eq!(validate_output_file_name(&name.to_vec(), true), Err(fault));
        assert_eq!(validate_output_file_name(&name.to_vec(), false), Ok(()));
    }
    assert_eq!(validate_output_file_name(&b"console".to_vec(), true), Ok(()));
}

#[test]
fn a_remainder_that_starts_at_the_root_leaves_the_output_directory() {
    let prefix = |name: &str| Component::Prefix(name.as_bytes().to_vec());
    let name = |name: &str| Component::Normal(name.as_bytes().to_vec());
    let input = FilePath {
        components: vec![prefix("C:"), Component::RootDir, name("photos"), name("a.png")],
    };
    let common = Some(FilePath { components: vec![prefix("C:")] });
    let output = |dir: Vec<Component>| {
        let dir = Some(FilePath { components: dir });
        output_path(&input, &dir, &common, &None, true).unwrap().components
    };
    assert_eq!(
        output(vec![prefix("D:"), Component::RootDir, name("out")]),
        vec![prefix("D:"), Component::RootDir, name("photos"), name("a")]
    );
    assert_eq!(
        output(vec![name("out")]),
        vec![Component::RootDir, name("photos"), name("a")]
    );

    // What lies elsewhere on its own drive stays there.
    let everywhere = Some(FilePath { components: Vec::new() });
    let dir = Some(FilePath { components: vec![name("out")] });
    assert_eq!(
        output_path(&input, &dir, &everywhere, &None, true).unwrap().components,
        vec![prefix("C:"), Component::RootDir, name("photos"), name("a")]
    );
}

#[test]
fn only_files_are_mapped_and_they_keep_their_order() {
    let files = all(&["/in/c.jpg", "/in/dir", "/in/a.jpg", "/in/gone.jpg", "/in/shut.jpg", "/in/b.jpg"]);
    let statuses = vec![
        FileStatus::File,
        FileStatus::NotFile,
        FileStatus::File,
        FileStatus::NotFound,
        FileStatus::Failed,
        FileStatus::File,
    ];
    let kept = all(&["/in/c.jpg", "/in/a.jpg", "/in/b.jpg"]);
    assert_eq!(accessible_files(&files, &statuses), kept);

    let plan = plan_outputs(&files, &statuses, &Some(path("/out")), &None, false, false);
    assert_eq!(plan.inputs, kept);
    let resolved = plan.outputs.iter().map(|_| None).collect();
    let pairs = get_paths(&plan, &resolved).unwrap();
    assert_eq!(
        pairs,
        vec![
            (path("/in/c.jpg"), path("/out/c")),
            (path("/in/a.jpg"), path("/out/a")),
            (path("/in/b.jpg"), path("/out/b")),
        ]
    );

    // What is left out cannot collide.
    let files = all(&["/in/a.jpg", "/in/a.png"]);
    let statuses = vec![FileStatus::File, FileStatus::NotFound];
    let plan = plan_outputs(&files, &statuses, &None, &None, false, false);
    assert_eq!(get_paths(&plan, &vec![None]).unwrap().len(), 1);

    // An unusable suffix is refused whatever the inputs are.
    let none = plan_outputs(&Vec::new(), &Vec::new(), &None, &Some(String::from("a/b")), false, false);
    assert_eq!(none.error, Some(PathsError::InvalidSuffix));
}
