use m3u8downloader::save_path::{clean_name, create_safe_save_path, limit_bytes, SavePathError};

#[test]
fn a_video_needs_a_name() {
    assert_eq!(create_safe_save_path("/work", ""), Err(SavePathError::EmptyName));
}

#[test]
fn a_plain_name_is_an_entry_of_the_work_directory() {
    let path = create_safe_save_path("work", "my video").unwrap();
    assert!(path == "work/my video" || path == "work\\my video");
    let path = create_safe_save_path("work/", "a").unwrap();
    assert_eq!(path, "work/a");
    let path = create_safe_save_path("", "a").unwrap();
    assert_eq!(path, "a");
}

#[test]
fn only_the_last_component_counts() {
    let path = create_safe_save_path("work", "../../etc/passwd").unwrap();
    assert!(path == "work/passwd" || path == "work\\passwd");
}

#[test]
fn a_colon_in_a_name_cuts_nothing_off() {
    for (name, entry) in [
        ("Mission: Part 2", "Mission_ Part 2"),
        ("Mission: Part 3", "Mission_ Part 3"),
        ("1: Intro", "1_ Intro"),
        ("season/e: one", "e_ one"),
        ("season/12:30", "12_30"),
        ("/:a", "_a"),
    ] {
        let path = create_safe_save_path("work", name).unwrap();
        assert!(
            path == format!("work/{entry}") || path == format!("work\\{entry}"),
            "{name}: {path}"
        );
    }
}

#[test]
fn a_backslash_or_a_drive_counts_where_the_platform_has_them() {
    for (name, whole, last) in [
        ("dir\\x", "dir_x", "x"),
        ("C:x", "C_x", "x"),
        ("C:\\dir\\x", "C__dir_x", "x"),
        ("a\\b\\", "a_b_", "b"),
        ("C:", "C_", "C_"),
    ] {
        let path = create_safe_save_path("work", name).unwrap();
        assert!(
            path == format!("work/{whole}") || path == format!("work\\{last}"),
            "{name}: {path}"
        );
    }
    for name in ["//server/share/x", "//x"] {
        let path = create_safe_save_path("work", name).unwrap();
        assert!(path == "work/x" || path == "work\\x", "{name}: {path}");
    }
}

#[test]
fn slashes_and_dots_at_the_end_do_not_count() {
    for name in ["a/b", "a/b/", "a/b//", "a/b/.", "/a/./b/./"] {
        let path = create_safe_save_path("work", name).unwrap();
        assert!(path == "work/b" || path == "work\\b", "{name}: {path}");
    }
}

#[test]
fn a_path_is_never_the_work_directory_or_its_parent() {
    for (name, entry) in [(".", "_"), ("..", "__"), ("./", "._"), ("../", ".._"), ("/", "_")] {
        let path = create_safe_save_path("work", name).unwrap();
        assert!(
            path == format!("work/{entry}") || path == format!("work\\{entry}"),
            "{name}: {path}"
        );
    }
    assert_eq!(create_safe_save_path("", "..").unwrap(), "__");
    assert_eq!(clean_name(Some(".".to_string()), "x").unwrap(), "_");
    assert_eq!(clean_name(Some("..".to_string()), "x").unwrap(), "__");
    assert_eq!(clean_name(Some("...".to_string()), "x").unwrap(), "...");
    assert_eq!(clean_name(Some(".a".to_string()), "x").unwrap(), ".a");
}

#[test]
fn an_entry_of_a_literal_directory_ends_with_the_name() {
    let path = create_safe_save_path("\\\\?\\C:\\work", "a").unwrap();
    assert!(path.ends_with("/a") || path.ends_with("\\a"));
}

#[test]
fn a_name_without_a_last_component_is_taken_whole() {
    let path = create_safe_save_path("work", "a/..").unwrap();
    assert!(path == "work/a_.." || path == "work\\a_..");
}

#[test]
fn illegal_characters_give_way() {
    let cleaned = clean_name(Some("<a>:\"b/c\\d|e?f*g".to_string()), "x").unwrap();
    assert_eq!(cleaned, "_a___b_c_d_e_f_g");
    assert_eq!(clean_name(None, "a:b").unwrap(), "a_b");
    assert_eq!(clean_name(Some("视频 [1] (2)".to_string()), "x").unwrap(), "视频 [1] (2)");
}

#[test]
fn a_clean_name_is_safe_and_stays_as_it_is() {
    let cleaned = clean_name(Some(format!("<{}>", "视".repeat(49))), "x").unwrap();
    assert!(cleaned.len() <= 150);
    assert!(!cleaned.contains(['<', '>', ':', '"', '/', '\\', '|', '?', '*']));
    assert_eq!(clean_name(Some(cleaned.clone()), &cleaned).unwrap(), cleaned);
}

#[test]
fn long_names_are_cut() {
    assert_eq!(clean_name(Some("a".repeat(150)), "x").unwrap(), "a".repeat(150));
    assert_eq!(clean_name(Some("a".repeat(151)), "x").unwrap(), "a".repeat(150));
    assert_eq!(clean_name(Some("视".repeat(60)), "x").unwrap(), "视".repeat(50));
}

#[test]
fn a_cut_never_splits_a_character() {
    let name = format!("a{}", "视".repeat(60));
    assert!(!name.is_char_boundary(150));
    assert_eq!(clean_name(Some(name.clone()), "x"), None);
    assert_eq!(create_safe_save_path("work", &name), Err(SavePathError::SplitCharacter));
}

#[test]
fn cuts_are_those_of_std() {
    let text = "aé视🎬b";
    for n in 0..=text.len() + 1 {
        let expected = if n >= text.len() {
            Some(text.to_string())
        } else {
            text.get(..n).map(|s| s.to_string())
        };
        assert_eq!(limit_bytes(text, n), expected, "{n}");
    }
}
