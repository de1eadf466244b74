use rclamp::paths::PathStyle;
use rclamp::helpers::{
    reveal_program, sanitize_char, sanitize_lowered, sanitize_string, OpenRequest, DCC_FILE_NAME,
    EXPLORER, FINDER, OUTPUT_DIR_NAME, PROJECT_FILE_NAME, TASK_FILE_NAME,
};
use rclamp::paths::{directory_of, file_name_of, join, sibling_of};
use rclamp::text::{
    char_of_digit, chars_of, contains_text, digit_of, list_contains, rank_list, rank_text,
    string_of, Rank,
};

const POSIX: PathStyle = PathStyle::Posix;

#[test]
fn test_sanitizer() {
    assert_eq!(
        sanitize_string(String::from("ABC/?<-ÅÄÖ_xyz_1234-åäö%^<??<>//")),
        String::from("abc_aao_xyz_1234_aao")
    );
}

#[test]
fn sanitize_string_lowers_before_it_filters() {
    assert_eq!(sanitize_string(String::from("ABC")), "abc");
    assert_eq!(sanitize_string(String::from("Shot 010")), "shot010");
    assert_eq!(sanitize_string(String::from("Ö")), "o");
}

#[test]
fn sanitize_lowered_keeps_upper_case_as_it_is() {
    assert_eq!(sanitize_lowered("aBc-d_e"), "aBc_d_e");
    assert_eq!(sanitize_lowered("å ä ö"), "aao");
    assert_eq!(sanitize_lowered("ÅÄÖ"), "");
}

#[test]
fn sanitized_name_is_empty_only_without_a_mappable_character() {
    assert_eq!(sanitize_string(String::new()), "");
    assert_eq!(sanitize_string(String::from("?!/ %")), "");
    assert_ne!(sanitize_string(String::from("?!a")), "");
    assert_ne!(sanitize_string(String::from("-")), "");
}

#[test]
fn sanitizing_twice_changes_nothing() {
    let once = sanitize_string(String::from("My Project - Ünïted/2024"));
    assert_eq!(sanitize_string(once.clone()), once);
    assert!(once.chars().all(|c| c.is_ascii_alphanumeric() || c == '_'));
}

#[test]
fn sanitize_char_follows_the_table() {
    assert_eq!(sanitize_char('a'), Some('a'));
    assert_eq!(sanitize_char('Z'), Some('Z'));
    assert_eq!(sanitize_char('7'), Some('7'));
    assert_eq!(sanitize_char('_'), Some('_'));
    assert_eq!(sanitize_char('-'), Some('_'));
    assert_eq!(sanitize_char('å'), Some('a'));
    assert_eq!(sanitize_char('ä'), Some('a'));
    assert_eq!(sanitize_char('ö'), Some('o'));
    assert_eq!(sanitize_char('é'), None);
    assert_eq!(sanitize_char(' '), None);
    assert_eq!(sanitize_char('/'), None);
}

#[test]
fn constants_name_the_files_of_the_convention() {
    assert_eq!(PROJECT_FILE_NAME, "project.yaml");
    assert_eq!(TASK_FILE_NAME, "task.yaml");
    assert_eq!(DCC_FILE_NAME, "app.yaml");
    assert_eq!(OUTPUT_DIR_NAME, "02_output");
    assert_eq!(EXPLORER, "explorer");
    assert_eq!(FINDER, "finder");
}

#[test]
fn reveal_program_depends_on_the_system() {
    assert_eq!(reveal_program(PathStyle::Windows), "explorer");
    assert_eq!(reveal_program(PathStyle::Posix), "finder");
    let r = OpenRequest::in_file_browser(String::from("/a/b"), PathStyle::Posix);
    assert_eq!(r.path, "/a/b");
    assert_eq!(r.program, "finder");
}

#[test]
fn join_puts_one_separator_between() {
    assert_eq!(join("/projects", "demo", POSIX), "/projects/demo");
    assert_eq!(join("/projects/", "demo", POSIX), "/projects/demo");
    assert_eq!(join("", "demo", POSIX), "demo");
    assert_eq!(join("a", "", POSIX), "a/");
    assert_eq!(join("", "", POSIX), "");
}

#[test]
fn join_lets_a_rooted_part_stand_alone() {
    assert_eq!(join("/projects", "/other", POSIX), "/other");
    assert_eq!(join("", "/", POSIX), "/");
}

#[test]
fn file_name_is_what_follows_the_last_separator() {
    assert_eq!(file_name_of("/a/b/c.txt", POSIX), "c.txt");
    assert_eq!(file_name_of("c.txt", POSIX), "c.txt");
    assert_eq!(file_name_of("/a/b/", POSIX), "");
    assert_eq!(file_name_of("", POSIX), "");
}

#[test]
fn directory_is_what_precedes_the_last_separator() {
    assert_eq!(directory_of("/a/b/c.txt", POSIX), "/a/b");
    assert_eq!(directory_of("/c.txt", POSIX), "/");
    assert_eq!(directory_of("c.txt", POSIX), "");
    assert_eq!(directory_of("", POSIX), "");
}

#[test]
fn sibling_replaces_the_final_component() {
    assert_eq!(sibling_of("/a/b/c.txt", "d.txt", POSIX), "/a/b/d.txt");
    assert_eq!(sibling_of("c.txt", "d.txt", POSIX), "d.txt");
    assert_eq!(sibling_of("/c.txt", "d.txt", POSIX), "/d.txt");
    assert_eq!(file_name_of(&sibling_of("/x/y", "z", POSIX), POSIX), "z");
    assert_eq!(directory_of(&sibling_of("/x/y", "z", POSIX), POSIX), directory_of("/x/y", POSIX));
}

#[test]
fn chars_and_strings_convert_both_ways() {
    let v = chars_of("åb/c");
    assert_eq!(v, vec!['å', 'b', '/', 'c']);
    assert_eq!(string_of(&v), "åb/c");
    assert_eq!(chars_of(""), Vec::<char>::new());
}

#[test]
fn rank_text_is_lexicographic() {
    assert_eq!(rank_text("a", "b"), Rank::Before);
    assert_eq!(rank_text("b", "a"), Rank::After);
    assert_eq!(rank_text("abc", "abc"), Rank::Same);
    assert_eq!(rank_text("ab", "abc"), Rank::Before);
    assert_eq!(rank_text("abc", "ab"), Rank::After);
    assert_eq!(rank_text("", ""), Rank::Same);
    assert_eq!(rank_text("", "a"), Rank::Before);
    assert_eq!(rank_text("Z", "a"), Rank::Before);
}

#[test]
fn rank_text_agrees_with_the_order_of_strings() {
    let words = ["", "a", "ab", "b", "B", "shot010", "shot02", "å", "z"];
    for x in words {
        for y in words {
            let expected = if x < y {
                Rank::Before
            } else if x == y {
                Rank::Same
            } else {
                Rank::After
            };
            assert_eq!(rank_text(x, y), expected);
        }
    }
}

#[test]
fn rank_list_compares_element_by_element() {
    let a = vec![String::from("a"), String::from("b")];
    let b = vec![String::from("a"), String::from("c")];
    let c = vec![String::from("a")];
    assert_eq!(rank_list(&a, &b), Rank::Before);
    assert_eq!(rank_list(&b, &a), Rank::After);
    assert_eq!(rank_list(&c, &a), Rank::Before);
    assert_eq!(rank_list(&a, &a), Rank::Same);
}

#[test]
fn contains_text_finds_runs() {
    assert!(contains_text("shot010_comp", "010"));
    assert!(contains_text("shot010_comp", ""));
    assert!(contains_text("", ""));
    assert!(contains_text("abc", "abc"));
    assert!(contains_text("abc", "c"));
    assert!(!contains_text("abc", "abcd"));
    assert!(!contains_text("abc", "ac"));
    assert!(!contains_text("", "a"));
}

#[test]
fn list_contains_looks_for_the_whole_text() {
    let list = vec![String::from("tmp"), String::from("bak")];
    assert!(list_contains(&list, "bak"));
    assert!(!list_contains(&list, "ba"));
    assert!(!list_contains(&Vec::new(), ""));
}

#[test]
fn digits_convert_both_ways() {
    for d in 0..10u32 {
        let c = char_of_digit(d);
        assert_eq!(c, char::from_digit(d, 10).unwrap());
        assert_eq!(digit_of(c), Some(d));
    }
    assert_eq!(digit_of('a'), None);
    assert_eq!(digit_of('/'), None);
    assert_eq!(digit_of(':'), None);
}

#[test]
fn separators_depend_on_the_system() {
    assert!(POSIX.is_separator('/'));
    assert!(!POSIX.is_separator('\\'));
    assert!(PathStyle::Windows.is_separator('/'));
    assert!(PathStyle::Windows.is_separator('\\'));
    assert!(!PathStyle::Windows.is_separator(':'));
    assert_eq!(POSIX.main_separator(), '/');
    assert_eq!(PathStyle::Windows.main_separator(), '\\');
}

#[test]
fn windows_paths_are_read_by_both_separators() {
    let w = PathStyle::Windows;
    assert_eq!(file_name_of("C:\\a\\b\\c.txt", w), "c.txt");
    assert_eq!(file_name_of("C:\\a/b", w), "b");
    assert_eq!(file_name_of("C:/a\\b", w), "b");
    assert_eq!(directory_of("C:\\a\\b\\c.txt", w), "C:\\a\\b");
    assert_eq!(directory_of("\\c.txt", w), "\\");
    assert_eq!(sibling_of("C:\\a\\b\\c.txt", "d.txt", w), "C:\\a\\b\\d.txt");
    assert_eq!(join("C:\\a", "b", w), "C:\\a\\b");
    assert_eq!(join("C:\\a\\", "b", w), "C:\\a\\b");
    assert_eq!(join("C:/a/", "b", w), "C:/a/b");
    assert_eq!(join("C:\\a", "\\b", w), "\\b");
    assert_eq!(join("", "b", w), "b");
}

#[test]
fn a_backslash_is_part_of_a_name_elsewhere() {
    assert_eq!(file_name_of("/a/b\\c.txt", POSIX), "b\\c.txt");
    assert_eq!(file_name_of("C:\\a\\b", POSIX), "C:\\a\\b");
    assert_eq!(join("a\\", "b", POSIX), "a\\/b");
    assert_eq!(directory_of("a\\b", POSIX), "");
}
