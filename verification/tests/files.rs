//! The tools for files, and what they are called with.

use bxwrp::args::{
    AbsolutePath, EditArgs, FileContent, LineLimit, LineOffset, NewText, OldText, ReadArgs,
    ReplaceMode, Replacement, WriteArgs,
};
use bxwrp::lines::{aligned_text, lines, number_lines};
use bxwrp::matching::{count_occurrences, replace_occurrences};
use bxwrp::server::{kilobytes_text, EditStep, Server, Written, MAX_BYTES};
use bxwrp::text::{decimal_text, join, signed_decimal_text};

fn server() -> Server {
    Server {
        cwd: String::from("/work"),
    }
}

fn absolute(path: &str) -> AbsolutePath {
    match AbsolutePath::try_from(String::from(path)) {
        Ok(path) => path,
        Err(message) => panic!("{}", message),
    }
}

fn read_args(offset: Option<u64>, limit: Option<u64>) -> ReadArgs {
    ReadArgs {
        file_path: absolute("/work/notes.txt"),
        offset: match LineOffset::try_from(offset) {
            Ok(offset) => offset,
            Err(message) => panic!("{}", message),
        },
        limit: LineLimit::from(limit),
    }
}

fn read(text: &str, offset: Option<u64>, limit: Option<u64>) -> (String, bool) {
    let answer = server().read_reply(&read_args(offset, limit), Ok(String::from(text)));
    (answer.text, answer.is_error)
}

fn replacement(old: &str, new: &str, all: bool) -> Result<Replacement, String> {
    Replacement::try_from(EditArgs {
        file_path: absolute("/work/notes.txt"),
        old_string: OldText(String::from(old)),
        new_string: NewText(String::from(new)),
        replace_all: all,
    })
}

fn edit(text: &str, old: &str, new: &str, all: bool) -> Result<String, String> {
    let edit = replacement(old, new, all)?;
    let path = server().edit(&edit);
    match server().edit_text(&edit, path, Ok(String::from(text))) {
        EditStep::Write(request) => {
            assert_eq!(request.path, "/work/notes.txt");
            Ok(request.content)
        }
        EditStep::Reply(answer) => {
            assert!(answer.is_error);
            Err(answer.text)
        }
    }
}

#[test]
fn relative_paths_are_refused() {
    assert_eq!(absolute("/a/b").as_str(), "/a/b");
    assert_eq!(
        AbsolutePath::try_from(String::from("a\"b\n")).err(),
        Some(String::from(
            "file_path must be an absolute path, not relative: \"a\\\"b\\n\""
        ))
    );
    assert_eq!(
        AbsolutePath::try_from(String::new()).err(),
        Some(String::from(
            "file_path must be an absolute path, not relative: \"\""
        ))
    );
}

#[test]
fn offsets_count_from_one() {
    let none = LineOffset::try_from(None).ok().unwrap();
    assert!(none.is_start());
    assert_eq!(none.skip(), 0);
    assert!(LineOffset::default().is_start());
    let third = LineOffset::try_from(Some(3)).ok().unwrap();
    assert!(!third.is_start());
    assert_eq!(third.skip(), 2);
    assert_eq!(
        LineOffset::try_from(Some(0)).err(),
        Some(String::from("offset: line numbers start at 1"))
    );
}

#[test]
fn limits_default_to_the_rest() {
    assert_eq!(LineLimit::default().take(), usize::MAX);
    assert_eq!(LineLimit::from(None).take(), usize::MAX);
    assert_eq!(LineLimit::from(Some(7)).take(), 7);
    assert_eq!(LineLimit::from(Some(0)).take(), 0);
}

#[test]
fn paths_are_normalized() {
    let server = server();
    assert_eq!(server.resolve("/a/./b/../c//d/"), "/a/c/d");
    assert_eq!(server.resolve("/../.."), "/");
    assert_eq!(server.resolve("/"), "/");
    assert_eq!(server.resolve("notes/../x"), "/work/x");
    assert_eq!(server.resolve("../../x"), "/x");
    assert_eq!(server.resolve(""), "/work");
    assert_eq!(server.resolve("/..."), "/...");
    assert_eq!(server.resolve("/\u{e4}/.b"), "/\u{e4}/.b");
}

#[test]
fn normalizing_twice_is_normalizing_once() {
    let server = server();
    for path in ["/a/./b/../c", "/..", "//x//y/", "/a/../../b/."] {
        let once = server.resolve(path);
        assert_eq!(server.resolve(&once), once);
    }
}

#[test]
fn the_directory_does_not_matter_to_an_absolute_path() {
    let other = Server {
        cwd: String::from("/elsewhere"),
    };
    assert_eq!(server().resolve("/a/../b"), other.resolve("/a/../b"));
    assert_eq!(server().read(&read_args(None, None)), "/work/notes.txt");
}

#[test]
fn lines_are_those_of_the_standard_library() {
    for text in [
        "", "a", "a\n", "\n", "a\n\nb", "a\r\nb\r", "\r\n", "a\rb\n", "\r\r\n", "x\n\r\n\n",
    ] {
        let expected: Vec<String> = text.lines().map(String::from).collect();
        assert_eq!(lines(text), expected);
    }
}

#[test]
fn line_numbers_are_aligned() {
    for number in [0u128, 1, 42, 99_999, 100_000, 1_000_000, u128::MAX] {
        assert_eq!(aligned_text(number), format!("{:>6}", number));
    }
}

#[test]
fn numbers_are_written_in_decimal() {
    for number in [0u128, 7, 10, 909, u128::MAX] {
        assert_eq!(decimal_text(number), number.to_string());
    }
    for number in [0, -1, 17, i32::MIN, i32::MAX] {
        assert_eq!(signed_decimal_text(number), number.to_string());
    }
}

#[test]
fn parts_are_joined() {
    let parts = vec![String::from("a"), String::new(), String::from("b")];
    assert_eq!(join(&parts, "--"), "a----b");
    assert_eq!(join(&Vec::new(), "--"), "");
}

#[test]
fn occurrences_are_those_of_the_standard_library() {
    for text in ["", "a", "aaaa", "abcabc", "abab\u{e9}ab", "\u{1f600}a\u{1f600}"] {
        for pattern in ["", "a", "aa", "ab", "abc", "\u{e9}", "\u{1f600}", "zzzzzzzzzz"] {
            assert_eq!(
                count_occurrences(text, pattern),
                text.matches(pattern).count() as u128
            );
            for with in ["", "x", "aa", "\u{e9}\u{e9}"] {
                assert_eq!(
                    replace_occurrences(text, pattern, with),
                    text.replace(pattern, with)
                );
            }
        }
    }
}

#[test]
fn a_file_is_read_with_line_numbers() {
    assert_eq!(
        read("one\ntwo\nthree\n", None, None),
        (String::from("     1\tone\n     2\ttwo\n     3\tthree"), false)
    );
    assert_eq!(
        read("one\ntwo\nthree\n", Some(2), Some(1)),
        (String::from("     2\ttwo"), false)
    );
    assert_eq!(
        read("one\ntwo\nthree\n", Some(2), None),
        (String::from("     2\ttwo\n     3\tthree"), false)
    );
    assert_eq!(read("one", Some(5), None), (String::new(), false));
    assert_eq!(read("one", None, Some(0)), (String::new(), false));
    assert_eq!(
        read("one", Some(u64::MAX), Some(u64::MAX)),
        (String::new(), false)
    );
}

#[test]
fn ranges_that_follow_each_other_make_a_longer_one() {
    let text = "a\nb\nc\nd\ne";
    let (first, _) = read(text, Some(2), Some(2));
    let (second, _) = read(text, Some(4), Some(1));
    let (both, _) = read(text, Some(2), Some(3));
    assert_eq!(format!("{}\n{}", first, second), both);
    let (rest, _) = read(text, Some(4), None);
    let (all, _) = read(text, Some(2), None);
    assert_eq!(format!("{}\n{}", first, rest), all);
    let (start, _) = read(text, None, Some(1));
    let (whole_file, _) = read(text, None, None);
    assert_eq!(format!("{}\n{}", start, all), whole_file);
    let list = lines(text);
    let whole = number_lines(&list, 0, list.len());
    assert_eq!(number_lines(&list, 1, 3), whole[1..4].to_vec());
}

#[test]
fn the_lines_of_a_text_join_to_it() {
    for text in ["a\nb", "a", "", "a\n\nb", "a\rb\nc\r"] {
        assert_eq!(join(&lines(text), "\n"), text);
    }
    for text in ["a\nb\n", "\n", "a\n\n"] {
        assert_eq!(format!("{}\n", join(&lines(text), "\n")), text);
    }
    assert_eq!(join(&lines("a\r\nb"), "\n"), "a\nb");
}

#[test]
fn an_empty_file_is_reported() {
    assert_eq!(
        read("", None, None),
        (String::from("File exists but has empty contents."), true)
    );
}

#[test]
fn a_file_that_cannot_be_read_is_reported() {
    let answer = server().read_reply(&read_args(None, None), Err(String::from("no such file")));
    assert_eq!(answer.text, "no such file");
    assert!(answer.is_error);
}

#[test]
fn a_large_file_is_read_in_ranges_only() {
    let text = "x".repeat(MAX_BYTES + 1);
    assert_eq!(
        read(&text, None, None),
        (
            String::from(
                "File content (256.0KB) exceeds maximum allowed size (256KB). Use offset and \
                 limit parameters to read specific portions of the file, or search for specific \
                 content instead of reading the whole file."
            ),
            true
        )
    );
    let (_, refused) = read(&text, Some(1), Some(1));
    assert!(!refused);
    let (_, refused) = read(&text, Some(2), None);
    assert!(!refused);
    let (_, refused) = read(&"x".repeat(MAX_BYTES), None, None);
    assert!(!refused);
    let (_, refused) = read(&"\u{e9}".repeat(MAX_BYTES / 2 + 1), None, None);
    assert!(refused);
}

#[test]
fn sizes_are_written_as_floating_point_writes_them() {
    for size in 0..40_000usize {
        assert_eq!(
            kilobytes_text(size),
            format!("{:.1}", size as f64 / 1024.0)
        );
    }
    let mut size: usize = 1;
    while size < usize::MAX / 3 {
        for near in [size - 1, size, size + 1, size + size / 3, size + 256, size + 768] {
            assert_eq!(
                kilobytes_text(near),
                format!("{:.1}", near as f64 / 1024.0)
            );
        }
        size = size * 2;
    }
    for size in [usize::MAX, usize::MAX - 1024, usize::MAX / 2 + 1025] {
        assert_eq!(
            kilobytes_text(size),
            format!("{:.1}", size as f64 / 1024.0)
        );
    }
}

#[test]
fn writing_says_what_it_did() {
    let server = server();
    let request = server.write(WriteArgs {
        file_path: absolute("/work/./new.txt"),
        content: FileContent(String::from("text")),
    });
    assert_eq!(request.path, "/work/new.txt");
    assert_eq!(request.content, "text");
    let answer = server.write_reply(&request.path, Ok(Written::Created));
    assert_eq!(answer.text, "File created successfully at: /work/new.txt");
    assert!(!answer.is_error);
    let answer = server.write_reply(&request.path, Ok(Written::Updated));
    assert_eq!(
        answer.text,
        "The file /work/new.txt has been updated successfully."
    );
    assert!(!answer.is_error);
    let answer = server.write_reply(&request.path, Err(String::from("read-only")));
    assert_eq!(answer.text, "read-only");
    assert!(answer.is_error);
}

#[test]
fn an_edit_that_changes_nothing_is_refused() {
    assert_eq!(
        replacement("a", "a", true).err(),
        Some(String::from(
            "No changes to make: old_string and new_string are exactly the same."
        ))
    );
    let edit = replacement("a", "b", false).ok().unwrap();
    assert!(edit.mode() == ReplaceMode::Single);
    assert_eq!(edit.old_string(), "a");
    assert_eq!(edit.new_string(), "b");
    assert_eq!(edit.file_path().as_str(), "/work/notes.txt");
    assert!(replacement("a", "b", true).ok().unwrap().mode() == ReplaceMode::All);
}

#[test]
fn a_single_edit_needs_a_single_occurrence() {
    assert_eq!(
        edit("one two three", "two", "2", false),
        Ok(String::from("one 2 three"))
    );
    assert_eq!(
        edit("one two three", "four", "4", false),
        Err(String::from("String to replace not found in file."))
    );
    assert_eq!(
        edit("a b a b a", "a", "c", false),
        Err(String::from(
            "Found 3 matches of the string to replace, but replace_all is false. To replace all \
             occurrences, set replace_all to true. To replace only one occurrence, please provide \
             more context to uniquely identify the instance."
        ))
    );
    assert_eq!(edit("", "", "x", false), Ok(String::from("x")));
}

#[test]
fn a_full_edit_replaces_every_occurrence() {
    assert_eq!(edit("a b a", "a", "aa", true), Ok(String::from("aa b aa")));
    assert_eq!(edit("aaa", "aa", "b", true), Ok(String::from("ba")));
    assert_eq!(edit("ab", "", "-", true), Ok(String::from("-a-b-")));
    assert_eq!(
        edit("a b a", "c", "d", true),
        Err(String::from("String to replace not found in file."))
    );
    assert_eq!(
        edit("one two", "two", "2", true),
        edit("one two", "two", "2", false)
    );
}

#[test]
fn an_edit_reports_how_it_went() {
    let edit = replacement("a", "b", false).ok().unwrap();
    let path = server().edit(&edit);
    match server().edit_text(&edit, path, Err(String::from("no such file"))) {
        EditStep::Reply(answer) => {
            assert_eq!(answer.text, "no such file");
            assert!(answer.is_error);
        }
        EditStep::Write(_) => panic!("nothing was read"),
    }
    for written in [Written::Created, Written::Updated] {
        let answer = server().edit_reply("/work/notes.txt", Ok(written));
        assert_eq!(
            answer.text,
            "The file /work/notes.txt has been updated successfully."
        );
        assert!(!answer.is_error);
    }
    let answer = server().edit_reply("/work/notes.txt", Err(String::from("full")));
    assert_eq!(answer.text, "full");
    assert!(answer.is_error);
}
