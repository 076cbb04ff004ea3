use std::path::{Path, PathBuf};

use cli_utils::error::CliError;
use cli_utils::paths::{
    append_file_extension, create_dir_if_not_exist, current_dir, dir_default_to_current,
    io_outcome, overwrite_question, parse_json_file, read_from_file, DirSource,
};

fn appended(file: &str, extension: &str) -> PathBuf {
    append_file_extension(Path::new(file), extension).unwrap()
}

#[test]
fn extensions_are_kept() {
    assert_eq!(appended("key.txt", "pub"), PathBuf::from("key.txt.pub"));
    assert_eq!(appended("dir.d/key.tar.gz", "pub"), PathBuf::from("dir.d/key.tar.gz.pub"));
    assert_eq!(appended("key.", "pub"), PathBuf::from("key..pub"));
    assert_eq!(appended("...", "pub"), PathBuf::from("....pub"));
}

#[test]
fn extensions_are_added() {
    assert_eq!(appended("key", "pub"), PathBuf::from("key.pub"));
    assert_eq!(appended("/a/key", "pub"), PathBuf::from("/a/key.pub"));
    assert_eq!(appended(".key", "pub"), PathBuf::from(".key.pub"));
    assert_eq!(appended("dir/key/", "pub"), PathBuf::from("dir/key.pub"));
    assert_eq!(appended("key", "tar.gz"), PathBuf::from("key.tar.gz"));
}

#[test]
fn paths_without_a_file_name() {
    for path in ["", "/", "..", "a/.."] {
        assert_eq!(appended(path, "pub"), PathBuf::from(path));
    }
}

#[test]
fn empty_extensions() {
    assert_eq!(appended("key", ""), PathBuf::from("key"));
    assert_eq!(appended("key.txt", ""), PathBuf::from("key.txt."));
}

#[test]
fn what_is_appended_is_the_extension() {
    let path = appended("dir/key.txt", "pub");
    assert_eq!(path.extension().unwrap(), "pub");
    assert_eq!(path.file_stem().unwrap(), "key.txt");
    assert_eq!(path.parent().unwrap(), Path::new("dir"));
}

#[test]
fn names_that_begin_with_two_dots() {
    assert_eq!(appended("..txt", "pub"), PathBuf::from("..txt.pub"));
    assert_eq!(appended("dir/..txt", "pub"), PathBuf::from("dir/..txt.pub"));
    assert_eq!(appended("..txt/", "pub"), PathBuf::from("..txt.pub"));
}

#[test]
fn directories_stay_as_they_are_written() {
    for (file, expected) in [
        ("a//key.txt", "a//key.txt.pub"),
        ("a/./key", "a/./key.pub"),
        ("./key", "./key.pub"),
        ("//key", "//key.pub"),
        ("a/../key", "a/../key.pub"),
        ("a/key//", "a/key.pub"),
        ("a/key/.", "a/key.pub"),
        ("a/key.txt/./", "a/key.txt.pub"),
    ] {
        assert_eq!(appended(file, "pub").to_str(), Some(expected));
    }
}

#[test]
fn extensions_are_set_as_std_sets_them() {
    for file in ["key", "key.txt", "a//b/key.tar.gz", ".key", "key.", "k.t/", "\u{e9}.\u{1f600}", "/", ""] {
        let path = Path::new(file);
        for extension in ["pub", "tar.gz", "", "\u{e9}"] {
            let expected = match path.extension() {
                Some(old) => path.with_extension(format!("{}.{}", old.to_str().unwrap(), extension)),
                None => path.with_extension(extension),
            };
            assert_eq!(appended(file, extension).to_str(), expected.to_str(), "{:?}", file);
        }
    }
}

#[test]
fn appending_twice() {
    for file in ["key", "key.txt", "a//key.", "..txt", "k/", "a/./.key"] {
        for (a, b) in [("x", "y"), ("tar", "gz"), ("a.b", "\u{e9}"), (".", ".")] {
            let first = append_file_extension(Path::new(file), a).unwrap();
            let second = append_file_extension(&first, b).unwrap();
            let once = append_file_extension(Path::new(file), &format!("{}.{}", a, b)).unwrap();
            assert_eq!(second.to_str(), once.to_str());
        }
    }
    assert_eq!(appended("key.txt", "tar.gz"), PathBuf::from("key.txt.tar.gz"));
}

#[test]
fn backslashes_where_they_part_nothing() {
    if !std::path::is_separator('\\') {
        assert_eq!(appended("key.a\\b", "pub"), PathBuf::from("key.a\\b.pub"));
        assert_eq!(appended("key", "a\\b").file_name().unwrap(), "key.a\\b");
    }
}

#[test]
fn question_about_a_file() {
    assert_eq!(
        overwrite_question(Path::new("a \"b\".txt")),
        "\"a \\\"b\\\".txt\" already exists, are you sure you want to overwrite it?",
    );
}

#[test]
fn directories() {
    let given = dir_default_to_current(Some(PathBuf::from("a")));
    assert!(matches!(given, DirSource::Given(dir) if dir == PathBuf::from("a")));
    assert!(matches!(dir_default_to_current(None), DirSource::Current));
    assert_eq!(current_dir(Ok(PathBuf::from("a"))).unwrap(), PathBuf::from("a"));
    let res = current_dir(Err("gone".to_string()));
    assert!(
        matches!(res, Err(CliError::UnexpectedError(message)) if message == "Failed to get current directory gone")
    );
}

#[test]
fn directories_to_create() {
    assert!(create_dir_if_not_exist(false, false));
    assert!(create_dir_if_not_exist(true, false));
    assert!(!create_dir_if_not_exist(true, true));
}

#[test]
fn files_that_are_read() {
    assert_eq!(read_from_file("a", Ok(vec![1, 2])).unwrap(), vec![1, 2]);
    let res = read_from_file("a", Err("denied".to_string()));
    assert!(
        matches!(res, Err(CliError::UnableToReadFile(path, message)) if path == "a" && message == "denied")
    );
    assert_eq!(parse_json_file("a", Ok(5u8)).unwrap(), 5);
    let res = parse_json_file::<u8>("a", Err("not JSON".to_string()));
    assert!(
        matches!(res, Err(CliError::UnableToReadFile(path, message)) if path == "a" && message == "not JSON")
    );
}

#[test]
fn input_and_output() {
    assert_eq!(io_outcome("a", Ok(5u8)).unwrap(), 5);
    let denied = std::io::Error::from(std::io::ErrorKind::PermissionDenied);
    let res = io_outcome::<u8>("a", Err(denied));
    assert!(
        matches!(res, Err(CliError::IO(name, err)) if name == "a" && err.kind() == std::io::ErrorKind::PermissionDenied)
    );
}
