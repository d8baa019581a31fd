use ubi::error::UbiError;
use ubi::path::{entry_name, extension, file_name_bytes, file_name_text, member_name};
use ubi::project::{
    download_url, exe_name, install_path, parse_project_name, release_request,
};
use ubi::text::{chars_of, contains, ends_with, join, same_text, split};

#[test]
fn split_gives_one_piece_more_than_separators() {
    assert_eq!(split("", '/'), vec![""]);
    assert_eq!(split("a", '/'), vec!["a"]);
    assert_eq!(split("a/b//c/", '/'), vec!["a", "b", "", "c", ""]);
    assert_eq!(split("é/ü", '/'), vec!["é", "ü"]);
}

#[test]
fn joining_the_pieces_restores_the_text() {
    let text = "https://github.com/houseabsolute/precious/";
    let parts: Vec<String> = split(text, '/').iter().map(|p| p.to_string()).collect();
    assert_eq!(join(&parts, "/"), text);
    assert_eq!(join(&Vec::new(), ", "), "");
    assert_eq!(join(&vec!["a".to_string(), "b".to_string(), "c".to_string()], ", "), "a, b, c");
}

#[test]
fn suffixes_and_infixes() {
    assert!(ends_with("a.tar.gz", ".gz"));
    assert!(ends_with(".gz", ".gz"));
    assert!(ends_with("x", ""));
    assert!(!ends_with("gz", ".gz"));
    assert!(!ends_with("a.gz.", ".gz"));
    assert!(contains("x86_64", "64"));
    assert!(contains("64", "64"));
    assert!(contains("", ""));
    assert!(!contains("6 4", "64"));
    assert!(!contains("6", "64"));
    assert!(same_text("é", "é"));
    assert!(!same_text("a", "A"));
    assert_eq!(chars_of("aé"), vec!['a', 'é']);
}

#[test]
fn name_and_url_mean_the_same_project() {
    let name = "houseabsolute/precious";
    assert_eq!(parse_project_name(Some(name)), Ok(name.to_string()));
    assert_eq!(
        parse_project_name(Some("https://github.com/houseabsolute/precious")),
        Ok(name.to_string())
    );
    assert_eq!(parse_project_name(Some("github.com/houseabsolute/precious")), Ok(name.to_string()));
}

#[test]
fn parsing_a_parsed_name_changes_nothing() {
    for text in ["https://github.com/houseabsolute/precious", "a/b/", "/", "//x"] {
        let name = parse_project_name(Some(text)).unwrap();
        assert_eq!(parse_project_name(Some(name.as_str())), Ok(name.clone()));
        assert_eq!(split(&name, '/').len(), 2);
    }
    assert_eq!(parse_project_name(Some("a/b/")), Ok("b/".to_string()));
}

#[test]
fn a_project_needs_a_slash() {
    let fault = parse_project_name(Some("precious")).unwrap_err();
    assert_eq!(fault, UbiError::ProjectName("precious".to_string()));
    assert_eq!(fault.message(), "could not parse project name from precious");
    assert_eq!(parse_project_name(Some("")), Err(UbiError::ProjectName(String::new())));
}

#[test]
fn executable_is_named_like_the_project() {
    assert_eq!(exe_name(None, "houseabsolute/precious", false), "precious");
    assert_eq!(exe_name(None, "houseabsolute/precious", true), "precious.exe");
    assert_eq!(exe_name(None, "houseabsolute/precious.exe", true), "precious.exe");
    assert_eq!(exe_name(None, "houseabsolute/precious.exe", false), "precious.exe");
}

#[test]
fn executable_that_was_given_gets_its_suffix_on_windows() {
    assert_eq!(exe_name(Some("rg"), "BurntSushi/ripgrep", false), "rg");
    assert_eq!(exe_name(Some("rg"), "BurntSushi/ripgrep", true), "rg.exe");
    assert_eq!(exe_name(Some("rg.exe"), "BurntSushi/ripgrep", true), "rg.exe");
    assert_eq!(exe_name(Some("rg.exe"), "BurntSushi/ripgrep", false), "rg.exe");
}

#[test]
fn naming_the_executable_twice_changes_nothing() {
    for windows in [false, true] {
        let first = exe_name(None, "houseabsolute/precious", windows);
        assert_eq!(exe_name(Some(first.as_str()), "houseabsolute/precious", windows), first);
    }
}

#[test]
fn install_path_defaults_to_bin() {
    let path = install_path(None, "precious");
    assert!(path.in_current_dir);
    assert_eq!((path.dir.as_str(), path.exe.as_str()), ("bin", "precious"));
    let path = install_path(Some("/usr/local/bin"), "precious");
    assert!(!path.in_current_dir);
    assert_eq!((path.dir.as_str(), path.exe.as_str()), ("/usr/local/bin", "precious"));
}

#[test]
fn latest_release_is_asked_for_without_a_tag() {
    let request = release_request(None, "houseabsolute/precious");
    assert_eq!((request.owner.as_str(), request.repo.as_str()), ("houseabsolute", "precious"));
    assert_eq!(request.tag, None);
    let request = release_request(Some("v0.0.5"), "houseabsolute/precious");
    assert_eq!(request.tag, Some("v0.0.5".to_string()));
}

#[test]
fn url_of_an_asset() {
    assert_eq!(
        download_url("houseabsolute/precious", "v0.0.5", "precious-Linux-x86_64.tar.gz"),
        "https://github.com/houseabsolute/precious/releases/download/v0.0.5/precious-Linux-x86_64.tar.gz"
    );
}

#[test]
fn file_names_are_those_of_the_standard_library() {
    let paths = [
        "", "/", "//", ".", "..", "./", "../", "a", "a/", "a//", "a/.", "a/./", "a/..", "a/../b",
        "/a", "./a", "a/b", "a//b", "a/b/.", "...", "a/...", ".a", "a.", "é/ü", "a/ ", "./..", "././.",
    ];
    for path in paths {
        let expected = std::path::Path::new(path).file_name().map(|n| n.to_str().unwrap());
        assert_eq!(file_name_text(path), expected, "{:?}", path);
        assert_eq!(file_name_bytes(path.as_bytes()), expected.map(|n| n.as_bytes()), "{:?}", path);
        assert_eq!(member_name(path, false).as_deref(), expected, "{:?}", path);
        assert_eq!(member_name(path, true).as_deref(), expected, "{:?}", path);
    }
}

#[test]
fn backslash_separates_on_windows() {
    let paths = [
        ("a\\b", Some("b")),
        ("a\\b/c", Some("c")),
        ("a/b\\", Some("b")),
        ("\\a", Some("a")),
        ("a\\..", None),
        ("a\\.", Some("a")),
        ("\\", None),
        (".\\", None),
        ("d\u{fc}r\\precious.exe", Some("precious.exe")),
    ];
    for (path, expected) in paths {
        assert_eq!(member_name(path, true).as_deref(), expected, "{:?}", path);
        assert_eq!(entry_name(path.as_bytes(), true), Ok(expected.map(String::from)), "{:?}", path);
    }
    assert_eq!(member_name("a\\b", false).as_deref(), Some("a\\b"));
}

#[test]
fn file_name_behind_a_prefix_is_a_part_of_the_path() {
    for path in ["c:/dir/precious", "//server/share/precious", "\\\\?\\c:\\dir/precious"] {
        assert_eq!(member_name(path, true).as_deref(), Some("precious"), "{:?}", path);
    }
    assert_eq!(member_name("c:/", false).as_deref(), Some("c:"));
}

#[test]
fn entries_that_are_not_unicode() {
    assert_eq!(entry_name(b"dir/precious", false), Ok(Some("precious".to_string())));
    assert_eq!(entry_name(b"dir/precious", true), Ok(Some("precious".to_string())));
    assert_eq!(entry_name(b"d\xffr/precious", false), Ok(Some("precious".to_string())));
    assert_eq!(entry_name(b"dir/pr\xffcious", false), Ok(None));
    assert_eq!(entry_name(b"d\xffr/..", false), Ok(None));
    let fault = entry_name(b"d\xffr/precious", true).unwrap_err();
    assert_eq!(fault, UbiError::NonUnicodePath("d\u{fffd}r/precious".to_string()));
    assert_eq!(
        fault.message(),
        "only Unicode paths are supported on Windows: d\u{fffd}r/precious"
    );
}

#[test]
fn extensions_are_those_of_the_standard_library() {
    for name in ["a", "a.gz", "a.tar.gz", ".tgz", ".tar.gz", "a.", "..gz", "...", ".a.b", "a..", "é.ü"] {
        let expected = std::path::Path::new(name).extension().map(|e| e.to_str().unwrap());
        assert_eq!(extension(name), expected, "{:?}", name);
    }
    assert_eq!(extension(".."), None);
    assert_eq!(extension(""), None);
}
