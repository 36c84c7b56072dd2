use build_attest::command::{format_command, quote_arg};
use build_attest::paths::{
    build_installable, join_path, looks_like_relative_path, normalize_flake_ref,
    resolve_example_path,
};
use build_attest::text::is_space;
use build_attest::trust::check_trusted_key;

const KEY: &str = "d75a980182b10ab7d54bfed3c964073a0ee172f3daa62325af021a68f707511a";

#[test]
fn no_list_trusts_every_key() {
    assert!(check_trusted_key(KEY, None));
    assert!(check_trusted_key("", None));
    assert!(check_trusted_key("anything", None));
}

#[test]
fn key_is_found_on_a_line_of_its_own() {
    assert!(check_trusted_key(KEY, Some(KEY)));
    assert!(check_trusted_key(KEY, Some(&format!("{}\n", KEY))));
    assert!(check_trusted_key(KEY, Some(&format!("aa\n{}\nbb\n", KEY))));
    assert!(check_trusted_key(KEY, Some(&format!("aa\nbb\n{}", KEY))));
    assert!(check_trusted_key("bb", Some("aa\nbb\ncc")));
    assert!(check_trusted_key("aa", Some("aa\nbb\ncc")));
    assert!(check_trusted_key("cc", Some("aa\nbb\ncc")));
}

#[test]
fn key_is_not_found_where_it_is_not() {
    assert!(!check_trusted_key(KEY, Some("")));
    assert!(!check_trusted_key(KEY, Some("\n\n")));
    assert!(!check_trusted_key(KEY, Some(&KEY[1..])));
    assert!(!check_trusted_key(KEY, Some(&format!("{}0", KEY))));
    assert!(!check_trusted_key(KEY, Some(&format!("{} {}", KEY, KEY))));
    assert!(!check_trusted_key(KEY, Some(&KEY.to_uppercase())));
    assert!(!check_trusted_key("ab", Some("a\nb")));
    assert!(!check_trusted_key("a\nb", Some("a\nb")));
}

#[test]
fn white_space_around_a_key_is_ignored() {
    assert!(check_trusted_key(KEY, Some(&format!("  {}  \n", KEY))));
    assert!(check_trusted_key(KEY, Some(&format!("\t{}\r\n", KEY))));
    assert!(check_trusted_key(KEY, Some(&format!("other\r\n{}\r\n", KEY))));
    assert!(check_trusted_key(KEY, Some(&format!("\u{a0}{}\u{3000}\u{2003}", KEY))));
    assert!(check_trusted_key("a b", Some("  a b  ")));
    assert!(!check_trusted_key("a b", Some("a  b")));
    // white space in the key that is asked for is not trimmed
    assert!(!check_trusted_key(" ab", Some(" ab")));
    assert!(!check_trusted_key("ab ", Some("ab ")));
}

#[test]
fn comments_and_empty_lines_name_no_key() {
    let list = format!("# trusted keys\n\n   \n#{}\n  # {}\n", KEY, KEY);
    assert!(!check_trusted_key(KEY, Some(&list)));
    assert!(!check_trusted_key("", Some(&list)));
    assert!(!check_trusted_key("", Some("")));
    assert!(!check_trusted_key("", Some("\n")));
    assert!(!check_trusted_key("# trusted keys", Some(&list)));
    assert!(!check_trusted_key("#abc", Some("#abc")));
    assert!(check_trusted_key("abc#def", Some("abc#def")));
    assert!(check_trusted_key(KEY, Some(&format!("{}{}", list, KEY))));
}

#[test]
fn white_space_is_that_of_unicode() {
    for c in ['\t', '\n', '\u{b}', '\u{c}', '\r', ' ', '\u{85}', '\u{a0}', '\u{1680}', '\u{2000}',
        '\u{200a}', '\u{2028}', '\u{2029}', '\u{202f}', '\u{205f}', '\u{3000}']
    {
        assert!(is_space(c));
    }
    for c in ['a', '0', '#', '\u{8}', '\u{e}', '\u{1f}', '\u{200b}', '\u{feff}', '\u{180e}'] {
        assert!(!is_space(c));
    }
    for n in 0u32..0x11_0000 {
        if let Some(c) = char::from_u32(n) {
            assert_eq!(is_space(c), c.is_whitespace());
        }
    }
}

#[test]
fn what_reads_as_a_path() {
    assert!(!looks_like_relative_path(""));
    assert!(!looks_like_relative_path("hello"));
    assert!(!looks_like_relative_path("hello-world_1"));
    assert!(looks_like_relative_path("."));
    assert!(looks_like_relative_path("./x"));
    assert!(looks_like_relative_path("../x"));
    assert!(looks_like_relative_path(".hidden"));
    assert!(looks_like_relative_path("/abs"));
    assert!(looks_like_relative_path("\\share"));
    assert!(looks_like_relative_path("a/b"));
    assert!(looks_like_relative_path("a\\b"));
    assert!(looks_like_relative_path("C:"));
    assert!(looks_like_relative_path("c:\\x"));
    assert!(looks_like_relative_path("z:relative"));
}

#[test]
fn what_reads_as_a_reference_with_a_scheme() {
    assert!(!looks_like_relative_path("github:owner/repo"));
    assert!(!looks_like_relative_path("path:/x/y"));
    assert!(!looks_like_relative_path("1:/x"));
    assert!(!looks_like_relative_path(":"));
    assert!(!looks_like_relative_path("é:/x"));
    assert!(!looks_like_relative_path("ab:cd"));
    assert!(!looks_like_relative_path("nixpkgs"));
}

#[test]
fn paths_are_joined_with_one_separator() {
    assert_eq!(join_path("/repo", "x"), "/repo/x");
    assert_eq!(join_path("/repo/", "x"), "/repo/x");
    assert_eq!(join_path("/repo", "/x"), "/x");
    assert_eq!(join_path("", "x"), "x");
    assert_eq!(join_path("/", "x"), "/x");
    assert_eq!(join_path("/repo", ""), "/repo/");
    assert_eq!(join_path("/repo", "a/b/"), "/repo/a/b/");
    assert_eq!(join_path("rel", "../x"), "rel/../x");
}

#[test]
fn examples_are_found_by_name_or_by_path() {
    assert_eq!(resolve_example_path("/repo", "hello"), "/repo/src/lang/rust/examples/hello");
    assert_eq!(resolve_example_path("/repo/", "hello"), "/repo/src/lang/rust/examples/hello");
    assert_eq!(resolve_example_path("/repo", "./mine"), "/repo/./mine");
    assert_eq!(resolve_example_path("/repo", "sub/dir"), "/repo/sub/dir");
    assert_eq!(resolve_example_path("/repo", "/elsewhere/x"), "/elsewhere/x");
    assert_eq!(resolve_example_path("/repo", ""), "/repo/src/lang/rust/examples/");
    assert_eq!(
        resolve_example_path("/repo", "github:o/r"),
        "/repo/src/lang/rust/examples/github:o/r"
    );
}

#[test]
fn installable_names_the_flake_and_the_attribute() {
    assert_eq!(build_installable("/repo", None), "/repo");
    assert_eq!(build_installable("/repo", Some("ci")), "/repo#ci");
    assert_eq!(build_installable("/repo", Some("#ci")), "/repo#ci");
    assert_eq!(build_installable("/repo", Some("###ci")), "/repo#ci");
    assert_eq!(build_installable("/repo", Some("a#b")), "/repo#a#b");
    assert_eq!(build_installable("/repo", Some("")), "/repo#");
    assert_eq!(build_installable("/repo", Some("#")), "/repo#");
    assert_eq!(build_installable("", Some("x")), "#x");
}

#[test]
fn flake_references_to_paths_are_made_absolute() {
    assert_eq!(
        normalize_flake_ref("/repo", "src/lang/rust/test#nixpkgs"),
        "path:/repo/src/lang/rust/test#nixpkgs"
    );
    assert_eq!(normalize_flake_ref("/repo", "./x"), "path:/repo/./x");
    assert_eq!(normalize_flake_ref("/repo", "./x#"), "path:/repo/./x#");
    assert_eq!(normalize_flake_ref("/repo", "./x#a#b"), "path:/repo/./x#a#b");
    assert_eq!(normalize_flake_ref("/repo", "/abs#pkgs"), "path:/abs#pkgs");
    assert_eq!(normalize_flake_ref("/repo/", "a/b"), "path:/repo/a/b");
}

#[test]
fn other_flake_references_stay_as_they_are() {
    assert_eq!(normalize_flake_ref("/repo", "nixpkgs"), "nixpkgs");
    assert_eq!(normalize_flake_ref("/repo", "github:NixOS/nixpkgs"), "github:NixOS/nixpkgs");
    assert_eq!(
        normalize_flake_ref("/repo", "github:NixOS/nixpkgs#hello"),
        "github:NixOS/nixpkgs#hello"
    );
    assert_eq!(normalize_flake_ref("/repo", "nixpkgs#./x"), "nixpkgs#./x");
    assert_eq!(normalize_flake_ref("/repo", ""), "");
    assert_eq!(normalize_flake_ref("/repo", "#attr"), "#attr");
}

#[test]
fn arguments_are_quoted_where_the_shell_would_split_them() {
    assert_eq!(quote_arg("plain"), "plain");
    assert_eq!(quote_arg(""), "");
    assert_eq!(quote_arg("--flag=value"), "--flag=value");
    assert_eq!(quote_arg("two words"), "'two words'");
    assert_eq!(quote_arg("tab\there"), "'tab\there'");
    assert_eq!(quote_arg("say \"hi\""), "'say \"hi\"'");
    assert_eq!(quote_arg("it's"), "'it'\\''s'");
    assert_eq!(quote_arg("'"), "''\\'''");
    assert_eq!(quote_arg("a\u{a0}b"), "'a\u{a0}b'");
    assert_eq!(quote_arg("back\\slash"), "back\\slash");
}

#[test]
fn commands_are_shown_on_one_line() {
    assert_eq!(format_command("nix", &vec![]), "nix");
    assert_eq!(
        format_command("nix", &vec!["build".to_string(), "/repo#ci".to_string()]),
        "nix build /repo#ci"
    );
    assert_eq!(
        format_command(
            "nix",
            &vec!["develop".to_string(), "--command".to_string(), "echo it's me".to_string()]
        ),
        "nix develop --command 'echo it'\\''s me'"
    );
    // the program is shown as it is
    assert_eq!(format_command("my nix", &vec!["".to_string()]), "my nix ");
}
