use std::path::Path;

use build_attest::calendar::civil_time;
use build_attest::command::quote_arg;
use build_attest::paths::{
    build_installable, join_path, looks_like_relative_path, normalize_flake_ref,
    resolve_example_path,
};
use build_attest::trust::check_trusted_key;

/// Every text of up to `length` characters over an alphabet.
fn texts(alphabet: &[char], length: usize) -> Vec<String> {
    let mut all = vec![String::new()];
    let mut last = vec![String::new()];
    for _ in 0..length {
        let mut next = Vec::new();
        for text in &last {
            for c in alphabet {
                let mut longer = text.clone();
                longer.push(*c);
                next.push(longer);
            }
        }
        all.extend(next.iter().cloned());
        last = next;
    }
    all
}

fn listed_by_lines(key: &str, contents: &str) -> bool {
    contents
        .lines()
        .map(str::trim)
        .any(|line| !line.is_empty() && !line.starts_with('#') && line == key)
}

#[test]
fn trusted_keys_are_found_as_by_lines_and_trim() {
    let lists = texts(&['a', 'b', '#', ' ', '\n', '\r', '\u{a0}'], 5);
    let keys = ["a", "b", "ab", "a b", "#a", "", " a", "a\r", "a\u{a0}b", "ba"];
    for list in &lists {
        for key in keys {
            assert_eq!(
                check_trusted_key(key, Some(list)),
                listed_by_lines(key, list),
                "key {:?} in list {:?}",
                key,
                list
            );
        }
    }
}

fn relative_by_std(input: &str) -> bool {
    if input.is_empty() {
        return false;
    }
    let drive = input.len() > 1
        && input.as_bytes()[1] == b':'
        && input.as_bytes()[0].is_ascii_alphabetic();
    drive
        || input.starts_with(['.', '/', '\\'])
        || (!input.contains(':')
            && (input.contains('/')
                || input.contains('\\')
                || input.contains(std::path::MAIN_SEPARATOR)))
}

#[test]
fn paths_are_told_as_by_the_standard_library() {
    for text in texts(&['a', 'Z', '1', ':', '.', '/', '\\', 'é', '#'], 4) {
        assert_eq!(looks_like_relative_path(&text), relative_by_std(&text), "{:?}", text);
    }
}

#[test]
fn paths_are_joined_as_by_the_standard_library() {
    let parts = texts(&['a', '.', '/', 'é'], 4);
    for base in &parts {
        for rest in &parts {
            let joined = Path::new(base).join(rest);
            assert_eq!(
                join_path(base, rest),
                joined.to_str().unwrap(),
                "{:?} and {:?}",
                base,
                rest
            );
        }
    }
}

fn example_by_std(root: &str, selector: &str) -> String {
    let candidate = Path::new(selector);
    let path = if candidate.is_absolute() {
        candidate.to_path_buf()
    } else if relative_by_std(selector) {
        Path::new(root).join(candidate)
    } else {
        Path::new(root).join("src/lang/rust/examples").join(selector)
    };
    path.to_str().unwrap().to_string()
}

fn flake_ref_by_std(root: &str, reference: &str) -> String {
    let (path_part, attr_part) = reference
        .split_once('#')
        .map_or((reference, None), |(path, attr)| (path, Some(attr)));
    if relative_by_std(path_part) {
        let mut result = format!("path:{}", Path::new(root).join(path_part).display());
        if let Some(attr) = attr_part {
            result.push('#');
            result.push_str(attr);
        }
        result
    } else {
        reference.to_string()
    }
}

fn installable_by_std(root: &str, attribute: Option<&str>) -> String {
    let mut installable = root.to_string();
    if let Some(attr) = attribute {
        installable.push('#');
        installable.push_str(attr.trim_start_matches('#'));
    }
    installable
}

#[test]
fn examples_and_references_are_resolved_as_by_the_standard_library() {
    for root in ["/repo", "/repo/", "/", "/a/b c"] {
        for text in texts(&['a', ':', '.', '/', '#'], 5) {
            assert_eq!(resolve_example_path(root, &text), example_by_std(root, &text));
            assert_eq!(normalize_flake_ref(root, &text), flake_ref_by_std(root, &text));
            assert_eq!(build_installable(root, Some(&text)), installable_by_std(root, Some(&text)));
        }
        assert_eq!(build_installable(root, None), installable_by_std(root, None));
    }
}

fn quoted_by_std(arg: &str) -> String {
    if arg.chars().any(|c| c.is_whitespace() || matches!(c, '\'' | '"')) {
        format!("'{}'", arg.replace('\'', "'\\''"))
    } else {
        arg.to_string()
    }
}

#[test]
fn arguments_are_quoted_as_by_the_standard_library() {
    for text in texts(&['a', ' ', '\'', '"', '\\', '\t', 'é'], 5) {
        assert_eq!(quote_arg(&text), quoted_by_std(&text), "{:?}", text);
    }
}

/// The date of a day counted from the first of January 1970, by the
/// arithmetic of eras of 400 years that begin in March.
fn date_by_eras(day: u64) -> (u64, u64, u64) {
    let z = day + 719_468;
    let era = z / 146_097;
    let day_of_era = z % 146_097;
    let year_of_era =
        (day_of_era - day_of_era / 1_460 + day_of_era / 36_524 - day_of_era / 146_096) / 365;
    let day_of_year = day_of_era - (365 * year_of_era + year_of_era / 4 - year_of_era / 100);
    let shifted_month = (5 * day_of_year + 2) / 153;
    let day_of_month = day_of_year - (153 * shifted_month + 2) / 5 + 1;
    let month = if shifted_month < 10 { shifted_month + 3 } else { shifted_month - 9 };
    let year = year_of_era + era * 400 + if month <= 2 { 1 } else { 0 };
    (year, month, day_of_month)
}

#[test]
fn dates_agree_with_the_arithmetic_of_eras() {
    let mut day: u64 = 0;
    while day < 4_000_000 {
        for second_of_day in [0u64, 86_399] {
            let t = civil_time(day * 86_400 + second_of_day);
            assert_eq!((t.year, t.month as u64, t.day as u64), date_by_eras(day), "day {}", day);
        }
        day += if day < 200_000 { 1 } else { 997 };
    }
    for day in [u64::MAX / 86_400, u64::MAX / 86_400 - 1, 1_000_000_000_000] {
        let t = civil_time(day * 86_400);
        assert_eq!((t.year, t.month as u64, t.day as u64), date_by_eras(day));
    }
}
