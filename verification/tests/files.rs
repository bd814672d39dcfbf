use fence::config::{config_or_empty, Config};
use fence::lines::{lines_range, lines_range_from_end, RangeError};

fn file() -> Vec<String> {
    vec!["a", "b", "c", "d", "e", "f"]
        .into_iter()
        .map(str::to_string)
        .collect()
}

#[test]
fn lines_range_selects_middle() {
    let sel = lines_range(&file(), 2, 4).unwrap();
    assert_eq!(sel, vec!["b", "c", "d"]);
}

#[test]
fn lines_range_zero_start_behaves_like_one() {
    let sel = lines_range(&file(), 0, 2).unwrap();
    assert_eq!(sel, vec!["a", "b"]);
}

#[test]
fn lines_range_clamps_to_file() {
    let sel = lines_range(&file(), 5, 100).unwrap();
    assert_eq!(sel, vec!["e", "f"]);
    let sel = lines_range(&file(), 10, 20).unwrap();
    assert!(sel.is_empty());
}

#[test]
fn lines_range_rejects_reversed_range() {
    let err = lines_range(&file(), 5, 2).unwrap_err();
    assert!(matches!(err, RangeError::StartAfterEnd));
    assert_eq!(
        err.message(),
        "Start line 'a' must be less than or equal to end line 'b'"
    );
}

#[test]
fn lines_from_end_selects_nearest_last_first() {
    let lines: Vec<String> = vec!["1", "2", "3", "4", "5"]
        .into_iter()
        .map(str::to_string)
        .collect();
    let sel = lines_range_from_end(&lines, 2, 4).unwrap();
    assert_eq!(sel, vec!["4", "3", "2"]);
}

#[test]
fn lines_from_end_last_line_alone() {
    let lines: Vec<String> = vec!["x", "y"].into_iter().map(str::to_string).collect();
    let sel = lines_range_from_end(&lines, 1, 1).unwrap();
    assert_eq!(sel, vec!["y"]);
}

#[test]
fn lines_from_end_beyond_file_is_empty() {
    let lines: Vec<String> = vec!["x", "y"].into_iter().map(str::to_string).collect();
    let sel = lines_range_from_end(&lines, 3, 9).unwrap();
    assert!(sel.is_empty());
}

#[test]
fn lines_from_end_rejects_bad_bounds() {
    let lines: Vec<String> = vec!["x"].into_iter().map(str::to_string).collect();
    let err = lines_range_from_end(&lines, 0, 1).unwrap_err();
    assert!(matches!(err, RangeError::StartZero));
    assert_eq!(err.message(), "Start line 'a' must not be 0");

    let err = lines_range_from_end(&lines, 1, 0).unwrap_err();
    assert!(matches!(err, RangeError::StartAfterEnd));
}

#[test]
fn config_empty_has_empty_paths() {
    let c = Config::empty();
    assert_eq!(c.python_path, "");
    assert_eq!(c.mas_path, "");
}

#[test]
fn config_or_empty_passes_a_parse_through() {
    let parsed = Config {
        python_path: "/usr/bin/python3".to_string(),
        mas_path: "/opt/mas/main.py".to_string(),
    };
    let c = config_or_empty(Some(parsed));
    assert_eq!(c.python_path, "/usr/bin/python3");
    assert_eq!(c.mas_path, "/opt/mas/main.py");
}

#[test]
fn config_or_empty_falls_back_on_parse_failure() {
    let c = config_or_empty(None);
    assert_eq!(c.python_path, "");
    assert_eq!(c.mas_path, "");
}
