use gen_syscall_enum::extract::extract;
use gen_syscall_enum::table::SymbolEntry;

fn names_ids(table: &[SymbolEntry]) -> Vec<(String, String)> {
    table
        .iter()
        .map(|e| {
            (
                String::from_utf8(e.name.clone()).unwrap(),
                String::from_utf8(e.id.clone()).unwrap(),
            )
        })
        .collect()
}

fn pairs(table: &[SymbolEntry]) -> Vec<(&str, &str)> {
    // Borrowed view of the table for terse comparisons; lossy only for
    // non-UTF-8 names, which these tests do not use.
    table
        .iter()
        .map(|e| {
            (
                std::str::from_utf8(&e.name).unwrap(),
                std::str::from_utf8(&e.id).unwrap(),
            )
        })
        .collect()
}

#[test]
fn example_scenario() {
    let text = b"#define __NR_read 0\n#define __NR_write 1\n// comment\n#define __NR_open  2\n";
    let table = extract(text);
    assert_eq!(
        names_ids(&table),
        vec![
            ("read".to_string(), "0".to_string()),
            ("write".to_string(), "1".to_string()),
            ("open".to_string(), "2".to_string()),
        ]
    );
}

#[test]
fn missing_id_yields_nothing() {
    assert!(extract(b"#define __NR_read").is_empty());
    assert!(extract(b"#define __NR_read\n").is_empty());
}

#[test]
fn non_digit_id_yields_nothing() {
    assert!(extract(b"#define __NR_read abc").is_empty());
    assert!(extract(b"#define __NR_read 12a\n").is_empty());
}

#[test]
fn empty_input_yields_empty_table() {
    assert!(extract(b"").is_empty());
}

#[test]
fn last_line_without_newline_matches() {
    let table = extract(b"#define __NR_close 3");
    assert_eq!(pairs(&table), vec![("close", "3")]);
}

#[test]
fn tabs_are_whitespace() {
    let table = extract(b"#define\t__NR_a\t12\n");
    assert_eq!(pairs(&table), vec![("a", "12")]);
}

#[test]
fn order_and_duplicates_preserved() {
    let table = extract(b"#define __NR_dup 1\n#define __NR_dup 2\n#define __NR_aaa 0\n");
    assert_eq!(pairs(&table), vec![("dup", "1"), ("dup", "2"), ("aaa", "0")]);
}

#[test]
fn non_matching_lines_do_not_disturb_neighbours() {
    let text = b"junk\n#define __NR_a 1\n#define NR_b 2\n#define __NR_c 3\n\n";
    let table = extract(text);
    assert_eq!(pairs(&table), vec![("a", "1"), ("c", "3")]);
}

#[test]
fn anchored_at_line_start() {
    assert!(extract(b"  #define __NR_x 1\n").is_empty());
    assert!(extract(b"x#define __NR_x 1\n").is_empty());
}

#[test]
fn anchored_at_line_end() {
    assert!(extract(b"#define __NR_x 1 \n").is_empty());
    assert!(extract(b"#define __NR_x 1 2\n").is_empty());
}

#[test]
fn missing_prefix_rejected() {
    assert!(extract(b"#define NR_x 1\n").is_empty());
    assert!(extract(b"#define __nr_x 1\n").is_empty());
}

#[test]
fn empty_name_rejected() {
    assert!(extract(b"#define __NR_ 1\n").is_empty());
}

#[test]
fn no_space_after_marker_rejected() {
    assert!(extract(b"#define__NR_x 1\n").is_empty());
}

#[test]
fn id_keeps_textual_form() {
    let table = extract(b"#define __NR_x 007\n");
    assert_eq!(pairs(&table), vec![("x", "007")]);
}

#[test]
fn crlf_line_rejected() {
    // The carriage return stands between the digits and the end of the
    // line, so the line does not match.
    assert!(extract(b"#define __NR_x 1\r\n").is_empty());
}

#[test]
fn name_may_hold_any_non_whitespace() {
    let table = extract(b"#define __NR_fcntl64 221\n#define __NR_a#b 9\n");
    assert_eq!(pairs(&table), vec![("fcntl64", "221"), ("a#b", "9")]);
}
