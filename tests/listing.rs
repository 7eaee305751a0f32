use myssh_gui::profiles::{parse_profile_list, Profile};
use myssh_gui::text::parse_i32;

fn fields(p: &Profile) -> (&str, &str, &str, i32) {
    (p.name.as_str(), p.host.as_str(), p.user.as_str(), p.port)
}

#[test]
fn one_row_after_header() {
    let v = parse_profile_list("NAME HOST USER PORT\nalice 10.0.0.1 bob 22\n");
    assert_eq!(v.len(), 1);
    assert_eq!(fields(&v[0]), ("alice", "10.0.0.1", "bob", 22));
}

#[test]
fn row_of_three_columns_is_skipped() {
    let v = parse_profile_list("NAME HOST USER PORT\nalice 10.0.0.1 bob\ncarol h u 2200\n");
    assert_eq!(v.len(), 1);
    assert_eq!(fields(&v[0]), ("carol", "h", "u", 2200));
}

#[test]
fn non_numeric_port_defaults() {
    let v = parse_profile_list("NAME HOST USER PORT\nalice 10.0.0.1 bob abc\n");
    assert_eq!(v.len(), 1);
    assert_eq!(fields(&v[0]), ("alice", "10.0.0.1", "bob", 22));
}

#[test]
fn out_of_range_port_defaults() {
    let v = parse_profile_list("H\na b c 2147483648\nd e f -2147483648\ng h i +80\n");
    assert_eq!(v.len(), 3);
    assert_eq!(v[0].port, 22);
    assert_eq!(v[1].port, i32::MIN);
    assert_eq!(v[2].port, 80);
}

#[test]
fn empty_and_header_only_listings() {
    assert_eq!(parse_profile_list("").len(), 0);
    assert_eq!(parse_profile_list("NAME HOST USER PORT").len(), 0);
    assert_eq!(parse_profile_list("NAME HOST USER PORT\n").len(), 0);
}

#[test]
fn header_line_is_skipped_even_when_it_is_a_row() {
    let v = parse_profile_list("x y z 1\nalice h u 2\n");
    assert_eq!(v.len(), 1);
    assert_eq!(fields(&v[0]), ("alice", "h", "u", 2));
}

#[test]
fn extra_columns_blank_lines_and_mixed_spacing() {
    let v = parse_profile_list("NAME HOST USER PORT\r\n\n  alice\t10.0.0.1   bob 22 extra\r\n\r\nbob h u 23");
    assert_eq!(v.len(), 2);
    assert_eq!(fields(&v[0]), ("alice", "10.0.0.1", "bob", 22));
    assert_eq!(fields(&v[1]), ("bob", "h", "u", 23));
}

#[test]
fn unicode_white_space_separates_columns() {
    let v = parse_profile_list("HEADER\nn\u{3000}h\u{a0}u\u{2003}99\n");
    assert_eq!(v.len(), 1);
    assert_eq!(fields(&v[0]), ("n", "h", "u", 99));
}

#[test]
fn parse_i32_cases() {
    let c: Vec<char> = "x+12-7 2147483647-2147483648+-".chars().collect();
    assert_eq!(parse_i32(&c, 1, 4), Some(12));
    assert_eq!(parse_i32(&c, 4, 6), Some(-7));
    assert_eq!(parse_i32(&c, 7, 17), Some(i32::MAX));
    assert_eq!(parse_i32(&c, 17, 28), Some(i32::MIN));
    assert_eq!(parse_i32(&c, 28, 29), None);
    assert_eq!(parse_i32(&c, 0, 0), None);
    assert_eq!(parse_i32(&c, 0, 2), None);
    assert_eq!(parse_i32(&c, 6, 8), None);
}
