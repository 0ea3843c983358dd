use ports_info::text::{chars_of, fields_of, parse_u32, split_lines, string_of_chars, to_lower};

fn cv(s: &str) -> Vec<char> {
    chars_of(s)
}

#[test]
fn chars_round_trip_through_string() {
    let v = cv("tcp6 0 0 :::631");
    assert_eq!(string_of_chars(&v), "tcp6 0 0 :::631");
    let empty = cv("");
    assert_eq!(string_of_chars(&empty), "");
}

#[test]
fn number_parsing_edges() {
    assert_eq!(parse_u32(&cv("0")), Some(0));
    assert_eq!(parse_u32(&cv("1234")), Some(1234));
    assert_eq!(parse_u32(&cv("+8")), Some(8));
    assert_eq!(parse_u32(&cv("4294967295")), Some(u32::MAX));
    assert_eq!(parse_u32(&cv("4294967296")), None);
    assert_eq!(parse_u32(&cv("")), None);
    assert_eq!(parse_u32(&cv("+")), None);
    assert_eq!(parse_u32(&cv("12a")), None);
    assert_eq!(parse_u32(&cv("-5")), None);
}

#[test]
fn lower_casing_touches_only_ascii_upper() {
    assert_eq!(string_of_chars(&to_lower(&cv("TCP6"))), "tcp6");
    assert_eq!(string_of_chars(&to_lower(&cv("udp"))), "udp");
    assert_eq!(string_of_chars(&to_lower(&cv("LiStEn-1"))), "listen-1");
}

#[test]
fn line_splitting_keeps_order_and_empty_pieces() {
    let lines = split_lines(&cv("a\nb\n\nc"));
    let texts: Vec<String> = lines.iter().map(string_of_chars).collect();
    assert_eq!(texts, ["a", "b", "", "c"]);
}

#[test]
fn field_splitting_drops_empty_pieces() {
    let fields = fields_of(&cv("  tcp\t 0   0  1.2.3.4:80 "));
    let texts: Vec<String> = fields.iter().map(string_of_chars).collect();
    assert_eq!(texts, ["tcp", "0", "0", "1.2.3.4:80"]);
}
