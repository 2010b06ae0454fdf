use player_control::text::{
    chars_of, parse_code_point, parse_port, parse_unsigned, split_label, to_digits,
};

#[test]
fn ports_are_read() {
    assert_eq!(parse_port("22"), Some(22));
    assert_eq!(parse_port("+22"), Some(22));
    assert_eq!(parse_port("0022"), Some(22));
    assert_eq!(parse_port("0"), Some(0));
    assert_eq!(parse_port("65535"), Some(65535));
}

#[test]
fn what_is_no_port_is_refused() {
    for text in ["", "+", "-1", "65536", "4294967318", " 22", "22 ", "2_2", "ssh", "++2", "99999999999999999999"] {
        assert_eq!(parse_port(text), None, "{text:?}");
    }
}

#[test]
fn numbers_are_read_as_std_reads_them() {
    for text in ["", "+", "-", "0", "7", "+7", "e877", "E877", "ffffffff", "100000000", "g", "0x1", "F239 "] {
        assert_eq!(parse_code_point(text), u32::from_str_radix(text, 16).ok(), "{text:?}");
        assert_eq!(parse_port(text), text.parse::<u16>().ok(), "{text:?}");
    }
}

#[test]
fn numbers_keep_to_their_bound() {
    assert_eq!(parse_unsigned("z", 36, 35), Some(35));
    assert_eq!(parse_unsigned("z", 36, 34), None);
    assert_eq!(parse_unsigned("101", 2, 100), Some(5));
    assert_eq!(parse_unsigned("102", 2, 100), None);
}

#[test]
fn numbers_are_written_as_std_writes_them() {
    for n in [0u32, 9, 10, 15, 16, 255, 0xe877, 0xf239, u32::MAX] {
        assert_eq!(to_digits(n, 16), format!("{:x}", n));
        assert_eq!(to_digits(n, 10), n.to_string());
    }
    assert_eq!(to_digits(0xe877, 16), "e877");
}

#[test]
fn numbers_come_back_from_their_digits() {
    for n in [0u32, 1, 22, 0xe001, u32::MAX] {
        assert_eq!(parse_code_point(&to_digits(n, 16)), Some(n));
    }
    for port in [0u16, 22, 65535] {
        assert_eq!(parse_port(&to_digits(port as u32, 10)), Some(port));
    }
}

#[test]
fn labels_are_split_at_their_marks() {
    let split = |s: &str| split_label(s);
    assert_eq!(split("file"), ("file".to_string(), "".to_string()));
    assert_eq!(split("file#path"), ("file".to_string(), "path".to_string()));
    assert_eq!(split("file#path#more"), ("file".to_string(), "path".to_string()));
    assert_eq!(split("#path"), ("".to_string(), "path".to_string()));
    assert_eq!(split("file#"), ("file".to_string(), "".to_string()));
    assert_eq!(split(""), ("".to_string(), "".to_string()));
    assert_eq!(split("größe#maß"), ("größe".to_string(), "maß".to_string()));
}

#[test]
fn texts_come_apart_into_characters() {
    assert_eq!(chars_of("aß\u{e877}"), vec!['a', 'ß', '\u{e877}']);
    assert_eq!(chars_of(""), Vec::<char>::new());
}
