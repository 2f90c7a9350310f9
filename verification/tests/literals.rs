use std::ops::Bound;

use proc_macro_srv::escape::quote;
use proc_macro_srv::numeral::{integer_text, typed_integer_text, IntegerKind};
use proc_macro_srv::server::Rustc;
use proc_macro_srv::tt::TokenId;

#[test]
fn integer_texts_are_normal_forms() {
    assert_eq!(integer_text("0").unwrap(), "0");
    assert_eq!(integer_text("-0").unwrap(), "0");
    assert_eq!(integer_text("+7").unwrap(), "7");
    assert_eq!(integer_text("007").unwrap(), "7");
    assert_eq!(integer_text("-0012").unwrap(), "-12");
    let once = integer_text("+0099").unwrap();
    assert_eq!(integer_text(&once).unwrap(), once);
}

#[test]
fn integer_texts_are_those_of_the_standard_library() {
    let texts = [
        "", "+", "-", "+-1", "--1", "1 ", " 1", "1_000", "0x10", "1.0", "12a", "\u{0663}", "-1",
        "170141183460469231731687303715884105727",
        "170141183460469231731687303715884105728",
        "-170141183460469231731687303715884105728",
        "-170141183460469231731687303715884105729",
        "340282366920938463463374607431768211455",
        "340282366920938463463374607431768211456",
        "0000000000000000000000000000000000000000000000000000001",
        "99999999999999999999999999999999999999999999999999999x",
    ];
    for text in texts {
        let expected = match text.parse::<i128>() {
            Ok(n) => Some(n.to_string()),
            Err(_) => text.parse::<u128>().ok().map(|n| n.to_string()),
        };
        assert_eq!(integer_text(text), expected, "{:?}", text);
    }
}

#[test]
fn typed_integers_have_to_fit() {
    assert_eq!(typed_integer_text("255", "u8").unwrap(), "255u8");
    assert_eq!(typed_integer_text("256", "u8"), None);
    assert_eq!(typed_integer_text("-0", "u8"), None);
    assert_eq!(typed_integer_text("+1", "u8").unwrap(), "1u8");
    assert_eq!(typed_integer_text("-128", "i8").unwrap(), "-128i8");
    assert_eq!(typed_integer_text("-129", "i8"), None);
    assert_eq!(typed_integer_text("128", "i8"), None);
    assert_eq!(typed_integer_text("-0", "i8").unwrap(), "0i8");
    assert_eq!(typed_integer_text("65535", "u16").unwrap(), "65535u16");
    assert_eq!(typed_integer_text("65536", "u16"), None);
    assert_eq!(typed_integer_text("-32768", "i16").unwrap(), "-32768i16");
    assert_eq!(typed_integer_text("32768", "i16"), None);
    assert_eq!(typed_integer_text("4294967296", "u32"), None);
    assert_eq!(typed_integer_text("-2147483648", "i32").unwrap(), "-2147483648i32");
    assert_eq!(typed_integer_text("2147483648", "i32"), None);
    assert_eq!(typed_integer_text("18446744073709551616", "u64"), None);
    assert_eq!(
        typed_integer_text("-9223372036854775808", "i64").unwrap(),
        "-9223372036854775808i64"
    );
    assert_eq!(typed_integer_text("340282366920938463463374607431768211456", "u128"), None);
    assert_eq!(
        typed_integer_text("-170141183460469231731687303715884105728", "i128").unwrap(),
        "-170141183460469231731687303715884105728i128"
    );
    assert_eq!(typed_integer_text("170141183460469231731687303715884105728", "i128"), None);
    assert_eq!(
        typed_integer_text(&usize::MAX.to_string(), "usize").unwrap(),
        format!("{}usize", usize::MAX)
    );
    assert_eq!(
        typed_integer_text(&isize::MIN.to_string(), "isize").unwrap(),
        format!("{}isize", isize::MIN)
    );
    assert_eq!(typed_integer_text(&format!("{}0", usize::MAX), "usize"), None);
    assert_eq!(typed_integer_text(&format!("{}0", isize::MIN), "isize"), None);
    assert_eq!(typed_integer_text("1", "u7"), None);
    assert_eq!(typed_integer_text("x", "u8"), None);
}

#[test]
fn integer_kinds_by_name() {
    assert_eq!(IntegerKind::from_name("isize"), Some(IntegerKind::Isize));
    assert_eq!(IntegerKind::from_name("u128"), Some(IntegerKind::U128));
    assert_eq!(IntegerKind::from_name("U8"), None);
    assert_eq!(IntegerKind::from_name(""), None);
}

#[test]
fn typed_integer_literals_give_their_number_back() {
    let text = typed_integer_text("-007", "i32").unwrap();
    assert_eq!(text, "-7i32");
    assert_eq!(typed_integer_text(&text[..text.len() - 3], "i32").unwrap(), text);
}

#[test]
fn float_literals_have_a_point() {
    let mut srv = Rustc::default();
    assert_eq!(srv.float_literal("1").text, "1.0");
    assert_eq!(srv.float_literal("1.5").text, "1.5");
    assert_eq!(srv.float_literal("inf").text, "inf.0");
    assert_eq!(srv.f32_literal("1").text, "1f32");
    assert_eq!(srv.f64_literal("1").text, "1f64");
}

#[test]
fn string_literals_are_escaped() {
    let mut srv = Rustc::default();
    assert_eq!(srv.string("").text, "\"\"");
    assert_eq!(srv.string("a\n\"b\"'\\").text, "\"a\\n\\\"b\\\"\\'\\\\\"");
    assert_eq!(srv.string("\u{7f}\u{e9}").text, "\"\\u{7f}\u{e9}\"");
    // Each character is escaped for itself, so a combining accent is too.
    assert_eq!(srv.string("e\u{301}").text, "\"e\\u{301}\"");
    assert_eq!(quote(&vec!["a".to_string(), "\\n".to_string()]), "\"a\\n\"");
    assert_eq!(quote(&vec![]), "\"\"");
}

#[test]
fn escapes_are_piecewise() {
    let mut srv = Rustc::default();
    let body = |text: String| text[1..text.len() - 1].to_string();
    let (a, b) = ("x\"\n", "\u{301}'y");
    let whole = body(srv.string(&format!("{}{}", a, b)).text);
    assert_eq!(whole, body(srv.string(a).text) + &body(srv.string(b).text));
    assert_eq!(whole, "x\\\"\\n\\u{301}\\'y");
    let text = srv.string(a).text;
    assert!(text.starts_with('"') && text.ends_with('"'));
    assert_eq!(srv.byte_string(b"\n\xff").text, "b\"\\n\\xff\"");
    assert_eq!(srv.byte_string(b"\n").text, "b\"\\n\"");
    assert_eq!(srv.byte_string(b"\xff").text, "b\"\\xff\"");
}

#[test]
fn character_literals_hold_the_character_as_it_is() {
    let mut srv = Rustc::default();
    assert_eq!(srv.character('\'').text, "'''");
    assert_eq!(srv.character('\n').text, "'\n'");
    assert_ne!(srv.character('a').text, srv.character('b').text);
}

#[test]
fn byte_string_literals_escape_each_byte() {
    let mut srv = Rustc::default();
    for byte in 0u8..=255 {
        let expected: String =
            std::ascii::escape_default(byte).map(|b| b as char).collect();
        assert_eq!(srv.byte_string(&[byte]).text, format!("b\"{}\"", expected));
    }
    assert_eq!(srv.byte_string(b"\t\r\n'\"\\").text, "b\"\\t\\r\\n\\'\\\"\\\\\"");
    assert_eq!(srv.byte_string(&[0x00, 0x7f, 0xff]).text, "b\"\\x00\\x7f\\xff\"");
    assert_eq!(srv.byte_string(b"").text, "b\"\"");
    assert_ne!(srv.byte_string(b"\\n").text, srv.byte_string(b"\n").text);
    assert!(srv.byte_string(&[0xc3, 0xa9]).text.chars().all(|c| (' '..='~').contains(&c)));
}

#[test]
fn literals_read_back() {
    let mut srv = Rustc::default();
    let mut literal = srv.literal_from_str("0x1F_u8").unwrap();
    assert_eq!(srv.symbol(&literal), "0x1F_u8");
    assert_eq!(srv.suffix(&literal), None);
    assert_eq!(srv.debug_kind(&literal), "");
    assert_eq!(srv.literal_span(&literal), TokenId::unspecified());
    srv.literal_set_span(&mut literal, TokenId(3));
    assert_eq!(srv.literal_span(&literal), TokenId::unspecified());
    assert_eq!(srv.subspan(&literal, Bound::Included(0), Bound::Unbounded), None);
}
