use niumaren::text::{join_text, contains_char, i32_to_text, parse_bool, parse_i32, parse_u16, trim};
use niumaren::commands::{check_personnel_input, new_personnel_fields, sort_order_updates};

#[test]
fn parse_i32_agrees_with_std() {
    let cases = [
        "", "-", "+", "0", "-0", "+0", "12", "-12", "+12", "007", "2147483647", "2147483648",
        "-2147483648", "-2147483649", "99999999999999", "1 ", " 1", "1a", "--1", "+-1", "٣",
    ];
    for c in cases {
        assert_eq!(parse_i32(c), c.parse::<i32>().ok(), "input {:?}", c);
    }
}

#[test]
fn parse_u16_agrees_with_std() {
    let cases = ["", "+", "-0", "0", "465", "+465", "65535", "65536", "4294967297", "1x", "-1"];
    for c in cases {
        assert_eq!(parse_u16(c), c.parse::<u16>().ok(), "input {:?}", c);
    }
}

#[test]
fn parse_bool_agrees_with_std() {
    for c in ["true", "false", "True", "", "1", "true "] {
        assert_eq!(parse_bool(c), c.parse::<bool>().ok(), "input {:?}", c);
    }
}

#[test]
fn i32_text_agrees_with_to_string_and_reads_back() {
    for n in [0, 1, 9, 10, 99, 100, -1, -10, 2026, i32::MAX, i32::MIN, 1234567] {
        assert_eq!(i32_to_text(n), n.to_string());
        assert_eq!(parse_i32(&i32_to_text(n)), Some(n));
    }
}

#[test]
fn trim_agrees_with_std() {
    for s in ["", "   ", " a ", "\t张三\u{3000}", "a b", "\u{85}x\u{2028}", "\u{200B}x"] {
        assert_eq!(trim(s), s.trim(), "input {:?}", s);
    }
}

#[test]
fn concat_and_contains() {
    assert_eq!(join_text("ab", "中文"), "ab中文");
    assert!(contains_char("a@b", '@'));
    assert!(!contains_char("ab", '@'));
}

#[test]
fn personnel_input_errors() {
    assert_eq!(check_personnel_input("张三", "zhangsan.qq.com"), Err("邮箱格式不正确".to_string()));
    assert_eq!(check_personnel_input("张三", "zhangsan@qq"), Err("邮箱格式不正确".to_string()));
    assert_eq!(check_personnel_input("  ", "a@b.c"), Err("姓名不能为空".to_string()));
    assert_eq!(check_personnel_input("", "nothing"), Err("邮箱格式不正确".to_string()));
    assert_eq!(check_personnel_input("张三", "a@b.c"), Ok(()));
}

#[test]
fn new_personnel_fields_are_trimmed() {
    assert_eq!(
        new_personnel_fields(" 张三 ", " z@t.com\n"),
        Ok(("张三".to_string(), "z@t.com".to_string()))
    );
}

#[test]
fn reorder_assigns_positions() {
    assert_eq!(sort_order_updates(&vec![7, 3, 9]), vec![(0, 7), (1, 3), (2, 9)]);
    assert!(sort_order_updates(&vec![]).is_empty());
}

#[test]
fn whitespace_agrees_with_std() {
    use_whitespace_check();
}

fn use_whitespace_check() {
    for u in 0u32..0x3100 {
        if let Some(c) = char::from_u32(u) {
            assert_eq!(niumaren::text::char_is_whitespace(c), c.is_whitespace(), "U+{:04X}", u);
        }
    }
}
