use tproxy::text::{
    contains, trimmed, white_space, write_decimal, write_hexadecimal, write_signed_decimal,
};

#[test]
fn decimals() {
    for number in [0u32, 1, 9, 10, 99, 100, 255, 1053, 7890, 65535, 4294967295] {
        assert_eq!(write_decimal(number), number.to_string());
    }
    assert_eq!(write_decimal(1053), "1053");
}

#[test]
fn hexadecimals() {
    for number in [0u32, 9, 10, 15, 16, 255, 256, 0xdeadbeef, 4294967295] {
        assert_eq!(write_hexadecimal(number), format!("{:#x}", number));
    }
    assert_eq!(write_hexadecimal(0xff), "0xff");
}

#[test]
fn signed_decimals() {
    for number in [0i32, 1, -1, 126, -127, 2147483647, -2147483648] {
        assert_eq!(write_signed_decimal(number), number.to_string());
    }
    assert_eq!(write_signed_decimal(-2147483648), "-2147483648");
}

#[test]
fn white_space_is_what_std_says() {
    let mut code: u32 = 0;
    while code <= 0x10ffff {
        if let Some(c) = char::from_u32(code) {
            assert_eq!(white_space(c), c.is_whitespace());
        }
        code += 1;
    }
}

#[test]
fn trims_like_std() {
    for text in ["", " ", "\n\t ", "a", " a", "a ", "\r\n a b \u{3000}\n", "\u{a0}\u{e9}\u{2003}", "\u{200b}x"] {
        assert_eq!(trimmed(text), text.trim());
    }
    assert_eq!(trimmed("  done\n"), "done");
}

#[test]
fn contains_like_std() {
    for text in ["", "pkexec", "/usr/bin/pkexec", "pkexe", "pkpkexec", "sudo", "\u{e9}pkexec\u{e9}"] {
        for pattern in ["", "pkexec", "x", "\u{e9}p"] {
            assert_eq!(contains(text, pattern), text.contains(pattern));
        }
    }
    assert!(contains("/usr/bin/pkexec", "pkexec"));
    assert!(!contains("/usr/bin/sudo", "pkexec"));
}
