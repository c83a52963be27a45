use appcui::format_number::FormatNumber;

#[test]
fn check_format_number_decimal_unsigned() {
    let mut output: Vec<u8> = vec![0; 64];
    let f1: FormatNumber = FormatNumber::new(10);
    assert_eq!(f1.write_number(123, &mut output), Some("123"));
    let f2: FormatNumber = FormatNumber::new(10).group(3, b',');
    let data: &[(u32, &'static str)] = &[
        (1234, "1,234"),
        (123456, "123,456"),
        (123, "123"),
        (12345, "12,345"),
        (0, "0"),
        (9, "9"),
        (10, "10"),
        (100, "100"),
        (1000, "1,000"),
        (1234567890, "1,234,567,890"),
    ];
    for (value, expect) in data.iter() {
        assert_eq!(f2.write_number(*value as u128, &mut output), Some(*expect));
    }
    let f3: FormatNumber = FormatNumber::new(10).fill(10, b'#');
    let data: &[(u32, &'static str)] = &[
        (1234, "######1234"),
        (123456, "####123456"),
        (0, "#########0"),
        (9, "#########9"),
        (10, "########10"),
        (1234567890, "1234567890"),
    ];
    for (value, expect) in data.iter() {
        assert_eq!(f3.write_number(*value as u128, &mut output), Some(*expect));
    }
    let f4: FormatNumber = FormatNumber::new(10).group(3, b',').fill(10, b'*');
    let data: &[(u32, &'static str)] = &[
        (1234, "*****1,234"),
        (123456, "***123,456"),
        (123, "*******123"),
        (12345, "****12,345"),
        (0, "*********0"),
        (9, "*********9"),
        (10, "********10"),
        (100, "*******100"),
        (1000, "*****1,000"),
        (1234567890, "1,234,567,890"),
    ];
    for (value, expect) in data.iter() {
        assert_eq!(f4.write_number(*value as u128, &mut output), Some(*expect));
    }
}

#[test]
fn check_format_number_decimal_signed() {
    let mut output: Vec<u8> = vec![0; 64];
    let f1: FormatNumber = FormatNumber::new(10);
    assert_eq!(f1.write_number(123i32, &mut output), Some("123"));
    assert_eq!(f1.write_number(-123i32, &mut output), Some("-123"));
    let f2: FormatNumber = FormatNumber::new(10).group(3, b',');
    let data: &[(i64, &'static str)] = &[
        (-1234, "-1,234"),
        (-123456, "-123,456"),
        (-123, "-123"),
        (-12345, "-12,345"),
        (0, "0"),
        (-9, "-9"),
        (-10, "-10"),
        (-100, "-100"),
        (-1000, "-1,000"),
        (-1234567890, "-1,234,567,890"),
    ];
    for (value, expect) in data.iter() {
        assert_eq!(f2.write_number(*value, &mut output), Some(*expect));
    }
    let f3: FormatNumber = FormatNumber::new(10).fill(10, b'#');
    let data: &[(i32, &'static str)] = &[
        (-1234, "#####-1234"),
        (-123456, "###-123456"),
        (0, "#########0"),
        (-9, "########-9"),
        (-10, "#######-10"),
        (-1234567890, "-1234567890"),
    ];
    for (value, expect) in data.iter() {
        assert_eq!(f3.write_number(*value, &mut output), Some(*expect));
    }
    let f4: FormatNumber = FormatNumber::new(10).group(3, b',').fill(10, b'*');
    let data: &[(i64, &'static str)] = &[
        (1234, "*****1,234"),
        (-123456, "**-123,456"),
        (123, "*******123"),
        (-12345, "***-12,345"),
        (0, "*********0"),
        (-9, "********-9"),
        (10, "********10"),
        (-100, "******-100"),
        (1000, "*****1,000"),
        (-1234567890, "-1,234,567,890"),
    ];
    for (value, expect) in data.iter() {
        assert_eq!(f4.write_number(*value, &mut output), Some(*expect));
    }
}

#[test]
fn check_format_number_hex_unsigned() {
    let mut output: Vec<u8> = vec![0; 64];
    let f1: FormatNumber = FormatNumber::new(16).prefix("0x");
    assert_eq!(f1.write_number(0x123, &mut output), Some("0x123"));
    let f2: FormatNumber = FormatNumber::new(16).group(4, b'_').prefix("0x");
    let data: &[(u64, &'static str)] = &[
        (0x1234, "0x1234"),
        (0x123456, "0x12_3456"),
        (0x123, "0x123"),
        (0, "0x0"),
        (9, "0x9"),
        (10, "0xA"),
        (0xFFFFFFFF, "0xFFFF_FFFF"),
    ];
    for (value, expect) in data.iter() {
        assert_eq!(f2.write_number(*value as u128, &mut output), Some(*expect));
    }
    let f3: FormatNumber = FormatNumber::new(16).fill(10, b'#').prefix("0x");
    let data: &[(u64, &'static str)] = &[
        (0x1234, "####0x1234"),
        (0x123456, "##0x123456"),
        (0, "#######0x0"),
        (9, "#######0x9"),
        (10, "#######0xA"),
        (0x1234567890, "0x1234567890"),
    ];
    for (value, expect) in data.iter() {
        assert_eq!(f3.write_number(*value as u128, &mut output), Some(*expect));
    }
}

#[test]
fn check_format_number_hex() {
    let mut output: Vec<u8> = vec![0; 256];
    let f1: FormatNumber = FormatNumber::new(16).representation_digits(8).prefix("0x");
    let data: &[(u64, &'static str)] = &[
        (0x1234, "0x00001234"),
        (0x123456, "0x00123456"),
        (0x123, "0x00000123"),
        (0, "0x00000000"),
        (9, "0x00000009"),
        (10, "0x0000000A"),
        (0xFFFFFFFF, "0xFFFFFFFF"),
    ];
    for (value, expect) in data.iter() {
        assert_eq!(f1.write_number(*value as u128, &mut output), Some(*expect));
    }
}

#[test]
fn check_format_number_bin() {
    let mut output: Vec<u8> = vec![0; 256];
    let f1: FormatNumber = FormatNumber::new(2).representation_digits(8).prefix("0b");
    let data: &[(u64, &'static str)] = &[
        (0b10, "0b00000010"),
        (0b1010, "0b00001010"),
        (0b101010, "0b00101010"),
        (0b10101010, "0b10101010"),
        (0b1010101010101010, "0b1010101010101010"),
        (0b10101010101010101010101010101010, "0b10101010101010101010101010101010"),
        (
            0b1010101010101010101010101010101010101010101010101010101010101010,
            "0b1010101010101010101010101010101010101010101010101010101010101010",
        ),
    ];
    for (value, expect) in data.iter() {
        assert_eq!(f1.write_number(*value as u128, &mut output), Some(*expect));
    }
}

#[test]
fn check_write_number_to_string() {
    let mut output: Vec<u8> = vec![0; 64];
    assert_eq!(FormatNumber::new(10).group(3, b',').write_number(123u64, &mut output), Some("123"));
    assert_eq!(FormatNumber::new(10).group(3, b',').write_number(1234u64, &mut output), Some("1,234"));
    assert_eq!(FormatNumber::new(10).group(4, b'-').write_number(1234u64, &mut output), Some("1234"));
    assert_eq!(
        FormatNumber::new(10).group(4, b'-').write_number(123456u128, &mut output),
        Some("12-3456")
    );
    assert_eq!(
        FormatNumber::new(10).group(4, b'-').write_number(12345678u64, &mut output),
        Some("1234-5678")
    );
    assert_eq!(
        FormatNumber::new(10).group(3, b':').write_number(12345678u64, &mut output),
        Some("12:345:678")
    );
    assert_eq!(
        FormatNumber::new(10)
            .group(3, b':')
            .representation_digits(8)
            .write_number(123u64, &mut output),
        Some("00:000:123")
    );
    assert_eq!(
        FormatNumber::new(10)
            .group(4, b'=')
            .representation_digits(8)
            .write_number(123456u128, &mut output),
        Some("0012=3456")
    );
    assert_eq!(
        FormatNumber::new(10)
            .group(4, b'=')
            .representation_digits(8)
            .prefix("PFX")
            .suffix("ABCD")
            .write_number(123456u64, &mut output),
        Some("PFX0012=3456ABCD")
    );
    assert_eq!(
        FormatNumber::new(10)
            .group(3, b'=')
            .representation_digits(8)
            .prefix("PFX")
            .suffix("ABCD")
            .fill(20, b'*')
            .write_number(123456u32, &mut output),
        Some("***PFX00=123=456ABCD")
    );
    assert_eq!(
        FormatNumber::new(16)
            .group(4, b' ')
            .representation_digits(8)
            .prefix("0x")
            .write_number(0x123456u32, &mut output),
        Some("0x0012 3456")
    );
    assert_eq!(
        FormatNumber::new(16)
            .representation_digits(8)
            .suffix("h")
            .write_number(0xC0FFEEu32, &mut output),
        Some("00C0FFEEh")
    );
}

#[test]
fn check_write_number_to_string_positive() {
    let mut output: Vec<u8> = vec![0; 64];
    assert_eq!(FormatNumber::new(10).group(3, b',').write_number(123, &mut output), Some("123"));
    assert_eq!(FormatNumber::new(10).group(3, b',').write_number(1234, &mut output), Some("1,234"));
    assert_eq!(FormatNumber::new(10).group(4, b'-').write_number(1234, &mut output), Some("1234"));
    assert_eq!(FormatNumber::new(10).group(4, b'-').write_number(123456, &mut output), Some("12-3456"));
    assert_eq!(
        FormatNumber::new(10).group(4, b'-').write_number(12345678, &mut output),
        Some("1234-5678")
    );
    assert_eq!(
        FormatNumber::new(10).group(3, b':').write_number(12345678, &mut output),
        Some("12:345:678")
    );
    assert_eq!(
        FormatNumber::new(10)
            .group(3, b':')
            .representation_digits(8)
            .write_number(123, &mut output),
        Some("00:000:123")
    );
    assert_eq!(
        FormatNumber::new(10)
            .group(4, b'=')
            .representation_digits(8)
            .write_number(123456, &mut output),
        Some("0012=3456")
    );
    assert_eq!(
        FormatNumber::new(10)
            .group(4, b'=')
            .representation_digits(8)
            .prefix("PFX")
            .suffix("ABCD")
            .write_number(123456, &mut output),
        Some("PFX0012=3456ABCD")
    );
    assert_eq!(
        FormatNumber::new(10)
            .group(3, b'=')
            .representation_digits(8)
            .prefix("PFX")
            .suffix("ABCD")
            .fill(20, b'*')
            .write_number(123456, &mut output),
        Some("***PFX00=123=456ABCD")
    );
    assert_eq!(
        FormatNumber::new(16)
            .group(4, b' ')
            .representation_digits(8)
            .prefix("0x")
            .write_number(0x123456, &mut output),
        Some("0x0012 3456")
    );
    assert_eq!(
        FormatNumber::new(16)
            .representation_digits(8)
            .suffix("h")
            .write_number(0xC0FFEE, &mut output),
        Some("00C0FFEEh")
    );
}

#[test]
fn check_write_number_to_string_negative() {
    let mut output: Vec<u8> = vec![0; 64];
    assert_eq!(FormatNumber::new(10).group(3, b',').write_number(-123, &mut output), Some("-123"));
    assert_eq!(FormatNumber::new(10).group(3, b',').write_number(-1234, &mut output), Some("-1,234"));
    assert_eq!(FormatNumber::new(10).group(4, b'-').write_number(-1234, &mut output), Some("-1234"));
    assert_eq!(FormatNumber::new(10).group(4, b'-').write_number(-123456, &mut output), Some("-12-3456"));
    assert_eq!(
        FormatNumber::new(10).group(4, b'-').write_number(-12345678, &mut output),
        Some("-1234-5678")
    );
    assert_eq!(
        FormatNumber::new(10).group(3, b':').write_number(-12345678, &mut output),
        Some("-12:345:678")
    );
    assert_eq!(
        FormatNumber::new(10)
            .group(3, b':')
            .representation_digits(8)
            .write_number(-123, &mut output),
        Some("-00:000:123")
    );
    assert_eq!(
        FormatNumber::new(10)
            .group(4, b'=')
            .representation_digits(8)
            .write_number(-123456, &mut output),
        Some("-0012=3456")
    );
    assert_eq!(
        FormatNumber::new(10)
            .group(4, b'=')
            .representation_digits(8)
            .prefix("PFX")
            .suffix("ABCD")
            .write_number(-123456, &mut output),
        Some("-PFX0012=3456ABCD")
    );
    assert_eq!(
        FormatNumber::new(10)
            .group(3, b'=')
            .representation_digits(8)
            .prefix("PFX")
            .suffix("ABCD")
            .fill(20, b'*')
            .write_number(-123456, &mut output),
        Some("**-PFX00=123=456ABCD")
    );
    assert_eq!(
        FormatNumber::new(16)
            .group(4, b' ')
            .representation_digits(8)
            .prefix("0x")
            .write_number(-0x123456, &mut output),
        Some("-0x0012 3456")
    );
    assert_eq!(
        FormatNumber::new(16)
            .representation_digits(8)
            .suffix("h")
            .write_number(-0xC0FFEE, &mut output),
        Some("-00C0FFEEh")
    );
}

#[test]
fn check_fraction() {
    let mut output: Vec<u8> = vec![0; 64];
    assert_eq!(FormatNumber::new(10).decimals(3).write_fraction(123, 1000, &mut output), Some("0.123"));
    assert_eq!(FormatNumber::new(10).decimals(3).write_fraction(12345, 1000, &mut output), Some("12.345"));
    assert_eq!(FormatNumber::new(10).decimals(1).write_fraction(1234, 1000, &mut output), Some("1.2"));
    assert_eq!(FormatNumber::new(10).decimals(3).write_fraction(-123, 1000, &mut output), Some("-0.123"));
    assert_eq!(
        FormatNumber::new(10).decimals(3).write_fraction(-12345, 1000, &mut output),
        Some("-12.345")
    );
    assert_eq!(FormatNumber::new(10).decimals(1).write_fraction(-1234, 1000, &mut output), Some("-1.2"));
    assert_eq!(FormatNumber::new(10).decimals(3).write_fraction(-123, -1000, &mut output), Some("0.123"));
    assert_eq!(
        FormatNumber::new(10).decimals(3).write_fraction(-12345, -1000, &mut output),
        Some("12.345")
    );
    assert_eq!(FormatNumber::new(10).decimals(1).write_fraction(-1234, -1000, &mut output), Some("1.2"));
    assert_eq!(
        FormatNumber::new(10)
            .decimals(2)
            .suffix(" KB")
            .write_fraction(1234u128, 1024u128, &mut output),
        Some("1.20 KB")
    );
    assert_eq!(
        FormatNumber::new(10)
            .decimals(2)
            .suffix(" KB")
            .write_fraction(1024u64, 1024u64, &mut output),
        Some("1.00 KB")
    );
    // no decimals
    assert_eq!(FormatNumber::new(10).write_fraction(123, 1000, &mut output), Some("0"));
    assert_eq!(FormatNumber::new(10).write_fraction(123, 100, &mut output), Some("1"));
    assert_eq!(FormatNumber::new(10).write_fraction(123, 10, &mut output), Some("12"));
}

#[test]
fn check_number_of_digits_and_buffer() {
    assert_eq!(FormatNumber::number_of_digits(0), 1);
    assert_eq!(FormatNumber::number_of_digits(9), 1);
    assert_eq!(FormatNumber::number_of_digits(10), 2);
    assert_eq!(FormatNumber::number_of_digits(12345), 5);
    assert_eq!(FormatNumber::number_of_digits(u64::MAX), 20);

    let mut buf: Vec<u8> = vec![b'.'; 8];
    let start = FormatNumber::write_to_buffer(123456, &mut buf);
    assert_eq!(start, 2);
    assert_eq!(&buf, b"..123456");
    // a buffer too small keeps only the lowest digits
    let mut small: Vec<u8> = vec![b'.'; 4];
    let start = FormatNumber::write_to_buffer(123456, &mut small);
    assert_eq!(start, 0);
    assert_eq!(&small, b"3456");
    // a write that does not fit leaves the buffer alone
    let mut tiny: Vec<u8> = vec![0; 2];
    assert_eq!(FormatNumber::new(10).write_number(123456u32, &mut tiny), None);
    assert_eq!(tiny, vec![0, 0]);
}
