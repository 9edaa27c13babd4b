use overflow_wp::kind::{classify, greatest, is_supported_width, least, same_text, IntKind};

#[test]
fn classify_knows_the_eight_names() {
    assert_eq!(classify("i8"), Some(IntKind::I8));
    assert_eq!(classify("i16"), Some(IntKind::I16));
    assert_eq!(classify("i32"), Some(IntKind::I32));
    assert_eq!(classify("i64"), Some(IntKind::I64));
    assert_eq!(classify("u8"), Some(IntKind::U8));
    assert_eq!(classify("u16"), Some(IntKind::U16));
    assert_eq!(classify("u32"), Some(IntKind::U32));
    assert_eq!(classify("u64"), Some(IntKind::U64));
}

#[test]
fn classify_rejects_every_other_name() {
    let others = vec![
        "", "i", "u", "8", "i128", "u128", "isize", "usize", "f32", "f64", "bool", "char", "I8",
        "i8 ", " i8", "i08", "u6", "u644", "int", "i3", "é8",
    ];
    for name in others {
        assert_eq!(classify(name), None, "{:?}", name);
    }
}

#[test]
fn kinds_know_their_sign_and_width() {
    assert!(IntKind::I8.is_signed());
    assert!(IntKind::I16.is_signed());
    assert!(IntKind::I32.is_signed());
    assert!(IntKind::I64.is_signed());
    assert!(!IntKind::U8.is_signed());
    assert!(!IntKind::U16.is_signed());
    assert!(!IntKind::U32.is_signed());
    assert!(!IntKind::U64.is_signed());
    assert_eq!(IntKind::I8.width(), 8);
    assert_eq!(IntKind::U8.width(), 8);
    assert_eq!(IntKind::I16.width(), 16);
    assert_eq!(IntKind::U16.width(), 16);
    assert_eq!(IntKind::I32.width(), 32);
    assert_eq!(IntKind::U32.width(), 32);
    assert_eq!(IntKind::I64.width(), 64);
    assert_eq!(IntKind::U64.width(), 64);
}

#[test]
fn supported_widths_are_the_four() {
    let mut width: u8 = 0;
    loop {
        let expected = width == 8 || width == 16 || width == 32 || width == 64;
        assert_eq!(is_supported_width(width), expected, "{}", width);
        if width == u8::MAX {
            break;
        }
        width += 1;
    }
}

#[test]
fn ranges_are_those_of_the_machine() {
    assert_eq!(least(true, 8), i128::from(i8::MIN));
    assert_eq!(greatest(true, 8), i128::from(i8::MAX));
    assert_eq!(least(true, 16), i128::from(i16::MIN));
    assert_eq!(greatest(true, 16), i128::from(i16::MAX));
    assert_eq!(least(true, 32), i128::from(i32::MIN));
    assert_eq!(greatest(true, 32), i128::from(i32::MAX));
    assert_eq!(least(true, 64), i128::from(i64::MIN));
    assert_eq!(greatest(true, 64), i128::from(i64::MAX));
    assert_eq!(least(false, 8), 0);
    assert_eq!(greatest(false, 8), i128::from(u8::MAX));
    assert_eq!(least(false, 16), 0);
    assert_eq!(greatest(false, 16), i128::from(u16::MAX));
    assert_eq!(least(false, 32), 0);
    assert_eq!(greatest(false, 32), i128::from(u32::MAX));
    assert_eq!(least(false, 64), 0);
    assert_eq!(greatest(false, 64), i128::from(u64::MAX));
}

#[test]
fn same_text_compares_characters() {
    assert!(same_text("", ""));
    assert!(same_text("i32", "i32"));
    assert!(same_text("größe", "größe"));
    assert!(!same_text("i32", "i33"));
    assert!(!same_text("i32", "i3"));
    assert!(!same_text("i3", "i32"));
    assert!(!same_text("", "u8"));
    assert!(!same_text("é", "e"));
}
