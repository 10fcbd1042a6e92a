use dpia::display::{fmt_pad_u8, fmt_temp, layout_reading, pad};
use dpia::text::{DisplayText, FixedText, LineBuffer};

#[test]
fn padding() {
    let mut a = LineBuffer::empty();
    pad(&mut a, ' ', 10);
    assert!(a.push_byte(b'h') && a.push_byte(b'i'));

    assert_eq!(a.to_vec(), std::format!("{}hi", " ".repeat(10)).into_bytes());

    let mut b = LineBuffer::empty();
    assert!(b.push_byte(b'h') && b.push_byte(b'i'));
    pad(&mut b, ' ', 10);

    assert_eq!(b.to_vec(), std::format!("hi{}", " ".repeat(10)).into_bytes());
}

#[test]
fn u8() {
    let test = |u: u8, after: usize| {
        let s = fmt_pad_u8(u, Some(after)).to_vec();
        assert_eq!(s.len(), 8);
        assert_eq!(
            &s[..],
            std::format!(
                "{}{u}{}",
                " ".repeat(after),
                " ".repeat(8 - std::format!("{u}").len() - after)
            )
            .as_bytes()
        );
    };

    test(10, 0);
    test(10, 1);
    test(55, 3);
    test(55, 6);
    test(100, 5);

    assert_eq!(fmt_pad_u8(10, None).to_vec(), fmt_pad_u8(10, Some(0)).to_vec());
}

#[test]
fn temp_layout_and_dots() {
    let test = |t: u8, exp_dots: u8| {
        let (s, dots, len) = fmt_temp(t);
        let s = s.to_vec();
        let text = std::format!("{:.1}", f32::from(t));
        assert_eq!(len, text.len());
        assert_eq!(&s[..], std::format!("{text}{}", " ".repeat(8 - len)).as_bytes());
        assert_eq!(dots, exp_dots);
    };

    test(0, 0b1000_0000);
    test(3, 0b1000_0000);
    test(32, 0b0100_0000);
    test(100, 0b0010_0000);
}

#[test]
fn f32() {
    let test = |f: f32, exp_dots: u8| {
        let text = std::format!("{f:.1}");
        let (s, dots) = layout_reading(text.as_bytes());
        let s = s.to_vec();
        let len = text.len();
        assert_eq!(s.len(), 8);

        assert_eq!(&s[..], std::format!("{f:.1}{}", " ".repeat(8 - len)).as_bytes());
        assert_eq!(dots, exp_dots);
    };

    test(0.0, 0b1000_0000);
    test(3.2, 0b1000_0000);
    test(32.0, 0b0100_0000);
    test(32.3, 0b0100_0000);
    test(100.0, 0b0010_0000);
}

#[test]
fn display_text_holds_eight_characters() {
    let mut t = DisplayText::empty();
    pad(&mut t, '-', 8);
    assert!(!t.push_byte(b'x'));
    assert_eq!(t.to_vec(), b"--------");
}

#[test]
fn pads_with_any_char() {
    let mut t = LineBuffer::empty();
    pad(&mut t, 'é', 3);
    assert_eq!(t.to_vec(), "ééé".as_bytes());
    let mut d = DisplayText::empty();
    pad(&mut d, '°', 4);
    assert!(!d.push_char('x'));
    assert_eq!(d.to_vec(), "°°°°".as_bytes());
}
