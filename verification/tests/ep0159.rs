use dpia::ep0159::{handle_byte, Field};
use dpia::text::{FixedText, LineBuffer};

fn feed(line: &[u8], buf: &mut LineBuffer, pipes: &mut u8) -> Vec<Field> {
    line.iter().filter_map(|&b| handle_byte(b, buf, pipes)).collect()
}

#[test]
fn splits_a_round_into_four_fields() {
    let mut buf = LineBuffer::empty();
    let mut pipes = 0;
    let fields = feed(b"3712|120\r|45|0|", &mut buf, &mut pipes);
    assert_eq!(
        fields,
        vec![
            Field { pipe: 1, text: b"3712".to_vec() },
            Field { pipe: 2, text: b"120".to_vec() },
            Field { pipe: 3, text: b"45".to_vec() },
            Field { pipe: 4, text: b"0".to_vec() },
        ]
    );
    assert_eq!(pipes, 0);
    assert!(buf.to_vec().is_empty());
}

#[test]
fn drops_non_ascii_and_keeps_partial_value() {
    let mut buf = LineBuffer::empty();
    let mut pipes = 2;
    assert_eq!(feed(&[0x80, b'1', 0xFF, b'2'], &mut buf, &mut pipes), vec![]);
    assert_eq!(buf.to_vec(), b"12");
    assert_eq!(pipes, 2);
}
