//! Framing of the EP-0159 UPS board's status line on the UART: values
//! separated by `|`, the fourth one closing a round.
use crate::text::{FixedText, LineBuffer};
use vstd::prelude::*;

verus! {

/// Room the line buffer has.
pub const BUF_CAPACITY: usize = 50;

/// Values in one round.
pub const FIELDS: u8 = 4;

/// A complete value: its place in the round (1 to 4) and its text.
#[derive(Debug, PartialEq, Eq)]
pub struct Field {
    pub pipe: u8,
    pub text: Vec<u8>,
}

/// Bytes that are dropped: non-ASCII bytes and carriage returns.
pub open spec fn is_ignored(byte: u8) -> bool {
    byte > 0x7f || byte == 13
}

/// The field separator, `|`.
pub open spec fn is_separator(byte: u8) -> bool {
    byte == 124
}

/// The state a byte can be handled in: the round counter below four, and room
/// in the buffer for a byte that is kept.
pub open spec fn can_handle(byte: u8, buf_len: nat, pipes: u8) -> bool {
    &&& pipes < FIELDS
    &&& !is_ignored(byte) && !is_separator(byte) ==> buf_len < BUF_CAPACITY
}

/// Handles one byte of the status line. A separator completes the value in
/// `buf`, which is handed back with its place in the round and taken out of
/// the buffer; after the fourth value the round starts over. Other ASCII
/// bytes but `\r` are added to `buf`.
pub fn handle_byte(byte: u8, buf: &mut LineBuffer, pipes: &mut u8) -> (field: Option<Field>)
    requires
        can_handle(byte, old(buf).text().len(), *old(pipes)),
    ensures
        *final(pipes) < FIELDS,
        is_ignored(byte) ==> field is None && final(buf).text() == old(buf).text() && *final(pipes) == *old(
            pipes,
        ),
        !is_ignored(byte) && is_separator(byte) ==> {
            &&& field matches Some(f) && f.pipe == *old(pipes) + 1 && f.text@ == old(buf).text()
            &&& final(buf).text().len() == 0
            &&& *final(pipes) == (if *old(pipes) + 1 == FIELDS {
                0
            } else {
                *old(pipes) + 1
            })
        },
        !is_ignored(byte) && !is_separator(byte) ==> field is None && final(buf).text() == old(buf).text().push(
            byte,
        ) && *final(pipes) == *old(pipes),
{
    if byte > 0x7f || byte == 13 {
        return None;
    }
    if byte == 124 {
        *pipes = *pipes + 1;
        let pipe = *pipes;
        if pipe == FIELDS {
            *pipes = 0;
        }
        let text = buf.to_vec();
        buf.clear();
        Some(Field { pipe, text })
    } else {
        let ok = buf.push_byte(byte);
        assert(ok);
        None
    }
}

} // verus!
