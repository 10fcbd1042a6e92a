//! Fixed-capacity texts, held in `heapless::String`s: the display
//! text, the log text of a date, the status-line buffer and the upload URL.
use vstd::prelude::*;
use vstd::string::StringSliceAdditionalSpecFns;

verus! {

/// Every byte is ASCII.
pub open spec fn is_ascii_text(s: Seq<u8>) -> bool {
    forall|i: int| 0 <= i < s.len() ==> #[trigger] s[i] < 128
}

pub proof fn lemma_ascii_concat(a: Seq<u8>, b: Seq<u8>)
    requires
        is_ascii_text(a),
        is_ascii_text(b),
    ensures
        is_ascii_text(a + b),
{
    assert forall|i: int| 0 <= i < (a + b).len() implies #[trigger] (a + b)[i] < 128 by {
        if i < a.len() {
            assert((a + b)[i] == a[i]);
        } else {
            assert((a + b)[i] == b[i - a.len()]);
        }
    }
}

/// Joining ASCII texts gives ASCII text.
pub broadcast proof fn lemma_ascii_concat_auto(a: Seq<u8>, b: Seq<u8>)
    ensures
        is_ascii_text(a) && is_ascii_text(b) ==> #[trigger] is_ascii_text(a + b),
{
    if is_ascii_text(a) && is_ascii_text(b) {
        lemma_ascii_concat(a, b);
    }
}

/// The bytes of an ASCII string are ASCII.
pub proof fn lemma_str_ascii(s: &str)
    requires
        vstd::string::is_ascii(s),
    ensures
        is_ascii_text(s.spec_bytes()),
        s.spec_bytes().len() == s@.len(),
{
    broadcast use vstd::string::is_ascii_spec_bytes;
    broadcast use vstd::utf8::is_ascii_chars_nat_bound;

    assert forall|i: int| 0 <= i < s.spec_bytes().len() implies #[trigger] s.spec_bytes()[i] < 128 by {
        assert(s.spec_bytes()[i] == s@[i] as u8);
        assert((s@[i] as nat) < 128);
    }
}

/// The UTF-8 bytes of `c`.
pub open spec fn char_bytes(c: char) -> Seq<u8> {
    vstd::utf8::encode_scalar(c as u32)
}

/// An ASCII byte, as a character, is encoded as that byte.
pub proof fn lemma_ascii_char(b: u8)
    requires
        b < 128,
    ensures
        char_bytes(b as char) == seq![b],
{
    let u = (b as char) as u32;
    assert(u == b as u32);
    assert(((b as u32) & 0x7F) as u8 == b) by (bit_vector)
        requires
            b < 128,
    ;
}

/// A text of at most `capacity_spec()` bytes.
pub trait FixedText: Sized {
    /// The bytes of the text.
    spec fn text(&self) -> Seq<u8>;

    spec fn capacity_spec() -> nat;

    /// An empty text.
    fn empty() -> (t: Self)
        ensures
            t.text() == Seq::<u8>::empty(),
    ;

    /// Appends the UTF-8 bytes of `c`; refused, leaving the text as it is,
    /// when they do not fit.
    fn push_char(&mut self, c: char) -> (ok: bool)
        ensures
            ok == (old(self).text().len() + char_bytes(c).len() <= Self::capacity_spec()),
            ok ==> final(self).text() == old(self).text() + char_bytes(c),
            !ok ==> final(self).text() == old(self).text(),
    ;

    /// Appends the ASCII byte `b`; refused, leaving the text as it is, when it
    /// is full.
    fn push_byte(&mut self, b: u8) -> (ok: bool)
        requires
            b < 128,
        ensures
            ok == (old(self).text().len() < Self::capacity_spec()),
            ok ==> final(self).text() == old(self).text().push(b),
            !ok ==> final(self).text() == old(self).text(),
    {
        proof {
            lemma_ascii_char(b);
        }
        let ok = self.push_char(b as char);
        assert(old(self).text() + seq![b] =~= old(self).text().push(b));
        ok
    }

    /// A copy of the bytes.
    fn to_vec(&self) -> (v: Vec<u8>)
        ensures
            v@ == self.text(),
    ;
}

/// Appends `bytes`, which fit.
pub fn append<T: FixedText>(t: &mut T, bytes: &[u8])
    requires
        old(t).text().len() + bytes@.len() <= T::capacity_spec(),
        is_ascii_text(bytes@),
    ensures
        final(t).text() == old(t).text() + bytes@,
{
    let mut i: usize = 0;
    while i < bytes.len()
        invariant
            i <= bytes@.len(),
            is_ascii_text(bytes@),
            t.text() == old(t).text() + bytes@.take(i as int),
            old(t).text().len() + bytes@.len() <= T::capacity_spec(),
        decreases bytes@.len() - i,
    {
        let b = bytes[i];
        assert(b < 128);
        let ok = t.push_byte(b);
        assert(ok);
        assert(bytes@.take(i + 1) =~= bytes@.take(i as int).push(b));
        i = i + 1;
    }
    assert(bytes@.take(bytes@.len() as int) =~= bytes@);
}

/// The text holding `bytes`, or `None` when they do not fit.
pub fn text_of<T: FixedText>(bytes: &[u8]) -> (t: Option<T>)
    requires
        is_ascii_text(bytes@),
    ensures
        t is None <==> bytes@.len() > T::capacity_spec(),
        t matches Some(t) ==> t.text() == bytes@,
{
    let mut t = T::empty();
    let mut i: usize = 0;
    while i < bytes.len()
        invariant
            i <= bytes@.len(),
            is_ascii_text(bytes@),
            t.text() == bytes@.take(i as int),
            i <= T::capacity_spec(),
        decreases bytes@.len() - i,
    {
        let b = bytes[i];
        assert(b < 128);
        if !t.push_byte(b) {
            return None;
        }
        assert(bytes@.take(i + 1) =~= bytes@.take(i as int).push(b));
        i = i + 1;
    }
    assert(bytes@.take(bytes@.len() as int) =~= bytes@);
    Some(t)
}

/// The eight characters of a display.
#[verifier::external_body]
pub struct DisplayText {
    inner: heapless::String<8>,
}

/// What a `DisplayText` holds.
pub uninterp spec fn display_text_bytes(t: DisplayText) -> Seq<u8>;

/// Calls `heapless::String::<8>::new`, which holds nothing.
#[verifier::external_body]
fn display_text_new() -> (t: DisplayText)
    ensures
        display_text_bytes(t) == Seq::<u8>::empty(),
{
    DisplayText { inner: heapless::String::new() }
}

/// Calls `heapless::String::<8>::push` with `c`: its UTF-8 bytes are
/// appended when they fit in the 8 bytes, else an error and no change.
#[verifier::external_body]
fn display_text_push(t: &mut DisplayText, c: char) -> (ok: bool)
    ensures
        ok == (display_text_bytes(*old(t)).len() + char_bytes(c).len() <= 8),
        ok ==> display_text_bytes(*final(t)) == display_text_bytes(*old(t)) + char_bytes(c),
        !ok ==> display_text_bytes(*final(t)) == display_text_bytes(*old(t)),
{
    t.inner.push(c).is_ok()
}

/// Copies the bytes of the `heapless::String::<8>`.
#[verifier::external_body]
fn display_text_to_vec(t: &DisplayText) -> (v: Vec<u8>)
    ensures
        v@ == display_text_bytes(*t),
{
    t.inner.as_bytes().to_vec()
}

impl FixedText for DisplayText {
    closed spec fn text(&self) -> Seq<u8> {
        display_text_bytes(*self)
    }

    open spec fn capacity_spec() -> nat {
        8
    }

    fn empty() -> (t: Self) {
        display_text_new()
    }

    fn push_char(&mut self, c: char) -> (ok: bool) {
        display_text_push(self, c)
    }

    fn to_vec(&self) -> (v: Vec<u8>) {
        display_text_to_vec(self)
    }
}

/// A date rendered for the log.
#[verifier::external_body]
pub struct DebugText {
    inner: heapless::String<40>,
}

/// What a `DebugText` holds.
pub uninterp spec fn debug_text_bytes(t: DebugText) -> Seq<u8>;

/// Calls `heapless::String::<40>::new`, which holds nothing.
#[verifier::external_body]
fn debug_text_new() -> (t: DebugText)
    ensures
        debug_text_bytes(t) == Seq::<u8>::empty(),
{
    DebugText { inner: heapless::String::new() }
}

/// Calls `heapless::String::<40>::push` with `c`: its UTF-8 bytes are
/// appended when they fit in the 40 bytes, else an error and no change.
#[verifier::external_body]
fn debug_text_push(t: &mut DebugText, c: char) -> (ok: bool)
    ensures
        ok == (debug_text_bytes(*old(t)).len() + char_bytes(c).len() <= 40),
        ok ==> debug_text_bytes(*final(t)) == debug_text_bytes(*old(t)) + char_bytes(c),
        !ok ==> debug_text_bytes(*final(t)) == debug_text_bytes(*old(t)),
{
    t.inner.push(c).is_ok()
}

/// Copies the bytes of the `heapless::String::<40>`.
#[verifier::external_body]
fn debug_text_to_vec(t: &DebugText) -> (v: Vec<u8>)
    ensures
        v@ == debug_text_bytes(*t),
{
    t.inner.as_bytes().to_vec()
}

impl FixedText for DebugText {
    closed spec fn text(&self) -> Seq<u8> {
        debug_text_bytes(*self)
    }

    open spec fn capacity_spec() -> nat {
        40
    }

    fn empty() -> (t: Self) {
        debug_text_new()
    }

    fn push_char(&mut self, c: char) -> (ok: bool) {
        debug_text_push(self, c)
    }

    fn to_vec(&self) -> (v: Vec<u8>) {
        debug_text_to_vec(self)
    }
}

/// The buffer of the status line being received.
#[verifier::external_body]
pub struct LineBuffer {
    inner: heapless::String<50>,
}

/// What a `LineBuffer` holds.
pub uninterp spec fn line_buffer_bytes(t: LineBuffer) -> Seq<u8>;

/// Calls `heapless::String::<50>::new`, which holds nothing.
#[verifier::external_body]
fn line_buffer_new() -> (t: LineBuffer)
    ensures
        line_buffer_bytes(t) == Seq::<u8>::empty(),
{
    LineBuffer { inner: heapless::String::new() }
}

/// Calls `heapless::String::<50>::push` with `c`: its UTF-8 bytes are
/// appended when they fit in the 50 bytes, else an error and no change.
#[verifier::external_body]
fn line_buffer_push(t: &mut LineBuffer, c: char) -> (ok: bool)
    ensures
        ok == (line_buffer_bytes(*old(t)).len() + char_bytes(c).len() <= 50),
        ok ==> line_buffer_bytes(*final(t)) == line_buffer_bytes(*old(t)) + char_bytes(c),
        !ok ==> line_buffer_bytes(*final(t)) == line_buffer_bytes(*old(t)),
{
    t.inner.push(c).is_ok()
}

/// Copies the bytes of the `heapless::String::<50>`.
#[verifier::external_body]
fn line_buffer_to_vec(t: &LineBuffer) -> (v: Vec<u8>)
    ensures
        v@ == line_buffer_bytes(*t),
{
    t.inner.as_bytes().to_vec()
}

impl FixedText for LineBuffer {
    closed spec fn text(&self) -> Seq<u8> {
        line_buffer_bytes(*self)
    }

    open spec fn capacity_spec() -> nat {
        50
    }

    fn empty() -> (t: Self) {
        line_buffer_new()
    }

    fn push_char(&mut self, c: char) -> (ok: bool) {
        line_buffer_push(self, c)
    }

    fn to_vec(&self) -> (v: Vec<u8>) {
        line_buffer_to_vec(self)
    }
}

/// Calls `heapless::String::<50>::clear`, which empties it.
#[verifier::external_body]
fn line_buffer_clear(t: &mut LineBuffer)
    ensures
        line_buffer_bytes(*final(t)) == Seq::<u8>::empty(),
{
    t.inner.clear()
}

impl LineBuffer {
    /// Empties the buffer.
    pub fn clear(&mut self)
        ensures
            final(self).text() == Seq::<u8>::empty(),
    {
        line_buffer_clear(self)
    }
}

/// The URL the readings are posted to.
#[verifier::external_body]
pub struct QueryText {
    inner: heapless::String<128>,
}

/// What a `QueryText` holds.
pub uninterp spec fn query_buffer_bytes(t: QueryText) -> Seq<u8>;

/// Calls `heapless::String::<128>::new`, which holds nothing.
#[verifier::external_body]
fn query_text_new() -> (t: QueryText)
    ensures
        query_buffer_bytes(t) == Seq::<u8>::empty(),
{
    QueryText { inner: heapless::String::new() }
}

/// Calls `heapless::String::<128>::push` with `c`: its UTF-8 bytes are
/// appended when they fit in the 128 bytes, else an error and no change.
#[verifier::external_body]
fn query_text_push(t: &mut QueryText, c: char) -> (ok: bool)
    ensures
        ok == (query_buffer_bytes(*old(t)).len() + char_bytes(c).len() <= 128),
        ok ==> query_buffer_bytes(*final(t)) == query_buffer_bytes(*old(t)) + char_bytes(c),
        !ok ==> query_buffer_bytes(*final(t)) == query_buffer_bytes(*old(t)),
{
    t.inner.push(c).is_ok()
}

/// Copies the bytes of the `heapless::String::<128>`.
#[verifier::external_body]
fn query_text_to_vec(t: &QueryText) -> (v: Vec<u8>)
    ensures
        v@ == query_buffer_bytes(*t),
{
    t.inner.as_bytes().to_vec()
}

impl FixedText for QueryText {
    closed spec fn text(&self) -> Seq<u8> {
        query_buffer_bytes(*self)
    }

    open spec fn capacity_spec() -> nat {
        128
    }

    fn empty() -> (t: Self) {
        query_text_new()
    }

    fn push_char(&mut self, c: char) -> (ok: bool) {
        query_text_push(self, c)
    }

    fn to_vec(&self) -> (v: Vec<u8>) {
        query_text_to_vec(self)
    }
}

} // verus!
