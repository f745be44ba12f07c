//! The response side of the status server: a buffer of fixed capacity that
//! text is appended to.

use crate::text::{spec_all_digits, spec_decimal};
use vstd::prelude::*;
use vstd::string::StringSliceAdditionalSpecFns;

verus! {

/// Bytes that a response holds at most.
pub const RESPONSE_CAPACITY: usize = 2048;

/// `heapless::Vec`, a vector of fixed capacity. Verus sees nothing inside
/// it; `response_bytes` names what a response buffer holds.
#[verifier::external_type_specification]
#[verifier::external_body]
#[verifier::reject_recursive_types(T)]
pub struct ExHeaplessVec<T, const N: usize>(heapless::Vec<T, N>);

/// The bytes that a response buffer holds, first to last.
pub uninterp spec fn response_bytes(data: heapless::Vec<u8, 2048>) -> Seq<u8>;

/// `heapless::Vec::new`: a buffer that holds nothing.
#[verifier::external_body]
fn buffer_new() -> (data: heapless::Vec<u8, 2048>)
    ensures
        response_bytes(data) == Seq::<u8>::empty(),
{
    heapless::Vec::new()
}

/// `heapless::Vec::clear`: the buffer holds nothing afterwards.
#[verifier::external_body]
fn buffer_clear(data: &mut heapless::Vec<u8, 2048>)
    ensures
        response_bytes(*final(data)) == Seq::<u8>::empty(),
{
    data.clear()
}

/// `heapless::Vec::extend_from_slice`: appends `other` if the buffer has
/// room for all of it, and otherwise changes nothing and reports an error.
#[verifier::external_body]
fn buffer_extend(data: &mut heapless::Vec<u8, 2048>, other: &[u8]) -> (done: Result<(), ()>)
    ensures
        done is Ok <==> response_bytes(*old(data)).len() + other@.len() <= RESPONSE_CAPACITY,
        response_bytes(*final(data)) == (if done is Ok {
            response_bytes(*old(data)) + other@
        } else {
            response_bytes(*old(data))
        }),
{
    data.extend_from_slice(other)
}

/// `heapless::Vec::as_slice`: the bytes that the buffer holds.
#[verifier::external_body]
fn buffer_as_slice(data: &heapless::Vec<u8, 2048>) -> (bytes: &[u8])
    ensures
        bytes@ == response_bytes(*data),
{
    data.as_slice()
}

pub struct HttpResponse {
    pub data: heapless::Vec<u8, 2048>,
}

/// The status line and headers of a page.
pub const HEAD_HTML: &'static str =
    "HTTP/1.1 200 OK\r\nContent-Type: text/html;charset=utf-8\r\nConnection: close\r\n\r\n";

/// The status line and headers of an answer of the interface.
pub const HEAD_JSON: &'static str =
    "HTTP/1.1 200 OK\r\nContent-Type: application/json\r\nConnection: close\r\n\r\n";

/// The whole answer to a request for something unknown.
pub const NOT_FOUND: &'static str = "HTTP/1.1 404 Not Found\r\nConnection: close\r\n\r\nNot Found";

/// The status line and headers of an answer to a request that cannot be
/// served.
pub const HEAD_BAD_REQUEST: &'static str = "HTTP/1.1 400 Bad Request\r\nConnection: close\r\n\r\n";

/// `buf` with `piece` appended, where the whole of it fits, and `buf`
/// otherwise.
pub open spec fn spec_push(buf: Seq<u8>, piece: Seq<u8>) -> Seq<u8> {
    if buf.len() + piece.len() <= RESPONSE_CAPACITY {
        buf + piece
    } else {
        buf
    }
}

/// A text in the making: what the buffer holds, and whether every piece
/// so far went in. Once a piece did not fit, the pieces behind it are
/// skipped.
pub struct Draft {
    pub bytes: Seq<u8>,
    pub ok: bool,
}

impl Draft {
    /// The draft after the next piece.
    pub open spec fn put(self, piece: Seq<u8>) -> Draft {
        if self.ok && self.bytes.len() + piece.len() <= RESPONSE_CAPACITY {
            Draft { bytes: self.bytes + piece, ok: true }
        } else {
            Draft { bytes: self.bytes, ok: false }
        }
    }

    /// The draft after the number `n` in decimal.
    pub open spec fn put_dec(self, n: nat) -> Draft {
        self.put(spec_decimal_text(n))
    }

    /// The draft after the byte `b` as two hexadecimal digits.
    pub open spec fn put_hex2(self, b: u8) -> Draft {
        self.put(spec_hex2(b))
    }
}

/// One piece of a text that is written in one go.
#[derive(Clone, Copy, Debug)]
pub enum Piece<'a> {
    /// The text as it stands.
    Text(&'a str),
    /// The bytes as they stand.
    Bytes(&'a [u8]),
    /// A number in decimal.
    Dec(u64),
    /// A byte as two hexadecimal digits.
    Hex2(u8),
}

/// The bytes that stand for the piece `p`.
pub open spec fn spec_piece(p: Piece) -> Seq<u8> {
    match p {
        Piece::Text(s) => s.spec_bytes(),
        Piece::Bytes(b) => b@,
        Piece::Dec(n) => spec_decimal_text(n as nat),
        Piece::Hex2(b) => spec_hex2(b),
    }
}

/// The draft after the first `upto` of `pieces`.
pub open spec fn spec_put_all(d: Draft, pieces: Seq<Piece>, upto: int) -> Draft
    decreases upto,
{
    if upto <= 0 {
        d
    } else {
        spec_put_all(d, pieces, upto - 1).put(spec_piece(pieces[upto - 1]))
    }
}

/// What a buffer that holds `bytes` holds after `pieces` were written to
/// it in one go: the pieces in their order, up to the first that does not
/// fit.
pub open spec fn spec_write(bytes: Seq<u8>, pieces: Seq<Piece>) -> Seq<u8> {
    spec_put_all(Draft { bytes, ok: true }, pieces, pieces.len() as int).bytes
}

/// The digit for `d`, which is below 10.
pub open spec fn spec_digit(d: nat) -> u8 {
    (48 + d) as u8
}

/// The decimal digits of `n`, without leading zeros.
pub open spec fn spec_decimal_text(n: nat) -> Seq<u8>
    decreases n,
{
    if n < 10 {
        seq![spec_digit(n)]
    } else {
        spec_decimal_text(n / 10).push(spec_digit(n % 10))
    }
}

/// The lower-case hexadecimal digit for `d`, which is below 16.
pub open spec fn spec_hex_digit(d: nat) -> u8 {
    if d < 10 {
        (48 + d) as u8
    } else {
        (87 + d) as u8
    }
}

/// The two hexadecimal digits of `b`.
pub open spec fn spec_hex2(b: u8) -> Seq<u8> {
    seq![spec_hex_digit((b / 16) as nat), spec_hex_digit((b % 16) as nat)]
}

/// The decimal text of a number spells that number.
pub proof fn lemma_decimal_text_spells(n: nat)
    ensures
        spec_all_digits(spec_decimal_text(n)),
        spec_decimal(spec_decimal_text(n)) == n,
        spec_decimal_text(n).len() >= 1,
    decreases n,
{
    if n < 10 {
        let t = spec_decimal_text(n);
        assert(t.drop_last() =~= Seq::<u8>::empty());
        assert(spec_decimal(t.drop_last()) == 0);
    } else {
        lemma_decimal_text_spells(n / 10);
        let front = spec_decimal_text(n / 10);
        let t = spec_decimal_text(n);
        assert(t.drop_last() =~= front);
        assert(t.last() == spec_digit(n % 10));
        assert forall|i: int| 0 <= i < t.len() implies crate::text::spec_is_digit(
            #[trigger] t[i],
        ) by {
            if i < front.len() {
                assert(t[i] == front[i]);
            }
        }
    }
}

/// The decimal digits of `n`.
pub fn decimal_text(n: u64) -> (text: Vec<u8>)
    ensures
        text@ == spec_decimal_text(n as nat),
{
    let mut reversed: Vec<u8> = Vec::new();
    let mut rest: u64 = n;
    while rest >= 10
        invariant
            spec_decimal_text(n as nat) == spec_decimal_text(rest as nat) + reversed@.reverse(),
        decreases rest,
    {
        let ghost before = reversed@;
        reversed.push(48 + (rest % 10) as u8);
        proof {
            assert(reversed@.reverse() =~= seq![spec_digit((rest % 10) as nat)]
                + before.reverse());
            assert(spec_decimal_text(rest as nat) =~= spec_decimal_text((rest / 10) as nat)
                + seq![spec_digit((rest % 10) as nat)]);
        }
        rest = rest / 10;
    }
    let mut text: Vec<u8> = Vec::new();
    text.push(48 + rest as u8);
    let count: usize = reversed.len();
    let mut k: usize = 0;
    while k < count
        invariant
            k <= count == reversed@.len(),
            text@ == spec_decimal_text(rest as nat) + reversed@.reverse().take(k as int),
        decreases count - k,
    {
        text.push(reversed[count - 1 - k]);
        assert(reversed@.reverse().take(k + 1) =~= reversed@.reverse().take(k as int).push(
            reversed@[count - 1 - k],
        ));
        k += 1;
    }
    assert(reversed@.reverse().take(count as int) =~= reversed@.reverse());
    text
}

/// The lower-case hexadecimal digit for `d`.
pub fn hex_digit(d: u8) -> (digit: u8)
    requires
        d < 16,
    ensures
        digit == spec_hex_digit(d as nat),
{
    if d < 10 {
        48 + d
    } else {
        87 + d
    }
}

impl View for HttpResponse {
    type V = Seq<u8>;

    open spec fn view(&self) -> Seq<u8> {
        response_bytes(self.data)
    }
}

impl HttpResponse {
    /// An empty response.
    pub fn new() -> (resp: Self)
        ensures
            resp@ == Seq::<u8>::empty(),
    {
        Self { data: buffer_new() }
    }

    /// Makes the response empty.
    pub fn clear(&mut self)
        ensures
            final(self)@ == Seq::<u8>::empty(),
    {
        buffer_clear(&mut self.data);
    }

    /// The bytes of the response.
    pub fn as_bytes(&self) -> (bytes: &[u8])
        ensures
            bytes@ == self@,
    {
        buffer_as_slice(&self.data)
    }

    /// Appends `s` if the whole of it fits, and reports an error if not.
    pub fn write_str(&mut self, s: &str) -> (done: Result<(), ()>)
        ensures
            done is Ok <==> old(self)@.len() + s.spec_bytes().len() <= RESPONSE_CAPACITY,
            final(self)@ == spec_push(old(self)@, s.spec_bytes()),
    {
        buffer_extend(&mut self.data, s.as_bytes())
    }

    /// Appends `s` if the whole of it fits.
    pub fn push_str(&mut self, s: &str)
        ensures
            final(self)@ == spec_push(old(self)@, s.spec_bytes()),
    {
        let _ = buffer_extend(&mut self.data, s.as_bytes());
    }

    /// Starts a page.
    pub fn ok_html(&mut self)
        ensures
            final(self)@ == spec_push(Seq::empty(), HEAD_HTML.spec_bytes()),
    {
        self.clear();
        self.push_str(HEAD_HTML);
    }

    /// Starts an answer of the interface.
    pub fn ok_json(&mut self)
        ensures
            final(self)@ == spec_push(Seq::empty(), HEAD_JSON.spec_bytes()),
    {
        self.clear();
        self.push_str(HEAD_JSON);
    }

    /// Answers that what was asked for is unknown.
    pub fn not_found(&mut self)
        ensures
            final(self)@ == spec_push(Seq::empty(), NOT_FOUND.spec_bytes()),
    {
        self.clear();
        self.push_str(NOT_FOUND);
    }

    /// Answers that the request cannot be served, with `msg` as the
    /// reason.
    pub fn bad_request(&mut self, msg: &str)
        ensures
            final(self)@ == spec_push(
                spec_push(Seq::empty(), HEAD_BAD_REQUEST.spec_bytes()),
                msg.spec_bytes(),
            ),
    {
        self.clear();
        self.push_str(HEAD_BAD_REQUEST);
        self.push_str(msg);
    }

    /// Appends the next piece of a text, unless an earlier piece of it did
    /// not fit; says whether all pieces so far went in.
    pub fn put(&mut self, ok: bool, piece: &[u8]) -> (still_ok: bool)
        ensures
            (Draft { bytes: final(self)@, ok: still_ok }) == (Draft { bytes: old(self)@, ok }).put(
                piece@,
            ),
    {
        if !ok {
            return false;
        }
        match buffer_extend(&mut self.data, piece) {
            Ok(_) => true,
            Err(_) => false,
        }
    }

    /// Writes `pieces` in one go: each piece is appended whole, and at the
    /// first piece that does not fit the writing ends.
    pub fn write(&mut self, pieces: &[Piece])
        ensures
            final(self)@ == spec_write(old(self)@, pieces@),
    {
        let count: usize = pieces.len();
        let mut ok = true;
        let mut k: usize = 0;
        while k < count
            invariant
                k <= count == pieces@.len(),
                (Draft { bytes: self@, ok }) == spec_put_all(
                    Draft { bytes: old(self)@, ok: true },
                    pieces@,
                    k as int,
                ),
            decreases count - k,
        {
            ok = match pieces[k] {
                Piece::Text(s) => self.put_str(ok, s),
                Piece::Bytes(b) => self.put(ok, b),
                Piece::Dec(n) => self.put_dec(ok, n),
                Piece::Hex2(b) => self.put_hex2(ok, b),
            };
            k += 1;
        }
    }

    /// Appends a piece of text.
    pub fn put_str(&mut self, ok: bool, piece: &str) -> (still_ok: bool)
        ensures
            (Draft { bytes: final(self)@, ok: still_ok }) == (Draft { bytes: old(self)@, ok }).put(
                piece.spec_bytes(),
            ),
    {
        self.put(ok, piece.as_bytes())
    }

    /// Appends a number in decimal.
    pub fn put_dec(&mut self, ok: bool, n: u64) -> (still_ok: bool)
        ensures
            (Draft { bytes: final(self)@, ok: still_ok }) == (Draft {
                bytes: old(self)@,
                ok,
            }).put_dec(n as nat),
    {
        let text = decimal_text(n);
        self.put(ok, text.as_slice())
    }

    /// Appends a byte as two hexadecimal digits.
    pub fn put_hex2(&mut self, ok: bool, b: u8) -> (still_ok: bool)
        ensures
            (Draft { bytes: final(self)@, ok: still_ok }) == (Draft {
                bytes: old(self)@,
                ok,
            }).put_hex2(b),
    {
        let digits: [u8; 2] = [hex_digit(b / 16), hex_digit(b % 16)];
        assert(digits@ =~= spec_hex2(b));
        self.put(ok, digits.as_slice())
    }
}

} // verus!
