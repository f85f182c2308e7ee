//! A cursor over the bytes of an encoded module.

use vstd::prelude::*;
use vstd::slice::slice_to_vec;

verus! {

/// The error that `std::str::from_utf8` gives for bytes that are not
/// UTF-8. Nothing is claimed of what it holds.
#[verifier::external_type_specification]
#[verifier::external_body]
pub struct ExUtf8Error(std::str::Utf8Error);

/// Why decoding stopped, and at which offset of the input.
#[derive(Debug, PartialEq, Eq)]
pub struct ParseError {
    pub kind: ErrorKind,
    pub offset: usize,
}

/// What was wrong with the input.
#[allow(inconsistent_fields)]
#[derive(Debug, PartialEq, Eq)]
pub enum ErrorKind {
    NotEnoughBytes { expected: usize, found: usize },
    UnexpectedConst { expected: Vec<u8>, found: Vec<u8> },
    UnexpectedValType { found: u8 },
    SectionNotEmpty { remains: Vec<u8> },
    Utf8Error { error: std::str::Utf8Error },
    UnexpectedOpCode { op: u8 },
    UnexpectedNameSubsection { found: u8 },
}

/// A parser as a mathematical value: the bytes not yet consumed, and the
/// offset of the first of them in the input that the parser, or the one it
/// was forked from, began with.
pub struct ParserView {
    pub bytes: Seq<u8>,
    pub cursor: usize,
}

impl ParserView {
    /// Whether the end of the input is an offset that the machine can
    /// hold. This holds of every parser, and every method says so, so
    /// that no offset in a contract wraps.
    pub open spec fn in_range(self) -> bool {
        self.cursor + self.bytes.len() <= usize::MAX
    }

    /// Whether `after` is this parser once it has consumed `n` bytes: the
    /// first `n` bytes are gone and the cursor is greater by exactly `n`.
    pub open spec fn advances_to(self, n: int, after: ParserView) -> bool {
        after.bytes == self.bytes.skip(n) && after.cursor == self.cursor + n
    }
}

/// Whether `e` is the error for an input that ends where `expected` more
/// bytes were needed and `found` were left, at `offset`.
pub open spec fn is_short(e: ParseError, expected: int, found: int, offset: int) -> bool {
    &&& e.kind matches ErrorKind::NotEnoughBytes { expected: needed, found: left }
    &&& needed == expected
    &&& left == found
    &&& e.offset == offset
}

/// The position of the byte that ends the LEB128 encoding which begins at
/// `from`: the first byte from there on whose top bit is clear. There is
/// none where every byte to the end of `s` has the top bit set.
pub open spec fn leb128_end(s: Seq<u8>, from: int) -> Option<int>
    decreases s.len() - from,
{
    if from < 0 || from >= s.len() {
        None
    } else if s[from] & 0x80 == 0 {
        Some(from)
    } else {
        leb128_end(s, from + 1)
    }
}

/// The byte that ends an encoding lies in the input, at or behind the
/// start; its top bit is clear, and the top bit of every byte before it
/// is set.
pub proof fn lemma_leb128_end(s: Seq<u8>, from: int)
    ensures
        leb128_end(s, from) matches Some(last) ==> {
            &&& 0 <= from <= last < s.len()
            &&& s[last] & 0x80 == 0
            &&& forall|j: int| from <= j < last ==> #[trigger] s[j] & 0x80 != 0
        },
        leb128_end(s, from) is None && 0 <= from ==> forall|j: int|
            from <= j < s.len() ==> #[trigger] s[j] & 0x80 != 0,
    decreases s.len() - from,
{
    if 0 <= from < s.len() && s[from] & 0x80 != 0 {
        lemma_leb128_end(s, from + 1);
    }
}

/// What byte `b` at position `i` of an unsigned LEB128 encoding adds to
/// the value: its low seven bits, at bits `7i` to `7i + 6`. Bits past the
/// 64th are dropped.
pub open spec fn uleb128_group(b: u8, i: int) -> u64 {
    if 0 <= i && 7 * i < 64 {
        ((b & 0x7f) as u64) << ((7 * i) as u32)
    } else {
        0
    }
}

/// The value of the first `n` bytes of an unsigned LEB128 encoding.
pub open spec fn uleb128_value(s: Seq<u8>, n: int) -> u64
    decreases n,
{
    if n <= 0 {
        0
    } else {
        uleb128_value(s, n - 1) | uleb128_group(s[n - 1], n - 1)
    }
}

/// What byte `b` at position `i` of a signed LEB128 encoding adds to the
/// value: its low seven bits, at bits `7i` to `7i + 6`. Bits past the 64th
/// are dropped.
pub open spec fn sleb128_group(b: u8, i: int) -> i64 {
    if 0 <= i && 7 * i < 64 {
        ((b & 0x7f) as i64) << ((7 * i) as u32)
    } else {
        0
    }
}

/// The seven-bit groups of the first `n` bytes of a signed LEB128
/// encoding, put together.
pub open spec fn sleb128_bits(s: Seq<u8>, n: int) -> i64
    decreases n,
{
    if n <= 0 {
        0
    } else {
        sleb128_bits(s, n - 1) | sleb128_group(s[n - 1], n - 1)
    }
}

/// The value of the signed LEB128 encoding in `s` that ends at `last`.
///
/// The groups are put together as in the unsigned case. Bit 6 of the last
/// byte is the sign: where it is set, every bit above the last group is
/// set as well, as far as the groups do not fill all 64 bits already.
pub open spec fn sleb128_value(s: Seq<u8>, last: int) -> i64 {
    let bits = sleb128_bits(s, last + 1);
    if 7 * (last + 1) < 64 && s[last] & 0x40 != 0 {
        bits | ((-1i64) << ((7 * (last + 1)) as u32))
    } else {
        bits
    }
}

proof fn lemma_group_fits(r: i64, b: u8, k: u32, m: u32)
    by (bit_vector)
    requires
        k <= 56,
        m == k + 7,
        r & ((-1i64) << k) == 0,
    ensures
        (r | (((b & 0x7f) as i64) << k)) & ((-1i64) << m) == 0,
        r | (((b & 0x7f) as i64) << k) == r + (((b & 0x7f) as i64) << k),
        0 <= r | (((b & 0x7f) as i64) << k),
{
}

proof fn lemma_sign_fill(r: i64, m: u32)
    by (bit_vector)
    requires
        m < 63,
        r & ((-1i64) << m) == 0,
    ensures
        r | ((-1i64) << m) == r - (1i64 << m),
        0 <= r < (1i64 << m),
{
}

/// The groups of the first `n` bytes, as far as they fit into 63 bits, do
/// not overlap: they add up, each byte's seven bits times 128 to the power
/// of its position, to a number below 128 to the power of `n`.
pub proof fn lemma_sleb128_bits_add_up(s: Seq<u8>, n: int)
    requires
        0 <= n <= 9,
    ensures
        sleb128_bits(s, n) & ((-1i64) << ((7 * n) as u32)) == 0,
        0 <= sleb128_bits(s, n),
        n > 0 ==> sleb128_bits(s, n) == sleb128_bits(s, n - 1) + sleb128_group(s[n - 1], n - 1),
    decreases n,
{
    if n == 0 {
        assert(0i64 & ((-1i64) << 0u32) == 0) by (bit_vector);
    } else {
        lemma_sleb128_bits_add_up(s, n - 1);
        lemma_group_fits(sleb128_bits(s, n - 1), s[n - 1], (7 * (n - 1)) as u32, (7 * n) as u32);
    }
}

/// The value of a signed LEB128 encoding of at most eight bytes is the sum
/// of its groups where bit 6 of the last byte is clear, and that sum less
/// 128 to the power of the number of bytes where it is set.
pub proof fn lemma_sleb128_value_is_twos_complement(s: Seq<u8>, last: int)
    requires
        0 <= last <= 7,
    ensures
        ({
            let sum = sleb128_bits(s, last + 1);
            let top = 1i64 << ((7 * (last + 1)) as u32);
            &&& 0 <= sum < top
            &&& sleb128_value(s, last) == (if s[last] & 0x40 != 0 {
                sum - top
            } else {
                sum as int
            })
        }),
{
    lemma_sleb128_bits_add_up(s, last + 1);
    lemma_sign_fill(sleb128_bits(s, last + 1), (7 * (last + 1)) as u32);
}

/// A cursor over a byte slice.
#[derive(Debug)]
pub struct Parser<'a> {
    bytes: &'a [u8],
    cursor: usize,
}

impl<'a> View for Parser<'a> {
    type V = ParserView;

    closed spec fn view(&self) -> ParserView {
        ParserView { bytes: self.bytes@, cursor: self.cursor }
    }
}

/// Whether the two slices hold the same bytes.
fn same_bytes(a: &[u8], b: &[u8]) -> (r: bool)
    ensures
        r == (a@ == b@),
{
    if a.len() != b.len() {
        return false;
    }
    let mut i: usize = 0;
    while i < a.len()
        invariant
            i <= a.len(),
            a.len() == b.len(),
            a@.take(i as int) == b@.take(i as int),
        decreases a.len() - i,
    {
        if a[i] != b[i] {
            return false;
        }
        assert(a@.take(i + 1) =~= a@.take(i as int).push(a@[i as int]));
        assert(b@.take(i + 1) =~= b@.take(i as int).push(b@[i as int]));
        i = i + 1;
    }
    assert(a@.take(i as int) =~= a@);
    assert(b@.take(i as int) =~= b@);
    true
}

impl<'a> Parser<'a> {
    /// The end of the input is never past what an offset can hold.
    #[verifier::type_invariant]
    spec fn within_offsets(self) -> bool {
        self@.in_range()
    }

    /// A parser at the start of `bytes`.
    pub fn new(bytes: &'a [u8]) -> (p: Parser<'a>)
        ensures
            p@ == (ParserView { bytes: bytes@, cursor: 0 }),
            p@.in_range(),
    {
        assert(bytes.len() == bytes@.len());
        Parser { bytes, cursor: 0 }
    }

    /// The bytes not yet consumed.
    pub fn get_bytes(&self) -> (bytes: &[u8])
        ensures
            bytes@ == self@.bytes,
            self@.in_range(),
    {
        proof {
            use_type_invariant(self);
        }
        self.bytes
    }

    /// The offset of the next byte.
    pub fn get_cursor(&self) -> (cursor: usize)
        ensures
            cursor == self@.cursor,
            self@.in_range(),
    {
        proof {
            use_type_invariant(self);
        }
        self.cursor
    }

    /// Consumes `n` bytes and returns a parser over just these, which
    /// counts its offsets on from this parser's. Where fewer than `n`
    /// bytes are left, nothing is consumed.
    pub fn fork(&mut self, n: usize) -> (r: Result<Parser<'a>, ParseError>)
        ensures
            old(self)@.in_range(),
            final(self)@.in_range(),
            n <= old(self)@.bytes.len() ==> {
                &&& r matches Ok(sub)
                &&& sub@.bytes == old(self)@.bytes.take(n as int)
                &&& sub@.cursor == old(self)@.cursor
                &&& sub@.in_range()
                &&& old(self)@.advances_to(n as int, final(self)@)
            },
            n > old(self)@.bytes.len() ==> {
                &&& r matches Err(e)
                &&& is_short(e, n as int, old(self)@.bytes.len() as int, old(self)@.cursor as int)
                &&& final(self)@ == old(self)@
            },
    {
        proof {
            use_type_invariant(&*self);
        }
        let cursor: usize = self.cursor;
        let data = self.consume(n)?;
        Ok(Parser { bytes: data, cursor })
    }

    /// Consumes `n` bytes and returns them. Where fewer are left, nothing
    /// is consumed.
    pub fn consume(&mut self, n: usize) -> (r: Result<&'a [u8], ParseError>)
        ensures
            old(self)@.in_range(),
            final(self)@.in_range(),
            n <= old(self)@.bytes.len() ==> {
                &&& r matches Ok(taken)
                &&& taken@ == old(self)@.bytes.take(n as int)
                &&& old(self)@.advances_to(n as int, final(self)@)
            },
            n > old(self)@.bytes.len() ==> {
                &&& r matches Err(e)
                &&& is_short(e, n as int, old(self)@.bytes.len() as int, old(self)@.cursor as int)
                &&& final(self)@ == old(self)@
            },
    {
        proof {
            use_type_invariant(&*self);
        }
        let len: usize = self.bytes.len();
        if len >= n {
            let (consumed, rest) = self.bytes.split_at(n);
            self.bytes = rest;
            self.cursor = self.cursor + n;
            Ok(consumed)
        } else {
            Err(
                ParseError {
                    kind: ErrorKind::NotEnoughBytes { expected: n, found: len },
                    offset: self.cursor,
                },
            )
        }
    }

    /// Consumes `n` bytes. Where fewer are left, nothing is consumed.
    pub fn skip(&mut self, n: usize) -> (r: Result<(), ParseError>)
        ensures
            old(self)@.in_range(),
            final(self)@.in_range(),
            n <= old(self)@.bytes.len() ==> r is Ok && old(self)@.advances_to(
                n as int,
                final(self)@,
            ),
            n > old(self)@.bytes.len() ==> {
                &&& r matches Err(e)
                &&& is_short(e, n as int, old(self)@.bytes.len() as int, old(self)@.cursor as int)
                &&& final(self)@ == old(self)@
            },
    {
        let _ = self.consume(n)?;
        Ok(())
    }

    /// Consumes as many bytes as `expect` has and compares them with it.
    ///
    /// Where fewer bytes are left, nothing is consumed. Where the bytes
    /// differ from `expect` they are consumed all the same, and the error
    /// holds both and the offset at which they began.
    pub fn consume_const(&mut self, expect: &[u8]) -> (r: Result<(), ParseError>)
        ensures
            old(self)@.in_range(),
            final(self)@.in_range(),
            expect@.len() > old(self)@.bytes.len() ==> {
                &&& r matches Err(e)
                &&& is_short(
                    e,
                    expect@.len() as int,
                    old(self)@.bytes.len() as int,
                    old(self)@.cursor as int,
                )
                &&& final(self)@ == old(self)@
            },
            expect@.len() <= old(self)@.bytes.len() ==> old(self)@.advances_to(
                expect@.len() as int,
                final(self)@,
            ),
            expect@.len() <= old(self)@.bytes.len() && old(self)@.bytes.take(expect@.len() as int)
                == expect@ ==> r is Ok,
            expect@.len() <= old(self)@.bytes.len() && old(self)@.bytes.take(expect@.len() as int)
                != expect@ ==> {
                &&& r matches Err(e)
                &&& e.offset == old(self)@.cursor
                &&& e.kind matches ErrorKind::UnexpectedConst { expected, found }
                &&& expected@ == expect@
                &&& found@ == old(self)@.bytes.take(expect@.len() as int)
            },
    {
        let slice = self.consume(expect.len())?;
        if same_bytes(slice, expect) {
            Ok(())
        } else {
            Err(
                ParseError {
                    kind: ErrorKind::UnexpectedConst {
                        expected: slice_to_vec(expect),
                        found: slice_to_vec(slice),
                    },
                    offset: self.cursor - expect.len(),
                },
            )
        }
    }

    /// Decodes an unsigned LEB128 integer.
    ///
    /// The bytes up to and with the first whose top bit is clear are
    /// consumed, and their seven-bit groups are put together, the first
    /// byte lowest. Where the input ends before such a byte, all of it is
    /// consumed and the error is that of a missing byte at its end.
    pub fn consume_uleb128(&mut self) -> (r: Result<u64, ParseError>)
        ensures
            old(self)@.in_range(),
            final(self)@.in_range(),
            match leb128_end(old(self)@.bytes, 0) {
                Some(last) => r == Ok::<u64, ParseError>(
                    uleb128_value(old(self)@.bytes, last + 1),
                ) && old(self)@.advances_to(last + 1, final(self)@),
                None => {
                    &&& r matches Err(e)
                    &&& is_short(e, 1, 0, old(self)@.cursor + old(self)@.bytes.len())
                    &&& old(self)@.advances_to(old(self)@.bytes.len() as int, final(self)@)
                },
            },
    {
        proof {
            use_type_invariant(&*self);
        }
        let ghost input = self@.bytes;
        let ghost mut i: int = 0;
        let mut result: u64 = 0;
        let mut shift: u32 = 0;
        assert(input.skip(0) =~= input);
        loop
            invariant
                0 <= i <= input.len(),
                input == old(self)@.bytes,
                old(self)@.in_range(),
                self@.in_range(),
                old(self)@.advances_to(i, self@),
                leb128_end(input, 0) == leb128_end(input, i),
                result == uleb128_value(input, i),
                shift == (if 7 * i < 64 {
                    7 * i
                } else {
                    70
                }),
            decreases input.len() - i,
        {
            let r = self.consume_byte();
            let byte: u8 = match r {
                Ok(byte) => byte,
                Err(e) => {
                    assert(input.skip(i).len() == 0);
                    return Err(e);
                },
            };
            assert(byte == input[i]);
            assert(input.skip(i).skip(1) =~= input.skip(i + 1));
            if shift < 64 {
                result = result | (((byte & 0x7f) as u64) << shift);
            } else {
                assert(result | 0 == result) by (bit_vector);
            }
            proof {
                i = i + 1;
            }
            if (byte & 0x80) == 0 {
                return Ok(result);
            }
            if shift < 64 {
                shift = shift + 7;
            }
        }
    }

    /// Decodes a signed LEB128 integer.
    ///
    /// The bytes up to and with the first whose top bit is clear are
    /// consumed, their seven-bit groups are put together, the first byte
    /// lowest, and the sign, bit 6 of the last byte, is extended over the
    /// bits above the last group. Where the input ends before such a byte,
    /// all of it is consumed and the error is that of a missing byte at
    /// its end.
    pub fn consume_sleb128(&mut self) -> (r: Result<i64, ParseError>)
        ensures
            old(self)@.in_range(),
            final(self)@.in_range(),
            match leb128_end(old(self)@.bytes, 0) {
                Some(last) => r == Ok::<i64, ParseError>(sleb128_value(old(self)@.bytes, last))
                    && old(self)@.advances_to(last + 1, final(self)@),
                None => {
                    &&& r matches Err(e)
                    &&& is_short(e, 1, 0, old(self)@.cursor + old(self)@.bytes.len())
                    &&& old(self)@.advances_to(old(self)@.bytes.len() as int, final(self)@)
                },
            },
    {
        proof {
            use_type_invariant(&*self);
        }
        let ghost input = self@.bytes;
        let ghost mut i: int = 0;
        let mut result: i64 = 0;
        let mut shift: u32 = 0;
        assert(input.skip(0) =~= input);
        loop
            invariant
                0 <= i <= input.len(),
                input == old(self)@.bytes,
                old(self)@.in_range(),
                self@.in_range(),
                old(self)@.advances_to(i, self@),
                leb128_end(input, 0) == leb128_end(input, i),
                result == sleb128_bits(input, i),
                shift == (if 7 * i < 64 {
                    7 * i
                } else {
                    70
                }),
            decreases input.len() - i,
        {
            let r = self.consume_byte();
            let byte: u8 = match r {
                Ok(byte) => byte,
                Err(e) => {
                    assert(input.skip(i).len() == 0);
                    return Err(e);
                },
            };
            assert(byte == input[i]);
            assert(input.skip(i).skip(1) =~= input.skip(i + 1));
            if shift < 64 {
                result = result | (((byte & 0x7f) as i64) << shift);
                shift = shift + 7;
            } else {
                assert(result | 0 == result) by (bit_vector);
            }
            proof {
                i = i + 1;
            }
            if (byte & 0x80) == 0 {
                if shift < 64 && (byte & 0x40) != 0 {
                    result = result | ((-1i64) << shift);
                }
                return Ok(result);
            }
        }
    }

    /// The next byte, which stays unconsumed.
    pub fn byte(&self) -> (r: Result<u8, ParseError>)
        ensures
            self@.in_range(),
            self@.bytes.len() > 0 ==> r == Ok::<u8, ParseError>(self@.bytes[0]),
            self@.bytes.len() == 0 ==> {
                &&& r matches Err(e)
                &&& is_short(e, 1, 0, self@.cursor as int)
            },
    {
        proof {
            use_type_invariant(self);
        }
        if self.bytes.len() == 0 {
            Err(
                ParseError {
                    kind: ErrorKind::NotEnoughBytes { expected: 1, found: 0 },
                    offset: self.cursor,
                },
            )
        } else {
            Ok(self.bytes[0])
        }
    }

    /// Consumes one byte and returns it.
    pub fn consume_byte(&mut self) -> (r: Result<u8, ParseError>)
        ensures
            old(self)@.in_range(),
            final(self)@.in_range(),
            old(self)@.bytes.len() > 0 ==> r == Ok::<u8, ParseError>(old(self)@.bytes[0])
                && old(self)@.advances_to(1, final(self)@),
            old(self)@.bytes.len() == 0 ==> {
                &&& r matches Err(e)
                &&& is_short(e, 1, 0, old(self)@.cursor as int)
                &&& final(self)@ == old(self)@
            },
    {
        proof {
            use_type_invariant(&*self);
        }
        if self.bytes.len() == 0 {
            Err(
                ParseError {
                    kind: ErrorKind::NotEnoughBytes { expected: 1, found: 0 },
                    offset: self.cursor,
                },
            )
        } else {
            let byte: u8 = self.bytes[0];
            let (_, rest) = self.bytes.split_at(1);
            self.bytes = rest;
            self.cursor = self.cursor + 1;
            Ok(byte)
        }
    }

    /// Whether no byte is left.
    pub fn all_consumed(&self) -> (r: bool)
        ensures
            r == (self@.bytes.len() == 0),
            self@.in_range(),
    {
        proof {
            use_type_invariant(self);
        }
        self.bytes.len() == 0
    }
}

} // verus!
