//! Binary PGM (P5) frame files: the header tokenizer, the decimal fields,
//! decoding of a stored frame and encoding of a grayscale frame.

use vstd::prelude::*;
use crate::comm::ApiError;

verus! {

/// ASCII whitespace as `u8::is_ascii_whitespace` defines it: space, tab,
/// line feed, form feed and carriage return.
pub open spec fn is_ascii_space(b: u8) -> bool {
    b == 0x20u8 || b == 0x09u8 || b == 0x0au8 || b == 0x0cu8 || b == 0x0du8
}

pub open spec fn is_ascii_digit(b: u8) -> bool {
    0x30u8 <= b <= 0x39u8
}

/// Index of the first header byte at or after `i` that is neither whitespace
/// nor inside a `#` comment (a comment runs up to and including its line feed).
pub open spec fn skip_filler(data: Seq<u8>, i: int, in_comment: bool) -> int
    decreases data.len() - i,
{
    if i < 0 || i >= data.len() {
        i
    } else if in_comment {
        if data[i] == 0x0au8 {
            skip_filler(data, i + 1, false)
        } else {
            skip_filler(data, i + 1, true)
        }
    } else if is_ascii_space(data[i]) {
        skip_filler(data, i + 1, false)
    } else if data[i] == 0x23u8 {
        skip_filler(data, i + 1, true)
    } else {
        i
    }
}

/// End (exclusive) of the run of non-whitespace bytes that starts at `i`.
pub open spec fn token_end(data: Seq<u8>, i: int) -> int
    decreases data.len() - i,
{
    if 0 <= i < data.len() && !is_ascii_space(data[i]) {
        token_end(data, i + 1)
    } else {
        i
    }
}

/// Start of the next header token after position `i`.
pub open spec fn token_start(data: Seq<u8>, i: int) -> int {
    skip_filler(data, i, false)
}

/// The next header token after position `i`, if one exists.
pub open spec fn next_token(data: Seq<u8>, i: int) -> Option<Seq<u8>> {
    let s = token_start(data, i);
    let e = token_end(data, s);
    if s < e {
        Some(data.subrange(s, e))
    } else {
        None
    }
}

/// Position just after the next header token (or where scanning stopped).
pub open spec fn after_token(data: Seq<u8>, i: int) -> int {
    token_end(data, token_start(data, i))
}

/// Value of a sequence of ASCII decimal digits.
pub open spec fn digits_value(s: Seq<u8>) -> nat
    decreases s.len(),
{
    if s.len() == 0 {
        0
    } else {
        digits_value(s.drop_last()) * 10 + (s.last() - 0x30u8) as nat
    }
}

pub open spec fn all_digits(s: Seq<u8>) -> bool {
    forall|i: int| 0 <= i < s.len() ==> is_ascii_digit(#[trigger] s[i])
}

/// The digits of a textual `u32` after its optional leading `+`.
pub open spec fn unsigned_digits(s: Seq<u8>) -> Seq<u8> {
    if s.len() > 0 && s[0] == 0x2bu8 {
        s.drop_first()
    } else {
        s
    }
}

/// What `str::parse::<u32>` yields for these bytes read as text: an optional
/// `+`, then at least one ASCII digit, with a value that fits in a `u32`.
pub open spec fn decimal_u32(s: Seq<u8>) -> Option<u32> {
    let d = unsigned_digits(s);
    if d.len() > 0 && all_digits(d) && digits_value(d) <= u32::MAX {
        Some(digits_value(d) as u32)
    } else {
        None
    }
}

/// The decimal text of `n`, without sign or leading zeros.
pub open spec fn decimal_digits(n: nat) -> Seq<u8>
    decreases n,
{
    if n < 10 {
        seq![(0x30 + n) as u8]
    } else {
        decimal_digits(n / 10).push((0x30 + n % 10) as u8)
    }
}

/// The header of a binary PGM image of the given size with maximum value 255.
pub open spec fn pgm_header(width: u32, height: u32) -> Seq<u8> {
    seq![0x50u8, 0x35u8, 0x0au8] + decimal_digits(width as nat) + seq![0x20u8]
        + decimal_digits(height as nat) + seq![0x0au8, 0x32u8, 0x35u8, 0x35u8, 0x0au8]
}

/// Which header field a PGM fault concerns.
#[derive(Debug, Clone, Copy, PartialEq, Eq)]
pub enum PgmField {
    Width,
    Height,
    MaxValue,
}

/// Why a stored frame could not be decoded.
#[derive(Debug, Clone, Copy, PartialEq, Eq)]
pub enum PgmFault {
    NoHeader,
    NotBinary,
    MissingField(PgmField),
    InvalidField(PgmField),
    NoSeparator,
    Mismatch,
    TooLarge,
    BadLength,
}

pub open spec fn field_label(field: PgmField) -> Seq<char> {
    match field {
        PgmField::Width => "width"@,
        PgmField::Height => "height"@,
        PgmField::MaxValue => "max value"@,
    }
}

/// The message that accompanies each decoding fault.
pub open spec fn pgm_fault_text(fault: PgmFault) -> Seq<char> {
    match fault {
        PgmFault::NoHeader => "recorded frame has no PGM header"@,
        PgmFault::NotBinary => "recorded frame is not binary PGM"@,
        PgmFault::MissingField(f) => "recorded PGM has no "@ + field_label(f),
        PgmFault::InvalidField(f) => "recorded PGM has an invalid "@ + field_label(f),
        PgmFault::NoSeparator => "recorded PGM has no pixel separator"@,
        PgmFault::Mismatch => "recorded PGM metadata does not match its frame record"@,
        PgmFault::TooLarge => "recorded PGM dimensions are too large"@,
        PgmFault::BadLength => "recorded PGM pixel data has an invalid length"@,
    }
}

/// A numeric header field read at position `i`: its value or its fault.
pub open spec fn field_at(data: Seq<u8>, i: int, field: PgmField) -> Result<u32, PgmFault> {
    match next_token(data, i) {
        None => Err(PgmFault::MissingField(field)),
        Some(t) => match decimal_u32(t) {
            None => Err(PgmFault::InvalidField(field)),
            Some(v) => Ok(v),
        },
    }
}

/// The pixels stored in a binary PGM file whose frame record says
/// `expected_width` x `expected_height`, or the first fault found.
pub open spec fn pgm_decode(data: Seq<u8>, expected_width: u32, expected_height: u32) -> Result<
    Seq<u8>,
    PgmFault,
> {
    let p0 = after_token(data, 0);
    let p1 = after_token(data, p0);
    let p2 = after_token(data, p1);
    let p3 = after_token(data, p2);
    match next_token(data, 0) {
        None => Err(PgmFault::NoHeader),
        Some(magic) => if magic != seq![0x50u8, 0x35u8] {
            Err(PgmFault::NotBinary)
        } else {
            match field_at(data, p0, PgmField::Width) {
                Err(f) => Err(f),
                Ok(width) => match field_at(data, p1, PgmField::Height) {
                    Err(f) => Err(f),
                    Ok(height) => match field_at(data, p2, PgmField::MaxValue) {
                        Err(f) => Err(f),
                        Ok(max_value) => if p3 >= data.len() || !is_ascii_space(data[p3]) {
                            Err(PgmFault::NoSeparator)
                        } else if width != expected_width || height != expected_height
                            || max_value != 255 {
                            Err(PgmFault::Mismatch)
                        } else if width * height > usize::MAX {
                            Err(PgmFault::TooLarge)
                        } else if data.len() - (p3 + 1) != width * height {
                            Err(PgmFault::BadLength)
                        } else {
                            Ok(data.subrange(p3 + 1, data.len() as int))
                        },
                    },
                },
            }
        },
    }
}

pub proof fn lemma_skip_filler_bounds(data: Seq<u8>, i: int, c: bool)
    requires
        0 <= i <= data.len(),
    ensures
        i <= skip_filler(data, i, c) <= data.len(),
    decreases data.len() - i,
{
    if i < data.len() {
        if c {
            if data[i] == 0x0au8 {
                lemma_skip_filler_bounds(data, i + 1, false);
            } else {
                lemma_skip_filler_bounds(data, i + 1, true);
            }
        } else if is_ascii_space(data[i]) {
            lemma_skip_filler_bounds(data, i + 1, false);
        } else if data[i] == 0x23u8 {
            lemma_skip_filler_bounds(data, i + 1, true);
        }
    }
}

pub proof fn lemma_token_end_bounds(data: Seq<u8>, i: int)
    requires
        0 <= i <= data.len(),
    ensures
        i <= token_end(data, i) <= data.len(),
        token_end(data, i) < data.len() ==> is_ascii_space(data[token_end(data, i)]),
        forall|k: int| i <= k < token_end(data, i) ==> !is_ascii_space(#[trigger] data[k]),
    decreases data.len() - i,
{
    if i < data.len() && !is_ascii_space(data[i]) {
        lemma_token_end_bounds(data, i + 1);
    }
}

/// Reads the next whitespace-delimited header token, skipping whitespace and
/// `#` comments, and moves `offset` past it.
pub fn next_pgm_token<'a>(data: &'a [u8], offset: &mut usize) -> (token: Option<&'a [u8]>)
    ensures
        *final(offset) == after_token(data@, *old(offset) as int),
        *old(offset) <= data@.len() ==> *final(offset) <= data@.len(),
        match token {
            Some(t) => next_token(data@, *old(offset) as int) == Some(t@),
            None => next_token(data@, *old(offset) as int) is None,
        },
{
    if *offset > data.len() {
        return None;
    }
    let ghost start_at: int = *offset as int;
    let ghost target: int = skip_filler(data@, start_at, false);
    proof {
        lemma_skip_filler_bounds(data@, start_at, false);
    }
    while *offset < data.len()
        invariant
            *offset <= data@.len(),
            skip_filler(data@, *offset as int, false) == target,
        ensures
            *offset as int == target,
        decreases data@.len() - *offset,
    {
        if is_pgm_space(data[*offset]) {
            *offset = *offset + 1;
        } else if data[*offset] == 0x23u8 {
            let ghost at: int = *offset as int;
            while *offset < data.len() && data[*offset] != 0x0au8
                invariant
                    *offset <= data@.len(),
                    at < data@.len(),
                    data@[at] == 0x23u8,
                    at <= *offset,
                    skip_filler(data@, *offset as int, true) == target,
                decreases data@.len() - *offset,
            {
                *offset = *offset + 1;
            }
            assert(*offset > at);
        } else {
            break;
        }
    }
    let start = *offset;
    assert(start as int == target);
    while *offset < data.len() && !is_pgm_space(data[*offset])
        invariant
            start <= *offset <= data@.len(),
            token_end(data@, *offset as int) == token_end(data@, start as int),
        decreases data@.len() - *offset,
    {
        *offset = *offset + 1;
    }
    if start < *offset {
        Some(vstd::slice::slice_subrange(data, start, *offset))
    } else {
        None
    }
}

/// `u8::is_ascii_whitespace`.
pub fn is_pgm_space(b: u8) -> (r: bool)
    ensures
        r == is_ascii_space(b),
{
    b == 0x20u8 || b == 0x09u8 || b == 0x0au8 || b == 0x0cu8 || b == 0x0du8
}

proof fn lemma_digits_value_push(s: Seq<u8>, d: u8)
    ensures
        digits_value(s.push(d)) == digits_value(s) * 10 + (d - 0x30u8) as nat,
{
    assert(s.push(d).drop_last() =~= s);
}

/// Reads a token as an unsigned 32-bit decimal number: an optional `+`, then
/// one or more ASCII digits, with a value that fits in a `u32`.
pub fn parse_decimal_u32(text: &[u8]) -> (value: Option<u32>)
    ensures
        value == decimal_u32(text@),
{
    let mut i: usize = 0;
    if text.len() > 0 && text[0] == 0x2bu8 {
        i = 1;
    }
    let first = i;
    let ghost d = unsigned_digits(text@);
    assert(d =~= text@.subrange(first as int, text@.len() as int));
    if first == text.len() {
        return None;
    }
    let mut acc: u64 = 0;
    let mut overflow = false;
    while i < text.len()
        invariant
            first <= i <= text@.len(),
            d == unsigned_digits(text@),
            d =~= text@.subrange(first as int, text@.len() as int),
            all_digits(text@.subrange(first as int, i as int)),
            !overflow ==> acc == digits_value(text@.subrange(first as int, i as int)),
            !overflow ==> acc <= u32::MAX,
            overflow ==> digits_value(text@.subrange(first as int, i as int)) > u32::MAX,
        decreases text@.len() - i,
    {
        let b = text[i];
        let ghost prefix = text@.subrange(first as int, i as int);
        assert(text@.subrange(first as int, i + 1) =~= prefix.push(b));
        proof {
            lemma_digits_value_push(prefix, b);
        }
        if !(0x30u8 <= b && b <= 0x39u8) {
            assert(d[i - first] == b);
            assert(!is_ascii_digit(d[i - first]));
            return None;
        }
        if !overflow {
            acc = acc * 10 + (b - 0x30u8) as u64;
            if acc > 0xffff_ffffu64 {
                overflow = true;
            }
        }
        i = i + 1;
    }
    assert(text@.subrange(first as int, i as int) =~= d);
    if overflow {
        None
    } else {
        Some(acc as u32)
    }
}

/// Reads one numeric header field: a fault when the token is missing or is not
/// a `u32`.
pub fn parse_pgm_u32(value: Option<&[u8]>, field: PgmField) -> (r: Result<u32, PgmFault>)
    ensures
        r == (match value {
            None => Err(PgmFault::MissingField(field)),
            Some(t) => match decimal_u32(t@) {
                None => Err(PgmFault::InvalidField(field)),
                Some(v) => Ok(v),
            },
        }),
{
    match value {
        None => Err(PgmFault::MissingField(field)),
        Some(t) => match parse_decimal_u32(t) {
            None => Err(PgmFault::InvalidField(field)),
            Some(v) => Ok(v),
        },
    }
}

/// Decodes a stored binary PGM frame and checks it against the size its frame
/// record gives.
pub fn decode_pgm(data: &[u8], expected_width: u32, expected_height: u32) -> (r: Result<
    Vec<u8>,
    PgmFault,
>)
    ensures
        match pgm_decode(data@, expected_width, expected_height) {
            Ok(pixels) => r matches Ok(v) && v@ == pixels,
            Err(f) => r == Err::<Vec<u8>, PgmFault>(f),
        },
{
    let mut offset: usize = 0;
    let magic = next_pgm_token(data, &mut offset);
    let magic = match magic {
        None => return Err(PgmFault::NoHeader),
        Some(m) => m,
    };
    if !(magic.len() == 2 && magic[0] == 0x50u8 && magic[1] == 0x35u8) {
        assert(magic@ != seq![0x50u8, 0x35u8]) by {
            if magic@ == seq![0x50u8, 0x35u8] {
                assert(magic@[0] == 0x50u8 && magic@[1] == 0x35u8);
            }
        }
        return Err(PgmFault::NotBinary);
    }
    assert(magic@ =~= seq![0x50u8, 0x35u8]);
    let ghost p0 = offset as int;
    let width = match parse_pgm_u32(next_pgm_token(data, &mut offset), PgmField::Width) {
        Err(f) => return Err(f),
        Ok(v) => v,
    };
    let ghost p1 = offset as int;
    let height = match parse_pgm_u32(next_pgm_token(data, &mut offset), PgmField::Height) {
        Err(f) => return Err(f),
        Ok(v) => v,
    };
    let ghost p2 = offset as int;
    let max_value = match parse_pgm_u32(next_pgm_token(data, &mut offset), PgmField::MaxValue) {
        Err(f) => return Err(f),
        Ok(v) => v,
    };
    if offset >= data.len() || !is_pgm_space(data[offset]) {
        return Err(PgmFault::NoSeparator);
    }
    offset = offset + 1;
    if width != expected_width || height != expected_height || max_value != 255 {
        return Err(PgmFault::Mismatch);
    }
    let pixels = match (width as usize).checked_mul(height as usize) {
        None => return Err(PgmFault::TooLarge),
        Some(p) => p,
    };
    let bytes = vstd::slice::slice_subrange(data, offset, data.len());
    if bytes.len() != pixels {
        return Err(PgmFault::BadLength);
    }
    Ok(vstd::slice::slice_to_vec(bytes))
}

/// Appends the decimal text of `n` (no sign, no leading zeros), as
/// `u32`'s `Display` writes it.
pub fn push_decimal(out: &mut Vec<u8>, n: u32)
    ensures
        final(out)@ == old(out)@ + decimal_digits(n as nat),
    decreases n,
{
    if n < 10 {
        out.push((0x30u32 + n) as u8);
    } else {
        push_decimal(out, n / 10);
        out.push((0x30u32 + n % 10) as u8);
    }
}

/// The header line `P5\n{width} {height}\n255\n` of a binary PGM image.
pub fn encode_pgm_header(width: u32, height: u32) -> (header: Vec<u8>)
    ensures
        header@ == pgm_header(width, height),
{
    let mut out: Vec<u8> = Vec::new();
    out.push(0x50u8);
    out.push(0x35u8);
    out.push(0x0au8);
    push_decimal(&mut out, width);
    out.push(0x20u8);
    push_decimal(&mut out, height);
    out.push(0x0au8);
    out.push(0x32u8);
    out.push(0x35u8);
    out.push(0x35u8);
    out.push(0x0au8);
    assert(out@ =~= pgm_header(width, height));
    out
}


proof fn lemma_token_end_run(data: Seq<u8>, i: int, j: int)
    requires
        0 <= i <= j <= data.len(),
        forall|k: int| i <= k < j ==> !is_ascii_space(#[trigger] data[k]),
        j == data.len() || is_ascii_space(data[j]),
    ensures
        token_end(data, i) == j,
    decreases j - i,
{
    if i < j {
        lemma_token_end_run(data, i + 1, j);
    }
}

proof fn lemma_decimal_digits(n: nat)
    ensures
        decimal_digits(n).len() > 0,
        all_digits(decimal_digits(n)),
        digits_value(decimal_digits(n)) == n,
    decreases n,
{
    if n < 10 {
        let d = (0x30 + n) as u8;
        assert(d - 0x30u8 == n);
        assert(seq![d].drop_last() =~= Seq::<u8>::empty());
        assert(digits_value(Seq::<u8>::empty()) == 0);
        assert(seq![d].last() == d);
    } else {
        lemma_decimal_digits(n / 10);
        let s = decimal_digits(n / 10);
        let d = (0x30 + n % 10) as u8;
        assert(d - 0x30u8 == n % 10);
        lemma_digits_value_push(s, d);
        assert(n == (n / 10) * 10 + n % 10);
        assert forall|i: int| 0 <= i < s.push(d).len() implies is_ascii_digit(
            #[trigger] s.push(d)[i],
        ) by {
            if i < s.len() {
                assert(s.push(d)[i] == s[i]);
            }
        }
    }
}

proof fn lemma_decimal_field(n: u32)
    ensures
        decimal_u32(decimal_digits(n as nat)) == Some(n),
        decimal_digits(n as nat).len() > 0,
        all_digits(decimal_digits(n as nat)),
{
    let s = decimal_digits(n as nat);
    lemma_decimal_digits(n as nat);
    assert(is_ascii_digit(s[0]));
    assert(unsigned_digits(s) == s);
}

/// A header token `t` that follows the whitespace byte at `i` and is ended by
/// the whitespace byte at `j` is read as the next token after `i`.
proof fn lemma_field_token(data: Seq<u8>, i: int, j: int, t: Seq<u8>)
    requires
        0 <= i,
        i + 1 + t.len() == j,
        j < data.len(),
        t.len() > 0,
        is_ascii_space(data[i]),
        is_ascii_space(data[j]),
        data.subrange(i + 1, j) == t,
        all_digits(t),
    ensures
        next_token(data, i) == Some(t),
        after_token(data, i) == j,
{
    assert(data[i + 1] == t[0]);
    assert(is_ascii_digit(t[0]));
    assert(skip_filler(data, i + 1, false) == i + 1);
    assert(skip_filler(data, i, false) == i + 1);
    assert forall|k: int| i + 1 <= k < j implies !is_ascii_space(#[trigger] data[k]) by {
        assert(data[k] == t[k - i - 1]);
        assert(is_ascii_digit(t[k - i - 1]));
    }
    lemma_token_end_run(data, i + 1, j);
}

proof fn lemma_max_value_text()
    ensures
        decimal_u32(seq![0x32u8, 0x35u8, 0x35u8]) == Some(255u32),
        all_digits(seq![0x32u8, 0x35u8, 0x35u8]),
{
    let max_text = seq![0x32u8, 0x35u8, 0x35u8];
    assert forall|k: int| 0 <= k < 3 implies is_ascii_digit(#[trigger] max_text[k]) by {}
    assert(max_text.drop_last() =~= seq![0x32u8, 0x35u8]);
    assert(max_text.drop_last().drop_last() =~= seq![0x32u8]);
    assert(max_text.drop_last().drop_last().drop_last() =~= Seq::<u8>::empty());
    assert(digits_value(Seq::<u8>::empty()) == 0);
    assert(digits_value(seq![0x32u8]) == 2);
    assert(digits_value(seq![0x32u8, 0x35u8]) == 25);
    assert(digits_value(max_text) == 255);
    assert(unsigned_digits(max_text) == max_text);
}

spec fn header_width_end(width: u32) -> int {
    3 + decimal_digits(width as nat).len() as int
}

spec fn header_height_end(width: u32, height: u32) -> int {
    header_width_end(width) + 1 + decimal_digits(height as nat).len() as int
}

proof fn lemma_header_layout(width: u32, height: u32, pixels: Seq<u8>)
    ensures
        ({
            let data = pgm_header(width, height) + pixels;
            let a = header_width_end(width);
            let b = header_height_end(width, height);
            &&& data.len() == b + 5 + pixels.len()
            &&& data.subrange(b + 5, data.len() as int) == pixels
            &&& data.subrange(3, a) == decimal_digits(width as nat)
            &&& data.subrange(a + 1, b) == decimal_digits(height as nat)
            &&& data.subrange(b + 1, b + 4) == seq![0x32u8, 0x35u8, 0x35u8]
            &&& data.subrange(0, 2) == seq![0x50u8, 0x35u8]
            &&& data[0] == 0x50u8
            &&& data[1] == 0x35u8
            &&& data[2] == 0x0au8
            &&& data[a] == 0x20u8
            &&& data[b] == 0x0au8
            &&& data[b + 4] == 0x0au8
        }),
{
    let dw = decimal_digits(width as nat);
    let dh = decimal_digits(height as nat);
    let hdr = pgm_header(width, height);
    let data = hdr + pixels;
    let a = header_width_end(width);
    let b = header_height_end(width, height);
    assert(data.subrange(b + 5, data.len() as int) =~= pixels);
    assert(data.subrange(3, a) =~= dw);
    assert(data.subrange(a + 1, b) =~= dh);
    assert(data.subrange(b + 1, b + 4) =~= seq![0x32u8, 0x35u8, 0x35u8]);
    assert(data.subrange(0, 2) =~= seq![0x50u8, 0x35u8]);
    assert(data[a] == hdr[a]);
    assert(data[b] == hdr[b]);
    assert(data[b + 4] == hdr[b + 4]);
}

/// Reading back a frame written as a binary PGM file gives the same pixels:
/// the header that `encode_pgm_header` writes, followed by `width * height`
/// pixel bytes, decodes to exactly those bytes.
#[verifier::spinoff_prover]
#[verifier::rlimit(40)]
pub proof fn lemma_pgm_roundtrip(width: u32, height: u32, pixels: Seq<u8>)
    requires
        width * height <= usize::MAX,
        pixels.len() == width * height,
    ensures
        pgm_decode(pgm_header(width, height) + pixels, width, height) == Ok::<Seq<u8>, PgmFault>(
            pixels,
        ),
{
    let data = pgm_header(width, height) + pixels;
    let a = header_width_end(width);
    let b = header_height_end(width, height);
    lemma_header_layout(width, height, pixels);
    lemma_decimal_field(width);
    lemma_decimal_field(height);
    lemma_max_value_text();
    assert(skip_filler(data, 0, false) == 0);
    lemma_token_end_run(data, 0, 2);
    assert(next_token(data, 0) == Some(seq![0x50u8, 0x35u8]));
    lemma_field_token(data, 2, a, decimal_digits(width as nat));
    lemma_field_token(data, a, b, decimal_digits(height as nat));
    lemma_field_token(data, b, b + 4, seq![0x32u8, 0x35u8, 0x35u8]);
}

/// The message of a decoding fault.
pub fn pgm_fault_message(fault: PgmFault) -> (text: String)
    ensures
        text@ == pgm_fault_text(fault),
{
    match fault {
        PgmFault::NoHeader => String::from_str("recorded frame has no PGM header"),
        PgmFault::NotBinary => String::from_str("recorded frame is not binary PGM"),
        PgmFault::MissingField(f) => String::from_str("recorded PGM has no ").concat(
            field_name(f),
        ),
        PgmFault::InvalidField(f) => String::from_str("recorded PGM has an invalid ").concat(
            field_name(f),
        ),
        PgmFault::NoSeparator => String::from_str("recorded PGM has no pixel separator"),
        PgmFault::Mismatch => String::from_str(
            "recorded PGM metadata does not match its frame record",
        ),
        PgmFault::TooLarge => String::from_str("recorded PGM dimensions are too large"),
        PgmFault::BadLength => String::from_str("recorded PGM pixel data has an invalid length"),
    }
}

fn field_name(field: PgmField) -> (label: &'static str)
    ensures
        label@ == field_label(field),
{
    proof {
        reveal_strlit("width");
        reveal_strlit("height");
        reveal_strlit("max value");
    }
    match field {
        PgmField::Width => "width",
        PgmField::Height => "height",
        PgmField::MaxValue => "max value",
    }
}

/// The pixels of a stored frame file, or `Failed` with the reason it cannot
/// be read as the frame its record describes.
pub fn read_pgm_pixels(data: &[u8], expected_width: u32, expected_height: u32) -> (r: Result<
    Vec<u8>,
    ApiError,
>)
    ensures
        match pgm_decode(data@, expected_width, expected_height) {
            Ok(pixels) => r matches Ok(v) && v@ == pixels,
            Err(f) => r matches Err(ApiError::Failed(m)) && m@ == pgm_fault_text(f),
        },
{
    match decode_pgm(data, expected_width, expected_height) {
        Ok(pixels) => Ok(pixels),
        Err(f) => Err(ApiError::Failed(pgm_fault_message(f))),
    }
}

} // verus!
