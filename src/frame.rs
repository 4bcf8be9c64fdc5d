//! Framing of messages on a byte stream: the decimal length of the payload,
//! a space, the payload, and a NUL byte.
use vstd::prelude::*;

verus! {

/// The byte that ends the length field.
pub const SPACE: u8 = 32;

/// The byte that ends every frame.
pub const NUL: u8 = 0;

/// Why a frame could not be read.
#[derive(Clone, Copy, Debug, PartialEq, Eq, Structural)]
pub enum FrameError {
    /// The length field is empty, holds a byte that is not a decimal digit,
    /// or names a length too large for this machine.
    MalformedSize,
    /// The bytes ended before the frame did.
    UnexpectedEof,
    /// The byte after the payload is not NUL.
    MissingTerminator,
}

pub open spec fn is_digit(b: u8) -> bool {
    48 <= b <= 57
}

/// ASCII decimal representation of `n`, without leading zeros.
pub open spec fn decimal(n: nat) -> Seq<u8>
    decreases n,
{
    if n < 10 {
        seq![(48 + n) as u8]
    } else {
        decimal(n / 10).push((48 + n % 10) as u8)
    }
}

/// Value of a sequence of decimal digits, most significant first.
pub open spec fn digits_value(s: Seq<u8>) -> nat
    decreases s.len(),
{
    if s.len() == 0 {
        0
    } else {
        digits_value(s.drop_last()) * 10 + (s.last() - 48) as nat
    }
}

/// The frame that carries `payload`.
pub open spec fn encoded(payload: Seq<u8>) -> Seq<u8> {
    decimal(payload.len()) + seq![SPACE] + payload + seq![NUL]
}

/// Index of the first space in `s`, or `s.len()` when there is none.
pub open spec fn first_space(s: Seq<u8>) -> nat
    decreases s.len(),
{
    if s.len() == 0 {
        0
    } else if s[0] == SPACE {
        0
    } else {
        1 + first_space(s.drop_first())
    }
}

/// `k` is the index of the first space in `s`, or `s.len()` when there is none.
pub proof fn lemma_first_space_unique(s: Seq<u8>, k: int)
    requires
        0 <= k <= s.len(),
        k < s.len() ==> s[k] == SPACE,
        forall|j: int| 0 <= j < k ==> s[j] != SPACE,
    ensures
        first_space(s) == k,
    decreases s.len(),
{
    if k > 0 {
        lemma_first_space_unique(s.drop_first(), k - 1);
    }
}

/// Value of a length field, when it is one that this machine can hold.
pub open spec fn size_field_ok(field: Seq<u8>) -> bool {
    &&& field.len() > 0
    &&& forall|i: int| 0 <= i < field.len() ==> is_digit(#[trigger] field[i])
    &&& digits_value(field) <= usize::MAX
}

/// What reading one frame from the start of `s` yields: the payload and the
/// number of bytes the frame took.
pub open spec fn decoded(s: Seq<u8>) -> Result<(Seq<u8>, nat), FrameError> {
    let k = first_space(s) as int;
    let field = s.subrange(0, k);
    let size = digits_value(field) as int;
    if k >= s.len() {
        Err(FrameError::UnexpectedEof)
    } else if !size_field_ok(field) {
        Err(FrameError::MalformedSize)
    } else if s.len() < k + 1 + size + 1 {
        Err(FrameError::UnexpectedEof)
    } else if s[k + 1 + size] != NUL {
        Err(FrameError::MissingTerminator)
    } else {
        Ok((s.subrange(k + 1, k + 1 + size), (k + 1 + size + 1) as nat))
    }
}

} // verus!

verus! {

/// Appends `bytes` to `out`.
pub fn append_bytes(out: &mut Vec<u8>, bytes: &[u8])
    ensures
        final(out)@ == old(out)@ + bytes@,
{
    let mut i: usize = 0;
    while i < bytes.len()
        invariant
            0 <= i <= bytes@.len(),
            out@ == old(out)@ + bytes@.subrange(0, i as int),
        decreases bytes@.len() - i,
    {
        out.push(bytes[i]);
        i = i + 1;
        assert(bytes@.subrange(0, i as int) == bytes@.subrange(0, i - 1) + seq![bytes@[i - 1]]);
    }
    assert(bytes@.subrange(0, bytes@.len() as int) == bytes@);
}

/// Appends the decimal representation of `n` to `out`.
pub fn push_decimal(n: usize, out: &mut Vec<u8>)
    ensures
        final(out)@ == old(out)@ + decimal(n as nat),
    decreases n,
{
    if n >= 10 {
        push_decimal(n / 10, out);
    }
    out.push((48 + n % 10) as u8);
}

/// The frame that carries `payload`.
pub fn encode_frame(payload: &[u8]) -> (r: Vec<u8>)
    ensures
        r@ == encoded(payload@),
{
    let mut out: Vec<u8> = Vec::new();
    push_decimal(payload.len(), &mut out);
    out.push(SPACE);
    append_bytes(&mut out, payload);
    out.push(NUL);
    out
}

proof fn lemma_digits_prefix(s: Seq<u8>, i: int)
    requires
        0 <= i < s.len(),
    ensures
        digits_value(s.subrange(0, i + 1)) == digits_value(s.subrange(0, i)) * 10 + (s[i] - 48) as nat,
{
    assert(s.subrange(0, i + 1).drop_last() == s.subrange(0, i));
}

proof fn lemma_digits_prefix_le(s: Seq<u8>, i: int)
    requires
        0 <= i <= s.len(),
        forall|j: int| 0 <= j < s.len() ==> is_digit(#[trigger] s[j]),
    ensures
        digits_value(s.subrange(0, i)) <= digits_value(s),
    decreases s.len() - i,
{
    if i < s.len() {
        lemma_digits_prefix(s, i);
        lemma_digits_prefix_le(s, i + 1);
    } else {
        assert(s.subrange(0, i) == s);
    }
}

/// Reads a length field: the bytes before the space that ends it.
pub fn parse_size(field: &[u8]) -> (r: Result<usize, FrameError>)
    ensures
        match r {
            Ok(v) => size_field_ok(field@) && v == digits_value(field@),
            Err(e) => !size_field_ok(field@) && e == FrameError::MalformedSize,
        },
{
    if field.len() == 0 {
        return Err(FrameError::MalformedSize);
    }
    let mut acc: usize = 0;
    let mut i: usize = 0;
    while i < field.len()
        invariant
            0 <= i <= field@.len(),
            forall|j: int| 0 <= j < i ==> is_digit(#[trigger] field@[j]),
            acc == digits_value(field@.subrange(0, i as int)),
        decreases field@.len() - i,
    {
        let b = field[i];
        if b < 48 || b > 57 {
            return Err(FrameError::MalformedSize);
        }
        proof {
            lemma_digits_prefix(field@, i as int);
        }
        let next = match acc.checked_mul(10) {
            Some(m) => m.checked_add((b - 48) as usize),
            None => None,
        };
        match next {
            Some(v) => {
                acc = v;
            },
            None => {
                proof {
                    if forall|j: int| 0 <= j < field@.len() ==> is_digit(#[trigger] field@[j]) {
                        lemma_digits_prefix_le(field@, i + 1);
                    }
                }
                return Err(FrameError::MalformedSize);
            },
        }
        i = i + 1;
    }
    assert(field@.subrange(0, field@.len() as int) == field@);
    Ok(acc)
}

/// Checks the `size + 1` bytes that follow a length field of value `size`:
/// the payload, then NUL.
pub fn finish_frame(body: Vec<u8>, size: usize) -> (r: Result<Vec<u8>, FrameError>)
    requires
        body@.len() == size + 1,
    ensures
        match r {
            Ok(p) => body@[size as int] == NUL && p@ == body@.subrange(0, size as int),
            Err(e) => body@[size as int] != NUL && e == FrameError::MissingTerminator,
        },
{
    let mut body = body;
    if body[size] != NUL {
        return Err(FrameError::MissingTerminator);
    }
    body.truncate(size);
    Ok(body)
}

} // verus!

verus! {

/// Reads one frame from the start of `bytes`: the payload and the number of
/// bytes the frame took.
pub fn decode_frame(bytes: &[u8]) -> (r: Result<(Vec<u8>, usize), FrameError>)
    ensures
        match r {
            Ok((p, n)) => decoded(bytes@) == Ok::<(Seq<u8>, nat), FrameError>((p@, n as nat)),
            Err(e) => decoded(bytes@) == Err::<(Seq<u8>, nat), FrameError>(e),
        },
{
    let mut k: usize = 0;
    while k < bytes.len() && bytes[k] != SPACE
        invariant
            0 <= k <= bytes@.len(),
            forall|j: int| 0 <= j < k ==> bytes@[j] != SPACE,
        decreases bytes@.len() - k,
    {
        k = k + 1;
    }
    proof {
        lemma_first_space_unique(bytes@, k as int);
    }
    if k == bytes.len() {
        return Err(FrameError::UnexpectedEof);
    }
    let field = vstd::slice::slice_subrange(bytes, 0, k);
    let size = match parse_size(field) {
        Ok(v) => v,
        Err(e) => {
            return Err(e);
        },
    };
    let rest = bytes.len() - k - 1;
    if size >= rest {
        return Err(FrameError::UnexpectedEof);
    }
    let body = vstd::slice::slice_to_vec(vstd::slice::slice_subrange(bytes, k + 1, k + 2 + size));
    match finish_frame(body, size) {
        Ok(p) => {
            assert(p@ == bytes@.subrange(k + 1, k + 1 + size));
            Ok((p, k + 2 + size))
        },
        Err(e) => Err(e),
    }
}

proof fn lemma_decimal_digits(n: nat)
    ensures
        decimal(n).len() > 0,
        forall|i: int| 0 <= i < decimal(n).len() ==> is_digit(#[trigger] decimal(n)[i]),
        digits_value(decimal(n)) == n,
    decreases n,
{
    if n >= 10 {
        lemma_decimal_digits(n / 10);
        let d = decimal(n);
        assert(d.drop_last() == decimal(n / 10));
        assert forall|i: int| 0 <= i < d.len() implies is_digit(#[trigger] d[i]) by {
            if i < d.len() - 1 {
                assert(d[i] == decimal(n / 10)[i]);
            }
        }
        assert(n == (n / 10) * 10 + n % 10 && n % 10 < 10) by {
            vstd::arithmetic::div_mod::lemma_fundamental_div_mod(n as int, 10);
            vstd::arithmetic::div_mod::lemma_mod_bound(n as int, 10);
        }
        assert((d.last() - 48) as nat == n % 10);
        assert(digits_value(d) == digits_value(d.drop_last()) * 10 + (d.last() - 48) as nat);
    } else {
        let d = decimal(n);
        assert(d.drop_last() == Seq::<u8>::empty());
        assert(digits_value(d) == digits_value(d.drop_last()) * 10 + (d.last() - 48) as nat);
    }
}

/// Decoding what encoding wrote gives back the payload, whatever follows the
/// frame on the stream.
pub proof fn lemma_decode_encoded(payload: Seq<u8>, rest: Seq<u8>)
    requires
        payload.len() <= usize::MAX,
    ensures
        decoded(encoded(payload) + rest) == Ok::<(Seq<u8>, nat), FrameError>(
            (payload, encoded(payload).len()),
        ),
{
    let d = decimal(payload.len());
    let s = encoded(payload) + rest;
    let k = d.len() as int;
    lemma_decimal_digits(payload.len());
    assert forall|j: int| 0 <= j < k implies s[j] != SPACE by {
        assert(s[j] == d[j]);
        assert(is_digit(d[j]));
    }
    assert(s[k] == SPACE);
    lemma_first_space_unique(s, k);
    assert(s.subrange(0, k) == d);
    let size = payload.len() as int;
    assert(s[k + 1 + size] == NUL);
    assert(s.subrange(k + 1, k + 1 + size) == payload);
}

} // verus!
