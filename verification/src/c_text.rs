//! Text on its way into C: bytes closed by a zero byte.
//!
//! The interpreter reads every string it is given up to the first zero byte.
//! A string that holds one inside would arrive cut short, so it is refused
//! here, together with the place of the offending byte.

use vstd::prelude::*;
use vstd::string::*;
use vstd::utf8::{encode_scalar, encode_utf8};

verus! {

/// Whether `at` is the place of the first zero byte of `bytes`.
pub open spec fn is_first_nul(bytes: Seq<u8>, at: int) -> bool {
    &&& 0 <= at < bytes.len()
    &&& bytes[at] == 0
    &&& forall|j: int| 0 <= j < at ==> bytes[j] != 0
}

/// Whether `bytes` holds no zero byte.
pub open spec fn nul_free(bytes: Seq<u8>) -> bool {
    forall|j: int| 0 <= j < bytes.len() ==> bytes[j] != 0
}

/// A sequence has a first zero byte or none, never both, and the first is
/// the only first.
pub proof fn first_nul_is_unique(bytes: Seq<u8>, at: int, other: int)
    requires
        is_first_nul(bytes, at),
    ensures
        !nul_free(bytes),
        is_first_nul(bytes, other) ==> other == at,
{
}

/// The place of the first zero byte of `bytes`, if there is one.
pub fn find_nul(bytes: &[u8]) -> (found: Option<usize>)
    ensures
        match found {
            Some(at) => is_first_nul(bytes@, at as int),
            None => nul_free(bytes@),
        },
{
    let mut at: usize = 0;
    while at < bytes.len()
        invariant
            at <= bytes@.len(),
            forall|j: int| 0 <= j < at ==> bytes@[j] != 0,
        decreases bytes@.len() - at,
    {
        if bytes[at] == 0 {
            return Some(at);
        }
        at += 1;
    }
    None
}

/// The bytes of `s` followed by one zero byte, whatever `s` holds.
pub fn terminated(s: &str) -> (bytes: Vec<u8>)
    ensures
        bytes@ == s.spec_bytes().push(0),
{
    let mut bytes = s.as_bytes_vec();
    bytes.push(0);
    bytes
}

/// Why a string cannot be handed to C: it holds a zero byte.
#[derive(Debug, PartialEq, Eq)]
pub struct NulError {
    position: usize,
    bytes: Vec<u8>,
}

impl NulError {
    #[verifier::type_invariant]
    spec fn well_formed(&self) -> bool {
        is_first_nul(self.bytes@, self.position as int)
    }

    /// The place of the first zero byte.
    pub closed spec fn position(&self) -> int {
        self.position as int
    }

    /// The bytes that were refused.
    pub closed spec fn data(&self) -> Seq<u8> {
        self.bytes@
    }

    /// Whether this error refuses exactly `bytes`, for their first zero byte.
    pub open spec fn refuses(&self, bytes: Seq<u8>) -> bool {
        self.data() == bytes && is_first_nul(bytes, self.position())
    }

    /// The place of the first zero byte in the refused bytes.
    pub fn nul_position(&self) -> (at: usize)
        ensures
            at == self.position(),
            is_first_nul(self.data(), at as int),
    {
        proof {
            use_type_invariant(self);
        }
        self.position
    }

    /// The refused bytes, given back.
    pub fn into_vec(self) -> (bytes: Vec<u8>)
        ensures
            bytes@ == self.data(),
    {
        self.bytes
    }
}

/// A string that C can read to its end: no zero byte but the one that
/// closes it.
#[derive(Debug, PartialEq, Eq)]
pub struct CText {
    bytes: Vec<u8>,
}

impl View for CText {
    type V = Seq<u8>;

    /// The text, without the closing zero byte.
    closed spec fn view(&self) -> Seq<u8> {
        self.bytes@.drop_last()
    }
}

impl CText {
    #[verifier::type_invariant]
    spec fn well_formed(&self) -> bool {
        is_first_nul(self.bytes@, self.bytes@.len() - 1)
    }

    /// Closes `bytes` with a zero byte, or refuses them if they hold one
    /// already.
    pub fn from_vec(bytes: Vec<u8>) -> (made: Result<CText, NulError>)
        ensures
            match made {
                Ok(text) => nul_free(bytes@) && text@ == bytes@,
                Err(e) => e.refuses(bytes@),
            },
    {
        let mut bytes = bytes;
        match find_nul(bytes.as_slice()) {
            Some(position) => Err(NulError { position, bytes }),
            None => {
                let ghost text = bytes@;
                bytes.push(0);
                assert(bytes@.drop_last() == text);
                Ok(CText { bytes })
            },
        }
    }

    /// Closes the bytes of `s` with a zero byte, or refuses `s` if it holds
    /// one already.
    pub fn new(s: &str) -> (made: Result<CText, NulError>)
        ensures
            match made {
                Ok(text) => nul_free(s.spec_bytes()) && text@ == s.spec_bytes(),
                Err(e) => e.refuses(s.spec_bytes()),
            },
    {
        CText::from_vec(s.as_bytes_vec())
    }

    /// The text with its closing zero byte: what C is handed.
    pub fn as_bytes_with_nul(&self) -> (bytes: &[u8])
        ensures
            bytes@ == self@.push(0),
            nul_free(self@),
    {
        proof {
            use_type_invariant(self);
            assert(self.bytes@ == self.bytes@.drop_last().push(0));
        }
        self.bytes.as_slice()
    }

    /// The text with its closing zero byte, owned.
    pub fn into_bytes_with_nul(self) -> (bytes: Vec<u8>)
        ensures
            bytes@ == self@.push(0),
            nul_free(self@),
    {
        proof {
            use_type_invariant(&self);
            assert(self.bytes@ == self.bytes@.drop_last().push(0));
        }
        self.bytes
    }
}

proof fn marked_byte_is_not_zero(mark: u8, low: u8)
    by (bit_vector)
    requires
        mark >= 0x80,
    ensures
        mark | low != 0,
{
}

proof fn narrow_scalar_is_its_byte(scalar: u32)
    by (bit_vector)
    requires
        scalar <= 0x7f,
    ensures
        ((scalar & 0x7f) as u8 == 0) <==> scalar == 0,
{
}

proof fn scalar_bytes(scalar: u32)
    ensures
        nul_free(encode_scalar(scalar)) <==> scalar != 0,
{
    let bytes = encode_scalar(scalar);
    if scalar <= 0x7f {
        narrow_scalar_is_its_byte(scalar);
        assert(bytes[0] == (scalar & 0x7f) as u8);
    } else {
        marked_byte_is_not_zero(0xc0, ((scalar >> 6) & 0x1f) as u8);
        marked_byte_is_not_zero(0xe0, ((scalar >> 12) & 0x0f) as u8);
        marked_byte_is_not_zero(0xf0, ((scalar >> 18) & 0x7) as u8);
        marked_byte_is_not_zero(0x80, (scalar & 0x3f) as u8);
        marked_byte_is_not_zero(0x80, ((scalar >> 6) & 0x3f) as u8);
        marked_byte_is_not_zero(0x80, ((scalar >> 12) & 0x3f) as u8);
    }
}

/// The UTF-8 form of a text holds a zero byte exactly where the text holds
/// the character NUL: no other character has a zero among its bytes.
pub proof fn zero_byte_is_nul_char(chars: Seq<char>)
    ensures
        nul_free(encode_utf8(chars)) <==> forall|i: int|
            0 <= i < chars.len() ==> chars[i] != '\0',
    decreases chars.len(),
{
    if chars.len() > 0 {
        let head = encode_scalar(chars[0] as u32);
        let rest = chars.drop_first();
        let tail = encode_utf8(rest);
        scalar_bytes(chars[0] as u32);
        zero_byte_is_nul_char(rest);
        assert(encode_utf8(chars) == head + tail);
        assert(chars[0] as u32 != 0 <==> chars[0] != '\0') by {
            vstd::utf8::char_u32_cast(chars[0], chars[0] as u32);
            vstd::utf8::char_u32_cast('\0', 0u32);
        }
        if nul_free(encode_utf8(chars)) {
            assert forall|j: int| 0 <= j < head.len() implies head[j] != 0 by {
                assert((head + tail)[j] == head[j]);
            }
            assert forall|j: int| 0 <= j < tail.len() implies tail[j] != 0 by {
                assert((head + tail)[head.len() + j] == tail[j]);
            }
            assert forall|i: int| 0 <= i < chars.len() implies chars[i] != '\0' by {
                if i > 0 {
                    assert(rest[i - 1] == chars[i]);
                }
            }
        }
        if forall|i: int| 0 <= i < chars.len() ==> chars[i] != '\0' {
            assert forall|i: int| 0 <= i < rest.len() implies rest[i] != '\0' by {
                assert(rest[i] == chars[i + 1]);
            }
            assert forall|j: int| 0 <= j < (head + tail).len() implies (head + tail)[j] != 0 by {
                if j >= head.len() {
                    assert((head + tail)[j] == tail[j - head.len()]);
                }
            }
        }
    }
}

} // verus!
