//! The four-letter type of a chunk.
//!
//! The case of each letter is a flag: bit `0x20` of a byte is set exactly when
//! the letter is lower case.

use crate::error::{Error, FormatError};
use crate::text::{ascii_text, lemma_ascii_is_utf8};
use vstd::prelude::*;
use vstd::string::StringSliceAdditionalSpecFns;
use vstd::utf8::*;

verus! {

/// An ASCII letter, upper or lower case.
pub open spec fn is_letter(b: u8) -> bool {
    (0x41 <= b <= 0x5a) || (0x61 <= b <= 0x7a)
}

/// Four ASCII letters.
pub open spec fn is_tag(t: Seq<u8>) -> bool {
    &&& t.len() == 4
    &&& forall|i: int| 0 <= i < 4 ==> is_letter(#[trigger] t[i])
}

/// Bit `0x20` of the byte is clear.
pub open spec fn flag_clear(b: u8) -> bool {
    b & 0x20 == 0
}

/// What `ChunkType::try_from` makes of four bytes.
pub open spec fn tag_of_bytes(bytes: Seq<u8>) -> Result<Seq<u8>, Error> {
    if is_tag(bytes) {
        Ok(bytes)
    } else {
        Err(Error::Format(FormatError::InvalidTagBytes))
    }
}

/// What `ChunkType::from_str` makes of a text, given the bytes that spell it.
pub open spec fn tag_of_text(bytes: Seq<u8>) -> Result<Seq<u8>, Error> {
    if bytes.len() != 4 {
        Err(Error::Format(FormatError::InvalidTagLength { actual: bytes.len() as usize }))
    } else {
        tag_of_bytes(bytes)
    }
}

/// On a letter, the flag bit tells the case: clear for upper, set for lower.
pub proof fn lemma_flag_is_case(b: u8)
    requires
        is_letter(b),
    ensures
        flag_clear(b) <==> 0x41 <= b <= 0x5a,
{
    assert((b & 0x20 == 0) <==> (0x41 <= b <= 0x5a)) by (bit_vector)
        requires
            (0x41 <= b <= 0x5a) || (0x61 <= b <= 0x7a),
    ;
}

/// A chunk type: four bytes, each an ASCII letter, kept as they were given.
#[derive(Debug, Clone, Copy)]
pub struct ChunkType {
    name: [u8; 4],
}

impl View for ChunkType {
    type V = Seq<u8>;

    closed spec fn view(&self) -> Seq<u8> {
        self.name@
    }
}

fn is_letter_byte(b: u8) -> (r: bool)
    ensures
        r == is_letter(b),
{
    (0x41 <= b && b <= 0x5a) || (0x61 <= b && b <= 0x7a)
}

fn all_letters(bytes: &[u8]) -> (r: bool)
    requires
        bytes@.len() == 4,
    ensures
        r == is_tag(bytes@),
{
    is_letter_byte(bytes[0]) && is_letter_byte(bytes[1]) && is_letter_byte(bytes[2])
        && is_letter_byte(bytes[3])
}

impl ChunkType {
    /// Every value of the type holds four letters.
    #[verifier::type_invariant]
    pub open spec fn wf(&self) -> bool {
        is_tag(self@)
    }

    /// The four bytes, as they were given.
    pub fn bytes(&self) -> (b: [u8; 4])
        ensures
            b@ == self@,
            is_tag(self@),
    {
        proof {
            use_type_invariant(self);
        }
        self.name
    }

    /// Whether the reserved bit is as the format asks: this alone makes a type
    /// valid.
    pub fn is_valid(&self) -> (r: bool)
        ensures
            r == flag_clear(self@[2]),
    {
        self.is_reserved_bit_valid()
    }

    /// Whether a reader must understand chunks of this type.
    pub fn is_critical(&self) -> (r: bool)
        ensures
            r == flag_clear(self@[0]),
    {
        self.name[0] & 0x20 == 0
    }

    /// Whether the type is a standard one, not a private one.
    pub fn is_public(&self) -> (r: bool)
        ensures
            r == flag_clear(self@[1]),
    {
        self.name[1] & 0x20 == 0
    }

    /// Whether the third letter is upper case, as the format reserves it.
    pub fn is_reserved_bit_valid(&self) -> (r: bool)
        ensures
            r == flag_clear(self@[2]),
    {
        self.name[2] & 0x20 == 0
    }

    /// Whether an editor that does not know the type may copy the chunk.
    pub fn is_safe_to_copy(&self) -> (r: bool)
        ensures
            r == !flag_clear(self@[3]),
    {
        self.name[3] & 0x20 != 0
    }

    /// Reads a type from a text of four letters.
    pub fn from_str(s: &str) -> (r: Result<ChunkType, Error>)
        ensures
            match tag_of_text(s.spec_bytes()) {
                Ok(t) => r is Ok && r.unwrap()@ == t,
                Err(e) => r == Err::<ChunkType, Error>(e),
            },
    {
        let bytes = s.as_bytes();
        if bytes.len() != 4 {
            return Err(Error::Format(FormatError::InvalidTagLength { actual: bytes.len() }));
        }
        if !all_letters(bytes) {
            return Err(Error::Format(FormatError::InvalidTagBytes));
        }
        let name: [u8; 4] = [bytes[0], bytes[1], bytes[2], bytes[3]];
        Ok(ChunkType { name })
    }

    /// The type as text: its four letters.
    pub fn to_string(&self) -> (s: String)
        ensures
            s@ == ascii_text(self@),
    {
        proof {
            use_type_invariant(self);
            lemma_ascii_is_utf8(self.name@);
        }
        let s = core::str::from_utf8(self.name.as_slice()).unwrap();
        proof {
            encode_utf8_decode_utf8(s@);
        }
        s.to_owned()
    }
}

impl TryFrom<[u8; 4]> for ChunkType {
    type Error = Error;

    /// Accepts four bytes as a type if each is an ASCII letter.
    fn try_from(value: [u8; 4]) -> (r: Result<ChunkType, Error>)
        ensures
            match tag_of_bytes(value@) {
                Ok(t) => r is Ok && r.unwrap()@ == t,
                Err(e) => r == Err::<ChunkType, Error>(e),
            },
    {
        if all_letters(value.as_slice()) {
            Ok(ChunkType { name: value })
        } else {
            Err(Error::Format(FormatError::InvalidTagBytes))
        }
    }
}

impl vstd::std_specs::convert::TryFromSpecImpl<[u8; 4]> for ChunkType {
    open spec fn obeys_try_from_spec() -> bool {
        true
    }

    closed spec fn try_from_spec(value: [u8; 4]) -> Result<ChunkType, Error> {
        if is_tag(value@) {
            Ok(ChunkType { name: value })
        } else {
            Err(Error::Format(FormatError::InvalidTagBytes))
        }
    }
}

impl core::str::FromStr for ChunkType {
    type Err = Error;

    /// As `ChunkType::from_str`.
    fn from_str(s: &str) -> (r: Result<ChunkType, Error>)
        ensures
            match tag_of_text(s.spec_bytes()) {
                Ok(t) => r is Ok && r.unwrap()@ == t,
                Err(e) => r == Err::<ChunkType, Error>(e),
            },
    {
        ChunkType::from_str(s)
    }
}

impl PartialEq for ChunkType {
    fn eq(&self, other: &ChunkType) -> (r: bool) {
        proof {
            if self.name@[0] == other.name@[0] && self.name@[1] == other.name@[1] && self.name@[2]
                == other.name@[2] && self.name@[3] == other.name@[3] {
                assert(self.name@ =~= other.name@);
            }
        }
        self.name[0] == other.name[0] && self.name[1] == other.name[1] && self.name[2]
            == other.name[2] && self.name[3] == other.name[3]
    }
}

impl Eq for ChunkType {

}

impl vstd::std_specs::cmp::PartialEqSpecImpl for ChunkType {
    open spec fn obeys_eq_spec() -> bool {
        true
    }

    open spec fn eq_spec(&self, other: &ChunkType) -> bool {
        self@ == other@
    }
}

} // verus!
