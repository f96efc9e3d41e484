//! One chunk: a type, its data, and the fields that frame and guard them.
//!
//! On the wire a chunk is `length | type | data | checksum`: the length of the
//! data as a big-endian `u32`, the four letters of the type, the data, and the
//! CRC-32 of type and data together, again big-endian.

use crate::checksum::{checksum, crc32_iso_hdlc};
use crate::chunk_type::{is_tag, ChunkType};
use crate::error::{Error, FormatError};
use crate::wire::{
    be_bytes, be_value, lemma_be_bytes_of_value, lemma_be_value_of_bytes, read_u32_be,
    u32_be_bytes,
};
use vstd::prelude::*;
use vstd::slice::{slice_subrange, slice_to_vec};
use vstd::utf8::*;

verus! {

/// A chunk as a value: the letters of its type and its data. Length and
/// checksum are functions of these two.
pub struct ChunkView {
    pub chunk_type: Seq<u8>,
    pub data: Seq<u8>,
}

impl ChunkView {
    /// The type is four letters and the length of the data fits its field.
    pub open spec fn wf(self) -> bool {
        &&& is_tag(self.chunk_type)
        &&& self.data.len() <= u32::MAX
    }

    /// The length field: the number of data bytes.
    pub open spec fn length(self) -> u32 {
        self.data.len() as u32
    }

    /// The bytes that the checksum covers: the type, then the data.
    pub open spec fn checked(self) -> Seq<u8> {
        self.chunk_type + self.data
    }

    /// The checksum field.
    pub open spec fn crc(self) -> u32 {
        crc32_iso_hdlc(self.checked())
    }

    /// The number of bytes that the chunk takes on the wire.
    pub open spec fn wire_len(self) -> int {
        12 + self.data.len() as int
    }

    /// The chunk on the wire.
    pub open spec fn to_bytes(self) -> Seq<u8> {
        be_bytes(self.length()) + self.chunk_type + self.data + be_bytes(self.crc())
    }
}

/// What the two checksums and the type bytes of a chunk allow: the type, if
/// the checksum computed over type and data is the stored one and the type is
/// four letters. The checksums are compared first.
pub open spec fn accepted_type(stored: u32, computed: u32, name: Seq<u8>) -> Result<
    Seq<u8>,
    Error,
> {
    if computed != stored {
        Err(Error::Format(FormatError::ChecksumMismatch { stored, computed }))
    } else if !is_tag(name) {
        Err(Error::Format(FormatError::BadTagBytes))
    } else {
        Ok(name)
    }
}

/// The chunk that stands at the front of `bytes`, or the reason why none
/// does. Whatever follows the chunk is not looked at.
pub open spec fn parse_chunk(bytes: Seq<u8>) -> Result<ChunkView, Error> {
    if bytes.len() < 4 {
        Err(Error::Format(FormatError::TruncatedLength { available: bytes.len() as usize }))
    } else {
        let declared = be_value(bytes.subrange(0, 4)) as u32;
        let available = bytes.len() - 4;
        if available < declared + 8 {
            Err(
                Error::Format(
                    FormatError::TruncatedBody { declared, available: available as usize },
                ),
            )
        } else {
            let checked = bytes.subrange(4, 8 + declared);
            let stored = be_value(bytes.subrange(8 + declared, 12 + declared)) as u32;
            match accepted_type(stored, crc32_iso_hdlc(checked), checked.subrange(0, 4)) {
                Err(e) => Err(e),
                Ok(chunk_type) => Ok(
                    ChunkView { chunk_type, data: checked.subrange(4, 4 + declared) },
                ),
            }
        }
    }
}

/// What a chunk's data gives when asked for as text.
pub open spec fn text_of(data: Seq<u8>) -> Result<Seq<char>, Error> {
    if valid_utf8(data) {
        Ok(decode_utf8(data))
    } else {
        Err(Error::Format(FormatError::NonUtf8Payload))
    }
}

/// A well-formed chunk takes twelve bytes more than its data, and read back
/// from the front of any bytes that begin with it, it is the same chunk: the
/// same type and data, hence the same length and checksum.
pub proof fn lemma_parse_of_to_bytes(v: ChunkView, rest: Seq<u8>)
    requires
        v.wf(),
    ensures
        v.to_bytes().len() == v.wire_len(),
        parse_chunk(v.to_bytes() + rest) == Ok::<ChunkView, Error>(v),
{
    let n = v.data.len() as int;
    let bytes = v.to_bytes() + rest;
    lemma_be_value_of_bytes(v.length());
    lemma_be_value_of_bytes(v.crc());
    assert(bytes.subrange(0, 4) =~= be_bytes(v.length()));
    assert(bytes.subrange(8 + n, 12 + n) =~= be_bytes(v.crc()));
    let checked = bytes.subrange(4, 8 + n);
    assert(checked =~= v.checked());
    assert(checked.subrange(0, 4) =~= v.chunk_type);
    assert(checked.subrange(4, 4 + n) =~= v.data);
}

/// Serialising and parsing a well-formed chunk gives the chunk back: the
/// same length, type, data and checksum.
pub proof fn lemma_chunk_round_trip(v: ChunkView)
    requires
        v.wf(),
    ensures
        parse_chunk(v.to_bytes()) == Ok::<ChunkView, Error>(v),
        parse_chunk(v.to_bytes()) matches Ok(w) && {
            &&& w.length() == v.length()
            &&& w.chunk_type == v.chunk_type
            &&& w.data == v.data
            &&& w.crc() == v.crc()
        },
{
    lemma_parse_of_to_bytes(v, Seq::empty());
}

/// A chunk that parses is well formed, and the bytes it was read from begin
/// with exactly its serialised form.
pub proof fn lemma_to_bytes_of_parse(bytes: Seq<u8>)
    ensures
        parse_chunk(bytes) matches Ok(v) ==> {
            &&& v.wf()
            &&& v.wire_len() <= bytes.len()
            &&& v.to_bytes() == bytes.subrange(0, v.wire_len())
        },
{
    if let Ok(v) = parse_chunk(bytes) {
        let n = v.data.len() as int;
        let checked = bytes.subrange(4, 8 + n);
        lemma_be_bytes_of_value(bytes.subrange(0, 4));
        lemma_be_bytes_of_value(bytes.subrange(8 + n, 12 + n));
        assert(v.checked() =~= checked);
    }
}

/// Damage to the guarded part of a chunk is reported as a checksum mismatch
/// whenever it changes the checksum: if one byte of the type or the data of a
/// serialised chunk is replaced, and the checksum of the altered type and data
/// is no longer the stored one, parsing fails with `ChecksumMismatch`, also
/// where the altered type is no longer made of letters.
pub proof fn lemma_changed_checksum_is_reported(v: ChunkView, at: int, byte: u8)
    requires
        v.wf(),
        4 <= at < 8 + v.data.len(),
        crc32_iso_hdlc(v.checked().update(at - 4, byte)) != v.crc(),
    ensures
        parse_chunk(v.to_bytes().update(at, byte)) == Err::<ChunkView, Error>(
            Error::Format(
                FormatError::ChecksumMismatch {
                    stored: v.crc(),
                    computed: crc32_iso_hdlc(v.checked().update(at - 4, byte)),
                },
            ),
        ),
{
    let n = v.data.len() as int;
    let bytes = v.to_bytes().update(at, byte);
    lemma_be_value_of_bytes(v.length());
    lemma_be_value_of_bytes(v.crc());
    assert(bytes.subrange(0, 4) =~= be_bytes(v.length()));
    assert(bytes.subrange(8 + n, 12 + n) =~= be_bytes(v.crc()));
    assert(bytes.subrange(4, 8 + n) =~= v.checked().update(at - 4, byte));
}

/// How a chunk is shown: its data as text, or a fixed line where the data is
/// no text.
pub open spec fn shown_text(data: Seq<u8>) -> Seq<char> {
    if valid_utf8(data) {
        decode_utf8(data)
    } else {
        "Data is not a string"@
    }
}

/// A chunk. Its length and checksum fields always agree with its type and
/// data: a chunk is made whole, by `new` or from bytes, and never changed.
#[derive(Debug)]
pub struct Chunk {
    length: u32,
    chunk_type: ChunkType,
    data: Vec<u8>,
    crc: u32,
}

impl View for Chunk {
    type V = ChunkView;

    closed spec fn view(&self) -> ChunkView {
        ChunkView { chunk_type: self.chunk_type@, data: self.data@ }
    }
}

impl Chunk {
    /// The stored length and checksum are those that type and data give.
    #[verifier::type_invariant]
    closed spec fn inv(&self) -> bool {
        &&& self.chunk_type.wf()
        &&& self.data@.len() <= u32::MAX
        &&& self.length == self@.length()
        &&& self.crc == self@.crc()
    }

    /// Makes a chunk of a type and data, and computes its checksum.
    pub fn new(chunk_type: ChunkType, data: Vec<u8>) -> (chunk: Chunk)
        requires
            data@.len() <= u32::MAX,
        ensures
            chunk@ == (ChunkView { chunk_type: chunk_type@, data: data@ }),
            chunk@.wf(),
    {
        let name = chunk_type.bytes();
        let mut check_data: Vec<u8> = Vec::new();
        check_data.extend_from_slice(name.as_slice());
        check_data.extend_from_slice(data.as_slice());
        assert(check_data@ =~= chunk_type@ + data@);
        let crc = checksum(check_data.as_slice());
        Chunk { length: data.len() as u32, chunk_type, data, crc }
    }

    /// Decides on a chunk read from bytes, given the checksum stored in it,
    /// the checksum computed over its type and data, and its type bytes: a
    /// mismatch of the checksums is reported first, then a type that is not
    /// four letters.
    pub fn accept_type(stored: u32, computed: u32, name: [u8; 4]) -> (r: Result<
        ChunkType,
        Error,
    >)
        ensures
            match accepted_type(stored, computed, name@) {
                Ok(t) => r is Ok && r.unwrap()@ == t,
                Err(e) => r == Err::<ChunkType, Error>(e),
            },
    {
        if computed != stored {
            return Err(Error::Format(FormatError::ChecksumMismatch { stored, computed }));
        }
        match ChunkType::try_from(name) {
            Ok(t) => Ok(t),
            Err(_) => Err(Error::Format(FormatError::BadTagBytes)),
        }
    }

    /// The number of data bytes.
    pub fn length(&self) -> (n: u32)
        ensures
            n == self@.length(),
            self@.wf(),
    {
        proof {
            use_type_invariant(self);
        }
        self.length
    }

    /// The type.
    pub fn chunk_type(&self) -> (t: &ChunkType)
        ensures
            t@ == self@.chunk_type,
            self@.wf(),
    {
        proof {
            use_type_invariant(self);
        }
        &self.chunk_type
    }

    /// The data.
    pub fn data(&self) -> (d: &[u8])
        ensures
            d@ == self@.data,
            self@.wf(),
    {
        proof {
            use_type_invariant(self);
        }
        self.data.as_slice()
    }

    /// The checksum over type and data.
    pub fn crc(&self) -> (sum: u32)
        ensures
            sum == self@.crc(),
            self@.wf(),
    {
        proof {
            use_type_invariant(self);
        }
        self.crc
    }

    /// The data as text, if it is UTF-8.
    pub fn data_as_string(&self) -> (r: Result<String, Error>)
        ensures
            match text_of(self@.data) {
                Ok(t) => r is Ok && r.unwrap()@ == t,
                Err(e) => r == Err::<String, Error>(e),
            },
    {
        match core::str::from_utf8(self.data.as_slice()) {
            Ok(s) => {
                proof {
                    encode_utf8_decode_utf8(s@);
                }
                Ok(s.to_owned())
            },
            Err(_) => Err(Error::Format(FormatError::NonUtf8Payload)),
        }
    }

    /// The chunk on the wire: length, type, data, checksum.
    pub fn as_bytes(&self) -> (bytes: Vec<u8>)
        ensures
            bytes@ == self@.to_bytes(),
            self@.wf(),
    {
        proof {
            use_type_invariant(self);
        }
        let mut res: Vec<u8> = Vec::new();
        res.extend_from_slice(u32_be_bytes(self.length).as_slice());
        res.extend_from_slice(self.chunk_type.bytes().as_slice());
        res.extend_from_slice(self.data.as_slice());
        res.extend_from_slice(u32_be_bytes(self.crc).as_slice());
        res
    }

    /// The chunk as a line of text for a listing: its data where that is
    /// UTF-8, a fixed line otherwise.
    pub fn to_string(&self) -> (s: String)
        ensures
            s@ == shown_text(self@.data),
    {
        match self.data_as_string() {
            Ok(text) => text,
            Err(_) => "Data is not a string".to_owned(),
        }
    }
}

impl<'a> TryFrom<&'a [u8]> for Chunk {
    type Error = Error;

    /// Reads the chunk at the front of `value` and checks its checksum;
    /// bytes after the chunk are left alone.
    fn try_from(value: &'a [u8]) -> (r: Result<Chunk, Error>)
        ensures
            match parse_chunk(value@) {
                Ok(v) => r is Ok && r.unwrap()@ == v && v.wf(),
                Err(e) => r == Err::<Chunk, Error>(e),
            },
    {
        let n = value.len();
        if n < 4 {
            return Err(Error::Format(FormatError::TruncatedLength { available: n }));
        }
        let length = read_u32_be(value, 0);
        let available = n - 4;
        if available < 8 || available - 8 < length as usize {
            return Err(Error::Format(FormatError::TruncatedBody { declared: length, available }));
        }
        let end = 8 + length as usize;
        let raw_data = slice_subrange(value, 4, end);
        let crc = read_u32_be(value, end);
        let name: [u8; 4] = [value[4], value[5], value[6], value[7]];
        assert(name@ =~= raw_data@.subrange(0, 4));
        let chunk_type = match Chunk::accept_type(crc, checksum(raw_data), name) {
            Ok(t) => t,
            Err(e) => {
                return Err(e);
            },
        };
        let data = slice_to_vec(slice_subrange(value, 8, end));
        assert(data@ =~= raw_data@.subrange(4, 4 + length));
        assert(raw_data@ =~= chunk_type@ + data@);
        Ok(Chunk { length, chunk_type, data, crc })
    }
}

impl<'a> vstd::std_specs::convert::TryFromSpecImpl<&'a [u8]> for Chunk {
    /// The contract of `try_from` is stated on the function itself, over
    /// `parse_chunk`.
    open spec fn obeys_try_from_spec() -> bool {
        false
    }

    open spec fn try_from_spec(value: &'a [u8]) -> Result<Chunk, Error> {
        arbitrary()
    }
}

} // verus!
