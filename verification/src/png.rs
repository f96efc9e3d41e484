//! The container: the signature, then chunks laid end to end.

use crate::chunk::{lemma_parse_of_to_bytes, lemma_to_bytes_of_parse, parse_chunk, Chunk, ChunkView};
use crate::chunk_type::{tag_of_text, ChunkType};
use crate::error::{ContainerError, Error, FormatError};
use vstd::prelude::*;
use vstd::slice::slice_subrange;
use vstd::string::StringSliceAdditionalSpecFns;

verus! {

/// The eight bytes with which every container begins.
pub const SIGNATURE: [u8; 8] = [137, 80, 78, 71, 13, 10, 26, 10];

/// The signature as a byte sequence.
pub open spec fn signature() -> Seq<u8> {
    SIGNATURE@
}

/// Every chunk of the sequence is well formed.
pub open spec fn all_wf(chunks: Seq<ChunkView>) -> bool {
    forall|i: int| 0 <= i < chunks.len() ==> (#[trigger] chunks[i]).wf()
}

/// The chunks written one after another, with nothing between them.
pub open spec fn chunks_to_bytes(chunks: Seq<ChunkView>) -> Seq<u8>
    decreases chunks.len(),
{
    if chunks.len() == 0 {
        Seq::empty()
    } else {
        chunks[0].to_bytes() + chunks_to_bytes(chunks.drop_first())
    }
}

/// The container on the wire: the signature, then the chunks.
pub open spec fn png_to_bytes(chunks: Seq<ChunkView>) -> Seq<u8> {
    signature() + chunks_to_bytes(chunks)
}

/// `found` in front of what the rest of a parse gives; a failure of the rest
/// is the failure of the whole.
pub open spec fn after(found: Seq<ChunkView>, rest: Result<Seq<ChunkView>, Error>) -> Result<
    Seq<ChunkView>,
    Error,
> {
    match rest {
        Ok(more) => Ok(found + more),
        Err(e) => Err(e),
    }
}

/// The chunks that `bytes` hold end to end, in their order. The first chunk
/// that fails to parse fails the whole, with its own error; so do bytes left
/// over that are too few for a chunk.
pub open spec fn parse_chunks(bytes: Seq<u8>) -> Result<Seq<ChunkView>, Error>
    decreases bytes.len(),
{
    if bytes.len() == 0 {
        Ok(Seq::empty())
    } else {
        match parse_chunk(bytes) {
            Err(e) => Err(e),
            Ok(first) => after(seq![first], parse_chunks(bytes.skip(first.wire_len()))),
        }
    }
}

/// The chunks of a container, or the reason why `bytes` are none.
pub open spec fn parse_png(bytes: Seq<u8>) -> Result<Seq<ChunkView>, Error> {
    if bytes.len() < 8 || bytes.subrange(0, 8) != signature() {
        Err(Error::Format(FormatError::BadSignature))
    } else {
        parse_chunks(bytes.skip(8))
    }
}

/// The place of the first chunk of type `t`, if there is one.
pub open spec fn first_of_type(chunks: Seq<ChunkView>, t: Seq<u8>) -> Option<int>
    decreases chunks.len(),
{
    if chunks.len() == 0 {
        None
    } else if chunks[0].chunk_type == t {
        Some(0)
    } else {
        match first_of_type(chunks.drop_first(), t) {
            Some(i) => Some(i + 1),
            None => None,
        }
    }
}

/// `first_of_type` names a chunk of the type before which no chunk has it, and
/// names none exactly when no chunk has it.
pub proof fn lemma_first_of_type(chunks: Seq<ChunkView>, t: Seq<u8>)
    ensures
        match first_of_type(chunks, t) {
            Some(i) => {
                &&& 0 <= i < chunks.len()
                &&& chunks[i].chunk_type == t
                &&& forall|j: int| 0 <= j < i ==> (#[trigger] chunks[j]).chunk_type != t
            },
            None => forall|j: int| 0 <= j < chunks.len() ==> (#[trigger] chunks[j]).chunk_type != t,
        },
    decreases chunks.len(),
{
    if chunks.len() > 0 && chunks[0].chunk_type != t {
        let tail = chunks.drop_first();
        lemma_first_of_type(tail, t);
        assert forall|j: int| 0 < j < chunks.len() implies (#[trigger] chunks[j]) == tail[j
            - 1] by {}
    }
}

/// In a row with one more chunk at its end, the first chunk of that chunk's
/// type is the first that the row had before, or else the new one.
pub proof fn lemma_first_of_type_push(chunks: Seq<ChunkView>, last: ChunkView)
    ensures
        first_of_type(chunks.push(last), last.chunk_type) == match first_of_type(
            chunks,
            last.chunk_type,
        ) {
            Some(i) => Some(i),
            None => Some(chunks.len() as int),
        },
    decreases chunks.len(),
{
    if chunks.len() > 0 && chunks[0].chunk_type != last.chunk_type {
        lemma_first_of_type_push(chunks.drop_first(), last);
        assert(chunks.push(last).drop_first() =~= chunks.drop_first().push(last));
    }
}

/// The values of a row of chunks.
pub open spec fn views(chunks: Seq<Chunk>) -> Seq<ChunkView> {
    chunks.map_values(|c: Chunk| c@)
}

/// Writing one more chunk adds its bytes at the end.
pub proof fn lemma_chunks_to_bytes_push(chunks: Seq<ChunkView>, last: ChunkView)
    ensures
        chunks_to_bytes(chunks.push(last)) == chunks_to_bytes(chunks) + last.to_bytes(),
    decreases chunks.len(),
{
    if chunks.len() == 0 {
        assert(chunks.push(last).drop_first() =~= Seq::<ChunkView>::empty());
        assert(chunks_to_bytes(Seq::<ChunkView>::empty()) =~= Seq::<u8>::empty());
    } else {
        lemma_chunks_to_bytes_push(chunks.drop_first(), last);
        assert(chunks.push(last).drop_first() =~= chunks.drop_first().push(last));
    }
}

/// One more chunk in front: if `tail` written end to end parses to `tail`,
/// then a well-formed chunk followed by `tail`, written end to end, parses to
/// the chunk followed by `tail`.
proof fn lemma_parse_chunk_in_front(first: ChunkView, tail: Seq<ChunkView>)
    requires
        first.wf(),
        parse_chunks(chunks_to_bytes(tail)) == Ok::<Seq<ChunkView>, Error>(tail),
    ensures
        parse_chunks(chunks_to_bytes(seq![first] + tail)) == Ok::<Seq<ChunkView>, Error>(
            seq![first] + tail,
        ),
{
    let chunks = seq![first] + tail;
    let bytes = first.to_bytes() + chunks_to_bytes(tail);
    assert(chunks.drop_first() =~= tail);
    lemma_parse_of_to_bytes(first, chunks_to_bytes(tail));
    assert(bytes.skip(first.wire_len()) =~= chunks_to_bytes(tail));
}

/// Well-formed chunks written end to end and parsed again are the same
/// chunks in the same order.
pub proof fn lemma_parse_of_chunks_to_bytes(chunks: Seq<ChunkView>)
    requires
        all_wf(chunks),
    ensures
        parse_chunks(chunks_to_bytes(chunks)) == Ok::<Seq<ChunkView>, Error>(chunks),
    decreases chunks.len(),
{
    if chunks.len() == 0 {
        assert(chunks =~= Seq::<ChunkView>::empty());
    } else {
        let first = chunks[0];
        let tail = chunks.drop_first();
        lemma_parse_of_chunks_to_bytes(tail);
        lemma_parse_chunk_in_front(first, tail);
        assert(seq![first] + tail =~= chunks);
    }
}

/// One more chunk in front: if a chunk stands at the front of `bytes` and
/// the bytes after it are `tail` written end to end, then `bytes` are the chunk
/// and `tail` written end to end.
proof fn lemma_chunk_in_front(bytes: Seq<u8>, first: ChunkView, tail: Seq<ChunkView>)
    requires
        parse_chunk(bytes) == Ok::<ChunkView, Error>(first),
        chunks_to_bytes(tail) == bytes.skip(first.wire_len()),
        all_wf(tail),
    ensures
        chunks_to_bytes(seq![first] + tail) == bytes,
        all_wf(seq![first] + tail),
{
    lemma_to_bytes_of_parse(bytes);
    let chunks = seq![first] + tail;
    assert(chunks.drop_first() =~= tail);
}

/// Bytes that parse as a row of chunks are exactly those chunks written end
/// to end, and each of the chunks is well formed.
pub proof fn lemma_chunks_to_bytes_of_parse(bytes: Seq<u8>)
    ensures
        parse_chunks(bytes) matches Ok(chunks) ==> all_wf(chunks) && chunks_to_bytes(chunks)
            == bytes,
    decreases bytes.len(),
{
    if bytes.len() > 0 {
        if let Ok(first) = parse_chunk(bytes) {
            let rest = bytes.skip(first.wire_len());
            assert(rest.len() < bytes.len()) by {
                lemma_to_bytes_of_parse(bytes);
            }
            lemma_chunks_to_bytes_of_parse(rest);
            if let Ok(tail) = parse_chunks(rest) {
                lemma_chunk_in_front(bytes, first, tail);
            }
        }
    }
}

/// A container made of well-formed chunks, written out and parsed again, is
/// the same container.
pub proof fn lemma_png_round_trip(chunks: Seq<ChunkView>)
    requires
        all_wf(chunks),
    ensures
        parse_png(png_to_bytes(chunks)) == Ok::<Seq<ChunkView>, Error>(chunks),
{
    let bytes = png_to_bytes(chunks);
    assert(bytes.subrange(0, 8) =~= signature());
    assert(bytes.skip(8) =~= chunks_to_bytes(chunks));
    lemma_parse_of_chunks_to_bytes(chunks);
}

/// Writing is the inverse of parsing: the chunks of a container that parses
/// are well formed, and written out they give back the very bytes they were
/// read from.
pub proof fn lemma_png_to_bytes_of_parse(bytes: Seq<u8>)
    ensures
        parse_png(bytes) matches Ok(chunks) ==> all_wf(chunks) && png_to_bytes(chunks) == bytes,
{
    if bytes.len() >= 8 && bytes.subrange(0, 8) == signature() {
        lemma_chunks_to_bytes_of_parse(bytes.skip(8));
    }
}

/// A container that parsed, written out and parsed again, has the same chunks
/// in the same order.
pub proof fn lemma_reparse(bytes: Seq<u8>)
    ensures
        parse_png(bytes) matches Ok(chunks) ==> parse_png(png_to_bytes(chunks)) == Ok::<
            Seq<ChunkView>,
            Error,
        >(chunks),
{
    lemma_png_to_bytes_of_parse(bytes);
}

/// A container in memory: its chunks, in the order of the file.
#[derive(Debug)]
pub struct Png {
    chunks: Vec<Chunk>,
}

impl View for Png {
    type V = Seq<ChunkView>;

    closed spec fn view(&self) -> Seq<ChunkView> {
        views(self.chunks@)
    }
}

/// Whether `bytes` begin with the signature.
fn starts_with_signature(bytes: &[u8]) -> (r: bool)
    ensures
        r == (bytes@.len() >= 8 && bytes@.subrange(0, 8) == signature()),
{
    if bytes.len() < 8 {
        return false;
    }
    let mut i: usize = 0;
    while i < 8
        invariant
            i <= 8,
            bytes@.len() >= 8,
            forall|j: int| 0 <= j < i ==> bytes@[j] == signature()[j],
        decreases 8 - i,
    {
        if bytes[i] != SIGNATURE[i] {
            return false;
        }
        i = i + 1;
    }
    assert(bytes@.subrange(0, 8) =~= signature());
    true
}

impl<'a> TryFrom<&'a [u8]> for Png {
    type Error = Error;

    /// Reads a whole container: the signature, then chunk after chunk until
    /// the bytes are used up. The first chunk that fails fails the whole.
    fn try_from(bytes: &'a [u8]) -> (r: Result<Png, Error>)
        ensures
            match parse_png(bytes@) {
                Ok(chunks) => r is Ok && r.unwrap()@ == chunks && all_wf(chunks),
                Err(e) => r == Err::<Png, Error>(e),
            },
    {
        if !starts_with_signature(bytes) {
            return Err(Error::Format(FormatError::BadSignature));
        }
        let n = bytes.len();
        let mut chunks: Vec<Chunk> = Vec::new();
        let mut pos: usize = 8;
        while pos < n
            invariant
                8 <= pos <= n,
                n == bytes@.len(),
                bytes@.subrange(0, 8) == signature(),
                all_wf(views(chunks@)),
                parse_chunks(bytes@.skip(8)) == after(
                    views(chunks@),
                    parse_chunks(bytes@.skip(pos as int)),
                ),
            decreases n - pos,
        {
            let rest = slice_subrange(bytes, pos, n);
            let chunk = match Chunk::try_from(rest) {
                Ok(c) => c,
                Err(e) => {
                    return Err(e);
                },
            };
            proof {
                lemma_to_bytes_of_parse(rest@);
                let v = chunk@;
                let found = views(chunks@);
                assert(rest@.skip(v.wire_len()) =~= bytes@.skip(pos + v.wire_len()));
                assert(views(chunks@.push(chunk)) =~= found.push(v));
                match parse_chunks(bytes@.skip(pos + v.wire_len())) {
                    Ok(more) => {
                        assert(found + (seq![v] + more) =~= found.push(v) + more);
                    },
                    Err(_) => {},
                }
            }
            pos = pos + 12 + chunk.length() as usize;
            chunks.push(chunk);
        }
        Ok(Png { chunks })
    }
}

impl<'a> vstd::std_specs::convert::TryFromSpecImpl<&'a [u8]> for Png {
    /// The contract of `try_from` is stated on the function itself, over
    /// `parse_png`.
    open spec fn obeys_try_from_spec() -> bool {
        false
    }

    open spec fn try_from_spec(bytes: &'a [u8]) -> Result<Png, Error> {
        arbitrary()
    }
}

impl Png {
    /// Puts a chunk at the end. Nothing is asked of its type beyond what
    /// every chunk type meets.
    pub fn append_chunk(&mut self, chunk: Chunk)
        ensures
            final(self)@ == old(self)@.push(chunk@),
    {
        self.chunks.push(chunk);
    }

    /// The first chunk whose type is the one that `chunk_type` spells, if
    /// there is one. A text that spells no chunk type is an error, not an
    /// absent chunk.
    pub fn chunk_by_type(&self, chunk_type: &str) -> (r: Result<Option<&Chunk>, Error>)
        ensures
            match tag_of_text(chunk_type.spec_bytes()) {
                Err(e) => r == Err::<Option<&Chunk>, Error>(e),
                Ok(t) => r is Ok && match first_of_type(self@, t) {
                    Some(i) => r.unwrap() is Some && r.unwrap().unwrap()@ == self@[i],
                    None => r.unwrap() is None,
                },
            },
    {
        let wanted = match ChunkType::from_str(chunk_type) {
            Ok(t) => t,
            Err(e) => {
                return Err(e);
            },
        };
        match self.position(&wanted) {
            Some(i) => Ok(Some(&self.chunks[i])),
            None => Ok(None),
        }
    }

    /// Takes out the first chunk whose type is the one that `chunk_type`
    /// spells, and hands it back. Later chunks of the same type stay. Where
    /// the call fails the container is as it was.
    pub fn remove_chunk(&mut self, chunk_type: &str) -> (r: Result<Chunk, Error>)
        ensures
            match tag_of_text(chunk_type.spec_bytes()) {
                Err(e) => r == Err::<Chunk, Error>(e) && final(self)@ == old(self)@,
                Ok(t) => match first_of_type(old(self)@, t) {
                    Some(i) => {
                        &&& r is Ok
                        &&& r.unwrap()@ == old(self)@[i]
                        &&& final(self)@ == old(self)@.remove(i)
                    },
                    None => {
                        &&& r == Err::<Chunk, Error>(Error::Container(ContainerError::TagNotFound))
                        &&& final(self)@ == old(self)@
                    },
                },
            },
    {
        let wanted = match ChunkType::from_str(chunk_type) {
            Ok(t) => t,
            Err(e) => {
                return Err(e);
            },
        };
        match self.position(&wanted) {
            Some(i) => Ok(self.chunks.remove(i)),
            None => Err(Error::Container(ContainerError::TagNotFound)),
        }
    }

    /// Where the first chunk of the given type stands.
    fn position(&self, wanted: &ChunkType) -> (r: Option<usize>)
        ensures
            match r {
                Some(i) => {
                    &&& first_of_type(self@, wanted@) == Some(i as int)
                    &&& i < self.chunks@.len()
                },
                None => first_of_type(self@, wanted@) is None,
            },
    {
        let n = self.chunks.len();
        let mut i: usize = 0;
        assert(self@.skip(0) =~= self@);
        while i < n
            invariant
                i <= n,
                n == self.chunks@.len(),
                first_of_type(self@, wanted@) == match first_of_type(
                    self@.skip(i as int),
                    wanted@,
                ) {
                    Some(j) => Some(i + j),
                    None => None,
                },
            decreases n - i,
        {
            let ghost rest = self@.skip(i as int);
            assert(rest.drop_first() =~= self@.skip(i + 1));
            if *self.chunks[i].chunk_type() == *wanted {
                return Some(i);
            }
            i = i + 1;
        }
        None
    }

    /// The container on the wire: the signature, then every chunk in order.
    pub fn as_bytes(&self) -> (bytes: Vec<u8>)
        ensures
            bytes@ == png_to_bytes(self@),
            all_wf(self@),
    {
        let mut res: Vec<u8> = Vec::new();
        res.extend_from_slice(SIGNATURE.as_slice());
        let n = self.chunks.len();
        let mut i: usize = 0;
        while i < n
            invariant
                i <= n,
                n == self.chunks@.len(),
                res@ == signature() + chunks_to_bytes(self@.take(i as int)),
                all_wf(self@.take(i as int)),
            decreases n - i,
        {
            let one = self.chunks[i].as_bytes();
            proof {
                lemma_chunks_to_bytes_push(self@.take(i as int), self@[i as int]);
                assert(self@.take(i as int).push(self@[i as int]) =~= self@.take(i + 1));
            }
            res.extend_from_slice(one.as_slice());
            i = i + 1;
        }
        assert(self@.take(n as int) =~= self@);
        res
    }

    /// The chunks, in order.
    pub fn chunks(&self) -> (chunks: &[Chunk])
        ensures
            views(chunks@) == self@,
    {
        self.chunks.as_slice()
    }
}

} // verus!
