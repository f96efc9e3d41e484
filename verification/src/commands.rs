//! The four operations on a container held as bytes: hide a message in a new
//! chunk, read a message back, take a chunk out, list the chunks.

use crate::chunk::{shown_text, text_of, Chunk, ChunkView};
use crate::chunk_type::{tag_of_text, ChunkType};
use crate::error::{ContainerError, Error};
use crate::png::{
    first_of_type, lemma_first_of_type, lemma_first_of_type_push, lemma_png_round_trip,
    lemma_png_to_bytes_of_parse, parse_png, png_to_bytes, Png,
};
use vstd::prelude::*;
use vstd::slice::slice_to_vec;
use vstd::string::StringSliceAdditionalSpecFns;
use vstd::utf8::{encode_utf8, encode_utf8_decode_utf8, encode_utf8_valid_utf8};

verus! {

/// The container `bytes` with one more chunk at its end, of the type that
/// `chunk_type` spells and with `message` as its data. The container is read
/// first, so its errors come before those of the type.
pub open spec fn encode_spec(bytes: Seq<u8>, chunk_type: Seq<u8>, message: Seq<u8>) -> Result<
    Seq<u8>,
    Error,
> {
    match parse_png(bytes) {
        Err(e) => Err(e),
        Ok(chunks) => match tag_of_text(chunk_type) {
            Err(e) => Err(e),
            Ok(t) => Ok(png_to_bytes(chunks.push(ChunkView { chunk_type: t, data: message }))),
        },
    }
}

/// The text in the first chunk of the type that `chunk_type` spells.
pub open spec fn decode_spec(bytes: Seq<u8>, chunk_type: Seq<u8>) -> Result<Seq<char>, Error> {
    match parse_png(bytes) {
        Err(e) => Err(e),
        Ok(chunks) => match tag_of_text(chunk_type) {
            Err(e) => Err(e),
            Ok(t) => match first_of_type(chunks, t) {
                None => Err(Error::Container(ContainerError::TagNotFound)),
                Some(i) => text_of(chunks[i].data),
            },
        },
    }
}

/// The container `bytes` without its first chunk of the type that
/// `chunk_type` spells.
pub open spec fn remove_spec(bytes: Seq<u8>, chunk_type: Seq<u8>) -> Result<Seq<u8>, Error> {
    match parse_png(bytes) {
        Err(e) => Err(e),
        Ok(chunks) => match tag_of_text(chunk_type) {
            Err(e) => Err(e),
            Ok(t) => match first_of_type(chunks, t) {
                None => Err(Error::Container(ContainerError::TagNotFound)),
                Some(i) => Ok(png_to_bytes(chunks.remove(i))),
            },
        },
    }
}

/// One line for each chunk of the container `bytes`, in order.
pub open spec fn print_spec(bytes: Seq<u8>) -> Result<Seq<Seq<char>>, Error> {
    match parse_png(bytes) {
        Err(e) => Err(e),
        Ok(chunks) => Ok(chunks.map_values(|c: ChunkView| shown_text(c.data))),
    }
}

/// The container stays well formed when `encode` adds to it: where the
/// container parses, the type is spelled right and the message fits a length
/// field, the result parses to the old chunks followed by the new one.
pub proof fn lemma_encode_appends(bytes: Seq<u8>, chunk_type: Seq<u8>, message: Seq<u8>)
    requires
        parse_png(bytes) is Ok,
        tag_of_text(chunk_type) is Ok,
        message.len() <= u32::MAX,
    ensures
        encode_spec(bytes, chunk_type, message) matches Ok(out) && parse_png(out) == Ok::<
            Seq<ChunkView>,
            Error,
        >(parse_png(bytes).unwrap().push(ChunkView { chunk_type, data: message })),
{
    let chunks = parse_png(bytes).unwrap();
    let added = ChunkView { chunk_type, data: message };
    lemma_png_to_bytes_of_parse(bytes);
    lemma_png_round_trip(chunks.push(added));
}

/// A message hidden under a type that the container did not hold is read
/// back as it was given.
pub proof fn lemma_decode_of_encode(bytes: Seq<u8>, chunk_type: Seq<u8>, message: Seq<char>)
    requires
        parse_png(bytes) is Ok,
        tag_of_text(chunk_type) is Ok,
        first_of_type(parse_png(bytes).unwrap(), chunk_type) is None,
        encode_utf8(message).len() <= u32::MAX,
    ensures
        encode_spec(bytes, chunk_type, encode_utf8(message)) matches Ok(out) && decode_spec(
            out,
            chunk_type,
        ) == Ok::<Seq<char>, Error>(message),
{
    let data = encode_utf8(message);
    let chunks = parse_png(bytes).unwrap();
    let added = ChunkView { chunk_type, data };
    assert(text_of(data) == Ok::<Seq<char>, Error>(message)) by {
        encode_utf8_valid_utf8(message);
        encode_utf8_decode_utf8(message);
    }
    lemma_encode_appends(bytes, chunk_type, data);
    lemma_first_of_type_push(chunks, added);
}

/// Taking out a chunk that `encode` added under a type that the container
/// did not hold gives back the bytes of the container as it was; a second
/// `remove` then finds nothing to take.
pub proof fn lemma_remove_of_encode(bytes: Seq<u8>, chunk_type: Seq<u8>, message: Seq<u8>)
    requires
        parse_png(bytes) is Ok,
        tag_of_text(chunk_type) is Ok,
        first_of_type(parse_png(bytes).unwrap(), chunk_type) is None,
        message.len() <= u32::MAX,
    ensures
        encode_spec(bytes, chunk_type, message) matches Ok(out) && remove_spec(out, chunk_type)
            == Ok::<Seq<u8>, Error>(bytes),
        remove_spec(bytes, chunk_type) == Err::<Seq<u8>, Error>(
            Error::Container(ContainerError::TagNotFound),
        ),
{
    let chunks = parse_png(bytes).unwrap();
    let added = ChunkView { chunk_type, data: message };
    lemma_encode_appends(bytes, chunk_type, message);
    lemma_first_of_type_push(chunks, added);
    lemma_png_to_bytes_of_parse(bytes);
    assert(chunks.push(added).remove(chunks.len() as int) =~= chunks);
}

/// After a `remove` that took the only chunk of a type, there is none left:
/// where the container holds no chunk of the type after the first, a second
/// `remove` fails with `TagNotFound`, and so does `decode`.
pub proof fn lemma_remove_leaves_none(bytes: Seq<u8>, chunk_type: Seq<u8>)
    requires
        parse_png(bytes) is Ok,
        tag_of_text(chunk_type) is Ok,
        first_of_type(parse_png(bytes).unwrap(), chunk_type) matches Some(i) && first_of_type(
            parse_png(bytes).unwrap().remove(i),
            chunk_type,
        ) is None,
    ensures
        remove_spec(bytes, chunk_type) matches Ok(out) && remove_spec(out, chunk_type) == Err::<
            Seq<u8>,
            Error,
        >(Error::Container(ContainerError::TagNotFound)) && decode_spec(out, chunk_type) == Err::<
            Seq<char>,
            Error,
        >(Error::Container(ContainerError::TagNotFound)),
{
    let chunks = parse_png(bytes).unwrap();
    let i = first_of_type(chunks, chunk_type).unwrap();
    lemma_first_of_type(chunks, chunk_type);
    lemma_png_to_bytes_of_parse(bytes);
    let fewer = chunks.remove(i);
    lemma_png_round_trip(fewer);
}

/// The texts of a row of strings.
pub open spec fn texts(lines: Seq<String>) -> Seq<Seq<char>> {
    lines.map_values(|s: String| s@)
}

/// Adds a chunk of type `chunk_type` that holds `message` at the end of the
/// container `bytes`, and gives the new container.
pub fn encode(bytes: &[u8], chunk_type: &str, message: &str) -> (r: Result<Vec<u8>, Error>)
    requires
        message.spec_bytes().len() <= u32::MAX,
    ensures
        match encode_spec(bytes@, chunk_type.spec_bytes(), message.spec_bytes()) {
            Ok(out) => r is Ok && r.unwrap()@ == out,
            Err(e) => r == Err::<Vec<u8>, Error>(e),
        },
{
    let mut png = match Png::try_from(bytes) {
        Ok(p) => p,
        Err(e) => {
            return Err(e);
        },
    };
    let chunk_type = match ChunkType::from_str(chunk_type) {
        Ok(t) => t,
        Err(e) => {
            return Err(e);
        },
    };
    png.append_chunk(Chunk::new(chunk_type, slice_to_vec(message.as_bytes())));
    Ok(png.as_bytes())
}

/// Reads the message in the first chunk of type `chunk_type` of the
/// container `bytes`.
pub fn decode(bytes: &[u8], chunk_type: &str) -> (r: Result<String, Error>)
    ensures
        match decode_spec(bytes@, chunk_type.spec_bytes()) {
            Ok(text) => r is Ok && r.unwrap()@ == text,
            Err(e) => r == Err::<String, Error>(e),
        },
{
    let png = match Png::try_from(bytes) {
        Ok(p) => p,
        Err(e) => {
            return Err(e);
        },
    };
    match png.chunk_by_type(chunk_type) {
        Ok(Some(chunk)) => chunk.data_as_string(),
        Ok(None) => Err(Error::Container(ContainerError::TagNotFound)),
        Err(e) => Err(e),
    }
}

/// Takes the first chunk of type `chunk_type` out of the container `bytes`,
/// and gives the new container.
pub fn remove(bytes: &[u8], chunk_type: &str) -> (r: Result<Vec<u8>, Error>)
    ensures
        match remove_spec(bytes@, chunk_type.spec_bytes()) {
            Ok(out) => r is Ok && r.unwrap()@ == out,
            Err(e) => r == Err::<Vec<u8>, Error>(e),
        },
{
    let mut png = match Png::try_from(bytes) {
        Ok(p) => p,
        Err(e) => {
            return Err(e);
        },
    };
    match png.remove_chunk(chunk_type) {
        Ok(_) => Ok(png.as_bytes()),
        Err(e) => Err(e),
    }
}

/// Lists the chunks of the container `bytes`: for each its data as text, or
/// a fixed line where the data is no text.
pub fn print(bytes: &[u8]) -> (r: Result<Vec<String>, Error>)
    ensures
        match print_spec(bytes@) {
            Ok(lines) => r is Ok && texts(r.unwrap()@) == lines,
            Err(e) => r == Err::<Vec<String>, Error>(e),
        },
{
    let png = match Png::try_from(bytes) {
        Ok(p) => p,
        Err(e) => {
            return Err(e);
        },
    };
    let chunks = png.chunks();
    let mut lines: Vec<String> = Vec::new();
    let mut i: usize = 0;
    while i < chunks.len()
        invariant
            i <= chunks@.len(),
            lines@.len() == i,
            forall|j: int| 0 <= j < i ==> (#[trigger] lines@[j])@ == shown_text(chunks@[j]@.data),
        decreases chunks@.len() - i,
    {
        lines.push(chunks[i].to_string());
        i = i + 1;
    }
    Ok(lines)
}

} // verus!
