use pngme::args::{Action, Args, Commands};
use pngme::chunk::Chunk;
use pngme::chunk_type::ChunkType;
use pngme::commands::{decode, encode, print, remove};
use pngme::error::{ContainerError, Error, FormatError};
use pngme::png::{Png, SIGNATURE};
use pngme::wire::{read_u32_be, u32_be_bytes};
use std::str::FromStr;

fn chunk_bytes(tag: &str, data: &[u8]) -> Vec<u8> {
    Chunk::new(ChunkType::from_str(tag).unwrap(), data.to_vec()).as_bytes()
}

fn container(chunks: &[(&str, &[u8])]) -> Vec<u8> {
    let mut bytes = SIGNATURE.to_vec();
    for (tag, data) in chunks {
        bytes.extend_from_slice(&chunk_bytes(tag, data));
    }
    bytes
}

#[test]
fn encode_then_decode_gives_the_message() {
    let empty = SIGNATURE.to_vec();
    let encoded = encode(&empty, "ruSt", "hello").unwrap();
    assert_eq!(decode(&encoded, "ruSt").unwrap(), "hello");
}

#[test]
fn encode_writes_the_new_chunk_at_the_end() {
    let empty = SIGNATURE.to_vec();
    let encoded = encode(&empty, "ruSt", "hello").unwrap();
    let mut front = SIGNATURE.to_vec();
    front.extend_from_slice(&[0, 0, 0, 5]);
    front.extend_from_slice(b"ruSt");
    front.extend_from_slice(b"hello");
    assert_eq!(&encoded[..21], &front[..]);
    assert_eq!(encoded.len(), 8 + 12 + 5);
    let png = Png::try_from(encoded.as_slice()).unwrap();
    assert_eq!(png.chunks().len(), 1);
    assert_eq!(&encoded[21..], &png.chunks()[0].crc().to_be_bytes());

    let before = container(&[("FrSt", b"one"), ("LASt", b"two")]);
    let after = encode(&before, "miDl", "gr\u{fc}n").unwrap();
    assert_eq!(
        after,
        container(&[("FrSt", b"one"), ("LASt", b"two"), ("miDl", "gr\u{fc}n".as_bytes())])
    );
}

#[test]
fn remove_undoes_encode_and_then_finds_nothing() {
    let before = container(&[("FrSt", b"one")]);
    let with = encode(&before, "TEST", "secret").unwrap();
    let without = remove(&with, "TEST").unwrap();
    assert_eq!(without, before);
    let png = Png::try_from(without.as_slice()).unwrap();
    assert!(png.chunks().iter().all(|c| c.chunk_type().to_string() != "TEST"));
    assert_eq!(
        remove(&without, "TEST"),
        Err(Error::Container(ContainerError::TagNotFound))
    );
    assert_eq!(
        decode(&without, "TEST"),
        Err(Error::Container(ContainerError::TagNotFound))
    );
}

#[test]
fn decode_reads_the_first_chunk_of_the_type() {
    let bytes = container(&[("ruSt", b"first"), ("ruSt", b"second")]);
    assert_eq!(decode(&bytes, "ruSt").unwrap(), "first");
    let once = remove(&bytes, "ruSt").unwrap();
    assert_eq!(once, container(&[("ruSt", b"second")]));
    assert_eq!(decode(&once, "ruSt").unwrap(), "second");
}

#[test]
fn decode_of_data_that_is_no_text_is_an_error() {
    let bytes = container(&[("ruSt", &[0xff, 0xff])]);
    assert_eq!(
        decode(&bytes, "ruSt"),
        Err(Error::Format(FormatError::NonUtf8Payload))
    );
}

#[test]
fn commands_report_the_container_before_the_type() {
    let broken = [1u8, 2, 3];
    let bad = Error::Format(FormatError::BadSignature);
    assert_eq!(encode(&broken, "no", "m"), Err(bad));
    assert_eq!(decode(&broken, "no"), Err(bad));
    assert_eq!(remove(&broken, "no"), Err(bad));
    assert_eq!(print(&broken), Err(bad));

    let fine = SIGNATURE.to_vec();
    let short = Error::Format(FormatError::InvalidTagLength { actual: 2 });
    assert_eq!(encode(&fine, "no", "m"), Err(short));
    assert_eq!(decode(&fine, "no"), Err(short));
    assert_eq!(remove(&fine, "no"), Err(short));
    let letters = Error::Format(FormatError::InvalidTagBytes);
    assert_eq!(encode(&fine, "n0pe", "m"), Err(letters));
    assert_eq!(decode(&fine, "n0pe"), Err(letters));
    assert_eq!(remove(&fine, "n0pe"), Err(letters));
}

#[test]
fn print_lists_every_chunk() {
    let bytes = container(&[("FrSt", b"one"), ("biNa", &[0x80]), ("LASt", b"")]);
    assert_eq!(print(&bytes).unwrap(), ["one", "Data is not a string", ""]);
    assert_eq!(print(&SIGNATURE).unwrap(), Vec::<String>::new());
}

#[test]
fn big_endian_fields() {
    assert_eq!(u32_be_bytes(0), [0, 0, 0, 0]);
    assert_eq!(u32_be_bytes(42), [0, 0, 0, 42]);
    assert_eq!(u32_be_bytes(0x0102_0304), [1, 2, 3, 4]);
    assert_eq!(u32_be_bytes(2882656334), [0xab, 0xd1, 0xd8, 0x4e]);
    assert_eq!(u32_be_bytes(u32::MAX), [255, 255, 255, 255]);
    let bytes = [9u8, 1, 2, 3, 4, 255, 255, 255, 255];
    assert_eq!(read_u32_be(&bytes, 0), 0x0901_0203);
    assert_eq!(read_u32_be(&bytes, 1), 0x0102_0304);
    assert_eq!(read_u32_be(&bytes, 5), u32::MAX);
    for x in [0u32, 1, 255, 256, 65535, 65536, 0x00ff_ffff, 0x0100_0000, 0x8000_0000, u32::MAX] {
        assert_eq!(u32_be_bytes(x), x.to_be_bytes());
        assert_eq!(read_u32_be(&x.to_be_bytes(), 0), x);
    }
}

#[test]
fn encode_writes_to_the_named_file_or_to_output_png() {
    let input = SIGNATURE.to_vec();
    let expected = encode(&input, "ruSt", "hello").unwrap();

    let args = Args {
        command: Commands::Encode {
            file_path: String::from("in.png"),
            chunk_type: String::from("ruSt"),
            message: String::from("hello"),
            output_file: None,
        },
    };
    assert_eq!(args.command.file_path(), "in.png");
    match args.command.run(&input) {
        Ok(Action::Write { path, bytes }) => {
            assert_eq!(path, "output.png");
            assert_eq!(bytes, expected);
        }
        other => panic!("{:?}", other),
    }

    let command = Commands::Encode {
        file_path: String::from("in.png"),
        chunk_type: String::from("ruSt"),
        message: String::from("hello"),
        output_file: Some(String::from("out/there.png")),
    };
    match command.run(&input) {
        Ok(Action::Write { path, bytes }) => {
            assert_eq!(path, "out/there.png");
            assert_eq!(bytes, expected);
        }
        other => panic!("{:?}", other),
    }
}

#[test]
fn remove_writes_back_to_the_file_it_read() {
    let input = container(&[("ruSt", b"hello"), ("LASt", b"x")]);
    let command =
        Commands::Remove { file_path: String::from("a.png"), chunk_type: String::from("ruSt") };
    assert_eq!(command.file_path(), "a.png");
    match command.run(&input) {
        Ok(Action::Write { path, bytes }) => {
            assert_eq!(path, "a.png");
            assert_eq!(bytes, container(&[("LASt", b"x")]));
        }
        other => panic!("{:?}", other),
    }
    let command =
        Commands::Remove { file_path: String::from("a.png"), chunk_type: String::from("miDl") };
    match command.run(&input) {
        Err(e) => assert_eq!(e, Error::Container(ContainerError::TagNotFound)),
        other => panic!("{:?}", other),
    }
}

#[test]
fn decode_and_print_give_lines() {
    let input = container(&[("ruSt", b"hello"), ("LASt", b"x")]);
    let command =
        Commands::Decode { file_path: String::from("a.png"), chunk_type: String::from("ruSt") };
    assert_eq!(command.file_path(), "a.png");
    match command.run(&input) {
        Ok(Action::Print { lines }) => assert_eq!(lines, ["hello"]),
        other => panic!("{:?}", other),
    }
    let command = Commands::Print { file_path: String::from("b.png") };
    assert_eq!(command.file_path(), "b.png");
    match command.run(&input) {
        Ok(Action::Print { lines }) => assert_eq!(lines, ["hello", "x"]),
        other => panic!("{:?}", other),
    }
    match command.run(&[0u8; 8]) {
        Err(e) => assert_eq!(e, Error::Format(FormatError::BadSignature)),
        other => panic!("{:?}", other),
    }
}
