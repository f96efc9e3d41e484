//! What a caller can ask for, and what is to be done about it once the file
//! has been read.

use crate::commands::{
    decode, decode_spec, encode, encode_spec, print, print_spec, remove, remove_spec, texts,
};
use crate::error::Error;
use vstd::prelude::*;
use vstd::utf8::encode_utf8;

verus! {

/// A request: one command with its arguments.
#[derive(Debug)]
pub struct Args {
    pub command: Commands,
}

/// The commands.
#[derive(Debug)]
pub enum Commands {
    /// Hide `message` in a new chunk of type `chunk_type` at the end of the
    /// container in `file_path`, and write the result to `output_file`.
    Encode { file_path: String, chunk_type: String, message: String, output_file: Option<String> },
    /// Show the message in the first chunk of type `chunk_type`.
    Decode { file_path: String, chunk_type: String },
    /// Take the first chunk of type `chunk_type` out of the container, in
    /// place.
    Remove { file_path: String, chunk_type: String },
    /// List the chunks.
    Print { file_path: String },
}

/// What remains to be done when a command has been worked out.
#[derive(Debug)]
pub enum Action {
    /// Write `bytes` to the file at `path`.
    Write { path: String, bytes: Vec<u8> },
    /// Print the lines, one after another.
    Print { lines: Vec<String> },
}

/// An `Action` as a value.
pub enum ActionView {
    Write { path: Seq<char>, bytes: Seq<u8> },
    Print { lines: Seq<Seq<char>> },
}

impl View for Action {
    type V = ActionView;

    open spec fn view(&self) -> ActionView {
        match self {
            Action::Write { path, bytes } => ActionView::Write { path: path@, bytes: bytes@ },
            Action::Print { lines } => ActionView::Print { lines: texts(lines@) },
        }
    }
}

impl Commands {
    /// The file that holds the container.
    pub open spec fn input_path(&self) -> Seq<char> {
        match self {
            Commands::Encode { file_path, .. } => file_path@,
            Commands::Decode { file_path, .. } => file_path@,
            Commands::Remove { file_path, .. } => file_path@,
            Commands::Print { file_path } => file_path@,
        }
    }

    /// The file that a changed container goes to: for `Encode` the one that
    /// was named, or `output.png`; for `Remove` the file that was read.
    pub open spec fn output_path(&self) -> Seq<char> {
        match self {
            Commands::Encode { output_file: Some(path), .. } => path@,
            Commands::Encode { output_file: None, .. } => "output.png"@,
            _ => self.input_path(),
        }
    }

    /// The message of an `Encode` is short enough for the length field of a
    /// chunk.
    pub open spec fn message_fits(&self) -> bool {
        match self {
            Commands::Encode { message, .. } => encode_utf8(message@).len() <= u32::MAX,
            _ => true,
        }
    }

    /// What the command gives on a file that holds `input`.
    pub open spec fn outcome(&self, input: Seq<u8>) -> Result<ActionView, Error> {
        match self {
            Commands::Encode { chunk_type, message, .. } => match encode_spec(
                input,
                encode_utf8(chunk_type@),
                encode_utf8(message@),
            ) {
                Ok(bytes) => Ok(ActionView::Write { path: self.output_path(), bytes }),
                Err(e) => Err(e),
            },
            Commands::Decode { chunk_type, .. } => match decode_spec(
                input,
                encode_utf8(chunk_type@),
            ) {
                Ok(text) => Ok(ActionView::Print { lines: seq![text] }),
                Err(e) => Err(e),
            },
            Commands::Remove { chunk_type, .. } => match remove_spec(
                input,
                encode_utf8(chunk_type@),
            ) {
                Ok(bytes) => Ok(ActionView::Write { path: self.output_path(), bytes }),
                Err(e) => Err(e),
            },
            Commands::Print { .. } => match print_spec(input) {
                Ok(lines) => Ok(ActionView::Print { lines }),
                Err(e) => Err(e),
            },
        }
    }

    /// The path of the file to read.
    pub fn file_path(&self) -> (path: &String)
        ensures
            path@ == self.input_path(),
    {
        match self {
            Commands::Encode { file_path, .. } => file_path,
            Commands::Decode { file_path, .. } => file_path,
            Commands::Remove { file_path, .. } => file_path,
            Commands::Print { file_path } => file_path,
        }
    }

    /// Works the command out on the bytes of its file: what to write and
    /// where, or what to print.
    pub fn run(&self, input: &[u8]) -> (r: Result<Action, Error>)
        requires
            self.message_fits(),
        ensures
            match self.outcome(input@) {
                Ok(action) => r is Ok && r.unwrap()@ == action,
                Err(e) => r == Err::<Action, Error>(e),
            },
    {
        match self {
            Commands::Encode { chunk_type, message, output_file, .. } => {
                let bytes = match encode(input, chunk_type.as_str(), message.as_str()) {
                    Ok(b) => b,
                    Err(e) => {
                        return Err(e);
                    },
                };
                let path = match output_file {
                    Some(p) => p.clone(),
                    None => "output.png".to_owned(),
                };
                Ok(Action::Write { path, bytes })
            },
            Commands::Decode { chunk_type, .. } => {
                let text = match decode(input, chunk_type.as_str()) {
                    Ok(t) => t,
                    Err(e) => {
                        return Err(e);
                    },
                };
                let mut lines: Vec<String> = Vec::new();
                lines.push(text);
                assert(texts(lines@) =~= seq![text@]);
                Ok(Action::Print { lines })
            },
            Commands::Remove { file_path, chunk_type } => {
                let bytes = match remove(input, chunk_type.as_str()) {
                    Ok(b) => b,
                    Err(e) => {
                        return Err(e);
                    },
                };
                Ok(Action::Write { path: file_path.clone(), bytes })
            },
            Commands::Print { .. } => {
                match print(input) {
                    Ok(lines) => Ok(Action::Print { lines }),
                    Err(e) => Err(e),
                }
            },
        }
    }
}

} // verus!
