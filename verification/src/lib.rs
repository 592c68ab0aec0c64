//! Reading and rewriting of audio metadata: ID3v1 and ID3v2 tags, FLAC
//! metadata blocks with Vorbis comments, and MP4 atom trees.
//!
//! Every codec works on a [`store::Store`], a byte buffer with a cursor, and
//! on the normalized [`Tags`] model. Contracts are stated over the views of
//! these types.
use vstd::prelude::*;

pub mod dispatch;
pub mod flac;
pub mod id3v1;
pub mod id3v2;
pub mod m4a;
pub mod store;
pub mod tools;
pub mod types;
pub mod vorbis;

pub use crate::dispatch::get_front_cover;
pub use crate::dispatch::get_tags;
pub use crate::dispatch::set_tags;
pub use crate::types::DateTime;
pub use crate::types::Image;
pub use crate::types::TagOption;
pub use crate::types::Tags;

verus! {

/// A failure of a tag operation.
#[derive(Debug)]
pub enum Error {
    /// The byte store refused an operation.
    IOError(std::io::Error),
    /// The data is not a tag this library accepts.
    TagError(String),
}

/// What contracts say of an [`Error`]: its kind and, for a tag error, its message.
pub enum ErrorView {
    IOError,
    TagError(Seq<char>),
}

impl View for Error {
    type V = ErrorView;

    open spec fn view(&self) -> ErrorView {
        match self {
            Error::IOError(_) => ErrorView::IOError,
            Error::TagError(s) => ErrorView::TagError(s@),
        }
    }
}

impl From<std::io::Error> for Error {
    fn from(err: std::io::Error) -> (r: Error) {
        Error::IOError(err)
    }
}

impl vstd::std_specs::convert::FromSpecImpl<std::io::Error> for Error {
    open spec fn obeys_from_spec() -> bool {
        true
    }

    open spec fn from_spec(err: std::io::Error) -> Error {
        Error::IOError(err)
    }
}

impl From<String> for Error {
    fn from(err: String) -> (r: Error) {
        Error::TagError(err)
    }
}

impl vstd::std_specs::convert::FromSpecImpl<String> for Error {
    open spec fn obeys_from_spec() -> bool {
        true
    }

    open spec fn from_spec(err: String) -> Error {
        Error::TagError(err)
    }
}

/// The text of an error of the byte store; `to_string` of std.
#[verifier::external_body]
fn io_error_text(e: &std::io::Error) -> String {
    e.to_string()
}

impl Error {
    /// The error as a line of text: what kind it is, and its message.
    pub fn to_string(&self) -> (r: String)
        ensures
            match self {
                Error::IOError(_) => "IO error: "@.is_prefix_of(r@),
                Error::TagError(m) => r@ == "Error reading tag from file: "@ + m@,
            },
    {
        match self {
            Error::IOError(e) => {
                let mut s = String::from_str("IO error: ");
                let text = io_error_text(e);
                s.append(text.as_str());
                proof {
                    assert(s@.subrange(0, "IO error: "@.len() as int) =~= "IO error: "@);
                }
                s
            },
            Error::TagError(e) => {
                let mut s = String::from_str("Error reading tag from file: ");
                s.append(e.as_str());
                s
            },
        }
    }

    /// The message of the error.
    pub fn description(&self) -> (r: String)
        ensures
            self matches Error::TagError(m) ==> r@ == m@,
    {
        match self {
            Error::IOError(e) => io_error_text(e),
            Error::TagError(e) => e.clone(),
        }
    }

    /// The error of the byte store that is behind this error, if one is.
    pub fn cause(&self) -> (r: Option<&std::io::Error>)
        ensures
            r == (match self {
                Error::IOError(e) => Some(e),
                Error::TagError(_) => None,
            }),
    {
        match self {
            Error::IOError(e) => Some(e),
            Error::TagError(_) => None,
        }
    }
}

/// What contracts say of a result: the view of its value or of its error.
pub open spec fn view_result<T: View, E: View>(r: Result<T, E>) -> Result<T::V, E::V> {
    match r {
        Ok(t) => Ok(t@),
        Err(e) => Err(e@),
    }
}

#[verifier::external_type_specification]
#[verifier::external_body]
pub struct ExIoError(std::io::Error);

} // verus!
