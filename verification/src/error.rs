//! The ways in which a decode can fail.

use vstd::prelude::*;
use vstd::std_specs::convert::FromSpecImpl;

verus! {

/// Why a decode stopped. Each kind stands for one negative status code.
///
/// The variants are listed from the lowest status code to the highest, so
/// that the derived order is the order of the codes.
#[derive(Copy, Clone, Debug, PartialEq, Eq, PartialOrd, Ord, Structural)]
pub enum TNEFError {
    /// Any status that has no kind of its own (code -9). No decoding
    /// function gives it; it is what an unnamed status code converts to.
    UnknownError,
    /// The decoder was set up without a way to read (code -8). No decoding
    /// function gives it.
    IncorrectSetup,
    /// A property is not known (code -7). No decoding function gives it.
    UnknownProperty,
    /// A handler failed (code -6): the payload of a block could not be read
    /// as its tag demands, or the byte source reported a failure.
    ErrorInHandler,
    /// A block's checksum does not match its payload (code -5).
    BadChecksum,
    /// The key that follows the signature is missing (code -4).
    NoKey,
    /// The stream ended, or ran short, where more data was declared, or a
    /// block declared a length of zero (code -3).
    ErrorReadingData,
    /// The stream does not start with the TNEF signature (code -2).
    NotTnefStream,
    /// The input could not be set up for decoding (code -1): a file that
    /// cannot be opened. No function that decodes bytes gives it.
    CannotInitData,
}

/// What every decoding entry point returns.
pub type TNEFResult<T> = Result<T, TNEFError>;

/// The kind that stands for a status code: the eight named codes each have
/// their own, every other number is `UnknownError`.
pub open spec fn error_of_code(code: int) -> TNEFError {
    if code == -1 {
        TNEFError::CannotInitData
    } else if code == -2 {
        TNEFError::NotTnefStream
    } else if code == -3 {
        TNEFError::ErrorReadingData
    } else if code == -4 {
        TNEFError::NoKey
    } else if code == -5 {
        TNEFError::BadChecksum
    } else if code == -6 {
        TNEFError::ErrorInHandler
    } else if code == -7 {
        TNEFError::UnknownProperty
    } else if code == -8 {
        TNEFError::IncorrectSetup
    } else {
        TNEFError::UnknownError
    }
}

/// The status code of a kind, between -9 and -1.
pub open spec fn code_of_error(e: TNEFError) -> int {
    match e {
        TNEFError::CannotInitData => -1,
        TNEFError::NotTnefStream => -2,
        TNEFError::ErrorReadingData => -3,
        TNEFError::NoKey => -4,
        TNEFError::BadChecksum => -5,
        TNEFError::ErrorInHandler => -6,
        TNEFError::UnknownProperty => -7,
        TNEFError::IncorrectSetup => -8,
        TNEFError::UnknownError => -9,
    }
}

/// The fixed text of a kind: its message, then in brackets its status code
/// as one unsigned byte.
pub open spec fn text_of_error(e: TNEFError) -> Seq<char> {
    match e {
        TNEFError::CannotInitData => "Cannot initialize data (255)"@,
        TNEFError::NotTnefStream => "Not a TNEF stream (254)"@,
        TNEFError::ErrorReadingData => "Error reading data (253)"@,
        TNEFError::NoKey => "No key (252)"@,
        TNEFError::BadChecksum => "Bad checksum (251)"@,
        TNEFError::ErrorInHandler => "Error in I/O handler (250)"@,
        TNEFError::UnknownProperty => "Unkown property (249)"@,
        TNEFError::IncorrectSetup => "Incorrect setup (248)"@,
        TNEFError::UnknownError => "Unkown error (247)"@,
    }
}

impl From<i32> for TNEFError {
    fn from(other: i32) -> (ret: Self) {
        match other {
            -1 => TNEFError::CannotInitData,
            -2 => TNEFError::NotTnefStream,
            -3 => TNEFError::ErrorReadingData,
            -4 => TNEFError::NoKey,
            -5 => TNEFError::BadChecksum,
            -6 => TNEFError::ErrorInHandler,
            -7 => TNEFError::UnknownProperty,
            -8 => TNEFError::IncorrectSetup,
            _ => TNEFError::UnknownError,
        }
    }
}

impl FromSpecImpl<i32> for TNEFError {
    open spec fn obeys_from_spec() -> bool {
        true
    }

    open spec fn from_spec(v: i32) -> Self {
        error_of_code(v as int)
    }
}

impl TNEFError {
    /// The status code of this kind.
    pub fn code(&self) -> (c: i32)
        ensures
            c == code_of_error(*self),
            -9 <= c <= -1,
            error_of_code(c as int) == *self,
    {
        match self {
            TNEFError::CannotInitData => -1,
            TNEFError::NotTnefStream => -2,
            TNEFError::ErrorReadingData => -3,
            TNEFError::NoKey => -4,
            TNEFError::BadChecksum => -5,
            TNEFError::ErrorInHandler => -6,
            TNEFError::UnknownProperty => -7,
            TNEFError::IncorrectSetup => -8,
            TNEFError::UnknownError => -9,
        }
    }

    /// The text shown for this kind.
    pub fn to_string(&self) -> (s: String)
        ensures
            s@ == text_of_error(*self),
    {
        match self {
            TNEFError::CannotInitData => "Cannot initialize data (255)".to_owned(),
            TNEFError::NotTnefStream => "Not a TNEF stream (254)".to_owned(),
            TNEFError::ErrorReadingData => "Error reading data (253)".to_owned(),
            TNEFError::NoKey => "No key (252)".to_owned(),
            TNEFError::BadChecksum => "Bad checksum (251)".to_owned(),
            TNEFError::ErrorInHandler => "Error in I/O handler (250)".to_owned(),
            TNEFError::UnknownProperty => "Unkown property (249)".to_owned(),
            TNEFError::IncorrectSetup => "Incorrect setup (248)".to_owned(),
            TNEFError::UnknownError => "Unkown error (247)".to_owned(),
        }
    }
}

} // verus!
