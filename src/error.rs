use vstd::prelude::*;

verus! {

/// Lowercase hexadecimal digit for `d < 16`.
pub open spec fn hex_digit(d: nat) -> char {
    seq!['0', '1', '2', '3', '4', '5', '6', '7', '8', '9', 'a', 'b', 'c', 'd', 'e', 'f'][d as int]
}

/// `v` in lowercase hexadecimal, without leading zeros.
pub open spec fn hex_text(v: nat) -> Seq<char>
    decreases v,
{
    if v < 16 {
        seq![hex_digit(v)]
    } else {
        hex_text(v / 16) + seq![hex_digit(v % 16)]
    }
}

/// Relies on std's `{:x}` formatting: lowercase hexadecimal digits without
/// leading zeros.
#[verifier::external_body]
pub(crate) fn hex_string(v: u64) -> (r: String)
    ensures
        r@ == hex_text(v as nat),
{
    format!("{:x}", v)
}

/// Errors of the core.
pub enum Error {
    /// A cartridge image was rejected; the text says which check failed and
    /// with what value.
    Cartridge(String),
}

/// The text carried by an error.
pub open spec fn error_text(e: Error) -> Seq<char> {
    match e {
        Error::Cartridge(m) => m@,
    }
}

impl Error {
    /// A readable description of the error.
    pub fn to_string(&self) -> (r: String)
        ensures
            r@ == "cartridge error: "@ + error_text(*self),
    {
        match self {
            Error::Cartridge(m) => {
                let mut s = String::from_str("cartridge error: ");
                s.append(m.as_str());
                s
            },
        }
    }
}

pub type Result<T> = core::result::Result<T, Error>;

} // verus!
