//! The errors of splitting and encoding.
use vstd::prelude::*;
use vstd::string::StringExecFns;

verus! {

#[derive(Debug)]
pub enum Error {
    /// The WAV decoder refused the stream, with these words.
    Hound(String),
    /// The number of samples decoded, then the number the source declared.
    InconsistentByteLength(usize, usize),
    /// Two options that exclude each other were both given.
    IncompatibleOptions(String, String),
    /// An option that the others make necessary was not given.
    MissingBuilderField(String),
}

/// The decimal digit `d`.
pub open spec fn digit(d: nat) -> Seq<char> {
    if d == 0 {
        "0"@
    } else if d == 1 {
        "1"@
    } else if d == 2 {
        "2"@
    } else if d == 3 {
        "3"@
    } else if d == 4 {
        "4"@
    } else if d == 5 {
        "5"@
    } else if d == 6 {
        "6"@
    } else if d == 7 {
        "7"@
    } else if d == 8 {
        "8"@
    } else {
        "9"@
    }
}

/// The number `n` in decimal notation, without leading zeros.
pub open spec fn decimal(n: nat) -> Seq<char>
    decreases n,
{
    if n < 10 {
        digit(n)
    } else {
        decimal(n / 10) + digit(n % 10)
    }
}

fn digit_str(d: usize) -> (s: &'static str)
    requires
        d < 10,
    ensures
        s@ == digit(d as nat),
{
    if d == 0 {
        "0"
    } else if d == 1 {
        "1"
    } else if d == 2 {
        "2"
    } else if d == 3 {
        "3"
    } else if d == 4 {
        "4"
    } else if d == 5 {
        "5"
    } else if d == 6 {
        "6"
    } else if d == 7 {
        "7"
    } else if d == 8 {
        "8"
    } else {
        "9"
    }
}

/// Writes a number in decimal notation.
pub fn decimal_string(n: usize) -> (s: String)
    ensures
        s@ == decimal(n as nat),
    decreases n,
{
    if n < 10 {
        digit_str(n).to_owned()
    } else {
        let head = decimal_string(n / 10);
        head.concat(digit_str(n % 10))
    }
}

impl Error {
    /// What the error says.
    pub open spec fn spec_message(&self) -> Seq<char> {
        match self {
            Error::Hound(words) => words@,
            Error::InconsistentByteLength(first, second) =>
                "Inconsistent byte length - samples total byte length: "@ + decimal(*first as nat)
                    + " - original input byte length: "@ + decimal(*second as nat),
            Error::IncompatibleOptions(first, second) => "Incompatible options encountered: "@
                + first@ + ", "@ + second@ + "."@,
            Error::MissingBuilderField(field) => "Missing builder field: "@ + field@,
        }
    }

    /// The error in words.
    pub fn message(&self) -> (words: String)
        ensures
            words@ == self.spec_message(),
    {
        match self {
            Error::Hound(err) => err.clone(),
            Error::InconsistentByteLength(first, second) => {
                let mut words = "Inconsistent byte length - samples total byte length: ".to_owned();
                let first = decimal_string(*first);
                words.append(first.as_str());
                words.append(" - original input byte length: ");
                let second = decimal_string(*second);
                words.append(second.as_str());
                words
            },
            Error::IncompatibleOptions(first, second) => {
                let mut words = "Incompatible options encountered: ".to_owned();
                words.append(first.as_str());
                words.append(", ");
                words.append(second.as_str());
                words.append(".");
                words
            },
            Error::MissingBuilderField(field) => {
                let mut words = "Missing builder field: ".to_owned();
                words.append(field.as_str());
                words
            },
        }
    }

    pub fn incompatible_options(first: &str, second: &str) -> (e: Self)
        ensures
            e matches Error::IncompatibleOptions(a, b) && a@ == first@ && b@ == second@,
    {
        Self::IncompatibleOptions(first.to_owned(), second.to_owned())
    }

    pub fn inconsistent_byte_length(first: usize, second: usize) -> (e: Self)
        ensures
            e matches Error::InconsistentByteLength(a, b) && a == first && b == second,
    {
        Self::InconsistentByteLength(first, second)
    }

    pub fn missing_builder_field(field: &str) -> (e: Self)
        ensures
            e matches Error::MissingBuilderField(f) && f@ == field@,
    {
        Self::MissingBuilderField(field.to_owned())
    }
}

} // verus!
