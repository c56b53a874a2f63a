//! The decode-failure value: a field's raw value did not match its
//! expected format. It always carries the offending raw input and the
//! expected format, so the failure can be reported without re-reading
//! the wire data.

use vstd::prelude::*;

verus! {

/// A failed decode of one raw field value.
#[derive(Debug, Clone)]
pub struct DecodeError {
    /// The format the raw value was expected to match.
    pub format: String,
    /// The raw value that did not match.
    pub input: String,
}

impl DecodeError {
    /// Record that `input` did not match `format`.
    pub fn new(format: &str, input: &str) -> (r: DecodeError)
        ensures
            r.format@ == format@,
            r.input@ == input@,
    {
        DecodeError { format: format.to_owned(), input: input.to_owned() }
    }

    /// A human-readable account of the failure, holding both the
    /// expected format and the offending raw input.
    pub fn message(&self) -> (r: String)
        ensures
            r@ == "could not decode '"@ + self.input@ + "' as "@ + self.format@,
    {
        let mut r = "could not decode '".to_owned();
        r.append(self.input.as_str());
        r.append("' as ");
        r.append(self.format.as_str());
        r
    }
}

} // verus!
