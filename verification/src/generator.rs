//! The thin façade over seed and identifier construction.

use vstd::prelude::*;

use crate::b64::encodes;
use crate::b64::nopad_valid;
use crate::b64::valid_id_text;
use crate::MinimalId;
use crate::ParseError;
use crate::Seed;

verus! {

/// Top-level structure for interfacing with the library. It carries no
/// state: every identifier is generated from a fresh time seed and the
/// process-wide random source.
#[derive(PartialEq, Debug)]
pub struct Generator {}

impl Default for Generator {
    /// Creates the generator.
    fn default() -> (r: Self)
        ensures
            r == (Generator {  }),
    {
        Generator {  }
    }
}

impl Generator {
    /// Returns a new identifier; kept for callers of older versions.
    /// Use `Generator::new_id` instead.
    pub fn generate(&self) -> (r: MinimalId)
        ensures
            r@.len() == 9,
    {
        Generator::new_id()
    }

    /// Parses a text into an identifier, as `MinimalId::from_str` does.
    pub fn id_from_str(&self, id_str: &str) -> (r: Result<MinimalId, ParseError>)
        ensures
            r is Ok <==> valid_id_text(id_str@),
            r matches Ok(id) ==> encodes(id@, id_str@),
            r matches Err(e) ==> (e == ParseError::WrongLength <==> nopad_valid(id_str@)),
            r matches Err(e) ==> (e == ParseError::InvalidEncoding <==> !nopad_valid(id_str@)),
    {
        MinimalId::id_from_str(id_str)
    }

    /// Returns a new identifier: a fresh time seed followed by five
    /// random bytes.
    pub fn new_id() -> (r: MinimalId)
        ensures
            r@.len() == 9,
    {
        let seed = Seed::from_time();
        MinimalId::new(&seed)
    }
}

} // verus!
