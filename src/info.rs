use vstd::prelude::*;

use crate::error::Error;

verus! {

/// The text that a sequence of UTF-16 code units encodes; `None` where the
/// units are not valid UTF-16 (an unpaired surrogate).
pub uninterp spec fn utf16_text(units: Seq<u16>) -> Option<Seq<char>>;

/// Relies on String::from_utf16: decodes UTF-16 and fails exactly on invalid
/// input.
#[verifier::external_body]
fn from_utf16(units: &[u16]) -> (r: Result<String, std::string::FromUtf16Error>)
    ensures
        match r {
            Ok(s) => utf16_text(units@) == Some(s@),
            Err(_) => utf16_text(units@) is None,
        },
{
    String::from_utf16(units)
}

/// The full path of an executable, from the UTF-16 code units that the
/// platform reports for it.
pub fn executable_path_from_utf16(units: &[u16]) -> (r: Result<String, Error>)
    ensures
        match utf16_text(units@) {
            Some(t) => r is Ok && r->Ok_0@ == t,
            None => r is Err && r->Err_0 is FromUtf16Error,
        },
{
    match from_utf16(units) {
        Ok(s) => Ok(s),
        Err(e) => Err(Error::from(e)),
    }
}

} // verus!
