//! The build/validation interface's verified core: whether one self-test
//! run certifies an execution image.

use vstd::prelude::*;

use crate::languages::ContainerResponse;
use crate::strings::str_eq;
use crate::strings::trim_of;
use crate::strings::trim_str;

verus! {

/// The output a healthy execution image must produce for its canonical
/// self-test, up to surrounding whitespace: `<identifier>_test`.
pub open spec fn self_test_expected(lang: Seq<char>) -> Seq<char> {
    lang + "_test"@
}

/// The literal text a self-test is expected to print, before trimming.
pub fn expected_self_test_output(lang: &str) -> (r: String)
    ensures
        r@ == self_test_expected(lang@),
{
    let mut r = lang.to_owned();
    r.append("_test");
    r
}

/// Whether one self-test run certifies an image: the run produced output
/// (not a timeout) and that output, trimmed of surrounding whitespace, is
/// exactly `<identifier>_test`. A language whose self-test fails must not
/// be advertised as supported, but its failure must not abort the scan of
/// the other languages.
pub fn self_test_passes(lang: &str, response: &ContainerResponse) -> (r: bool)
    ensures
        r == (response matches ContainerResponse::Output(t, _) && trim_of(t@)
            == self_test_expected(lang@)),
{
    match response {
        ContainerResponse::Output(text, _) => {
            let trimmed = trim_str(text.as_str());
            let expected = expected_self_test_output(lang);
            str_eq(trimmed, expected.as_str())
        },
        ContainerResponse::Timeout => false,
    }
}

} // verus!
