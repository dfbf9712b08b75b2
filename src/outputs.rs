use vstd::prelude::*;

use crate::i::I;

verus! {

/// The digests that commit to a query run over a data set.
#[derive(Clone, Debug, PartialEq, Eq)]
pub struct Outputs {
    pub data: [u8; 32],
    pub query: [u8; 32],
    pub result: [u8; 32],
    pub result_string: String,
}

/// The SHA-256 digest of the UTF-8 encoding of a text.
pub uninterp spec fn sha256_of(text: Seq<char>) -> Seq<u8>;

/// Relies on sha2::Sha256::digest: the 32-byte SHA-256 digest of the text's
/// UTF-8 bytes, which depends on the text alone.
#[verifier::external_body]
fn sha256_digest(text: &str) -> (r: [u8; 32])
    ensures
        r@ == sha256_of(text@),
{
    <sha2::Sha256 as sha2::Digest>::digest(text.as_bytes()).into()
}

/// Commits to the data, the query and an empty result by their digests, and
/// carries the result string of `quads`, which must be `"boo"`.
pub fn run(data: &String, query_string: &String, quads: &I) -> (r: Outputs)
    requires
        quads.result_string@ == "boo"@,
    ensures
        r.data@ == sha256_of(data@),
        r.query@ == sha256_of(query_string@),
        r.result@ == sha256_of(Seq::<char>::empty()),
        r.result_string@ == quads.result_string@,
{
    let result_string = "";
    proof {
        reveal_strlit("");
        assert(result_string@ =~= Seq::<char>::empty());
    }
    Outputs {
        data: sha256_digest(data.as_str()),
        query: sha256_digest(query_string.as_str()),
        result: sha256_digest(result_string),
        result_string: quads.result_string.clone(),
    }
}

} // verus!
