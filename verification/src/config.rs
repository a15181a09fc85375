//! The identifiers that the configuration of the feed generator is made of.

use atrium_api::types::string::Did;
use vstd::prelude::*;
use vstd::string::*;

verus! {

/// What stands before the hostname in the identifier of a service that is found on the
/// web.
pub const WEB_DID_PREFIX: &'static str = "did:web:";

/// Whether atrium's `Did::new` takes `text` for a decentralized identifier.
pub uninterp spec fn is_did(text: Seq<char>) -> bool;

/// The identifier of the service that is found at `hostname`.
pub open spec fn web_did_of(hostname: Seq<char>) -> Seq<char> {
    WEB_DID_PREFIX@ + hostname
}

/// Calls atrium's `Did::new` on a copy of the text and says whether it was accepted.
/// Nothing is claimed but that the answer is a function of the text, named [`is_did`].
#[verifier::external_body]
fn did_is_accepted(text: &str) -> (r: bool)
    ensures
        r == is_did(text@),
{
    Did::new(text.to_string()).is_ok()
}

/// The text as an identifier, if it is one.
pub fn checked_did(text: &str) -> (r: Option<String>)
    ensures
        is_did(text@) ==> (r matches Some(did) && did@ == text@),
        !is_did(text@) ==> r is None,
{
    if did_is_accepted(text) {
        Some(text.to_owned())
    } else {
        None
    }
}

/// The identifier of the feed generator that is served at `hostname`, if the hostname
/// makes one.
pub fn generator_did(hostname: &str) -> (r: Option<String>)
    ensures
        is_did(web_did_of(hostname@)) ==> (r matches Some(did) && did@ == web_did_of(
            hostname@,
        )),
        !is_did(web_did_of(hostname@)) ==> r is None,
{
    let mut did = String::from_str(WEB_DID_PREFIX);
    did.append(hostname);
    if did_is_accepted(did.as_str()) {
        Some(did)
    } else {
        None
    }
}

} // verus!
