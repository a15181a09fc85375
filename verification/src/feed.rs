//! The feeds that the generator describes: one for each registered algorithm.

use vstd::prelude::*;
use vstd::string::*;

verus! {

/// The collection of the publisher's repository that holds feed generators.
pub const GENERATOR_COLLECTION: &'static str = "app.bsky.feed.generator";

/// The address of the feed that the algorithm `name` serves for `publisher`.
pub open spec fn feed_uri_of(publisher: Seq<char>, name: Seq<char>) -> Seq<char> {
    "at://"@ + publisher + "/"@ + GENERATOR_COLLECTION@ + "/"@ + name
}

/// The address of the feed that the algorithm `name` serves for `publisher`, as a new
/// string.
pub fn feed_uri(publisher: &str, name: &str) -> (uri: String)
    ensures
        uri@ == feed_uri_of(publisher@, name@),
{
    let mut uri = String::from_str("at://");
    uri.append(publisher);
    uri.append("/");
    uri.append(GENERATOR_COLLECTION);
    uri.append("/");
    uri.append(name);
    uri
}

/// The addresses of the feeds of `publisher`, one for each of `names`, in their order.
pub fn feed_uris(publisher: &str, names: &Vec<String>) -> (uris: Vec<String>)
    ensures
        uris@.len() == names@.len(),
        forall|i: int| 0 <= i < names@.len() ==> uris@[i]@ == feed_uri_of(publisher@, names@[i]@),
{
    let mut uris: Vec<String> = Vec::new();
    let mut i: usize = 0;
    while i < names.len()
        invariant
            i <= names.len(),
            uris@.len() == i,
            forall|j: int| 0 <= j < i ==> uris@[j]@ == feed_uri_of(publisher@, names@[j]@),
        decreases names.len() - i,
    {
        uris.push(feed_uri(publisher, names[i].as_str()));
        i = i + 1;
    }
    uris
}

} // verus!
