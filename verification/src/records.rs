//! Record payloads carried by repository commits: posts, likes and follows.

use atrium_api::app::bsky::feed::like;
use atrium_api::app::bsky::feed::post;
use atrium_api::app::bsky::graph::follow;
use atrium_api::types::string::Language;
use std::str::FromStr;
use vstd::prelude::*;

verus! {

/// A follow: the identifier of the account that is followed.
#[derive(Debug, Clone)]
pub struct FollowRecord {
    pub subject: String,
}

/// A like: a reference to the record that is liked.
#[derive(Debug, Clone)]
pub struct LikeRecord {
    pub subject: Subject,
}

/// The record a like points at.
#[derive(Debug, Clone)]
pub struct Subject {
    pub cid: String,
    pub uri: String,
}

/// A post: its text, the languages it declares and, for a reply, what it answers.
#[derive(Debug, Clone)]
pub struct PostRecord {
    pub text: String,
    pub langs: Option<Vec<String>>,
    pub reply: Option<ReplyRef>,
}

/// The two ends of a reply: the post answered and the post that started the thread.
#[derive(Debug, Clone)]
pub struct ReplyRef {
    pub parent: Ref,
    pub root: Ref,
}

/// A reference to one version of a record.
#[derive(Debug, Clone)]
pub struct Ref {
    pub cid: String,
    pub uri: String,
}

/// Mathematical content of a [`FollowRecord`].
pub struct FollowRecordView {
    pub subject: Seq<char>,
}

/// Mathematical content of a [`Subject`].
pub struct SubjectView {
    pub cid: Seq<char>,
    pub uri: Seq<char>,
}

/// Mathematical content of a [`LikeRecord`].
pub struct LikeRecordView {
    pub subject: SubjectView,
}

/// Mathematical content of a [`Ref`].
pub struct RefView {
    pub cid: Seq<char>,
    pub uri: Seq<char>,
}

/// Mathematical content of a [`ReplyRef`].
pub struct ReplyRefView {
    pub parent: RefView,
    pub root: RefView,
}

/// Mathematical content of a [`PostRecord`].
pub struct PostRecordView {
    pub text: Seq<char>,
    pub langs: Option<Seq<Seq<char>>>,
    pub reply: Option<ReplyRefView>,
}

impl View for FollowRecord {
    type V = FollowRecordView;

    open spec fn view(&self) -> FollowRecordView {
        FollowRecordView { subject: self.subject@ }
    }
}

impl View for Subject {
    type V = SubjectView;

    open spec fn view(&self) -> SubjectView {
        SubjectView { cid: self.cid@, uri: self.uri@ }
    }
}

impl View for LikeRecord {
    type V = LikeRecordView;

    open spec fn view(&self) -> LikeRecordView {
        LikeRecordView { subject: self.subject@ }
    }
}

impl View for Ref {
    type V = RefView;

    open spec fn view(&self) -> RefView {
        RefView { cid: self.cid@, uri: self.uri@ }
    }
}

impl View for ReplyRef {
    type V = ReplyRefView;

    open spec fn view(&self) -> ReplyRefView {
        ReplyRefView { parent: self.parent@, root: self.root@ }
    }
}

impl View for PostRecord {
    type V = PostRecordView;

    open spec fn view(&self) -> PostRecordView {
        PostRecordView {
            text: self.text@,
            langs: match self.langs {
                Some(l) => Some(l.deep_view()),
                None => None,
            },
            reply: match self.reply {
                Some(r) => Some(r@),
                None => None,
            },
        }
    }
}

/// The post that a block of DAG-CBOR bytes holds, as `serde_ipld_dagcbor::from_slice`
/// reads it into atrium's `app.bsky.feed.post` record; `None` where it reads none.
pub uninterp spec fn post_record_of(block: Seq<u8>) -> Option<PostRecordView>;

/// The like that a block of DAG-CBOR bytes holds, as `serde_ipld_dagcbor::from_slice`
/// reads it into atrium's `app.bsky.feed.like` record; `None` where it reads none.
pub uninterp spec fn like_record_of(block: Seq<u8>) -> Option<LikeRecordView>;

/// The follow that a block of DAG-CBOR bytes holds, as `serde_ipld_dagcbor::from_slice`
/// reads it into atrium's `app.bsky.graph.follow` record; `None` where it reads none.
pub uninterp spec fn follow_record_of(block: Seq<u8>) -> Option<FollowRecordView>;

/// Calls `serde_ipld_dagcbor::from_slice` for atrium's post record and copies out the
/// text, the language tags and the reply reference. Nothing is claimed of the decoding
/// but that it is a function of the bytes, named [`post_record_of`]; a block that the
/// decoder refuses gives `None`.
#[verifier::external_body]
pub(crate) fn decode_post(block: &[u8]) -> (r: Option<PostRecord>)
    ensures
        r matches Some(p) ==> post_record_of(block@) == Some(p@),
        r is None ==> post_record_of(block@) is None,
{
    let rec = serde_ipld_dagcbor::from_slice::<post::Record>(block).ok()?;
    let tag = |t: &atrium_api::types::string::Language| t.as_ref().as_str().to_string();
    let langs = rec.langs.as_ref().map(|l| l.iter().map(tag).collect());
    let reply = rec.reply.as_ref().map(|r| ReplyRef {
        parent: Ref { cid: r.parent.cid.as_ref().to_string(), uri: r.parent.uri.clone() },
        root: Ref { cid: r.root.cid.as_ref().to_string(), uri: r.root.uri.clone() },
    });
    Some(PostRecord { text: rec.text.clone(), langs, reply })
}

/// Calls `serde_ipld_dagcbor::from_slice` for atrium's like record and copies out the
/// subject. Nothing is claimed of the decoding but that it is a function of the bytes,
/// named [`like_record_of`]; a block that the decoder refuses gives `None`.
#[verifier::external_body]
pub(crate) fn decode_like(block: &[u8]) -> (r: Option<LikeRecord>)
    ensures
        r matches Some(l) ==> like_record_of(block@) == Some(l@),
        r is None ==> like_record_of(block@) is None,
{
    let rec = serde_ipld_dagcbor::from_slice::<like::Record>(block).ok()?;
    let subject = Subject { cid: rec.subject.cid.as_ref().to_string(), uri: rec.subject.uri.clone() };
    Some(LikeRecord { subject })
}

/// Calls `serde_ipld_dagcbor::from_slice` for atrium's follow record and copies out the
/// subject. Nothing is claimed of the decoding but that it is a function of the bytes,
/// named [`follow_record_of`]; a block that the decoder refuses gives `None`.
#[verifier::external_body]
pub(crate) fn decode_follow(block: &[u8]) -> (r: Option<FollowRecord>)
    ensures
        r matches Some(f) ==> follow_record_of(block@) == Some(f@),
        r is None ==> follow_record_of(block@) is None,
{
    let rec = serde_ipld_dagcbor::from_slice::<follow::Record>(block).ok()?;
    Some(FollowRecord { subject: rec.subject.as_str().to_string() })
}

/// Whether the primary language of the language tag `tag` is `language`, as `langtag`
/// compares the two; `None` where atrium's `Language` does not take `tag` for a language
/// tag, or the tag names no language.
pub uninterp spec fn primary_language_matches(tag: Seq<char>, language: Seq<char>) -> Option<
    bool,
>;

/// Calls atrium's `Language::from_str` on the tag, `langtag`'s `language` and `primary`
/// on what it gives, and `langtag`'s comparison of the primary language with
/// `language`. Nothing is claimed but that the answer is a function of the two texts,
/// named [`primary_language_matches`].
#[verifier::external_body]
fn primary_language_is(tag: &str, language: &str) -> (r: Option<bool>)
    ensures
        r == primary_language_matches(tag@, language@),
{
    let parsed = Language::from_str(tag).ok()?;
    Some(parsed.as_ref().language()?.primary() == language)
}

/// Whether one of the languages that a post declares has the primary language
/// `language`. A post that declares no languages declares none.
pub open spec fn declares(post: PostRecordView, language: Seq<char>) -> bool {
    post.langs matches Some(langs) && exists|i: int|
        0 <= i < langs.len() && #[trigger] primary_language_matches(langs[i], language) == Some(
            true,
        )
}

impl PostRecord {
    /// Whether one of the languages that the post declares has the primary language
    /// `language`.
    pub fn declares_language(&self, language: &str) -> (r: bool)
        ensures
            r == declares(self@, language@),
    {
        let langs = match &self.langs {
            Some(langs) => langs,
            None => {
                return false;
            },
        };
        let ghost tags = langs.deep_view();
        let mut i: usize = 0;
        while i < langs.len()
            invariant
                i <= langs.len(),
                tags == langs.deep_view(),
                self@.langs == Some(tags),
                forall|j: int|
                    0 <= j < i ==> #[trigger] primary_language_matches(tags[j], language@)
                        != Some(true),
            decreases langs.len() - i,
        {
            assert(tags[i as int] == langs@[i as int]@);
            match primary_language_is(langs[i].as_str(), language) {
                Some(true) => {
                    return true;
                },
                _ => {},
            }
            i = i + 1;
        }
        false
    }
}

} // verus!
