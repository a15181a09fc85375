//! Commits of the repository stream and the typed operations extracted from them.

use crate::archive::{archive_reading, block_map, read_blocks, ArchiveError, BlockStore};
use crate::frame::{decode_frame, frame_of, Frame, FrameView};
use crate::records::{
    decode_follow, decode_like, decode_post, follow_record_of, like_record_of, post_record_of,
    FollowRecord, FollowRecordView, LikeRecord, LikeRecordView, PostRecord, PostRecordView,
};
use crate::text::{decimal, decimal_of, first_segment, first_segment_of, same_text};
use atrium_api::com::atproto::sync::subscribe_repos;
use vstd::prelude::*;
use vstd::string::*;

verus! {

/// The host whose repository stream is followed.
pub const FIREHOSE_HOST: &'static str = "wss://bsky.network";

/// The path, on the host, under which the repository stream is served.
pub const SUBSCRIBE_PATH: &'static str = "/xrpc/com.atproto.sync.subscribeRepos";

/// What stands in the address between the path and the cursor to resume from.
pub const CURSOR_QUERY: &'static str = "?cursor=";

/// Seconds without a message after which the stream counts as stalled.
pub const STREAMING_TIMEOUT: u64 = 60;

/// The type of the messages that carry a commit.
pub const COMMIT_TYPE: &'static str = "#commit";

/// The action of a path operation that adds a record.
pub const ACTION_CREATE: &'static str = "create";

/// The action of a path operation that removes a record.
pub const ACTION_DELETE: &'static str = "delete";

/// The collection that holds posts.
pub const POST_COLLECTION: &'static str = "app.bsky.feed.post";

/// The collection that holds likes.
pub const LIKE_COLLECTION: &'static str = "app.bsky.feed.like";

/// The collection that holds follows.
pub const FOLLOW_COLLECTION: &'static str = "app.bsky.graph.follow";

/// A point in time: whole seconds since the start of 1970 in UTC, and the nanoseconds
/// that follow them.
#[derive(Debug, Clone, Copy, PartialEq, Eq, Structural)]
pub struct Timestamp {
    pub secs: i64,
    pub nanos: u32,
}

/// One change of one record: where the record lives, what happens to it and, for a new
/// record, the content identifier of its block.
#[derive(Debug, Clone)]
pub struct PathOperation {
    pub path: String,
    pub action: String,
    pub cid: Option<String>,
}

/// Mathematical content of a [`PathOperation`].
pub struct PathOperationView {
    pub path: Seq<char>,
    pub action: Seq<char>,
    pub cid: Option<Seq<char>>,
}

impl View for PathOperation {
    type V = PathOperationView;

    open spec fn view(&self) -> PathOperationView {
        PathOperationView {
            path: self.path@,
            action: self.action@,
            cid: match self.cid {
                Some(c) => Some(c@),
                None => None,
            },
        }
    }
}

/// One commit of one repository, as the stream delivers it.
#[derive(Debug, Clone)]
pub struct Commit {
    pub seq: i64,
    pub time: Timestamp,
    pub repo: String,
    pub ops: Vec<PathOperation>,
    pub blocks: Vec<u8>,
}

/// Mathematical content of a [`Commit`].
pub struct CommitView {
    pub seq: i64,
    pub time: Timestamp,
    pub repo: Seq<char>,
    pub ops: Seq<PathOperationView>,
    pub blocks: Seq<u8>,
}

/// The views of a sequence of path operations.
pub open spec fn path_operation_views(ops: Seq<PathOperation>) -> Seq<PathOperationView> {
    ops.map_values(|op: PathOperation| op@)
}

impl View for Commit {
    type V = CommitView;

    open spec fn view(&self) -> CommitView {
        CommitView {
            seq: self.seq,
            time: self.time,
            repo: self.repo@,
            ops: path_operation_views(self.ops@),
            blocks: self.blocks@,
        }
    }
}

/// A record that was created, with its decoded content, or a record that was deleted.
#[derive(Debug, Clone)]
pub enum Operation {
    CreatePost { author: String, cid: String, uri: String, post: PostRecord },
    CreateLike { author: String, cid: String, uri: String, like: LikeRecord },
    CreateFollow { author: String, cid: String, uri: String, follow: FollowRecord },
    DeletePost { uri: String },
    DeleteLike { uri: String },
    DeleteFollow { uri: String },
}

/// Mathematical content of an [`Operation`].
pub enum OperationView {
    CreatePost { author: Seq<char>, cid: Seq<char>, uri: Seq<char>, post: PostRecordView },
    CreateLike { author: Seq<char>, cid: Seq<char>, uri: Seq<char>, like: LikeRecordView },
    CreateFollow { author: Seq<char>, cid: Seq<char>, uri: Seq<char>, follow: FollowRecordView },
    DeletePost { uri: Seq<char> },
    DeleteLike { uri: Seq<char> },
    DeleteFollow { uri: Seq<char> },
}

impl View for Operation {
    type V = OperationView;

    open spec fn view(&self) -> OperationView {
        match self {
            Operation::CreatePost { author, cid, uri, post } => OperationView::CreatePost {
                author: author@,
                cid: cid@,
                uri: uri@,
                post: post@,
            },
            Operation::CreateLike { author, cid, uri, like } => OperationView::CreateLike {
                author: author@,
                cid: cid@,
                uri: uri@,
                like: like@,
            },
            Operation::CreateFollow { author, cid, uri, follow } => OperationView::CreateFollow {
                author: author@,
                cid: cid@,
                uri: uri@,
                follow: follow@,
            },
            Operation::DeletePost { uri } => OperationView::DeletePost { uri: uri@ },
            Operation::DeleteLike { uri } => OperationView::DeleteLike { uri: uri@ },
            Operation::DeleteFollow { uri } => OperationView::DeleteFollow { uri: uri@ },
        }
    }
}

/// The views of a sequence of operations.
pub open spec fn operation_views(ops: Seq<Operation>) -> Seq<OperationView> {
    ops.map_values(|op: Operation| op@)
}

/// What one commit hands downstream: its place in the stream, its time and its
/// operations in commit order.
#[derive(Debug, Clone)]
pub struct CommitDetails {
    pub seq: i64,
    pub time: Timestamp,
    pub operations: Vec<Operation>,
}

/// Mathematical content of a [`CommitDetails`].
pub struct CommitDetailsView {
    pub seq: i64,
    pub time: Timestamp,
    pub operations: Seq<OperationView>,
}

impl View for CommitDetails {
    type V = CommitDetailsView;

    open spec fn view(&self) -> CommitDetailsView {
        CommitDetailsView {
            seq: self.seq,
            time: self.time,
            operations: operation_views(self.operations@),
        }
    }
}

/// The address of the record at `path` in the repository `repo`.
pub open spec fn record_uri(repo: Seq<char>, path: Seq<char>) -> Seq<char> {
    "at://"@ + repo + "/"@ + path
}

/// Whether `collection` is one of the three collections whose records are extracted.
pub open spec fn is_known_collection(collection: Seq<char>) -> bool {
    collection == POST_COLLECTION@ || collection == LIKE_COLLECTION@ || collection
        == FOLLOW_COLLECTION@
}

/// The operation that a created record gives: the decoded content of `block`, by the
/// schema of `collection`. A collection without a schema, or a block that its schema
/// refuses, gives none.
pub open spec fn created(
    collection: Seq<char>,
    author: Seq<char>,
    cid: Seq<char>,
    uri: Seq<char>,
    block: Seq<u8>,
) -> Option<OperationView> {
    if collection == POST_COLLECTION@ {
        match post_record_of(block) {
            Some(post) => Some(OperationView::CreatePost { author, cid, uri, post }),
            None => None,
        }
    } else if collection == LIKE_COLLECTION@ {
        match like_record_of(block) {
            Some(like) => Some(OperationView::CreateLike { author, cid, uri, like }),
            None => None,
        }
    } else if collection == FOLLOW_COLLECTION@ {
        match follow_record_of(block) {
            Some(follow) => Some(OperationView::CreateFollow { author, cid, uri, follow }),
            None => None,
        }
    } else {
        None
    }
}

/// The operation that a deleted record gives: the deletion of `uri` in the kind of
/// `collection`; none for a collection that is not extracted.
pub open spec fn deleted(collection: Seq<char>, uri: Seq<char>) -> Option<OperationView> {
    if collection == POST_COLLECTION@ {
        Some(OperationView::DeletePost { uri })
    } else if collection == LIKE_COLLECTION@ {
        Some(OperationView::DeleteLike { uri })
    } else if collection == FOLLOW_COLLECTION@ {
        Some(OperationView::DeleteFollow { uri })
    } else {
        None
    }
}

/// The operation that one path operation of the repository `repo` gives against the
/// blocks `store`, or none where it is skipped.
pub open spec fn operation_of(
    repo: Seq<char>,
    op: PathOperationView,
    store: Map<Seq<char>, Seq<u8>>,
) -> Option<OperationView> {
    let collection = first_segment(op.path);
    let uri = record_uri(repo, op.path);
    if op.action == ACTION_CREATE@ {
        match op.cid {
            Some(cid) => if store.dom().contains(cid) {
                created(collection, repo, cid, uri, store[cid])
            } else {
                None
            },
            None => None,
        }
    } else if op.action == ACTION_DELETE@ {
        deleted(collection, uri)
    } else {
        None
    }
}

/// The operations that a sequence of path operations gives, in the order of the path
/// operations, the skipped ones left out.
pub open spec fn operations_of(
    repo: Seq<char>,
    ops: Seq<PathOperationView>,
    store: Map<Seq<char>, Seq<u8>>,
) -> Seq<OperationView>
    decreases ops.len(),
{
    if ops.len() == 0 {
        Seq::empty()
    } else {
        let before = operations_of(repo, ops.drop_last(), store);
        match operation_of(repo, ops.last(), store) {
            Some(operation) => before.push(operation),
            None => before,
        }
    }
}

/// The address of the record at `path` in the repository `repo`, as a new string.
pub fn record_uri_of(repo: &str, path: &str) -> (uri: String)
    ensures
        uri@ == record_uri(repo@, path@),
{
    let mut uri = String::from_str("at://");
    uri.append(repo);
    uri.append("/");
    uri.append(path);
    uri
}

/// Extracts the operation of one path operation of the repository `repo`, resolving a
/// created record against `store`.
pub fn operation_from(repo: &String, op: &PathOperation, store: &BlockStore) -> (r: Option<
    Operation,
>)
    ensures
        r matches Some(operation) ==> operation_of(repo@, op@, store@) == Some(operation@),
        r is None ==> operation_of(repo@, op@, store@) is None,
{
    let collection = first_segment_of(op.path.as_str());
    let uri = record_uri_of(repo.as_str(), op.path.as_str());
    let is_post = same_text(collection.as_str(), POST_COLLECTION);
    let is_like = same_text(collection.as_str(), LIKE_COLLECTION);
    let is_follow = same_text(collection.as_str(), FOLLOW_COLLECTION);
    if same_text(op.action.as_str(), ACTION_CREATE) {
        let cid = match &op.cid {
            Some(cid) => cid,
            None => {
                return None;
            },
        };
        let block = match store.get(cid.as_str()) {
            Some(block) => block,
            None => {
                return None;
            },
        };
        if is_post {
            match decode_post(block.as_slice()) {
                Some(post) => Some(
                    Operation::CreatePost { author: repo.clone(), cid: cid.clone(), uri, post },
                ),
                None => None,
            }
        } else if is_like {
            match decode_like(block.as_slice()) {
                Some(like) => Some(
                    Operation::CreateLike { author: repo.clone(), cid: cid.clone(), uri, like },
                ),
                None => None,
            }
        } else if is_follow {
            match decode_follow(block.as_slice()) {
                Some(follow) => Some(
                    Operation::CreateFollow { author: repo.clone(), cid: cid.clone(), uri, follow },
                ),
                None => None,
            }
        } else {
            None
        }
    } else if same_text(op.action.as_str(), ACTION_DELETE) {
        if is_post {
            Some(Operation::DeletePost { uri })
        } else if is_like {
            Some(Operation::DeleteLike { uri })
        } else if is_follow {
            Some(Operation::DeleteFollow { uri })
        } else {
            None
        }
    } else {
        None
    }
}

/// Extracts the operations of `commit` against its block store `store`: one for each
/// path operation that is not skipped, in commit order.
pub fn operations_from(commit: &Commit, store: &BlockStore) -> (operations: Vec<Operation>)
    ensures
        operation_views(operations@) == operations_of(commit@.repo, commit@.ops, store@),
{
    let mut operations: Vec<Operation> = Vec::new();
    let ghost all = commit@.ops;
    let mut i: usize = 0;
    while i < commit.ops.len()
        invariant
            i <= commit.ops.len(),
            all == path_operation_views(commit.ops@),
            operation_views(operations@) == operations_of(commit.repo@, all.take(i as int), store@),
        decreases commit.ops.len() - i,
    {
        let found = operation_from(&commit.repo, &commit.ops[i], store);
        proof {
            let next = all.take(i + 1);
            assert(next.drop_last() == all.take(i as int));
            assert(next.last() == commit.ops@[i as int]@);
        }
        let ghost before = operation_views(operations@);
        match found {
            Some(operation) => {
                operations.push(operation);
                assert(operation_views(operations@) == before.push(operation@));
            },
            None => {},
        }
        i = i + 1;
    }
    assert(all.take(i as int) == all);
    operations
}

/// Why a message gave no commit details.
#[derive(Debug, Clone, Copy, PartialEq, Eq, Structural)]
pub enum StreamError {
    /// The message is no frame.
    MalformedEnvelope,
    /// The message is an error frame: the upstream has ended the stream.
    UpstreamErrorFrame,
    /// The message is of the commit type and its body is no commit.
    MalformedCommit,
    /// The archive of the commit is of a version that is not supported.
    UnsupportedArchiveFormat,
    /// The archive of the commit is not laid out as an archive, or a block of it fails
    /// its check.
    MalformedArchive,
}

/// The commit that the body of a commit message holds, as `serde_ipld_dagcbor::from_reader`
/// reads it into atrium's `Option` of a `subscribeRepos` commit: `None` where it reads
/// none, `Some(None)` where the body is the null object.
pub uninterp spec fn commit_of(body: Seq<u8>) -> Option<Option<CommitView>>;

/// The views of what the commit decoder returned.
pub open spec fn decoded_commit_view(r: Option<Option<Commit>>) -> Option<Option<CommitView>> {
    match r {
        Some(Some(commit)) => Some(Some(commit@)),
        Some(None) => Some(None),
        None => None,
    }
}

/// Calls `serde_ipld_dagcbor::from_reader` for an `Option` of atrium's commit and copies
/// out the sequence number, the time (as seconds and nanoseconds, through chrono's
/// `timestamp` and `timestamp_subsec_nanos`), the repository, the blocks and, of each
/// operation, path, action and content identifier in its text form. Nothing is claimed
/// of the decoding but that it is a function of the bytes, named [`commit_of`]; a body
/// that the decoder refuses gives `None`.
#[verifier::external_body]
fn decode_commit(body: &[u8]) -> (r: Option<Option<Commit>>)
    ensures
        decoded_commit_view(r) == commit_of(body@),
{
    let read = serde_ipld_dagcbor::from_reader::<Option<subscribe_repos::Commit>, _>(body);
    Some(read.ok()?.map(|c| Commit {
        seq: c.seq,
        time: Timestamp { secs: c.time.as_ref().timestamp(), nanos: c.time.as_ref().timestamp_subsec_nanos() },
        repo: c.repo.as_str().to_string(),
        ops: c.ops.iter().map(|op| PathOperation {
            path: op.path.clone(),
            action: op.action.clone(),
            cid: op.cid.as_ref().map(|link| link.0.to_string()),
        }).collect(),
        blocks: c.blocks.clone(),
    }))
}

/// The commit that a message carries: the one its body holds where the message is a
/// frame of the commit type; none, and no error, for a message of another type or of no
/// type.
pub open spec fn commit_in(message: Seq<u8>) -> Result<Option<CommitView>, StreamError> {
    match frame_of(message) {
        Ok(FrameView::Message { tag, body }) => if tag == Some(COMMIT_TYPE@) {
            match commit_of(body) {
                Some(commit) => Ok(commit),
                None => Err(StreamError::MalformedCommit),
            }
        } else {
            Ok(None)
        },
        Ok(FrameView::Error) => Err(StreamError::UpstreamErrorFrame),
        Err(_) => Err(StreamError::MalformedEnvelope),
    }
}

/// The operations of a commit: those its path operations give against the blocks of its
/// own archive.
pub open spec fn commit_operations(commit: CommitView) -> Result<Seq<OperationView>, StreamError> {
    match archive_reading(commit.blocks) {
        Ok(blocks) => Ok(operations_of(commit.repo, commit.ops, block_map(blocks))),
        Err(ArchiveError::UnsupportedArchiveFormat) => Err(StreamError::UnsupportedArchiveFormat),
        Err(ArchiveError::MalformedArchive) => Err(StreamError::MalformedArchive),
    }
}

/// What a message hands downstream: the details of the commit it carries, if it carries
/// one.
pub open spec fn message_outcome(message: Seq<u8>) -> Result<
    Option<CommitDetailsView>,
    StreamError,
> {
    match commit_in(message) {
        Ok(Some(commit)) => match commit_operations(commit) {
            Ok(operations) => Ok(
                Some(CommitDetailsView { seq: commit.seq, time: commit.time, operations }),
            ),
            Err(error) => Err(error),
        },
        Ok(None) => Ok(None),
        Err(error) => Err(error),
    }
}

/// The view of a parsed commit, or why there is none.
pub open spec fn commit_result_view(r: Result<Option<Commit>, StreamError>) -> Result<
    Option<CommitView>,
    StreamError,
> {
    match r {
        Ok(Some(commit)) => Ok(Some(commit@)),
        Ok(None) => Ok(None),
        Err(error) => Err(error),
    }
}

/// The views of extracted operations, or why there are none.
pub open spec fn operations_result_view(r: Result<Vec<Operation>, StreamError>) -> Result<
    Seq<OperationView>,
    StreamError,
> {
    match r {
        Ok(operations) => Ok(operation_views(operations@)),
        Err(error) => Err(error),
    }
}

/// The view of handled commit details, or why there are none.
pub open spec fn details_result_view(r: Result<Option<CommitDetails>, StreamError>) -> Result<
    Option<CommitDetailsView>,
    StreamError,
> {
    match r {
        Ok(Some(details)) => Ok(Some(details@)),
        Ok(None) => Ok(None),
        Err(error) => Err(error),
    }
}

/// Whether a frame is a message of the commit type.
pub fn is_commit_frame(frame: &Frame) -> (r: bool)
    ensures
        r == (frame@ matches FrameView::Message { tag, body } && tag == Some(COMMIT_TYPE@)),
{
    match frame {
        Frame::Message(Some(tag), _) => same_text(tag.as_str(), COMMIT_TYPE),
        _ => false,
    }
}

/// Takes the commit out of a message of the stream. Fewer than two bytes are a
/// malformed envelope.
pub fn parse_commit_from_message(message: &[u8]) -> (r: Result<Option<Commit>, StreamError>)
    ensures
        commit_result_view(r) == commit_in(message@),
        message@.len() < 2 ==> (r matches Err(error) && error == StreamError::MalformedEnvelope),
{
    let frame = match decode_frame(message) {
        Ok(frame) => frame,
        Err(_) => {
            return Err(StreamError::MalformedEnvelope);
        },
    };
    let is_commit = is_commit_frame(&frame);
    match frame {
        Frame::Message(_, message) => {
            if is_commit {
                match decode_commit(message.body.as_slice()) {
                    Some(commit) => Ok(commit),
                    None => Err(StreamError::MalformedCommit),
                }
            } else {
                Ok(None)
            }
        },
        Frame::Error(_) => Err(StreamError::UpstreamErrorFrame),
    }
}

/// Extracts the operations of a commit: reads its archive into a block store and
/// resolves each path operation against it. A commit without an archive gives the
/// error of a malformed one.
pub fn extract_operations(commit: &Commit) -> (r: Result<Vec<Operation>, StreamError>)
    ensures
        operations_result_view(r) == commit_operations(commit@),
        commit.blocks@.len() == 0 ==> (r matches Err(error) && error
            == StreamError::MalformedArchive),
{
    match read_blocks(commit.blocks.as_slice()) {
        Ok(store) => {
            proof {
                store.lemma_view();
            }
            Ok(operations_from(commit, &store))
        },
        Err(ArchiveError::UnsupportedArchiveFormat) => Err(StreamError::UnsupportedArchiveFormat),
        Err(ArchiveError::MalformedArchive) => Err(StreamError::MalformedArchive),
    }
}

/// Handles one message of the stream: gives the details of the commit it carries, none
/// for a message that carries no commit, and the error for one that cannot be read.
/// Fewer than two bytes are a malformed envelope.
pub fn handle_message(message: &[u8]) -> (r: Result<Option<CommitDetails>, StreamError>)
    ensures
        details_result_view(r) == message_outcome(message@),
        message@.len() < 2 ==> (r matches Err(error) && error == StreamError::MalformedEnvelope),
{
    let commit = match parse_commit_from_message(message) {
        Ok(Some(commit)) => commit,
        Ok(None) => {
            return Ok(None);
        },
        Err(error) => {
            return Err(error);
        },
    };
    match extract_operations(&commit) {
        Ok(operations) => Ok(Some(CommitDetails { seq: commit.seq, time: commit.time, operations })),
        Err(error) => Err(error),
    }
}

/// The operations of a sequence of path operations are those of its front followed by
/// those of its back: what one path operation gives does not depend on the others.
pub proof fn lemma_operations_of_concat(
    repo: Seq<char>,
    front: Seq<PathOperationView>,
    back: Seq<PathOperationView>,
    store: Map<Seq<char>, Seq<u8>>,
)
    ensures
        operations_of(repo, front + back, store) == operations_of(repo, front, store)
            + operations_of(repo, back, store),
    decreases back.len(),
{
    if back.len() == 0 {
        assert(front + back == front);
    } else {
        assert((front + back).drop_last() == front + back.drop_last());
        assert((front + back).last() == back.last());
        lemma_operations_of_concat(repo, front, back.drop_last(), store);
    }
}

/// A path operation that gives no operation can be left out: the operations of the
/// others are the same with it and without it.
pub proof fn lemma_skipped_is_independent(
    repo: Seq<char>,
    ops: Seq<PathOperationView>,
    store: Map<Seq<char>, Seq<u8>>,
    i: int,
)
    requires
        0 <= i < ops.len(),
        operation_of(repo, ops[i], store) is None,
    ensures
        operations_of(repo, ops, store) == operations_of(repo, ops.remove(i), store),
{
    let front = ops.take(i);
    let one = seq![ops[i]];
    let back = ops.skip(i + 1);
    assert(ops == front + one + back);
    assert(ops.remove(i) == front + back);
    lemma_operations_of_concat(repo, front + one, back, store);
    lemma_operations_of_concat(repo, front, one, store);
    lemma_operations_of_concat(repo, front, back, store);
    assert(one.drop_last() == Seq::<PathOperationView>::empty());
    assert(operations_of(repo, one, store) == Seq::<OperationView>::empty()) by {
        assert(one.last() == ops[i]);
        assert(operations_of(repo, one.drop_last(), store) == Seq::<OperationView>::empty());
    }
    assert(operations_of(repo, front, store) + Seq::<OperationView>::empty() == operations_of(
        repo,
        front,
        store,
    ));
}

/// A path operation that creates a record whose content identifier no block of the
/// archive carries gives no operation, and the other path operations give what they
/// give without it.
pub proof fn lemma_create_without_block(
    repo: Seq<char>,
    ops: Seq<PathOperationView>,
    store: Map<Seq<char>, Seq<u8>>,
    i: int,
)
    requires
        0 <= i < ops.len(),
        ops[i].action == ACTION_CREATE@,
        ops[i].cid matches Some(cid) && !store.dom().contains(cid),
    ensures
        operation_of(repo, ops[i], store) is None,
        operations_of(repo, ops, store) == operations_of(repo, ops.remove(i), store),
{
    lemma_skipped_is_independent(repo, ops, store, i);
}

/// A path operation in a collection that is not extracted gives no operation, whatever
/// its action, and the other path operations give what they give without it.
pub proof fn lemma_unknown_collection(
    repo: Seq<char>,
    ops: Seq<PathOperationView>,
    store: Map<Seq<char>, Seq<u8>>,
    i: int,
)
    requires
        0 <= i < ops.len(),
        !is_known_collection(first_segment(ops[i].path)),
    ensures
        operation_of(repo, ops[i], store) is None,
        operations_of(repo, ops, store) == operations_of(repo, ops.remove(i), store),
{
    lemma_skipped_is_independent(repo, ops, store, i);
}

/// The address to subscribe at: the stream of [`FIREHOSE_HOST`], from the commit after
/// `cursor` on where there is a cursor, and from the live edge where there is none.
pub open spec fn subscription_url_of(cursor: Option<i64>) -> Seq<char> {
    match cursor {
        Some(c) => FIREHOSE_HOST@ + SUBSCRIBE_PATH@ + CURSOR_QUERY@ + decimal(c as int),
        None => FIREHOSE_HOST@ + SUBSCRIBE_PATH@,
    }
}

/// The address to subscribe at, as a new string.
pub fn subscription_url(cursor: Option<i64>) -> (url: String)
    ensures
        url@ == subscription_url_of(cursor),
{
    let mut url = String::from_str(FIREHOSE_HOST);
    url.append(SUBSCRIBE_PATH);
    match cursor {
        Some(c) => {
            url.append(CURSOR_QUERY);
            let number = decimal_of(c);
            url.append(number.as_str());
        },
        None => {},
    }
    url
}

} // verus!
