use std::collections::BTreeMap;

use ipld_core::cid::multihash::Multihash;
use ipld_core::cid::Cid;
use ipld_core::ipld::Ipld;
use nederlandskie::archive::{
    is_safe, read_blocks, ArchiveError, Block, BlockStore, ReadFailure,
};
use nederlandskie::frame::{decode_frame, frame_from, Frame, FrameError};
use nederlandskie::lifecycle::{Lifecycle, LifecycleAction, LifecycleEvent, Phase};
use nederlandskie::streaming::{
    extract_operations, handle_message, is_commit_frame, operation_from, operations_from,
    parse_commit_from_message, record_uri_of, Commit, Operation, PathOperation, StreamError,
    Timestamp,
};
use sha2::{Digest, Sha256};

fn text(s: &str) -> Ipld {
    Ipld::String(s.to_string())
}

fn map(entries: Vec<(&str, Ipld)>) -> Ipld {
    let mut m = BTreeMap::new();
    for (k, v) in entries {
        m.insert(k.to_string(), v);
    }
    Ipld::Map(m)
}

fn encode(value: &Ipld) -> Vec<u8> {
    serde_ipld_dagcbor::to_vec(value).unwrap()
}

fn cid_of(data: &[u8]) -> Cid {
    let digest = Sha256::digest(data);
    Cid::new_v1(0x71, Multihash::wrap(0x12, digest.as_slice()).unwrap())
}

fn varint(mut n: u64) -> Vec<u8> {
    let mut out = Vec::new();
    loop {
        let byte = (n & 0x7f) as u8;
        n >>= 7;
        if n == 0 {
            out.push(byte);
            return out;
        }
        out.push(byte | 0x80);
    }
}

fn archive_with_version(version: i128, blocks: &[(Cid, Vec<u8>)]) -> Vec<u8> {
    let roots: Vec<Ipld> = blocks.iter().take(1).map(|(cid, _)| Ipld::Link(*cid)).collect();
    let header = encode(&map(vec![("roots", Ipld::List(roots)), ("version", Ipld::Integer(version))]));
    let mut out = varint(header.len() as u64);
    out.extend_from_slice(&header);
    for (cid, data) in blocks {
        let cid_bytes = cid.to_bytes();
        out.extend_from_slice(&varint((cid_bytes.len() + data.len()) as u64));
        out.extend_from_slice(&cid_bytes);
        out.extend_from_slice(data);
    }
    out
}

fn archive(blocks: &[(Cid, Vec<u8>)]) -> Vec<u8> {
    archive_with_version(1, blocks)
}

fn post_block(body: &str) -> Vec<u8> {
    encode(&map(vec![
        ("$type", text("app.bsky.feed.post")),
        ("text", text(body)),
        ("createdAt", text("2024-01-01T00:00:00.000Z")),
    ]))
}

fn like_block(uri: &str, cid: &Cid) -> Vec<u8> {
    encode(&map(vec![
        ("$type", text("app.bsky.feed.like")),
        ("subject", map(vec![("cid", text(&cid.to_string())), ("uri", text(uri))])),
        ("createdAt", text("2024-01-01T00:00:00.000Z")),
    ]))
}

fn follow_block(subject: &str) -> Vec<u8> {
    encode(&map(vec![
        ("$type", text("app.bsky.graph.follow")),
        ("subject", text(subject)),
        ("createdAt", text("2024-01-01T00:00:00.000Z")),
    ]))
}

fn op(action: &str, path: &str, cid: Option<&Cid>) -> Ipld {
    map(vec![
        ("action", text(action)),
        ("path", text(path)),
        ("cid", match cid {
            Some(c) => Ipld::Link(*c),
            None => Ipld::Null,
        }),
    ])
}

fn commit_body(seq: i128, repo: &str, ops: Vec<Ipld>, blocks: Vec<u8>) -> Vec<u8> {
    encode(&map(vec![
        ("seq", Ipld::Integer(seq)),
        ("rebase", Ipld::Bool(false)),
        ("tooBig", Ipld::Bool(false)),
        ("repo", text(repo)),
        ("commit", Ipld::Link(cid_of(b"commit"))),
        ("rev", text("3jzfcijpj2z2a")),
        ("since", Ipld::Null),
        ("blocks", Ipld::Bytes(blocks)),
        ("ops", Ipld::List(ops)),
        ("blobs", Ipld::List(vec![])),
        ("time", text("2024-01-02T03:04:05.678Z")),
    ]))
}

fn header(op: i128, t: Option<&str>) -> Vec<u8> {
    let mut entries = vec![("op", Ipld::Integer(op))];
    if let Some(t) = t {
        entries.push(("t", text(t)));
    }
    encode(&map(entries))
}

fn message(head: Vec<u8>, body: Vec<u8>) -> Vec<u8> {
    let mut out = head;
    out.extend_from_slice(&body);
    out
}

#[test]
fn synthetic_commit_round_trips_in_order() {
    let post = post_block("hello");
    let post_cid = cid_of(&post);
    let like = like_block("at://did:plc:xyz/app.bsky.feed.post/9", &post_cid);
    let like_cid = cid_of(&like);
    let follow = follow_block("did:plc:xyz");
    let follow_cid = cid_of(&follow);
    let car = archive(&[
        (post_cid, post.clone()),
        (like_cid, like.clone()),
        (follow_cid, follow.clone()),
    ]);
    let ops = vec![
        op("create", "app.bsky.feed.post/1", Some(&post_cid)),
        op("delete", "app.bsky.feed.like/2", None),
        op("create", "app.bsky.feed.like/3", Some(&like_cid)),
        op("create", "app.bsky.graph.follow/4", Some(&follow_cid)),
        op("delete", "app.bsky.feed.post/5", None),
        op("delete", "app.bsky.graph.follow/6", None),
    ];
    let bytes = message(header(1, Some("#commit")), commit_body(7, "did:plc:abc", ops, car));
    let details = handle_message(&bytes).unwrap().unwrap();
    assert_eq!(details.seq, 7);
    assert_eq!(details.time, Timestamp { secs: 1704164645, nanos: 678_000_000 });
    assert_eq!(details.operations.len(), 6);
    match &details.operations[0] {
        Operation::CreatePost { author, cid, uri, post } => {
            assert_eq!(author, "did:plc:abc");
            assert_eq!(cid, &post_cid.to_string());
            assert_eq!(uri, "at://did:plc:abc/app.bsky.feed.post/1");
            assert_eq!(post.text, "hello");
            assert!(post.langs.is_none());
            assert!(post.reply.is_none());
        }
        other => panic!("unexpected {:?}", other),
    }
    match &details.operations[1] {
        Operation::DeleteLike { uri } => assert_eq!(uri, "at://did:plc:abc/app.bsky.feed.like/2"),
        other => panic!("unexpected {:?}", other),
    }
    match &details.operations[2] {
        Operation::CreateLike { author, cid, uri, like } => {
            assert_eq!(author, "did:plc:abc");
            assert_eq!(cid, &like_cid.to_string());
            assert_eq!(uri, "at://did:plc:abc/app.bsky.feed.like/3");
            assert_eq!(like.subject.uri, "at://did:plc:xyz/app.bsky.feed.post/9");
            assert_eq!(like.subject.cid, post_cid.to_string());
        }
        other => panic!("unexpected {:?}", other),
    }
    match &details.operations[3] {
        Operation::CreateFollow { author, cid, uri, follow } => {
            assert_eq!(author, "did:plc:abc");
            assert_eq!(cid, &follow_cid.to_string());
            assert_eq!(uri, "at://did:plc:abc/app.bsky.graph.follow/4");
            assert_eq!(follow.subject, "did:plc:xyz");
        }
        other => panic!("unexpected {:?}", other),
    }
    match &details.operations[4] {
        Operation::DeletePost { uri } => assert_eq!(uri, "at://did:plc:abc/app.bsky.feed.post/5"),
        other => panic!("unexpected {:?}", other),
    }
    match &details.operations[5] {
        Operation::DeleteFollow { uri } => {
            assert_eq!(uri, "at://did:plc:abc/app.bsky.graph.follow/6")
        }
        other => panic!("unexpected {:?}", other),
    }
}

#[test]
fn frame_splits_header_and_body() {
    let body = vec![0xa0, 0x01, 0x02];
    let bytes = message(header(1, Some("#info")), body.clone());
    match decode_frame(&bytes).unwrap() {
        Frame::Message(tag, frame) => {
            assert_eq!(tag.as_deref(), Some("#info"));
            assert_eq!(frame.body, body);
        }
        other => panic!("unexpected {:?}", other),
    }
}

#[test]
fn frame_without_type_is_a_message() {
    let bytes = message(header(1, None), vec![0xa0]);
    match decode_frame(&bytes).unwrap() {
        Frame::Message(tag, frame) => {
            assert!(tag.is_none());
            assert_eq!(frame.body, vec![0xa0]);
        }
        other => panic!("unexpected {:?}", other),
    }
}

#[test]
fn frame_of_kind_minus_one_is_an_error_frame() {
    let bytes = message(header(-1, None), encode(&map(vec![("error", text("FutureCursor"))])));
    assert!(matches!(decode_frame(&bytes), Ok(Frame::Error(_))));
}

#[test]
fn frame_needs_a_body_and_a_known_kind() {
    assert_eq!(decode_frame(&header(1, Some("#commit"))).unwrap_err(), FrameError::MalformedEnvelope);
    assert_eq!(decode_frame(&[]).unwrap_err(), FrameError::MalformedEnvelope);
    assert_eq!(decode_frame(&[0xff, 0x00]).unwrap_err(), FrameError::MalformedEnvelope);
    let unknown = message(header(2, Some("#commit")), vec![0xa0]);
    assert_eq!(decode_frame(&unknown).unwrap_err(), FrameError::MalformedEnvelope);
    let no_kind = message(encode(&map(vec![("t", text("#commit"))])), vec![0xa0]);
    assert_eq!(decode_frame(&no_kind).unwrap_err(), FrameError::MalformedEnvelope);
    let list_header = message(encode(&Ipld::List(vec![Ipld::Integer(1)])), vec![0xa0]);
    assert_eq!(decode_frame(&list_header).unwrap_err(), FrameError::MalformedEnvelope);
}

#[test]
fn other_message_types_carry_no_commit() {
    let bytes = message(header(1, Some("#identity")), vec![0xa0]);
    assert!(parse_commit_from_message(&bytes).unwrap().is_none());
    assert!(handle_message(&bytes).unwrap().is_none());
    let untyped = message(header(1, None), vec![0xa0]);
    assert!(handle_message(&untyped).unwrap().is_none());
}

#[test]
fn null_commit_body_carries_no_commit() {
    let bytes = message(header(1, Some("#commit")), vec![0xf6]);
    assert!(parse_commit_from_message(&bytes).unwrap().is_none());
}

#[test]
fn broken_commit_body_is_an_error_of_the_message() {
    let bytes = message(header(1, Some("#commit")), encode(&map(vec![("seq", Ipld::Integer(1))])));
    assert_eq!(parse_commit_from_message(&bytes).unwrap_err(), StreamError::MalformedCommit);
    assert_eq!(handle_message(&bytes).unwrap_err(), StreamError::MalformedCommit);
}

#[test]
fn error_frame_is_reported_as_such() {
    let bytes = message(header(-1, None), vec![0xa0]);
    assert_eq!(handle_message(&bytes).unwrap_err(), StreamError::UpstreamErrorFrame);
}

#[test]
fn garbage_is_a_malformed_envelope() {
    assert_eq!(handle_message(&[0x01]).unwrap_err(), StreamError::MalformedEnvelope);
}

#[test]
fn parsed_commit_keeps_its_fields() {
    let post = post_block("hi");
    let post_cid = cid_of(&post);
    let car = archive(&[(post_cid, post)]);
    let ops = vec![op("create", "app.bsky.feed.post/1", Some(&post_cid)), op("update", "x/y", None)];
    let bytes = message(header(1, Some("#commit")), commit_body(40, "did:plc:abc", ops, car.clone()));
    let commit = parse_commit_from_message(&bytes).unwrap().unwrap();
    assert_eq!(commit.seq, 40);
    assert_eq!(commit.repo, "did:plc:abc");
    assert_eq!(commit.blocks, car);
    assert_eq!(commit.ops.len(), 2);
    assert_eq!(commit.ops[0].path, "app.bsky.feed.post/1");
    assert_eq!(commit.ops[0].action, "create");
    assert_eq!(commit.ops[0].cid, Some(post_cid.to_string()));
    assert_eq!(commit.ops[1].action, "update");
    assert_eq!(commit.ops[1].cid, None);
}

fn commit_with(ops: Vec<PathOperation>, blocks: Vec<u8>) -> Commit {
    Commit {
        seq: 1,
        time: Timestamp { secs: 0, nanos: 0 },
        repo: String::from("did:plc:abc"),
        ops,
        blocks,
    }
}

fn path_op(action: &str, path: &str, cid: Option<String>) -> PathOperation {
    PathOperation { path: path.to_string(), action: action.to_string(), cid }
}

#[test]
fn create_without_its_block_is_skipped() {
    let post = post_block("present");
    let post_cid = cid_of(&post);
    let absent = cid_of(b"absent");
    let car = archive(&[(post_cid, post)]);
    let commit = commit_with(
        vec![
            path_op("create", "app.bsky.feed.post/1", Some(absent.to_string())),
            path_op("create", "app.bsky.feed.post/2", Some(post_cid.to_string())),
            path_op("create", "app.bsky.feed.post/3", None),
        ],
        car,
    );
    let operations = extract_operations(&commit).unwrap();
    assert_eq!(operations.len(), 1);
    match &operations[0] {
        Operation::CreatePost { uri, .. } => assert_eq!(uri, "at://did:plc:abc/app.bsky.feed.post/2"),
        other => panic!("unexpected {:?}", other),
    }
}

#[test]
fn unknown_collections_and_actions_are_skipped() {
    let post = post_block("kept");
    let post_cid = cid_of(&post);
    let car = archive(&[(post_cid, post)]);
    let with_noise = commit_with(
        vec![
            path_op("create", "app.bsky.feed.repost/1", Some(post_cid.to_string())),
            path_op("delete", "app.bsky.feed.repost/2", None),
            path_op("create", "app.bsky.feed.post/3", Some(post_cid.to_string())),
            path_op("update", "app.bsky.feed.post/4", Some(post_cid.to_string())),
            path_op("delete", "app.bsky.feed.post/5", None),
            path_op("delete", "", None),
            path_op("delete", "app.bsky.feed.post", None),
        ],
        car.clone(),
    );
    let without = commit_with(
        vec![
            path_op("create", "app.bsky.feed.post/3", Some(post_cid.to_string())),
            path_op("delete", "app.bsky.feed.post/5", None),
            path_op("delete", "app.bsky.feed.post", None),
        ],
        car,
    );
    let a = extract_operations(&with_noise).unwrap();
    let b = extract_operations(&without).unwrap();
    assert_eq!(a.len(), 3);
    assert_eq!(format!("{:?}", a), format!("{:?}", b));
    match &a[2] {
        Operation::DeletePost { uri } => assert_eq!(uri, "at://did:plc:abc/app.bsky.feed.post"),
        other => panic!("unexpected {:?}", other),
    }
}

#[test]
fn record_that_does_not_decode_is_skipped() {
    let broken = encode(&map(vec![("text", Ipld::Integer(5))]));
    let broken_cid = cid_of(&broken);
    let post = post_block("fine");
    let post_cid = cid_of(&post);
    let car = archive(&[(broken_cid, broken), (post_cid, post)]);
    let commit = commit_with(
        vec![
            path_op("create", "app.bsky.feed.post/1", Some(broken_cid.to_string())),
            path_op("create", "app.bsky.feed.like/2", Some(post_cid.to_string())),
            path_op("create", "app.bsky.feed.post/3", Some(post_cid.to_string())),
        ],
        car,
    );
    let operations = extract_operations(&commit).unwrap();
    assert_eq!(operations.len(), 1);
    assert!(matches!(&operations[0], Operation::CreatePost { post, .. } if post.text == "fine"));
}

#[test]
fn post_with_languages_and_reply_is_decoded() {
    let parent = cid_of(b"parent");
    let root = cid_of(b"root");
    let block = encode(&map(vec![
        ("$type", text("app.bsky.feed.post")),
        ("text", text("antwoord")),
        ("createdAt", text("2024-01-01T00:00:00.000Z")),
        ("langs", Ipld::List(vec![text("nl"), text("ru")])),
        (
            "reply",
            map(vec![
                ("parent", map(vec![("cid", text(&parent.to_string())), ("uri", text("at://p"))])),
                ("root", map(vec![("cid", text(&root.to_string())), ("uri", text("at://r"))])),
            ]),
        ),
    ]));
    let cid = cid_of(&block);
    let commit = commit_with(
        vec![path_op("create", "app.bsky.feed.post/1", Some(cid.to_string()))],
        archive(&[(cid, block)]),
    );
    let operations = extract_operations(&commit).unwrap();
    match &operations[0] {
        Operation::CreatePost { post, .. } => {
            assert_eq!(post.text, "antwoord");
            assert_eq!(post.langs, Some(vec![String::from("nl"), String::from("ru")]));
            let reply = post.reply.as_ref().unwrap();
            assert_eq!(reply.parent.cid, parent.to_string());
            assert_eq!(reply.parent.uri, "at://p");
            assert_eq!(reply.root.cid, root.to_string());
            assert_eq!(reply.root.uri, "at://r");
        }
        other => panic!("unexpected {:?}", other),
    }
}

#[test]
fn archive_maps_identifiers_to_blocks() {
    let a = post_block("a");
    let b = post_block("b");
    let (ca, cb) = (cid_of(&a), cid_of(&b));
    let store = read_blocks(&archive(&[(ca, a.clone()), (cb, b.clone())])).unwrap();
    assert_eq!(store.len(), 2);
    assert_eq!(store.get(&ca.to_string()), Some(&a));
    assert_eq!(store.get(&cb.to_string()), Some(&b));
    assert_eq!(store.get(&cid_of(b"none").to_string()), None);
}

#[test]
fn archive_with_no_blocks_is_an_empty_store() {
    let store = read_blocks(&archive(&[])).unwrap();
    assert_eq!(store.len(), 0);
}

#[test]
fn unknown_archive_version_is_unsupported() {
    let a = post_block("a");
    let bytes = archive_with_version(3, &[(cid_of(&a), a)]);
    assert_eq!(read_blocks(&bytes).unwrap_err(), ArchiveError::UnsupportedArchiveFormat);
    let commit = commit_with(vec![], bytes);
    assert_eq!(extract_operations(&commit).unwrap_err(), StreamError::UnsupportedArchiveFormat);
}

#[test]
fn block_that_fails_its_digest_is_malformed() {
    let a = post_block("a");
    let bytes = archive(&[(cid_of(b"something else"), a)]);
    assert_eq!(read_blocks(&bytes).unwrap_err(), ArchiveError::MalformedArchive);
}

#[test]
fn empty_and_truncated_archives_are_malformed() {
    assert_eq!(read_blocks(&[]).unwrap_err(), ArchiveError::MalformedArchive);
    let a = post_block("a");
    let mut bytes = archive(&[(cid_of(&a), a)]);
    bytes.truncate(bytes.len() - 3);
    assert_eq!(read_blocks(&bytes).unwrap_err(), ArchiveError::MalformedArchive);
}

#[test]
fn identifier_of_unknown_version_is_malformed() {
    let mut bytes = archive(&[]);
    bytes.extend_from_slice(&[0x05, 0x07, 0x71, 0x12, 0x01, 0x00]);
    assert_eq!(read_blocks(&bytes).unwrap_err(), ArchiveError::MalformedArchive);
}

#[test]
fn digest_longer_than_the_limit_is_malformed() {
    let mut bytes = archive(&[]);
    let mut block = vec![0x01, 0x71, 0x12, 0x41];
    block.extend_from_slice(&[0u8; 70]);
    bytes.extend_from_slice(&varint(block.len() as u64));
    bytes.extend_from_slice(&block);
    assert_eq!(read_blocks(&bytes).unwrap_err(), ArchiveError::MalformedArchive);
}

#[test]
fn identifier_longer_than_its_section_is_malformed() {
    let a = post_block("a");
    let cid = cid_of(&a).to_bytes();
    let mut bytes = archive(&[]);
    bytes.extend_from_slice(&varint(4));
    bytes.extend_from_slice(&cid);
    bytes.extend_from_slice(&a);
    assert_eq!(read_blocks(&bytes).unwrap_err(), ArchiveError::MalformedArchive);
}

fn v2_archive(data_offset: u64, data_size: Option<u64>, blocks: &[(Cid, Vec<u8>)]) -> Vec<u8> {
    let payload = archive(blocks);
    let mut out = vec![0x0a, 0xa1, 0x67, 0x76, 0x65, 0x72, 0x73, 0x69, 0x6f, 0x6e, 0x02];
    out.extend_from_slice(&[0u8; 16]);
    out.extend_from_slice(&data_offset.to_le_bytes());
    out.extend_from_slice(&data_size.unwrap_or(payload.len() as u64).to_le_bytes());
    out.extend_from_slice(&0u64.to_le_bytes());
    for _ in 51..data_offset {
        out.push(0);
    }
    out.extend_from_slice(&payload);
    out
}

#[test]
fn version_two_archive_is_read() {
    let a = post_block("a");
    let b = post_block("b");
    let (ca, cb) = (cid_of(&a), cid_of(&b));
    let blocks = [(ca, a.clone()), (cb, b.clone())];
    let store = read_blocks(&v2_archive(51, None, &blocks)).unwrap();
    assert_eq!(store.len(), 2);
    assert_eq!(store.get(&cb.to_string()), Some(&b));
    let padded = read_blocks(&v2_archive(60, None, &blocks)).unwrap();
    assert_eq!(padded.len(), 2);
    assert_eq!(padded.get(&ca.to_string()), Some(&a));
}

#[test]
fn version_two_archive_with_impossible_offsets_is_malformed() {
    let a = post_block("a");
    let blocks = [(cid_of(&a), a)];
    assert_eq!(read_blocks(&v2_archive(50, None, &blocks)).unwrap_err(), ArchiveError::MalformedArchive);
    assert_eq!(read_blocks(&v2_archive(0, None, &blocks)).unwrap_err(), ArchiveError::MalformedArchive);
    assert_eq!(
        read_blocks(&v2_archive(51, Some(3), &blocks)).unwrap_err(),
        ArchiveError::MalformedArchive
    );
    assert_eq!(
        read_blocks(&v2_archive(51, Some(1 << 40), &blocks)).unwrap_err(),
        ArchiveError::MalformedArchive
    );
}

#[test]
fn repeated_identifier_leads_to_its_last_block() {
    let a = post_block("a");
    let ca = cid_of(&a);
    let store = read_blocks(&archive(&[(ca, a.clone()), (ca, a.clone())])).unwrap();
    assert_eq!(store.len(), 2);
    assert_eq!(store.get(&ca.to_string()), Some(&a));
}

#[test]
fn commit_without_an_archive_gives_no_operations() {
    let commit = commit_with(vec![path_op("delete", "app.bsky.feed.post/1", None)], vec![]);
    assert_eq!(extract_operations(&commit).unwrap_err(), StreamError::MalformedArchive);
}

#[test]
fn outcomes_of_the_reader_become_stores_or_errors() {
    let blocks = vec![Block { cid: String::from("a"), data: vec![1] }];
    let store = BlockStore::from_outcome(Ok(blocks)).unwrap();
    assert_eq!(store.len(), 1);
    assert_eq!(store.get("a"), Some(&vec![1]));
    assert_eq!(
        BlockStore::from_outcome(Err(ReadFailure::UnsupportedVersion)).unwrap_err(),
        ArchiveError::UnsupportedArchiveFormat
    );
    assert_eq!(
        BlockStore::from_outcome(Err(ReadFailure::Io)).unwrap_err(),
        ArchiveError::MalformedArchive
    );
    assert_eq!(
        BlockStore::from_outcome(Err(ReadFailure::Invalid)).unwrap_err(),
        ArchiveError::MalformedArchive
    );
}

#[test]
fn store_leads_to_the_last_block_of_an_identifier() {
    let store = BlockStore::new(vec![
        Block { cid: String::from("a"), data: vec![1] },
        Block { cid: String::from("b"), data: vec![2] },
        Block { cid: String::from("a"), data: vec![3] },
    ]);
    assert_eq!(store.len(), 3);
    assert_eq!(store.get("a"), Some(&vec![3]));
    assert_eq!(store.get("b"), Some(&vec![2]));
    assert_eq!(store.get("c"), None);
}

#[test]
fn archives_that_would_stop_the_reader_are_told_apart() {
    let a = post_block("a");
    assert!(is_safe(&archive(&[(cid_of(&a), a.clone())])));
    assert!(is_safe(&[]));
    assert!(is_safe(&archive_with_version(3, &[])));
    let mut bad = archive(&[]);
    bad.extend_from_slice(&[0x05, 0x07, 0x71, 0x12, 0x01, 0x00]);
    assert!(!is_safe(&bad));
    assert!(is_safe(&v2_archive(51, None, &[(cid_of(&a), a.clone())])));
    assert!(!is_safe(&v2_archive(50, None, &[(cid_of(&a), a)])));
}

#[test]
fn operations_are_extracted_against_a_given_store() {
    let post = post_block("hoi");
    let key = String::from("the-key");
    let store = BlockStore::new(vec![Block { cid: key.clone(), data: post }]);
    let repo = String::from("did:plc:abc");
    let found = operation_from(&repo, &path_op("create", "app.bsky.feed.post/1", Some(key.clone())), &store);
    match found {
        Some(Operation::CreatePost { author, cid, uri, post }) => {
            assert_eq!(author, "did:plc:abc");
            assert_eq!(cid, "the-key");
            assert_eq!(uri, "at://did:plc:abc/app.bsky.feed.post/1");
            assert_eq!(post.text, "hoi");
        }
        other => panic!("unexpected {:?}", other),
    }
    assert!(operation_from(&repo, &path_op("create", "app.bsky.feed.post/1", None), &store).is_none());
    assert!(operation_from(&repo, &path_op("remove", "app.bsky.feed.post/1", None), &store).is_none());
    let commit = commit_with(
        vec![
            path_op("delete", "app.bsky.graph.follow/9", None),
            path_op("create", "app.bsky.feed.post/1", Some(key)),
        ],
        vec![],
    );
    let operations = operations_from(&commit, &store);
    assert_eq!(operations.len(), 2);
    assert!(matches!(&operations[0], Operation::DeleteFollow { uri } if uri == "at://did:plc:abc/app.bsky.graph.follow/9"));
    assert!(matches!(&operations[1], Operation::CreatePost { .. }));
}

#[test]
fn record_addresses_name_repository_and_path() {
    assert_eq!(
        record_uri_of("did:plc:abc", "app.bsky.feed.post/123"),
        "at://did:plc:abc/app.bsky.feed.post/123"
    );
    assert_eq!(record_uri_of("", ""), "at:///");
}

#[test]
fn commit_frames_are_told_by_their_type() {
    let commit = decode_frame(&message(header(1, Some("#commit")), vec![0xa0])).unwrap();
    assert!(is_commit_frame(&commit));
    let other = decode_frame(&message(header(1, Some("#account")), vec![0xa0])).unwrap();
    assert!(!is_commit_frame(&other));
    let untyped = decode_frame(&message(header(1, None), vec![0xa0])).unwrap();
    assert!(!is_commit_frame(&untyped));
    let error = decode_frame(&message(header(-1, Some("#commit")), vec![0xa0])).unwrap();
    assert!(!is_commit_frame(&error));
}

#[test]
fn frames_are_made_of_a_header_and_a_body() {
    let typed = encode(&map(vec![("op", Ipld::Integer(1)), ("t", Ipld::Integer(5))]));
    match frame_from(&typed, &[1, 2]).unwrap() {
        Frame::Message(tag, frame) => {
            assert!(tag.is_none());
            assert_eq!(frame.body, vec![1, 2]);
        }
        other => panic!("unexpected {:?}", other),
    }
    let text_kind = encode(&map(vec![("op", text("1"))]));
    assert_eq!(frame_from(&text_kind, &[1]).unwrap_err(), FrameError::MalformedEnvelope);
    assert_eq!(frame_from(&[], &[1]).unwrap_err(), FrameError::MalformedEnvelope);
    assert!(matches!(frame_from(&header(1, Some("#commit")), &[]), Ok(Frame::Message(Some(_), _))));
}

#[test]
fn received_commit_is_handed_out_by_the_subscription() {
    let post = post_block("hello");
    let post_cid = cid_of(&post);
    let car = archive(&[(post_cid, post)]);
    let ops = vec![op("create", "app.bsky.feed.post/1", Some(&post_cid))];
    let bytes = message(header(1, Some("#commit")), commit_body(35, "did:plc:abc", ops, car));
    let state = Lifecycle { phase: Phase::Streaming, cursor: Some(20), last_seen: Some(34) };
    let (next, action) = state.on_event(LifecycleEvent::Received(bytes));
    assert_eq!(next, Lifecycle { phase: Phase::Streaming, cursor: Some(20), last_seen: Some(35) });
    match action {
        LifecycleAction::Publish(details) => {
            assert_eq!(details.seq, 35);
            assert_eq!(details.operations.len(), 1);
        }
        other => panic!("unexpected {:?}", other),
    }
    let other = message(header(1, Some("#identity")), vec![0xa0]);
    let (same, action) = next.on_event(LifecycleEvent::Received(other));
    assert_eq!(same, next);
    assert!(matches!(action, LifecycleAction::Receive { timeout: 60 }));
    let last = message(header(-1, None), vec![0xa0]);
    let (ended, action) = next.on_event(LifecycleEvent::Received(last));
    assert_eq!(ended.phase, Phase::Terminated);
    assert_eq!(ended.cursor, Some(20));
    assert!(matches!(action, LifecycleAction::Fail));
}
