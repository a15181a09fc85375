//! The block store of one commit: the blocks of its archive, found by content identifier.

use crate::text::same_text;
use crate::framing::{
    blocks_safe, check_blocks, check_v2, find_header_end, header_end, lemma_varint_agrees,
    lemma_varint_len, v2_safe, varint_from, varint_step, Varint,
};
use rs_car::CarDecodeError;
use vstd::prelude::*;
use vstd::slice::slice_subrange;

verus! {

/// One block of an archive: its content identifier, in text form, and its bytes.
#[derive(Debug, Clone)]
pub struct Block {
    pub cid: String,
    pub data: Vec<u8>,
}

/// Mathematical content of a [`Block`].
pub struct BlockView {
    pub cid: Seq<char>,
    pub data: Seq<u8>,
}

impl View for Block {
    type V = BlockView;

    open spec fn view(&self) -> BlockView {
        BlockView { cid: self.cid@, data: self.data@ }
    }
}

/// The mapping that a sequence of blocks stands for: each content identifier leads to the
/// bytes of the last block that carries it.
pub open spec fn block_map(blocks: Seq<BlockView>) -> Map<Seq<char>, Seq<u8>>
    decreases blocks.len(),
{
    if blocks.len() == 0 {
        Map::empty()
    } else {
        block_map(blocks.drop_last()).insert(blocks.last().cid, blocks.last().data)
    }
}

/// A content identifier that no block carries is not in the mapping.
pub proof fn lemma_block_map_absent(blocks: Seq<BlockView>, cid: Seq<char>)
    requires
        forall|j: int| 0 <= j < blocks.len() ==> blocks[j].cid != cid,
    ensures
        !block_map(blocks).dom().contains(cid),
    decreases blocks.len(),
{
    if blocks.len() > 0 {
        lemma_block_map_absent(blocks.drop_last(), cid);
    }
}

/// The mapping leads from a content identifier to the last block that carries it.
pub proof fn lemma_block_map_last(blocks: Seq<BlockView>, cid: Seq<char>, i: int)
    requires
        0 <= i < blocks.len(),
        blocks[i].cid == cid,
        forall|j: int| i < j < blocks.len() ==> blocks[j].cid != cid,
    ensures
        block_map(blocks).dom().contains(cid),
        block_map(blocks)[cid] == blocks[i].data,
    decreases blocks.len(),
{
    if i < blocks.len() - 1 {
        lemma_block_map_last(blocks.drop_last(), cid, i);
    }
}

/// The blocks of one archive, in the order in which the archive holds them.
#[derive(Debug, Clone)]
pub struct BlockStore {
    blocks: Vec<Block>,
}

/// The views of a sequence of blocks.
pub open spec fn block_views(blocks: Seq<Block>) -> Seq<BlockView> {
    blocks.map_values(|b: Block| b@)
}

impl View for BlockStore {
    type V = Map<Seq<char>, Seq<u8>>;

    closed spec fn view(&self) -> Map<Seq<char>, Seq<u8>> {
        block_map(block_views(self.blocks@))
    }
}

impl BlockStore {
    /// The blocks in archive order.
    pub closed spec fn entries(&self) -> Seq<BlockView> {
        block_views(self.blocks@)
    }

    /// The store's mapping is the one its blocks stand for.
    pub proof fn lemma_view(&self)
        ensures
            self@ == block_map(self.entries()),
    {
    }

    /// A store of the given blocks.
    pub fn new(blocks: Vec<Block>) -> (store: BlockStore)
        ensures
            store.entries() == block_views(blocks@),
            store@ == block_map(block_views(blocks@)),
    {
        BlockStore { blocks }
    }

    /// How many blocks the archive held, repeated identifiers counted.
    pub fn len(&self) -> (n: usize)
        ensures
            n == self.entries().len(),
    {
        self.blocks.len()
    }

    /// The bytes that the content identifier `cid` leads to, if any block carries it.
    pub fn get(&self, cid: &str) -> (r: Option<&Vec<u8>>)
        ensures
            self@.dom().contains(cid@) <==> r is Some,
            r matches Some(data) ==> data@ == self@[cid@],
    {
        let ghost views = block_views(self.blocks@);
        let mut i: usize = self.blocks.len();
        while i > 0
            invariant
                i <= self.blocks.len(),
                views == block_views(self.blocks@),
                forall|j: int| i <= j < views.len() ==> views[j].cid != cid@,
            decreases i,
        {
            i = i - 1;
            if same_text(self.blocks[i].cid.as_str(), cid) {
                proof {
                    lemma_block_map_last(views, cid@, i as int);
                }
                return Some(&self.blocks[i].data);
            }
        }
        proof {
            lemma_block_map_absent(views, cid@);
        }
        None
    }
}

/// How the archive reader turns an archive down.
#[derive(Debug, Clone, Copy, PartialEq, Eq, Structural)]
pub enum ReadFailure {
    /// The header names a version that the reader does not know.
    UnsupportedVersion,
    /// The input ended where the reader needed more bytes.
    Io,
    /// Any other refusal: a header, an identifier or a block that is not what it should
    /// be, or a block whose digest is not the one its identifier states.
    Invalid,
}

/// Why an archive gave no block store.
#[derive(Debug, Clone, Copy, PartialEq, Eq, Structural)]
pub enum ArchiveError {
    /// The archive is of a version that is not supported.
    UnsupportedArchiveFormat,
    /// The archive is not laid out as an archive, or a block of it fails its check.
    MalformedArchive,
}

/// What `rs_car::car_read_all` returns for an archive, `check` saying whether it is to
/// hold the digest of every block against its identifier: the blocks in archive order,
/// each identifier in its text form, or the kind of its refusal.
pub uninterp spec fn car_read_all_result(bytes: Seq<u8>, check: bool) -> Result<
    Seq<BlockView>,
    ReadFailure,
>;

/// Whether the reader gets through `bytes` without a panic. That is so where the
/// reader never comes to the blocks: the header section is cut short, or the reader
/// refuses the header alone. On the header alone the reader succeeds for a version 1
/// archive, whose blocks follow at once ([`blocks_safe`]), and runs out of input for a
/// version 2 archive, whose fixed header follows ([`v2_safe`]).
pub open spec fn archive_safe(bytes: Seq<u8>) -> bool {
    match header_end(bytes, 0) {
        Some(end) => match car_read_all_result(bytes.take(end), true) {
            Ok(_) => blocks_safe(bytes, end, None, 0),
            Err(ReadFailure::Io) => v2_safe(bytes, end),
            Err(_) => true,
        },
        None => true,
    }
}

/// The reader gets through an archive that is a header section and nothing else.
pub proof fn lemma_header_alone_is_safe(bytes: Seq<u8>, end: int)
    requires
        header_end(bytes, 0) == Some(end),
    ensures
        archive_safe(bytes.take(end)),
{
    let head = bytes.take(end);
    lemma_varint_len(bytes, 0, 0, 0);
    lemma_prefix_not_truncated(bytes, head, 0, 0);
    lemma_varint_agrees(head, bytes, 0, 0, 0);
    assert(header_end(head, 0) == Some(end));
    assert(head.take(end) == head);
    lemma_varint_len(head, end, 0, 0);
}

/// Read from byte `i` on, a number that ends inside a shorter input is not cut off in it.
proof fn lemma_prefix_not_truncated(bytes: Seq<u8>, head: Seq<u8>, i: nat, acc: u64)
    requires
        varint_from(bytes, 0, i, acc) matches Varint::Value { value, len } && len <= head.len(),
        head.len() <= bytes.len(),
        forall|j: int| 0 <= j < head.len() ==> head[j] == bytes[j],
    ensures
        !(varint_from(head, 0, i, acc) is Truncated),
    decreases 10 - i,
{
    lemma_varint_len(bytes, 0, i, acc);
    if i < 10 && i < bytes.len() {
        let byte = bytes[i as int];
        if byte & 0x80 != 0 {
            lemma_prefix_not_truncated(bytes, head, i + 1, varint_step(acc, byte, i));
        }
    }
}

/// The views of what the reader returned.
pub open spec fn outcome_view(outcome: Result<Vec<Block>, ReadFailure>) -> Result<
    Seq<BlockView>,
    ReadFailure,
> {
    match outcome {
        Ok(blocks) => Ok(block_views(blocks@)),
        Err(failure) => Err(failure),
    }
}

/// Calls `rs_car::car_read_all` on the archive and waits for it with
/// `futures::executor::block_on`, which is not to be done from inside another executor
/// of the `futures` crate; each identifier is handed out in its
/// text form and the archive's header is dropped. Nothing is claimed of what is read but
/// that it is a function of the bytes, named [`car_read_all_result`]. The reader panics
/// on an identifier of a version above 1, on a digest longer than 64 bytes, on an
/// identifier longer than its section and on the offsets of a version 2 header that
/// [`archive_safe`] leaves out, and it sets memory aside for a whole section before it
/// finds the input too short for it: such input is not to be passed. Of no bytes at all
/// the reader cannot read the length of the header, and reports the end of the input.
#[verifier::external_body]
fn read_all(bytes: &[u8], check: bool) -> (r: Result<Vec<Block>, ReadFailure>)
    requires
        archive_safe(bytes@),
    ensures
        outcome_view(r) == car_read_all_result(bytes@, check),
        r is Ok ==> bytes@.len() > 0,
        r matches Err(failure) ==> bytes@.len() > 0 || failure == ReadFailure::Io,
{
    let mut input = bytes;
    match futures::executor::block_on(rs_car::car_read_all(&mut input, check)) {
        Ok((blocks, _)) => Ok(
            blocks.into_iter().map(|(cid, data)| Block { cid: cid.to_string(), data }).collect(),
        ),
        Err(CarDecodeError::UnsupportedCarVersion { .. }) => Err(ReadFailure::UnsupportedVersion),
        Err(CarDecodeError::IoError(_)) => Err(ReadFailure::Io),
        Err(_) => Err(ReadFailure::Invalid),
    }
}

/// Says whether the reader gets through `bytes` without a panic.
pub fn is_safe(bytes: &[u8]) -> (safe: bool)
    ensures
        safe == archive_safe(bytes@),
{
    let end = match find_header_end(bytes, 0) {
        Some(end) => end,
        None => {
            return true;
        },
    };
    let head = slice_subrange(bytes, 0, end);
    proof {
        assert(head@ == bytes@.take(end as int));
        lemma_header_alone_is_safe(bytes@, end as int);
    }
    match read_all(head, true) {
        Ok(_) => check_blocks(bytes, end, None),
        Err(ReadFailure::Io) => check_v2(bytes, end),
        Err(_) => true,
    }
}

/// What reading an archive gives: the blocks that the reader hands out once it has held
/// each against its identifier, or why there are none. An archive that the reader would
/// panic on is malformed.
pub open spec fn archive_reading(bytes: Seq<u8>) -> Result<Seq<BlockView>, ArchiveError> {
    if !archive_safe(bytes) {
        Err(ArchiveError::MalformedArchive)
    } else {
        reading_outcome(car_read_all_result(bytes, true))
    }
}

/// What an outcome of the reader means for the block store.
pub open spec fn reading_outcome(outcome: Result<Seq<BlockView>, ReadFailure>) -> Result<
    Seq<BlockView>,
    ArchiveError,
> {
    match outcome {
        Ok(blocks) => Ok(blocks),
        Err(ReadFailure::UnsupportedVersion) => Err(ArchiveError::UnsupportedArchiveFormat),
        Err(_) => Err(ArchiveError::MalformedArchive),
    }
}

/// The blocks of the store that was built, or why none was.
pub open spec fn store_view(r: Result<BlockStore, ArchiveError>) -> Result<
    Seq<BlockView>,
    ArchiveError,
> {
    match r {
        Ok(store) => Ok(store.entries()),
        Err(error) => Err(error),
    }
}

impl BlockStore {
    /// The block store for an outcome of the reader: the blocks it handed out, or an
    /// unsupported format where it did not know the version and a malformed archive on
    /// any other refusal.
    pub fn from_outcome(outcome: Result<Vec<Block>, ReadFailure>) -> (r: Result<
        BlockStore,
        ArchiveError,
    >)
        ensures
            store_view(r) == reading_outcome(outcome_view(outcome)),
    {
        match outcome {
            Ok(blocks) => Ok(BlockStore::new(blocks)),
            Err(ReadFailure::UnsupportedVersion) => Err(ArchiveError::UnsupportedArchiveFormat),
            Err(_) => Err(ArchiveError::MalformedArchive),
        }
    }
}

/// Reads the archive of one commit into a block store. No bytes at all are a malformed
/// archive.
pub fn read_blocks(bytes: &[u8]) -> (r: Result<BlockStore, ArchiveError>)
    ensures
        store_view(r) == archive_reading(bytes@),
        bytes@.len() == 0 ==> (r matches Err(error) && error == ArchiveError::MalformedArchive),
{
    if !is_safe(bytes) {
        return Err(ArchiveError::MalformedArchive);
    }
    BlockStore::from_outcome(read_all(bytes, true))
}

} // verus!
