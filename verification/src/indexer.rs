//! Indexing of commits, as a machine that says what is to be done next: which algorithm
//! to ask about which post, what to persist, and when to move the cursor.

use crate::store::{
    lemma_effect_followed_by, lemma_effect_none, lemma_effect_of_calls, lemma_effect_twice, Effect,
    MemoryStore, StoreState,
};
use crate::streaming::{
    operation_views, CommitDetails, CommitDetailsView, Operation, OperationView,
};
use vstd::prelude::*;

verus! {

/// A commit whose sequence number is a multiple of this moves the cursor.
pub const CHECKPOINT_INTERVAL: i64 = 20;

/// Where the indexing of one commit stands: what was asked for and is not yet answered.
#[derive(Debug, Clone, Copy, PartialEq, Eq, Structural)]
pub enum IndexerState {
    /// An algorithm is being asked whether a created post is to be indexed.
    Asking { operation: usize, algorithm: usize },
    /// The author of an accepted post is being given a profile.
    EnsuringProfile { operation: usize },
    /// An accepted post is being inserted.
    InsertingPost { operation: usize },
    /// A deleted post is being removed.
    DeletingPost { operation: usize },
    /// The cursor is being moved to the commit's sequence number.
    UpdatingCursor,
    /// Nothing is left to do for this commit.
    Done,
}

/// The answer to an action.
#[derive(Debug, Clone, Copy, PartialEq, Eq, Structural)]
pub enum Reply {
    /// What the algorithm that was asked said of the post.
    Verdict(bool),
    /// The persistence call that was asked for has been made.
    Completed,
}

/// What is to be done next for a commit.
#[derive(Debug, Clone)]
pub enum IndexAction {
    /// Ask the algorithm at place `algorithm` of the registry whether the post of the
    /// operation at place `operation` of the commit is to be indexed.
    AskAlgorithm { algorithm: usize, operation: usize },
    /// See to it that a profile exists for `author`.
    EnsureProfile { author: String },
    /// Insert the post.
    InsertPost { author: String, cid: String, uri: String },
    /// Delete every indexed post with this address.
    DeletePost { uri: String },
    /// Persist `seq` as the cursor.
    UpdateCursor { seq: i64 },
    /// Nothing: the commit is done.
    Finished,
}

/// Mathematical content of an [`IndexAction`].
pub enum IndexActionView {
    AskAlgorithm { algorithm: usize, operation: usize },
    EnsureProfile { author: Seq<char> },
    InsertPost { author: Seq<char>, cid: Seq<char>, uri: Seq<char> },
    DeletePost { uri: Seq<char> },
    UpdateCursor { seq: i64 },
    Finished,
}

impl View for IndexAction {
    type V = IndexActionView;

    open spec fn view(&self) -> IndexActionView {
        match self {
            IndexAction::AskAlgorithm { algorithm, operation } => IndexActionView::AskAlgorithm {
                algorithm: *algorithm,
                operation: *operation,
            },
            IndexAction::EnsureProfile { author } => IndexActionView::EnsureProfile {
                author: author@,
            },
            IndexAction::InsertPost { author, cid, uri } => IndexActionView::InsertPost {
                author: author@,
                cid: cid@,
                uri: uri@,
            },
            IndexAction::DeletePost { uri } => IndexActionView::DeletePost { uri: uri@ },
            IndexAction::UpdateCursor { seq } => IndexActionView::UpdateCursor { seq: *seq },
            IndexAction::Finished => IndexActionView::Finished,
        }
    }
}

/// Whether a commit with this sequence number moves the cursor.
pub open spec fn is_checkpoint(seq: i64) -> bool {
    (seq as int) % (CHECKPOINT_INTERVAL as int) == 0
}

/// The state once every operation has been seen to.
pub open spec fn closing(seq: i64) -> IndexerState {
    if is_checkpoint(seq) {
        IndexerState::UpdatingCursor
    } else {
        IndexerState::Done
    }
}

/// The state for the first operation from place `from` on that asks for something: a
/// created post, if there is an algorithm to ask, or a deleted post. Where none is left,
/// the closing state.
pub open spec fn settle(ops: Seq<OperationView>, seq: i64, algorithms: nat, from: nat) -> IndexerState
    decreases ops.len() - from,
{
    if from >= ops.len() {
        closing(seq)
    } else {
        match ops[from as int] {
            OperationView::CreatePost { .. } if algorithms > 0 => IndexerState::Asking {
                operation: from as usize,
                algorithm: 0,
            },
            OperationView::DeletePost { .. } => IndexerState::DeletingPost {
                operation: from as usize,
            },
            _ => settle(ops, seq, algorithms, from + 1),
        }
    }
}

/// The state in which the indexing of a commit starts.
pub open spec fn initial(ops: Seq<OperationView>, seq: i64, algorithms: nat) -> IndexerState {
    settle(ops, seq, algorithms, 0)
}

/// The state that follows `state` on `reply`. A verdict moves on from a question: a
/// favourable one to the profile of the author, the others to the next algorithm and,
/// after the last, to the next operation. A completion moves on from a persistence
/// call. A reply that does not answer what was asked leaves the state as it is.
pub open spec fn next_state(
    ops: Seq<OperationView>,
    seq: i64,
    algorithms: nat,
    state: IndexerState,
    reply: Reply,
) -> IndexerState {
    match (state, reply) {
        (IndexerState::Asking { operation, algorithm }, Reply::Verdict(accepted)) => if accepted {
            IndexerState::EnsuringProfile { operation }
        } else if algorithm + 1 < algorithms {
            IndexerState::Asking { operation, algorithm: (algorithm + 1) as usize }
        } else {
            settle(ops, seq, algorithms, (operation + 1) as nat)
        },
        (IndexerState::EnsuringProfile { operation }, Reply::Completed) => IndexerState::InsertingPost {
            operation,
        },
        (IndexerState::InsertingPost { operation }, Reply::Completed) => settle(
            ops,
            seq,
            algorithms,
            (operation + 1) as nat,
        ),
        (IndexerState::DeletingPost { operation }, Reply::Completed) => settle(
            ops,
            seq,
            algorithms,
            (operation + 1) as nat,
        ),
        (IndexerState::UpdatingCursor, Reply::Completed) => IndexerState::Done,
        _ => state,
    }
}

/// What `state` asks for. A state that names an operation which the commit does not
/// hold, or which is not of the kind the state is about, asks for nothing.
pub open spec fn action_of(ops: Seq<OperationView>, seq: i64, state: IndexerState) -> IndexActionView {
    match state {
        IndexerState::Asking { operation, algorithm } => if operation < ops.len()
            && ops[operation as int] is CreatePost {
            IndexActionView::AskAlgorithm { algorithm, operation }
        } else {
            IndexActionView::Finished
        },
        IndexerState::EnsuringProfile { operation } => if operation < ops.len() {
            match ops[operation as int] {
                OperationView::CreatePost { author, .. } => IndexActionView::EnsureProfile {
                    author,
                },
                _ => IndexActionView::Finished,
            }
        } else {
            IndexActionView::Finished
        },
        IndexerState::InsertingPost { operation } => if operation < ops.len() {
            match ops[operation as int] {
                OperationView::CreatePost { author, cid, uri, .. } => IndexActionView::InsertPost {
                    author,
                    cid,
                    uri,
                },
                _ => IndexActionView::Finished,
            }
        } else {
            IndexActionView::Finished
        },
        IndexerState::DeletingPost { operation } => if operation < ops.len() {
            match ops[operation as int] {
                OperationView::DeletePost { uri } => IndexActionView::DeletePost { uri },
                _ => IndexActionView::Finished,
            }
        } else {
            IndexActionView::Finished
        },
        IndexerState::UpdatingCursor => IndexActionView::UpdateCursor { seq },
        IndexerState::Done => IndexActionView::Finished,
    }
}

/// Whether a commit with this sequence number moves the cursor.
pub fn moves_cursor(seq: i64) -> (r: bool)
    ensures
        r == is_checkpoint(seq),
{
    seq % CHECKPOINT_INTERVAL == 0
}

/// The state once every operation has been seen to.
fn closing_state(seq: i64) -> (state: IndexerState)
    ensures
        state == closing(seq),
{
    if moves_cursor(seq) {
        IndexerState::UpdatingCursor
    } else {
        IndexerState::Done
    }
}

/// Finds the first operation from place `from` on that asks for something.
fn settle_from(commit: &CommitDetails, algorithms: usize, from: usize) -> (state: IndexerState)
    ensures
        state == settle(commit@.operations, commit.seq, algorithms as nat, from as nat),
{
    let ghost ops = commit@.operations;
    let mut i: usize = from;
    while i < commit.operations.len()
        invariant
            ops == operation_views(commit.operations@),
            settle(ops, commit.seq, algorithms as nat, from as nat) == settle(
                ops,
                commit.seq,
                algorithms as nat,
                i as nat,
            ),
        decreases commit.operations.len() - i,
    {
        assert(ops[i as int] == commit.operations@[i as int]@);
        match &commit.operations[i] {
            Operation::CreatePost { .. } => {
                if algorithms > 0 {
                    return IndexerState::Asking { operation: i, algorithm: 0 };
                }
            },
            Operation::DeletePost { .. } => {
                return IndexerState::DeletingPost { operation: i };
            },
            _ => {},
        }
        i = i + 1;
    }
    closing_state(commit.seq)
}

/// Finds what follows the operation at place `operation`.
fn settle_after(commit: &CommitDetails, algorithms: usize, operation: usize) -> (state:
    IndexerState)
    ensures
        state == settle(commit@.operations, commit.seq, algorithms as nat, (operation + 1) as nat),
{
    if operation < commit.operations.len() {
        settle_from(commit, algorithms, operation + 1)
    } else {
        closing_state(commit.seq)
    }
}

/// The state in which the indexing of `commit` starts, with `algorithms` algorithms in
/// the registry.
pub fn begin(commit: &CommitDetails, algorithms: usize) -> (state: IndexerState)
    ensures
        state == initial(commit@.operations, commit.seq, algorithms as nat),
{
    settle_from(commit, algorithms, 0)
}

/// The state that follows `state` once its action has been answered with `reply`.
pub fn advance(commit: &CommitDetails, algorithms: usize, state: IndexerState, reply: Reply) -> (next:
    IndexerState)
    ensures
        next == next_state(commit@.operations, commit.seq, algorithms as nat, state, reply),
{
    match (state, reply) {
        (IndexerState::Asking { operation, algorithm }, Reply::Verdict(accepted)) => {
            if accepted {
                IndexerState::EnsuringProfile { operation }
            } else if algorithm < algorithms && algorithm + 1 < algorithms {
                IndexerState::Asking { operation, algorithm: algorithm + 1 }
            } else {
                settle_after(commit, algorithms, operation)
            }
        },
        (IndexerState::EnsuringProfile { operation }, Reply::Completed) => {
            IndexerState::InsertingPost { operation }
        },
        (IndexerState::InsertingPost { operation }, Reply::Completed) => settle_after(
            commit,
            algorithms,
            operation,
        ),
        (IndexerState::DeletingPost { operation }, Reply::Completed) => settle_after(
            commit,
            algorithms,
            operation,
        ),
        (IndexerState::UpdatingCursor, Reply::Completed) => IndexerState::Done,
        _ => state,
    }
}

/// What `state` asks to be done for `commit`.
pub fn action_for(commit: &CommitDetails, state: IndexerState) -> (action: IndexAction)
    ensures
        action@ == action_of(commit@.operations, commit.seq, state),
{
    let ghost ops = commit@.operations;
    match state {
        IndexerState::Asking { operation, algorithm } => {
            if operation < commit.operations.len() {
                assert(ops[operation as int] == commit.operations@[operation as int]@);
                match &commit.operations[operation] {
                    Operation::CreatePost { .. } => IndexAction::AskAlgorithm {
                        algorithm,
                        operation,
                    },
                    _ => IndexAction::Finished,
                }
            } else {
                IndexAction::Finished
            }
        },
        IndexerState::EnsuringProfile { operation } => {
            if operation < commit.operations.len() {
                assert(ops[operation as int] == commit.operations@[operation as int]@);
                match &commit.operations[operation] {
                    Operation::CreatePost { author, .. } => IndexAction::EnsureProfile {
                        author: author.clone(),
                    },
                    _ => IndexAction::Finished,
                }
            } else {
                IndexAction::Finished
            }
        },
        IndexerState::InsertingPost { operation } => {
            if operation < commit.operations.len() {
                assert(ops[operation as int] == commit.operations@[operation as int]@);
                match &commit.operations[operation] {
                    Operation::CreatePost { author, cid, uri, .. } => IndexAction::InsertPost {
                        author: author.clone(),
                        cid: cid.clone(),
                        uri: uri.clone(),
                    },
                    _ => IndexAction::Finished,
                }
            } else {
                IndexAction::Finished
            }
        },
        IndexerState::DeletingPost { operation } => {
            if operation < commit.operations.len() {
                assert(ops[operation as int] == commit.operations@[operation as int]@);
                match &commit.operations[operation] {
                    Operation::DeletePost { uri } => IndexAction::DeletePost { uri: uri.clone() },
                    _ => IndexAction::Finished,
                }
            } else {
                IndexAction::Finished
            }
        },
        IndexerState::UpdatingCursor => IndexAction::UpdateCursor { seq: commit.seq },
        IndexerState::Done => IndexAction::Finished,
    }
}

/// The store once `action` has been carried out. Asking an algorithm changes nothing.
pub open spec fn applied(store: StoreState, action: IndexActionView) -> StoreState {
    match action {
        IndexActionView::EnsureProfile { author } => store.ensure_profile(author),
        IndexActionView::InsertPost { author, cid, uri } => store.insert_post(author, cid, uri),
        IndexActionView::DeletePost { uri } => store.delete_post(uri),
        IndexActionView::UpdateCursor { seq } => store.update_cursor(seq),
        _ => store,
    }
}

/// Whether one of the algorithms from place `from` on accepts the post of the operation
/// at place `operation`, `accepts` saying what each algorithm answers for each operation.
pub open spec fn accepted_from(
    accepts: spec_fn(int, int) -> bool,
    operation: int,
    from: int,
    algorithms: nat,
) -> bool {
    exists|k: int| from <= k < algorithms && #[trigger] accepts(operation, k)
}

/// The store once one operation has been indexed: a created post that an algorithm
/// accepts gives its author a profile and is inserted, a deleted post is removed, and
/// nothing else is persisted.
pub open spec fn index_operation(store: StoreState, operation: OperationView, matched: bool) -> StoreState {
    match operation {
        OperationView::CreatePost { author, cid, uri, .. } => if matched {
            store.ensure_profile(author).insert_post(author, cid, uri)
        } else {
            store
        },
        OperationView::DeletePost { uri } => store.delete_post(uri),
        _ => store,
    }
}

/// The store once the operations from place `from` on have been indexed, in order.
pub open spec fn index_rest(
    ops: Seq<OperationView>,
    algorithms: nat,
    accepts: spec_fn(int, int) -> bool,
    from: nat,
    store: StoreState,
) -> StoreState
    decreases ops.len() - from,
{
    if from >= ops.len() {
        store
    } else {
        index_rest(
            ops,
            algorithms,
            accepts,
            from + 1,
            index_operation(
                store,
                ops[from as int],
                accepted_from(accepts, from as int, 0, algorithms),
            ),
        )
    }
}

/// The store once a commit with the sequence number `seq` has been closed: the cursor
/// is moved to `seq` where that is a multiple of [`CHECKPOINT_INTERVAL`].
pub open spec fn checkpointed(store: StoreState, seq: i64) -> StoreState {
    if is_checkpoint(seq) {
        store.update_cursor(seq)
    } else {
        store
    }
}

/// The store once a commit has been indexed: its operations in order, then the cursor.
pub open spec fn indexed(
    ops: Seq<OperationView>,
    seq: i64,
    algorithms: nat,
    accepts: spec_fn(int, int) -> bool,
    store: StoreState,
) -> StoreState {
    checkpointed(index_rest(ops, algorithms, accepts, 0, store), seq)
}

/// The answer that `state` gets: the verdict of the algorithm asked, or the completion
/// of the persistence call.
pub open spec fn reply_to(accepts: spec_fn(int, int) -> bool, state: IndexerState) -> Reply {
    match state {
        IndexerState::Asking { operation, algorithm } => Reply::Verdict(
            accepts(operation as int, algorithm as int),
        ),
        _ => Reply::Completed,
    }
}

/// How many operations are left from the one that `state` is about.
pub open spec fn operations_left(ops: Seq<OperationView>, state: IndexerState) -> int {
    match state {
        IndexerState::Asking { operation, .. }
        | IndexerState::EnsuringProfile { operation }
        | IndexerState::InsertingPost { operation }
        | IndexerState::DeletingPost { operation } => if operation < ops.len() {
            ops.len() - operation
        } else {
            0
        },
        _ => 0,
    }
}

/// How many steps `state` may still take on its own operation.
pub open spec fn stage_left(algorithms: nat, state: IndexerState) -> int {
    match state {
        IndexerState::Asking { algorithm, .. } => if algorithm < algorithms {
            3 + algorithms - algorithm
        } else {
            3
        },
        IndexerState::EnsuringProfile { .. } => 2,
        IndexerState::InsertingPost { .. } => 1,
        IndexerState::DeletingPost { .. } => 1,
        IndexerState::UpdatingCursor => 1,
        IndexerState::Done => 0,
    }
}

/// The state that `settle` finds is about an operation at or after `from`.
pub proof fn lemma_settle_bound(ops: Seq<OperationView>, seq: i64, algorithms: nat, from: nat)
    requires
        ops.len() <= usize::MAX,
    ensures
        from < ops.len() ==> operations_left(ops, settle(ops, seq, algorithms, from)) <= ops.len()
            - from,
        from >= ops.len() ==> operations_left(ops, settle(ops, seq, algorithms, from)) == 0,
    decreases ops.len() - from,
{
    if from < ops.len() {
        lemma_settle_bound(ops, seq, algorithms, from + 1);
    }
}

/// The store that the machine leaves when it is driven from `state` on: each action is
/// carried out on the store and answered, until none is asked for. It is stated for
/// operations and algorithms that can be counted in a `usize`, as those of every
/// [`CommitDetails`] and of every registry can.
pub open spec fn run(
    ops: Seq<OperationView>,
    seq: i64,
    algorithms: nat,
    accepts: spec_fn(int, int) -> bool,
    state: IndexerState,
    store: StoreState,
) -> StoreState
    decreases operations_left(ops, state), stage_left(algorithms, state),
    when ops.len() <= usize::MAX && algorithms <= usize::MAX
{
    let action = action_of(ops, seq, state);
    if action is Finished {
        store
    } else {
        proof {
            match state {
                IndexerState::Asking { operation, .. }
                | IndexerState::InsertingPost { operation }
                | IndexerState::DeletingPost { operation } => {
                    lemma_settle_bound(ops, seq, algorithms, (operation + 1) as nat);
                },
                _ => {},
            }
        }
        run(
            ops,
            seq,
            algorithms,
            accepts,
            next_state(ops, seq, algorithms, state, reply_to(accepts, state)),
            applied(store, action),
        )
    }
}

/// Driven from a question about a created post, the machine leaves the store in which
/// that post has been indexed, by the algorithms from the one asked on, and all later
/// operations after it.
pub proof fn lemma_run_asking(
    ops: Seq<OperationView>,
    seq: i64,
    algorithms: nat,
    accepts: spec_fn(int, int) -> bool,
    operation: usize,
    algorithm: usize,
    store: StoreState,
)
    requires
        ops.len() <= usize::MAX,
        algorithms <= usize::MAX,
        operation < ops.len(),
        algorithm < algorithms,
        ops[operation as int] is CreatePost,
    ensures
        run(ops, seq, algorithms, accepts, IndexerState::Asking { operation, algorithm }, store)
            == checkpointed(
            index_rest(
                ops,
                algorithms,
                accepts,
                (operation + 1) as nat,
                index_operation(
                    store,
                    ops[operation as int],
                    accepted_from(accepts, operation as int, algorithm as int, algorithms),
                ),
            ),
            seq,
        ),
    decreases ops.len() - operation, algorithms - algorithm + 1,
{
    let asking = IndexerState::Asking { operation, algorithm };
    let next = (operation + 1) as nat;
    let author = ops[operation as int]->CreatePost_author;
    let cid = ops[operation as int]->CreatePost_cid;
    let uri = ops[operation as int]->CreatePost_uri;
    assert(action_of(ops, seq, asking) == IndexActionView::AskAlgorithm { algorithm, operation });
    if accepts(operation as int, algorithm as int) {
        let ensuring = IndexerState::EnsuringProfile { operation };
        let inserting = IndexerState::InsertingPost { operation };
        let with_profile = store.ensure_profile(author);
        let with_post = with_profile.insert_post(author, cid, uri);
        assert(run(ops, seq, algorithms, accepts, asking, store) == run(
            ops,
            seq,
            algorithms,
            accepts,
            ensuring,
            store,
        ));
        assert(run(ops, seq, algorithms, accepts, ensuring, store) == run(
            ops,
            seq,
            algorithms,
            accepts,
            inserting,
            with_profile,
        ));
        assert(run(ops, seq, algorithms, accepts, inserting, with_profile) == run(
            ops,
            seq,
            algorithms,
            accepts,
            settle(ops, seq, algorithms, next),
            with_post,
        ));
        lemma_run_settled(ops, seq, algorithms, accepts, next, with_post);
    } else if algorithm + 1 < algorithms {
        let later = IndexerState::Asking { operation, algorithm: (algorithm + 1) as usize };
        assert(run(ops, seq, algorithms, accepts, asking, store) == run(
            ops,
            seq,
            algorithms,
            accepts,
            later,
            store,
        ));
        lemma_run_asking(
            ops,
            seq,
            algorithms,
            accepts,
            operation,
            (algorithm + 1) as usize,
            store,
        );
        assert(accepted_from(accepts, operation as int, algorithm as int, algorithms)
            == accepted_from(accepts, operation as int, algorithm + 1, algorithms));
    } else {
        assert(run(ops, seq, algorithms, accepts, asking, store) == run(
            ops,
            seq,
            algorithms,
            accepts,
            settle(ops, seq, algorithms, next),
            store,
        ));
        lemma_run_settled(ops, seq, algorithms, accepts, next, store);
        assert(!accepted_from(accepts, operation as int, algorithm as int, algorithms));
    }
}

/// Driven from the state that `settle` finds at place `from`, the machine leaves the
/// store in which the operations from `from` on have been indexed and the commit closed.
pub proof fn lemma_run_settled(
    ops: Seq<OperationView>,
    seq: i64,
    algorithms: nat,
    accepts: spec_fn(int, int) -> bool,
    from: nat,
    store: StoreState,
)
    requires
        ops.len() <= usize::MAX,
        algorithms <= usize::MAX,
    ensures
        run(ops, seq, algorithms, accepts, settle(ops, seq, algorithms, from), store)
            == checkpointed(index_rest(ops, algorithms, accepts, from, store), seq),
    decreases ops.len() - from, algorithms + 2,
{
    if from >= ops.len() {
        if is_checkpoint(seq) {
            assert(run(ops, seq, algorithms, accepts, IndexerState::UpdatingCursor, store) == run(
                ops,
                seq,
                algorithms,
                accepts,
                IndexerState::Done,
                store.update_cursor(seq),
            ));
        }
    } else {
        let operation = from as usize;
        match ops[from as int] {
            OperationView::CreatePost { .. } => {
                if algorithms > 0 {
                    lemma_run_asking(ops, seq, algorithms, accepts, operation, 0, store);
                } else {
                    assert(!accepted_from(accepts, from as int, 0, algorithms));
                    lemma_run_settled(ops, seq, algorithms, accepts, from + 1, store);
                }
            },
            OperationView::DeletePost { uri } => {
                let deleting = IndexerState::DeletingPost { operation };
                assert(run(ops, seq, algorithms, accepts, deleting, store) == run(
                    ops,
                    seq,
                    algorithms,
                    accepts,
                    settle(ops, seq, algorithms, from + 1),
                    store.delete_post(uri),
                ));
                lemma_run_settled(
                    ops,
                    seq,
                    algorithms,
                    accepts,
                    from + 1,
                    store.delete_post(uri),
                );
            },
            _ => {
                lemma_run_settled(ops, seq, algorithms, accepts, from + 1, store);
            },
        }
    }
}

/// Driving the machine through a commit leaves the store in which the commit has been
/// indexed: for each created post, in commit order, the algorithms are asked in the
/// order of the registry until one accepts it, and the post of the first that does is
/// given a profile and inserted; each deleted post is removed; and the cursor is moved
/// where the sequence number is a multiple of [`CHECKPOINT_INTERVAL`].
pub proof fn lemma_run_indexes(
    ops: Seq<OperationView>,
    seq: i64,
    algorithms: nat,
    accepts: spec_fn(int, int) -> bool,
    store: StoreState,
)
    requires
        ops.len() <= usize::MAX,
        algorithms <= usize::MAX,
    ensures
        run(ops, seq, algorithms, accepts, initial(ops, seq, algorithms), store) == indexed(
            ops,
            seq,
            algorithms,
            accepts,
            store,
        ),
{
    lemma_run_settled(ops, seq, algorithms, accepts, 0, store);
}

/// The effect of indexing one operation.
pub open spec fn operation_effect(operation: OperationView, matched: bool) -> Effect {
    match operation {
        OperationView::CreatePost { author, cid, uri, .. } => if matched {
            Effect::ensure_profile(author).followed_by(Effect::insert_post(author, cid, uri))
        } else {
            Effect::none()
        },
        OperationView::DeletePost { uri } => Effect::delete_post(uri),
        _ => Effect::none(),
    }
}

/// The effect of indexing the operations from place `from` on.
pub open spec fn rest_effect(
    ops: Seq<OperationView>,
    algorithms: nat,
    accepts: spec_fn(int, int) -> bool,
    from: nat,
) -> Effect
    decreases ops.len() - from,
{
    if from >= ops.len() {
        Effect::none()
    } else {
        operation_effect(
            ops[from as int],
            accepted_from(accepts, from as int, 0, algorithms),
        ).followed_by(rest_effect(ops, algorithms, accepts, from + 1))
    }
}

/// The effect of closing a commit.
pub open spec fn checkpoint_effect(seq: i64) -> Effect {
    if is_checkpoint(seq) {
        Effect::update_cursor(seq)
    } else {
        Effect::none()
    }
}

/// The effect of indexing a commit.
pub open spec fn commit_effect(
    ops: Seq<OperationView>,
    seq: i64,
    algorithms: nat,
    accepts: spec_fn(int, int) -> bool,
) -> Effect {
    rest_effect(ops, algorithms, accepts, 0).followed_by(checkpoint_effect(seq))
}

/// Indexing one operation does to a store what its effect says.
pub proof fn lemma_operation_effect(store: StoreState, operation: OperationView, matched: bool)
    ensures
        index_operation(store, operation, matched) == operation_effect(operation, matched).on(
            store,
        ),
{
    match operation {
        OperationView::CreatePost { author, cid, uri, .. } => {
            if matched {
                lemma_effect_of_calls(store, author, cid, uri, 0);
                lemma_effect_of_calls(store.ensure_profile(author), author, cid, uri, 0);
                lemma_effect_followed_by(
                    Effect::ensure_profile(author),
                    Effect::insert_post(author, cid, uri),
                    store,
                );
            } else {
                lemma_effect_none(store);
            }
        },
        OperationView::DeletePost { uri } => {
            lemma_effect_of_calls(store, uri, uri, uri, 0);
        },
        _ => {
            lemma_effect_none(store);
        },
    }
}

/// Indexing the operations from place `from` on does to a store what their effect says.
pub proof fn lemma_rest_effect(
    ops: Seq<OperationView>,
    algorithms: nat,
    accepts: spec_fn(int, int) -> bool,
    from: nat,
    store: StoreState,
)
    ensures
        index_rest(ops, algorithms, accepts, from, store) == rest_effect(
            ops,
            algorithms,
            accepts,
            from,
        ).on(store),
    decreases ops.len() - from,
{
    if from >= ops.len() {
        lemma_effect_none(store);
    } else {
        let matched = accepted_from(accepts, from as int, 0, algorithms);
        let one = operation_effect(ops[from as int], matched);
        let after = index_operation(store, ops[from as int], matched);
        lemma_operation_effect(store, ops[from as int], matched);
        lemma_rest_effect(ops, algorithms, accepts, from + 1, after);
        lemma_effect_followed_by(one, rest_effect(ops, algorithms, accepts, from + 1), store);
    }
}

/// Indexing a commit does to a store what its effect says.
pub proof fn lemma_commit_effect(
    ops: Seq<OperationView>,
    seq: i64,
    algorithms: nat,
    accepts: spec_fn(int, int) -> bool,
    store: StoreState,
)
    ensures
        indexed(ops, seq, algorithms, accepts, store) == commit_effect(
            ops,
            seq,
            algorithms,
            accepts,
        ).on(store),
{
    let rest = rest_effect(ops, algorithms, accepts, 0);
    lemma_rest_effect(ops, algorithms, accepts, 0, store);
    if is_checkpoint(seq) {
        lemma_effect_of_calls(rest.on(store), seq!['x'], seq!['x'], seq!['x'], seq);
    } else {
        lemma_effect_none(rest.on(store));
    }
    lemma_effect_followed_by(rest, checkpoint_effect(seq), store);
}

/// The store once the first `upto` of `commits` have been indexed, one after the other.
/// `accepts` says, for each commit, operation and algorithm, what the algorithm answers.
pub open spec fn indexed_all(
    commits: Seq<CommitDetailsView>,
    algorithms: nat,
    accepts: spec_fn(int, int, int) -> bool,
    upto: nat,
    store: StoreState,
) -> StoreState
    decreases upto,
{
    if upto == 0 {
        store
    } else {
        let at = upto - 1;
        indexed(
            commits[at].operations,
            commits[at].seq,
            algorithms,
            |operation: int, algorithm: int| accepts(at, operation, algorithm),
            indexed_all(commits, algorithms, accepts, at as nat, store),
        )
    }
}

/// The effect of indexing the first `upto` of `commits`.
pub open spec fn all_effect(
    commits: Seq<CommitDetailsView>,
    algorithms: nat,
    accepts: spec_fn(int, int, int) -> bool,
    upto: nat,
) -> Effect
    decreases upto,
{
    if upto == 0 {
        Effect::none()
    } else {
        let at = upto - 1;
        all_effect(commits, algorithms, accepts, at as nat).followed_by(
            commit_effect(
                commits[at].operations,
                commits[at].seq,
                algorithms,
                |operation: int, algorithm: int| accepts(at, operation, algorithm),
            ),
        )
    }
}

/// Indexing commits one after the other does to a store what their effect says.
pub proof fn lemma_all_effect(
    commits: Seq<CommitDetailsView>,
    algorithms: nat,
    accepts: spec_fn(int, int, int) -> bool,
    upto: nat,
    store: StoreState,
)
    ensures
        indexed_all(commits, algorithms, accepts, upto, store) == all_effect(
            commits,
            algorithms,
            accepts,
            upto,
        ).on(store),
    decreases upto,
{
    if upto == 0 {
        lemma_effect_none(store);
    } else {
        let at = upto - 1;
        let before = all_effect(commits, algorithms, accepts, at as nat);
        let oracle = |operation: int, algorithm: int| accepts(at, operation, algorithm);
        lemma_all_effect(commits, algorithms, accepts, at as nat, store);
        lemma_commit_effect(
            commits[at].operations,
            commits[at].seq,
            algorithms,
            oracle,
            before.on(store),
        );
        lemma_effect_followed_by(
            before,
            commit_effect(commits[at].operations, commits[at].seq, algorithms, oracle),
            store,
        );
    }
}

/// Replaying commits changes nothing: where commits have been indexed and the same
/// commits are indexed once more, the algorithms answering as before, the store is the
/// one that the first pass left. No post is there twice, and deleting a post that is
/// gone is no failure.
pub proof fn lemma_replay_changes_nothing(
    commits: Seq<CommitDetailsView>,
    algorithms: nat,
    accepts: spec_fn(int, int, int) -> bool,
    store: StoreState,
)
    ensures
        indexed_all(
            commits,
            algorithms,
            accepts,
            commits.len(),
            indexed_all(commits, algorithms, accepts, commits.len(), store),
        ) == indexed_all(commits, algorithms, accepts, commits.len(), store),
{
    let effect = all_effect(commits, algorithms, accepts, commits.len());
    lemma_all_effect(commits, algorithms, accepts, commits.len(), store);
    lemma_all_effect(commits, algorithms, accepts, commits.len(), effect.on(store));
    lemma_effect_twice(effect, store);
}

/// Indexing a commit leaves the cursor where it was, unless the sequence number is a
/// multiple of [`CHECKPOINT_INTERVAL`] and the subscription has its state: then the
/// cursor is the sequence number.
pub proof fn lemma_cursor_after_commit(
    ops: Seq<OperationView>,
    seq: i64,
    algorithms: nat,
    accepts: spec_fn(int, int) -> bool,
    store: StoreState,
)
    ensures
        indexed(ops, seq, algorithms, accepts, store).cursor == (if is_checkpoint(seq)
            && store.cursor is Some {
            Some(seq)
        } else {
            store.cursor
        }),
{
    lemma_rest_keeps_cursor(ops, algorithms, accepts, 0, store);
}

/// Indexing operations does not touch the cursor.
pub proof fn lemma_rest_keeps_cursor(
    ops: Seq<OperationView>,
    algorithms: nat,
    accepts: spec_fn(int, int) -> bool,
    from: nat,
    store: StoreState,
)
    ensures
        index_rest(ops, algorithms, accepts, from, store).cursor == store.cursor,
    decreases ops.len() - from,
{
    if from < ops.len() {
        lemma_rest_keeps_cursor(
            ops,
            algorithms,
            accepts,
            from + 1,
            index_operation(
                store,
                ops[from as int],
                accepted_from(accepts, from as int, 0, algorithms),
            ),
        );
    }
}

/// The sequence number of the last of the first `upto` commits that moves the cursor;
/// `start` where none does.
pub open spec fn latest_checkpoint(commits: Seq<CommitDetailsView>, upto: nat, start: i64) -> i64
    decreases upto,
{
    if upto == 0 {
        start
    } else if is_checkpoint(commits[upto - 1].seq) {
        commits[upto - 1].seq
    } else {
        latest_checkpoint(commits, (upto - 1) as nat, start)
    }
}

/// The cursor after the first `upto` commits is the sequence number of the last of them
/// that is a multiple of [`CHECKPOINT_INTERVAL`], and the cursor before them where none
/// is.
pub proof fn lemma_cursor_is_latest_checkpoint(
    commits: Seq<CommitDetailsView>,
    algorithms: nat,
    accepts: spec_fn(int, int, int) -> bool,
    upto: nat,
    store: StoreState,
)
    requires
        store.cursor is Some,
    ensures
        indexed_all(commits, algorithms, accepts, upto, store).cursor == Some(
            latest_checkpoint(commits, upto, store.cursor->0),
        ),
    decreases upto,
{
    if upto > 0 {
        let at = upto - 1;
        lemma_cursor_is_latest_checkpoint(commits, algorithms, accepts, at as nat, store);
        lemma_cursor_after_commit(
            commits[at].operations,
            commits[at].seq,
            algorithms,
            |operation: int, algorithm: int| accepts(at, operation, algorithm),
            indexed_all(commits, algorithms, accepts, at as nat, store),
        );
    }
}

/// Whether the sequence numbers of `commits` never decrease and none lies before `start`.
pub open spec fn in_stream_order(commits: Seq<CommitDetailsView>, start: i64) -> bool {
    &&& forall|i: int| 0 <= i < commits.len() ==> start <= (#[trigger] commits[i]).seq
    &&& forall|i: int, j: int|
        0 <= i <= j < commits.len() ==> (#[trigger] commits[i]).seq <= (#[trigger] commits[j]).seq
}

/// The latest checkpoint among commits in stream order lies at or after the starting
/// cursor, and at or after the latest checkpoint among fewer of them.
pub proof fn lemma_latest_checkpoint_grows(
    commits: Seq<CommitDetailsView>,
    fewer: nat,
    upto: nat,
    start: i64,
)
    requires
        fewer <= upto <= commits.len(),
        in_stream_order(commits, start),
    ensures
        start <= latest_checkpoint(commits, fewer, start) <= latest_checkpoint(
            commits,
            upto,
            start,
        ),
        upto > 0 ==> latest_checkpoint(commits, upto, start) <= commits[upto - 1].seq,
    decreases upto,
{
    if upto > 0 {
        if fewer < upto {
            lemma_latest_checkpoint_grows(commits, fewer, (upto - 1) as nat, start);
            if upto > 1 {
                assert(commits[upto - 2].seq <= commits[upto - 1].seq);
            } else {
                assert(start <= commits[0].seq);
            }
        } else if upto > 1 {
            lemma_latest_checkpoint_grows(commits, (upto - 1) as nat, (upto - 1) as nat, start);
            assert(commits[upto - 2].seq <= commits[upto - 1].seq);
        } else {
            assert(start <= commits[0].seq);
        }
    }
}

/// The cursor never moves back: over commits in stream order, none before the cursor
/// that the subscription starts with, the cursor after any number of them lies at or
/// after the cursor after fewer of them, and at or after the starting one. That holds
/// of the commits of a reconnect too, which follow the persisted cursor.
pub proof fn lemma_cursor_never_decreases(
    commits: Seq<CommitDetailsView>,
    algorithms: nat,
    accepts: spec_fn(int, int, int) -> bool,
    fewer: nat,
    upto: nat,
    store: StoreState,
)
    requires
        store.cursor is Some,
        fewer <= upto <= commits.len(),
        in_stream_order(commits, store.cursor->0),
    ensures
        indexed_all(commits, algorithms, accepts, fewer, store).cursor is Some,
        indexed_all(commits, algorithms, accepts, upto, store).cursor is Some,
        store.cursor->0 <= indexed_all(commits, algorithms, accepts, fewer, store).cursor->0
            <= indexed_all(commits, algorithms, accepts, upto, store).cursor->0,
{
    lemma_cursor_is_latest_checkpoint(commits, algorithms, accepts, fewer, store);
    lemma_cursor_is_latest_checkpoint(commits, algorithms, accepts, upto, store);
    lemma_latest_checkpoint_grows(commits, fewer, upto, store.cursor->0);
}

/// Carries out `action` on a store in memory. Asking an algorithm is not for the store
/// to do, and changes nothing.
pub fn carry_out(store: &mut MemoryStore, action: &IndexAction)
    requires
        old(store).well_formed(),
    ensures
        final(store).well_formed(),
        final(store)@ == applied(old(store)@, action@),
{
    match action {
        IndexAction::EnsureProfile { author } => {
            store.ensure_profile(author.as_str());
        },
        IndexAction::InsertPost { author, cid, uri } => {
            store.insert_post(author.as_str(), cid.as_str(), uri.as_str());
        },
        IndexAction::DeletePost { uri } => {
            store.delete_post(uri.as_str());
        },
        IndexAction::UpdateCursor { seq } => {
            store.update_cursor(*seq);
        },
        _ => {},
    }
}

/// What a table of verdicts says: the algorithm at place `algorithm` accepts the post of
/// the operation at place `operation` where the table holds `true` there; what the
/// table does not hold counts as a refusal.
pub open spec fn table_accepts(verdicts: Seq<Vec<bool>>) -> spec_fn(int, int) -> bool {
    |operation: int, algorithm: int|
        0 <= operation < verdicts.len() && 0 <= algorithm < verdicts[operation]@.len()
            && verdicts[operation]@[algorithm]
}

/// The verdict that a table of verdicts holds for an algorithm and an operation.
fn verdict_of(verdicts: &Vec<Vec<bool>>, operation: usize, algorithm: usize) -> (r: bool)
    ensures
        r == table_accepts(verdicts@)(operation as int, algorithm as int),
{
    if operation < verdicts.len() {
        let row = &verdicts[operation];
        if algorithm < row.len() {
            row[algorithm]
        } else {
            false
        }
    } else {
        false
    }
}

/// Indexes `commit` into a store in memory, with `algorithms` algorithms that answer as
/// the table `verdicts` says: drives the machine from its first state to its last,
/// carrying out each action on the store.
pub fn index_in_memory(
    store: &mut MemoryStore,
    commit: &CommitDetails,
    algorithms: usize,
    verdicts: &Vec<Vec<bool>>,
)
    requires
        old(store).well_formed(),
    ensures
        final(store).well_formed(),
        final(store)@ == indexed(
            commit@.operations,
            commit.seq,
            algorithms as nat,
            table_accepts(verdicts@),
            old(store)@,
        ),
{
    let ghost ops = commit@.operations;
    let ghost accepts = table_accepts(verdicts@);
    let ghost started = store@;
    let count = commit.operations.len();
    assert(ops.len() == count);
    let mut state = begin(commit, algorithms);
    proof {
        lemma_run_indexes(ops, commit.seq, algorithms as nat, accepts, started);
    }
    loop
        invariant
            store.well_formed(),
            started == old(store)@,
            ops == commit@.operations,
            ops.len() <= usize::MAX,
            accepts == table_accepts(verdicts@),
            run(ops, commit.seq, algorithms as nat, accepts, state, store@) == indexed(
                ops,
                commit.seq,
                algorithms as nat,
                accepts,
                started,
            ),
        decreases operations_left(ops, state), stage_left(algorithms as nat, state),
    {
        let action = action_for(commit, state);
        let reply = match &action {
            IndexAction::Finished => {
                assert(run(ops, commit.seq, algorithms as nat, accepts, state, store@) == store@);
                return ;
            },
            IndexAction::AskAlgorithm { algorithm, operation } => Reply::Verdict(
                verdict_of(verdicts, *operation, *algorithm),
            ),
            _ => Reply::Completed,
        };
        assert(reply == reply_to(accepts, state));
        carry_out(store, &action);
        proof {
            match state {
                IndexerState::Asking { operation, .. }
                | IndexerState::InsertingPost { operation }
                | IndexerState::DeletingPost { operation } => {
                    lemma_settle_bound(ops, commit.seq, algorithms as nat, (operation + 1) as nat);
                },
                _ => {},
            }
        }
        state = advance(commit, algorithms, state, reply);
    }
}

} // verus!
