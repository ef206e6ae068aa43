//! The store as a whole: requests served against files.
//!
//! A [`Transfer`](crate::transfer::Transfer) decides, and something else
//! performs.  To say what the two achieve together, this module describes a
//! store on which every action does what its name says: a file is there or
//! not, creating exclusively fails exactly when it is there, and nothing
//! else ever fails.  [`serve`] drives a request against such files to its
//! end.  What follows from that is stated and proved here: what is stored
//! can be retrieved, what is deleted cannot, a generated name has its shape
//! and was free, and a request gives up after exactly the permitted number
//! of attempts.  All of it is specification; nothing here runs.

use vstd::prelude::*;

use crate::error::TransferError;
use crate::naming::{candidate_name, is_generated_name, lemma_candidate_is_generated, SUFFIX_RANGE};
use crate::operation::OperationView;
use crate::response::ResponseView;
use crate::transfer::{
    action_of, advance_spec, begin_spec, response_of, ActionView, EventView, OutcomeView,
    ProgressView, TransferView, MAX_ATTEMPTS,
};

verus! {

/// The files of a store: the names that exist, and what each holds.
pub type Files = Map<Seq<char>, Seq<u8>>;

/// What an action does to the files, and the event that comes of it.
pub open spec fn react(files: Files, action: ActionView) -> (Files, EventView) {
    match action {
        ActionView::Remove { name } => if files.dom().contains(name) {
            (files.remove(name), EventView::Done)
        } else {
            (files, EventView::Failed)
        },
        ActionView::Read { name } => if files.dom().contains(name) {
            (files, EventView::Bytes(files[name]))
        } else {
            (files, EventView::Failed)
        },
        ActionView::Create { name } => (files.insert(name, Seq::empty()), EventView::Done),
        ActionView::CreateNew { name } => if files.dom().contains(name) {
            (files, EventView::Failed)
        } else {
            (files.insert(name, Seq::empty()), EventView::Done)
        },
        ActionView::Write { name, content } => (files.insert(name, content), EventView::Done),
    }
}

/// A bound on the number of actions that a request in flight still asks for.
pub open spec fn budget(progress: ProgressView) -> nat {
    match progress {
        ProgressView::Finished(_) => 0,
        ProgressView::Pending(TransferView::Claiming { attempts, .. }) => if attempts
            < MAX_ATTEMPTS {
            (2 + MAX_ATTEMPTS - attempts) as nat
        } else {
            2
        },
        ProgressView::Pending(TransferView::Creating { .. }) => 2,
        ProgressView::Pending(_) => 1,
    }
}

/// A request that was served: the files as it left them, how it ended, and
/// the actions that were performed for it, first to last.
pub struct Served {
    pub files: Files,
    pub outcome: OutcomeView,
    pub performed: Seq<ActionView>,
}

/// Drives a request to its end.  Step number `step` generates a name, where
/// it needs one, from the number `draws(step)`.
pub open spec fn run(
    files: Files,
    progress: ProgressView,
    draws: spec_fn(nat) -> nat,
    step: nat,
) -> Served
    decreases budget(progress),
{
    match progress {
        ProgressView::Finished(outcome) => Served { files, outcome, performed: Seq::empty() },
        ProgressView::Pending(transfer) => {
            let (files_after, event) = react(files, action_of(transfer));
            let rest = run(files_after, advance_spec(transfer, event, draws(step)), draws, step + 1);
            Served {
                files: rest.files,
                outcome: rest.outcome,
                performed: seq![action_of(transfer)] + rest.performed,
            }
        },
    }
}

/// Serves an operation from its beginning to its end.
pub open spec fn serve(files: Files, operation: OperationView, draws: spec_fn(nat) -> nat) -> Served {
    run(files, begin_spec(operation, draws(0)), draws, 1)
}

/// The name that attempt number `k`, counted from 0, tries.
pub open spec fn tried(prefix: Seq<char>, draws: spec_fn(nat) -> nat, k: nat) -> Seq<char> {
    candidate_name(prefix, draws(k))
}

/// The first attempt from number `from` on, among those permitted, that
/// tries a name which does not exist.
pub open spec fn first_free(
    files: Files,
    prefix: Seq<char>,
    draws: spec_fn(nat) -> nat,
    from: nat,
) -> Option<nat>
    decreases MAX_ATTEMPTS - from,
{
    if from >= MAX_ATTEMPTS {
        None
    } else if !files.dom().contains(tried(prefix, draws, from)) {
        Some(from)
    } else {
        first_free(files, prefix, draws, from + 1)
    }
}

/// The exclusive creations that attempts `from` up to, not including, `to`
/// ask for.
pub open spec fn claims(
    prefix: Seq<char>,
    draws: spec_fn(nat) -> nat,
    from: nat,
    to: nat,
) -> Seq<ActionView> {
    Seq::new(
        (to - from) as nat,
        |i: int| ActionView::CreateNew { name: tried(prefix, draws, (from + i) as nat) },
    )
}

/// What the first free attempt is: a permitted attempt whose name does not
/// exist, after attempts whose names all exist.
pub proof fn lemma_first_free(
    files: Files,
    prefix: Seq<char>,
    draws: spec_fn(nat) -> nat,
    from: nat,
)
    ensures
        match first_free(files, prefix, draws, from) {
            Some(k) => {
                &&& from <= k < MAX_ATTEMPTS
                &&& !files.dom().contains(tried(prefix, draws, k))
                &&& forall|j: nat| from <= j < k ==> files.dom().contains(tried(prefix, draws, j))
            },
            None => forall|j: nat|
                from <= j < MAX_ATTEMPTS ==> files.dom().contains(tried(prefix, draws, j)),
        },
    decreases MAX_ATTEMPTS - from,
{
    if from < MAX_ATTEMPTS && files.dom().contains(tried(prefix, draws, from)) {
        lemma_first_free(files, prefix, draws, from + 1);
    }
}

/// How claiming a name ends, from any attempt on: at the first free name
/// with the content stored under it, or given up after the last permitted
/// attempt with the files untouched.
proof fn lemma_claiming(
    files: Files,
    prefix: Seq<char>,
    content: Seq<u8>,
    draws: spec_fn(nat) -> nat,
    made: nat,
)
    requires
        made < MAX_ATTEMPTS,
    ensures
        ({
            let claiming = ProgressView::Pending(
                TransferView::Claiming {
                    prefix,
                    content,
                    attempts: made + 1,
                    candidate: tried(prefix, draws, made),
                },
            );
            let served = run(files, claiming, draws, made + 1);
            match first_free(files, prefix, draws, made) {
                Some(k) => {
                    let name = tried(prefix, draws, k);
                    &&& served.outcome == OutcomeView::StoredAs(name)
                    &&& served.files == files.insert(name, content)
                    &&& served.performed == claims(prefix, draws, made, k + 1).push(
                        ActionView::Write { name, content },
                    )
                },
                None => {
                    &&& served.outcome == OutcomeView::Failed(TransferError::ExhaustedRetries)
                    &&& served.files == files
                    &&& served.performed == claims(prefix, draws, made, MAX_ATTEMPTS as nat)
                },
            }
        }),
    decreases MAX_ATTEMPTS - made,
{
    let name = tried(prefix, draws, made);
    let transfer = TransferView::Claiming { prefix, content, attempts: made + 1, candidate: name };
    let served = run(files, ProgressView::Pending(transfer), draws, made + 1);
    let create = ActionView::CreateNew { name };
    assert(action_of(transfer) == create);
    if !files.dom().contains(name) {
        let created = files.insert(name, Seq::empty());
        let writing = TransferView::Writing { name, content, generated: true };
        assert(react(files, create) == (created, EventView::Done));
        assert(advance_spec(transfer, EventView::Done, draws(made + 1)) == ProgressView::Pending(
            writing,
        ));
        let write = ActionView::Write { name, content };
        let written = run(created, ProgressView::Pending(writing), draws, made + 2);
        assert(react(created, write) == (created.insert(name, content), EventView::Done));
        let ended = run(
            created.insert(name, content),
            advance_spec(writing, EventView::Done, draws(made + 2)),
            draws,
            made + 3,
        );
        assert(ended.performed == Seq::<ActionView>::empty());
        assert(written.performed =~= seq![write]);
        assert(served.performed =~= seq![create] + written.performed);
        assert(created.insert(name, content) =~= files.insert(name, content));
        assert(served.performed =~= claims(prefix, draws, made, made + 1).push(write));
    } else {
        assert(react(files, create) == (files, EventView::Failed));
        if made + 1 < MAX_ATTEMPTS {
            lemma_claiming(files, prefix, content, draws, made + 1);
            let next = ProgressView::Pending(
                TransferView::Claiming {
                    prefix,
                    content,
                    attempts: made + 2,
                    candidate: tried(prefix, draws, made + 1),
                },
            );
            assert(advance_spec(transfer, EventView::Failed, draws(made + 1)) == next);
            let rest = run(files, next, draws, made + 2);
            assert(served.performed =~= seq![create] + rest.performed);
            match first_free(files, prefix, draws, made + 1) {
                Some(k) => {
                    lemma_first_free(files, prefix, draws, made + 1);
                    let free = tried(prefix, draws, k);
                    assert(served.performed =~= claims(prefix, draws, made, k + 1).push(
                        ActionView::Write { name: free, content },
                    ));
                },
                None => {
                    assert(served.performed =~= claims(prefix, draws, made, MAX_ATTEMPTS as nat));
                },
            }
        } else {
            let ended = ProgressView::Finished(
                OutcomeView::Failed(TransferError::ExhaustedRetries),
            );
            assert(advance_spec(transfer, EventView::Failed, draws(made + 1)) == ended);
            assert(run(files, ended, draws, made + 2).performed == Seq::<ActionView>::empty());
            assert(served.performed =~= claims(prefix, draws, made, MAX_ATTEMPTS as nat));
        }
    }
}

/// Storing under a given name and then retrieving that name gives back
/// exactly what was stored, whatever the files held before.
pub proof fn law_store_then_retrieve(
    files: Files,
    name: Seq<char>,
    content: Seq<u8>,
    draws: spec_fn(nat) -> nat,
    later_draws: spec_fn(nat) -> nat,
)
    ensures
        ({
            let stored = serve(files, OperationView::StoreAt { name, content }, draws);
            let retrieved = serve(stored.files, OperationView::Retrieve { name }, later_draws);
            &&& stored.outcome == OutcomeView::Stored
            &&& response_of(stored.outcome) == ResponseView::success()
            &&& stored.files == files.insert(name, content)
            &&& stored.performed == seq![
                ActionView::Create { name },
                ActionView::Write { name, content },
            ]
            &&& retrieved.outcome == OutcomeView::Retrieved(content)
            &&& response_of(retrieved.outcome) == ResponseView::text(content)
            &&& retrieved.files == stored.files
        }),
{
    let creating = TransferView::Creating { name, content };
    let writing = TransferView::Writing { name, content, generated: false };
    let created = files.insert(name, Seq::empty());
    let stored = serve(files, OperationView::StoreAt { name, content }, draws);
    assert(react(files, action_of(creating)) == (created, EventView::Done));
    let written = run(created, ProgressView::Pending(writing), draws, 2);
    assert(react(created, action_of(writing)) == (created.insert(name, content), EventView::Done));
    let ended = run(
        created.insert(name, content),
        advance_spec(writing, EventView::Done, draws(2)),
        draws,
        3,
    );
    assert(ended.performed == Seq::<ActionView>::empty());
    assert(written.performed =~= seq![ActionView::Write { name, content }]);
    assert(stored.performed =~= seq![
        ActionView::Create { name },
        ActionView::Write { name, content },
    ]);
    assert(created.insert(name, content) =~= files.insert(name, content));
    lemma_retrieve(stored.files, name, later_draws);
}

/// Retrieving gives what the file holds and leaves the files as they were,
/// or fails as not found where there is no such file.
pub proof fn lemma_retrieve(files: Files, name: Seq<char>, draws: spec_fn(nat) -> nat)
    ensures
        ({
            let retrieved = serve(files, OperationView::Retrieve { name }, draws);
            &&& retrieved.files == files
            &&& retrieved.performed == seq![ActionView::Read { name }]
            &&& retrieved.outcome == if files.dom().contains(name) {
                OutcomeView::Retrieved(files[name])
            } else {
                OutcomeView::Failed(TransferError::NotFound)
            }
        }),
{
    let retrieving = TransferView::Retrieving { name };
    let retrieved = serve(files, OperationView::Retrieve { name }, draws);
    let (after, event) = react(files, action_of(retrieving));
    let ended = run(after, advance_spec(retrieving, event, draws(1)), draws, 2);
    assert(ended.performed == Seq::<ActionView>::empty());
    assert(retrieved.performed =~= seq![ActionView::Read { name }]);
}

/// Deleting a name and then retrieving it is answered as not found, whether
/// or not the file existed before.
pub proof fn law_delete_then_retrieve(
    files: Files,
    name: Seq<char>,
    draws: spec_fn(nat) -> nat,
    later_draws: spec_fn(nat) -> nat,
)
    ensures
        ({
            let deleted = serve(files, OperationView::Delete { name }, draws);
            let retrieved = serve(deleted.files, OperationView::Retrieve { name }, later_draws);
            &&& deleted.outcome == if files.dom().contains(name) {
                OutcomeView::Deleted
            } else {
                OutcomeView::Failed(TransferError::NotFound)
            }
            &&& deleted.files == files.remove(name)
            &&& deleted.performed == seq![ActionView::Remove { name }]
            &&& retrieved.outcome == OutcomeView::Failed(TransferError::NotFound)
            &&& response_of(retrieved.outcome) == ResponseView::not_found()
        }),
{
    let deleting = TransferView::Deleting { name };
    let deleted = serve(files, OperationView::Delete { name }, draws);
    let (after, event) = react(files, action_of(deleting));
    let ended = run(after, advance_spec(deleting, event, draws(1)), draws, 2);
    assert(ended.performed == Seq::<ActionView>::empty());
    assert(deleted.performed =~= seq![ActionView::Remove { name }]);
    assert(after =~= files.remove(name));
    lemma_retrieve(deleted.files, name, later_draws);
}

/// Storing under a generated name ends at the first attempt whose name is
/// free.  The name it answers with is the prefix, three digits and `.txt`;
/// no file of that name existed; no other file was touched; and retrieving
/// that name gives back exactly what was stored.  Where no permitted
/// attempt finds a free name, the request fails and no file was touched.
pub proof fn law_store_generated(
    files: Files,
    prefix: Seq<char>,
    content: Seq<u8>,
    draws: spec_fn(nat) -> nat,
    later_draws: spec_fn(nat) -> nat,
)
    requires
        forall|k: nat| #[trigger] draws(k) < SUFFIX_RANGE,
    ensures
        ({
            let stored = serve(files, OperationView::StoreGenerated { prefix, content }, draws);
            match first_free(files, prefix, draws, 0) {
                Some(k) => {
                    let name = tried(prefix, draws, k);
                    let retrieved = serve(
                        stored.files,
                        OperationView::Retrieve { name },
                        later_draws,
                    );
                    &&& stored.outcome == OutcomeView::StoredAs(name)
                    &&& response_of(stored.outcome) == ResponseView::text(
                        vstd::utf8::encode_utf8(name),
                    )
                    &&& is_generated_name(prefix, name)
                    &&& !files.dom().contains(name)
                    &&& stored.files == files.insert(name, content)
                    &&& stored.performed == claims(prefix, draws, 0, k + 1).push(
                        ActionView::Write { name, content },
                    )
                    &&& retrieved.outcome == OutcomeView::Retrieved(content)
                },
                None => {
                    &&& stored.outcome == OutcomeView::Failed(TransferError::ExhaustedRetries)
                    &&& response_of(stored.outcome) == ResponseView::not_found()
                    &&& stored.files == files
                },
            }
        }),
{
    lemma_claiming(files, prefix, content, draws, 0);
    lemma_first_free(files, prefix, draws, 0);
    match first_free(files, prefix, draws, 0) {
        Some(k) => {
            let name = tried(prefix, draws, k);
            lemma_candidate_is_generated(prefix, draws(k));
            lemma_retrieve(files.insert(name, content), name, later_draws);
        },
        None => {},
    }
}

/// Where every name that is tried already exists, a request to store under
/// a generated name tries exactly as many names as are permitted, no fewer
/// and no more, and then fails for want of a free name, with no file
/// touched.
pub proof fn law_exhausted_after_all_attempts(
    files: Files,
    prefix: Seq<char>,
    content: Seq<u8>,
    draws: spec_fn(nat) -> nat,
)
    requires
        forall|k: nat|
            k < MAX_ATTEMPTS ==> files.dom().contains(#[trigger] tried(prefix, draws, k)),
    ensures
        ({
            let stored = serve(files, OperationView::StoreGenerated { prefix, content }, draws);
            &&& stored.outcome == OutcomeView::Failed(TransferError::ExhaustedRetries)
            &&& stored.files == files
            &&& stored.performed.len() == MAX_ATTEMPTS
            &&& forall|i: int|
                0 <= i < MAX_ATTEMPTS ==> #[trigger] stored.performed[i] == (ActionView::CreateNew {
                    name: tried(prefix, draws, i as nat),
                })
        }),
{
    lemma_claiming(files, prefix, content, draws, 0);
    lemma_first_free(files, prefix, draws, 0);
}

} // verus!
