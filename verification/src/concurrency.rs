//! Requests that store under generated names at the same time.
//!
//! Requests share nothing but the files.  Each action is performed at once
//! and whole, and between two actions of one request any number of actions of
//! other requests may be performed.  What keeps two requests from answering
//! with the same name is that a name is claimed by creating its file
//! exclusively: of all the requests that try a name, one at most succeeds,
//! and none succeeds on a name that exists.  This module states that of
//! every order in which the actions of any number of such requests can be
//! performed.  All of it is specification; nothing here runs.

use vstd::prelude::*;

use crate::error::TransferError;
use crate::model::{react, Files};
use crate::operation::OperationView;
use crate::transfer::{
    action_of, advance_spec, begin_spec, OutcomeView, ProgressView, TransferView,
};

verus! {

/// Requests side by side, and the files that they share.
pub struct Fleet {
    pub files: Files,
    pub requests: Seq<ProgressView>,
}

/// The requests as they stand before anything was done for any of them.
/// Request `i` generates its first name from the number `draws(i)`.
pub open spec fn launch(
    files: Files,
    operations: Seq<OperationView>,
    draws: spec_fn(int) -> nat,
) -> Fleet {
    Fleet {
        files,
        requests: Seq::new(operations.len(), |i: int| begin_spec(operations[i], draws(i))),
    }
}

/// One step: the action that request `who` waits for is performed, and the
/// request goes on from its event, generating its next name, where it needs
/// one, from the number `draw`.  There is no step for a request that has
/// ended, nor for one that does not exist.
pub open spec fn step(fleet: Fleet, who: int, draw: nat) -> Fleet {
    if 0 <= who < fleet.requests.len() && fleet.requests[who] is Pending {
        let transfer = fleet.requests[who]->Pending_0;
        let (files, event) = react(fleet.files, action_of(transfer));
        Fleet { files, requests: fleet.requests.update(who, advance_spec(transfer, event, draw)) }
    } else {
        fleet
    }
}

/// The steps of a schedule one after the other.  Each entry of the schedule
/// says which request moves and the number it draws.
pub open spec fn interleave(fleet: Fleet, schedule: Seq<(int, nat)>) -> Fleet
    decreases schedule.len(),
{
    if schedule.len() == 0 {
        fleet
    } else {
        let before = interleave(fleet, schedule.drop_last());
        step(before, schedule.last().0, schedule.last().1)
    }
}

/// The generated name that a request has answered with, if it has.
pub open spec fn answered(progress: ProgressView) -> Option<Seq<char>> {
    match progress {
        ProgressView::Finished(OutcomeView::StoredAs(name)) => Some(name),
        _ => None,
    }
}

/// The content that an operation stores.
pub open spec fn content_of(operation: OperationView) -> Seq<u8> {
    match operation {
        OperationView::StoreAt { content, .. } => content,
        OperationView::StoreGenerated { content, .. } => content,
        _ => Seq::empty(),
    }
}

/// The name that a request has claimed: the file that it created and that is
/// now its own to write.
spec fn claimed(progress: ProgressView) -> Option<Seq<char>> {
    match progress {
        ProgressView::Pending(TransferView::Writing { name, .. }) => Some(name),
        ProgressView::Finished(OutcomeView::StoredAs(name)) => Some(name),
        _ => None,
    }
}

/// What holds of one request to store under a generated name wherever it
/// stands, given the files as they were at the start and as they are now.
spec fn sound(
    initial: Files,
    files: Files,
    operation: OperationView,
    progress: ProgressView,
) -> bool {
    match progress {
        ProgressView::Pending(TransferView::Claiming { content, .. }) => content == content_of(
            operation,
        ),
        ProgressView::Pending(TransferView::Writing { name, content, generated }) => {
            &&& generated
            &&& content == content_of(operation)
            &&& files.dom().contains(name)
            &&& !initial.dom().contains(name)
        },
        ProgressView::Finished(OutcomeView::StoredAs(name)) => {
            &&& files.dom().contains(name)
            &&& !initial.dom().contains(name)
            &&& files[name] == content_of(operation)
        },
        ProgressView::Finished(OutcomeView::Failed(error)) => error
            == TransferError::ExhaustedRetries,
        _ => false,
    }
}

/// What holds of the requests together at every moment.
spec fn coherent(initial: Files, operations: Seq<OperationView>, fleet: Fleet) -> bool {
    &&& fleet.requests.len() == operations.len()
    &&& forall|name: Seq<char>| #[trigger]
        initial.dom().contains(name) ==> fleet.files.dom().contains(name) && fleet.files[name]
            == initial[name]
    &&& forall|i: int|
        0 <= i < operations.len() ==> sound(
            initial,
            fleet.files,
            operations[i],
            #[trigger] fleet.requests[i],
        )
    &&& forall|i: int, j: int|
        0 <= i < operations.len() && 0 <= j < operations.len() && i != j && claimed(
            #[trigger] fleet.requests[i],
        ) is Some ==> claimed(#[trigger] fleet.requests[j]) != claimed(fleet.requests[i])
}

/// A step keeps the requests coherent.
proof fn lemma_step_coherent(
    initial: Files,
    operations: Seq<OperationView>,
    fleet: Fleet,
    who: int,
    draw: nat,
)
    requires
        coherent(initial, operations, fleet),
    ensures
        coherent(initial, operations, step(fleet, who, draw)),
{
    let after = step(fleet, who, draw);
    if 0 <= who < fleet.requests.len() && fleet.requests[who] is Pending {
        let transfer = fleet.requests[who]->Pending_0;
        assert(sound(initial, fleet.files, operations[who], fleet.requests[who]));
        assert forall|i: int| 0 <= i < operations.len() implies sound(
            initial,
            after.files,
            operations[i],
            #[trigger] after.requests[i],
        ) by {
            assert(sound(initial, fleet.files, operations[i], fleet.requests[i]));
            if i != who {
                assert(claimed(fleet.requests[who]) is Some ==> claimed(fleet.requests[i])
                    != claimed(fleet.requests[who]));
            }
        }
        assert forall|i: int, j: int|
            0 <= i < operations.len() && 0 <= j < operations.len() && i != j && claimed(
                #[trigger] after.requests[i],
            ) is Some implies claimed(#[trigger] after.requests[j]) != claimed(
            after.requests[i],
        ) by {
            assert(sound(initial, fleet.files, operations[i], fleet.requests[i]));
            assert(sound(initial, fleet.files, operations[j], fleet.requests[j]));
            if i != who && j != who {
                assert(claimed(fleet.requests[i]) is Some);
                assert(claimed(fleet.requests[j]) != claimed(fleet.requests[i]));
            } else if i == who {
                if claimed(fleet.requests[j]) is Some && claimed(fleet.requests[who]) is Some {
                    assert(claimed(fleet.requests[who]) != claimed(fleet.requests[j]));
                }
            } else {
                if claimed(fleet.requests[who]) is Some {
                    assert(claimed(fleet.requests[i]) != claimed(fleet.requests[who]));
                }
            }
        }
    }
}

/// The requests are coherent before anything was done for any of them.
proof fn lemma_launch_coherent(
    files: Files,
    operations: Seq<OperationView>,
    draws: spec_fn(int) -> nat,
)
    requires
        forall|i: int| 0 <= i < operations.len() ==> (#[trigger] operations[i]) is StoreGenerated,
    ensures
        coherent(files, operations, launch(files, operations, draws)),
{
    let fleet = launch(files, operations, draws);
    assert forall|i: int| 0 <= i < operations.len() implies sound(
        files,
        fleet.files,
        operations[i],
        #[trigger] fleet.requests[i],
    ) by {
        assert(operations[i] is StoreGenerated);
    }
    assert forall|i: int| 0 <= i < operations.len() implies claimed(
        #[trigger] fleet.requests[i],
    ) is None by {
        assert(operations[i] is StoreGenerated);
    }
}

/// The requests are coherent after every schedule.
proof fn lemma_interleave_coherent(
    files: Files,
    operations: Seq<OperationView>,
    draws: spec_fn(int) -> nat,
    schedule: Seq<(int, nat)>,
)
    requires
        forall|i: int| 0 <= i < operations.len() ==> (#[trigger] operations[i]) is StoreGenerated,
    ensures
        coherent(files, operations, interleave(launch(files, operations, draws), schedule)),
    decreases schedule.len(),
{
    if schedule.len() == 0 {
        lemma_launch_coherent(files, operations, draws);
    } else {
        lemma_interleave_coherent(files, operations, draws, schedule.drop_last());
        lemma_step_coherent(
            files,
            operations,
            interleave(launch(files, operations, draws), schedule.drop_last()),
            schedule.last().0,
            schedule.last().1,
        );
    }
}

/// However many requests store under generated names at the same time, and
/// in whatever order their actions are performed, no two of them answer with
/// the same name; a file that existed before holds what it held; and the
/// file of each name that was answered with holds what that request was to
/// store, and did not exist before.
pub proof fn law_concurrent_stores_keep_apart(
    files: Files,
    operations: Seq<OperationView>,
    draws: spec_fn(int) -> nat,
    schedule: Seq<(int, nat)>,
)
    requires
        forall|i: int| 0 <= i < operations.len() ==> (#[trigger] operations[i]) is StoreGenerated,
    ensures
        ({
            let fleet = interleave(launch(files, operations, draws), schedule);
            &&& fleet.requests.len() == operations.len()
            &&& forall|i: int, j: int|
                0 <= i < operations.len() && 0 <= j < operations.len() && i != j && answered(
                    #[trigger] fleet.requests[i],
                ) is Some ==> answered(#[trigger] fleet.requests[j]) != answered(
                    fleet.requests[i],
                )
            &&& forall|name: Seq<char>| #[trigger]
                files.dom().contains(name) ==> fleet.files.dom().contains(name)
                    && fleet.files[name] == files[name]
            &&& forall|i: int|
                0 <= i < operations.len() ==> (answered(#[trigger] fleet.requests[i]) matches Some(
                    name,
                ) ==> {
                    &&& !files.dom().contains(name)
                    &&& fleet.files.dom().contains(name)
                    &&& fleet.files[name] == content_of(operations[i])
                })
        }),
{
    lemma_interleave_coherent(files, operations, draws, schedule);
    let fleet = interleave(launch(files, operations, draws), schedule);
    assert forall|i: int, j: int|
        0 <= i < operations.len() && 0 <= j < operations.len() && i != j && answered(
            #[trigger] fleet.requests[i],
        ) is Some implies answered(#[trigger] fleet.requests[j]) != answered(
        fleet.requests[i],
    ) by {
        assert(claimed(fleet.requests[i]) is Some);
        assert(claimed(fleet.requests[j]) != claimed(fleet.requests[i]));
    }
    assert forall|i: int| 0 <= i < operations.len() implies (answered(
        #[trigger] fleet.requests[i],
    ) matches Some(name) ==> {
        &&& !files.dom().contains(name)
        &&& fleet.files.dom().contains(name)
        &&& fleet.files[name] == content_of(operations[i])
    }) by {
        assert(sound(files, fleet.files, operations[i], fleet.requests[i]));
    }
}

} // verus!
