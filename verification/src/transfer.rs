//! One request in flight.
//!
//! A [`Transfer`] is what is left to do for a request.  It never touches a
//! file.  It names the one [`Action`] that has to be performed next, and a
//! driver performs it and reports the [`Event`] that came of it; from the two
//! the transfer goes on to its next stage or ends in an [`Outcome`].  Every
//! operation but one ends after one or two actions.  Storing under a
//! generated name claims a name by creating the file exclusively, and tries
//! another name when that fails, up to [`MAX_ATTEMPTS`] times in all.

use vstd::prelude::*;
use vstd::string::StrSliceExecFns;
use vstd::utf8::encode_utf8;

use crate::error::TransferError;
use crate::naming::{candidate, candidate_name, generate, SUFFIX_RANGE};
use crate::operation::{Operation, OperationView};
use crate::response::{Response, ResponseView};

verus! {

/// How many names are tried for one request before it is given up.
pub const MAX_ATTEMPTS: u32 = 100;

/// What the driver is asked to do to a file.
#[derive(Debug, PartialEq, Eq)]
pub enum Action<'a> {
    /// Remove the file.
    Remove { name: &'a str },
    /// Read the whole file.
    Read { name: &'a str },
    /// Create the file, or empty it if it exists, and keep it open.
    Create { name: &'a str },
    /// Create the file and keep it open, unless a file of that name exists:
    /// then fail, and leave that file as it is.
    CreateNew { name: &'a str },
    /// Write all of `content` to the file that was just created, and close it.
    Write { name: &'a str, content: &'a [u8] },
}

/// An action as specifications see it.
pub enum ActionView {
    Remove { name: Seq<char> },
    Read { name: Seq<char> },
    Create { name: Seq<char> },
    CreateNew { name: Seq<char> },
    Write { name: Seq<char>, content: Seq<u8> },
}

impl<'a> View for Action<'a> {
    type V = ActionView;

    open spec fn view(&self) -> ActionView {
        match self {
            Action::Remove { name } => ActionView::Remove { name: name@ },
            Action::Read { name } => ActionView::Read { name: name@ },
            Action::Create { name } => ActionView::Create { name: name@ },
            Action::CreateNew { name } => ActionView::CreateNew { name: name@ },
            Action::Write { name, content } => ActionView::Write { name: name@, content: content@ },
        }
    }
}

/// What came of an action.
#[derive(Debug, PartialEq, Eq)]
pub enum Event {
    /// The action succeeded and there is nothing to hand over.
    Done,
    /// The action failed.
    Failed,
    /// The action succeeded and these are the bytes it read.
    Bytes(Vec<u8>),
}

/// An event as specifications see it.
pub enum EventView {
    Done,
    Failed,
    Bytes(Seq<u8>),
}

impl View for Event {
    type V = EventView;

    open spec fn view(&self) -> EventView {
        match self {
            Event::Done => EventView::Done,
            Event::Failed => EventView::Failed,
            Event::Bytes(bytes) => EventView::Bytes(bytes@),
        }
    }
}

/// How a request ended.
#[derive(Debug, PartialEq, Eq)]
pub enum Outcome {
    /// The file was removed.
    Deleted,
    /// The file was read, and this is what it holds.
    Retrieved(Vec<u8>),
    /// The content was stored under the name that the request gave.
    Stored,
    /// The content was stored under this generated name.
    StoredAs(String),
    /// The request asked for no operation of the store.
    Unmatched,
    /// The operation failed.
    Failed(TransferError),
}

/// An outcome as specifications see it.
pub enum OutcomeView {
    Deleted,
    Retrieved(Seq<u8>),
    Stored,
    StoredAs(Seq<char>),
    Unmatched,
    Failed(TransferError),
}

impl View for Outcome {
    type V = OutcomeView;

    open spec fn view(&self) -> OutcomeView {
        match self {
            Outcome::Deleted => OutcomeView::Deleted,
            Outcome::Retrieved(content) => OutcomeView::Retrieved(content@),
            Outcome::Stored => OutcomeView::Stored,
            Outcome::StoredAs(name) => OutcomeView::StoredAs(name@),
            Outcome::Unmatched => OutcomeView::Unmatched,
            Outcome::Failed(error) => OutcomeView::Failed(*error),
        }
    }
}

/// The response that tells a client of an outcome.  What was read, and the
/// name that was generated, travel as plain text; every failure, whatever its
/// kind, is the same bare not-found.
pub open spec fn response_of(outcome: OutcomeView) -> ResponseView {
    match outcome {
        OutcomeView::Deleted => ResponseView::success(),
        OutcomeView::Retrieved(content) => ResponseView::text(content),
        OutcomeView::Stored => ResponseView::success(),
        OutcomeView::StoredAs(name) => ResponseView::text(encode_utf8(name)),
        OutcomeView::Unmatched => ResponseView::not_found(),
        OutcomeView::Failed(_) => ResponseView::not_found(),
    }
}

impl Outcome {
    /// The response that tells a client of this outcome.
    pub fn response(self) -> (response: Response)
        ensures
            response@ == response_of(self@),
    {
        match self {
            Outcome::Deleted => Response::success(),
            Outcome::Retrieved(content) => Response::text(content),
            Outcome::Stored => Response::success(),
            Outcome::StoredAs(name) => Response::text(name.as_str().as_bytes_vec()),
            Outcome::Unmatched => Response::not_found(),
            Outcome::Failed(_) => Response::not_found(),
        }
    }
}

/// The stage that a request in flight has reached.  Each stage waits for the
/// event of one action.
#[derive(Debug, PartialEq, Eq)]
enum Stage {
    Deleting { name: String },
    Retrieving { name: String },
    Creating { name: String, content: Vec<u8> },
    Claiming { prefix: String, content: Vec<u8>, attempts: u32, candidate: String },
    Writing { name: String, content: Vec<u8>, generated: bool },
}

/// A request in flight: what it waits for, and what it still holds.
#[derive(Debug, PartialEq, Eq)]
pub struct Transfer {
    stage: Stage,
}

/// A request in flight as specifications see it.
pub enum TransferView {
    /// Waiting for the file `name` to be removed.
    Deleting { name: Seq<char> },
    /// Waiting for the file `name` to be read.
    Retrieving { name: Seq<char> },
    /// Waiting for the file `name` to be created or emptied.
    Creating { name: Seq<char>, content: Seq<u8> },
    /// Waiting for the file `candidate` to be created exclusively.  This is
    /// attempt number `attempts`, counted from 1.
    Claiming { prefix: Seq<char>, content: Seq<u8>, attempts: nat, candidate: Seq<char> },
    /// Waiting for `content` to be written to the file `name`, which was
    /// created under a generated name or under the name that was asked for.
    Writing { name: Seq<char>, content: Seq<u8>, generated: bool },
}

impl View for Transfer {
    type V = TransferView;

    closed spec fn view(&self) -> TransferView {
        match self.stage {
            Stage::Deleting { name } => TransferView::Deleting { name: name@ },
            Stage::Retrieving { name } => TransferView::Retrieving { name: name@ },
            Stage::Creating { name, content } => TransferView::Creating {
                name: name@,
                content: content@,
            },
            Stage::Claiming { prefix, content, attempts, candidate } => TransferView::Claiming {
                prefix: prefix@,
                content: content@,
                attempts: attempts as nat,
                candidate: candidate@,
            },
            Stage::Writing { name, content, generated } => TransferView::Writing {
                name: name@,
                content: content@,
                generated,
            },
        }
    }
}

/// Where a request stands after a step: still in flight, or ended.
#[derive(Debug, PartialEq, Eq)]
pub enum Progress {
    Pending(Transfer),
    Finished(Outcome),
}

/// Where a request stands, as specifications see it.
pub enum ProgressView {
    Pending(TransferView),
    Finished(OutcomeView),
}

impl View for Progress {
    type V = ProgressView;

    open spec fn view(&self) -> ProgressView {
        match self {
            Progress::Pending(transfer) => ProgressView::Pending(transfer@),
            Progress::Finished(outcome) => ProgressView::Finished(outcome@),
        }
    }
}

/// The action that a request in flight waits for.
pub open spec fn action_of(transfer: TransferView) -> ActionView {
    match transfer {
        TransferView::Deleting { name } => ActionView::Remove { name },
        TransferView::Retrieving { name } => ActionView::Read { name },
        TransferView::Creating { name, .. } => ActionView::Create { name },
        TransferView::Claiming { candidate, .. } => ActionView::CreateNew { name: candidate },
        TransferView::Writing { name, content, .. } => ActionView::Write { name, content },
    }
}

/// Where a request to store under a generated name stands after `made`
/// attempts have failed: given up if that was the last one permitted, else
/// claiming the name generated from the prefix and the number `draw`.
pub open spec fn next_attempt(
    prefix: Seq<char>,
    content: Seq<u8>,
    made: nat,
    draw: nat,
) -> ProgressView {
    if made >= MAX_ATTEMPTS {
        ProgressView::Finished(OutcomeView::Failed(TransferError::ExhaustedRetries))
    } else {
        ProgressView::Pending(
            TransferView::Claiming {
                prefix,
                content,
                attempts: made + 1,
                candidate: candidate_name(prefix, draw),
            },
        )
    }
}

/// Where a request stands before anything was done for it.  `draw` is the
/// number from which the first name is generated, where one is.
pub open spec fn begin_spec(operation: OperationView, draw: nat) -> ProgressView {
    match operation {
        OperationView::Delete { name } => ProgressView::Pending(TransferView::Deleting { name }),
        OperationView::Retrieve { name } => ProgressView::Pending(
            TransferView::Retrieving { name },
        ),
        OperationView::StoreAt { name, content } => ProgressView::Pending(
            TransferView::Creating { name, content },
        ),
        OperationView::StoreGenerated { prefix, content } => next_attempt(prefix, content, 0, draw),
        OperationView::Unmatched => ProgressView::Finished(OutcomeView::Unmatched),
    }
}

/// Where a request stands after the action it waited for came to `event`.
/// Only the event that reports the success of that action counts as success;
/// any other counts as its failure.  `draw` is the number from which the
/// next name is generated, where one is.
pub open spec fn advance_spec(transfer: TransferView, event: EventView, draw: nat) -> ProgressView {
    match transfer {
        TransferView::Deleting { .. } => ProgressView::Finished(
            if event is Done {
                OutcomeView::Deleted
            } else {
                OutcomeView::Failed(TransferError::NotFound)
            },
        ),
        TransferView::Retrieving { .. } => ProgressView::Finished(
            match event {
                EventView::Bytes(content) => OutcomeView::Retrieved(content),
                _ => OutcomeView::Failed(TransferError::NotFound),
            },
        ),
        TransferView::Creating { name, content } => if event is Done {
            ProgressView::Pending(TransferView::Writing { name, content, generated: false })
        } else {
            ProgressView::Finished(OutcomeView::Failed(TransferError::CreateError))
        },
        TransferView::Claiming { prefix, content, attempts, candidate } => if event is Done {
            ProgressView::Pending(
                TransferView::Writing { name: candidate, content, generated: true },
            )
        } else {
            next_attempt(prefix, content, attempts, draw)
        },
        TransferView::Writing { name, generated, .. } => ProgressView::Finished(
            if event is Done {
                if generated {
                    OutcomeView::StoredAs(name)
                } else {
                    OutcomeView::Stored
                }
            } else {
                OutcomeView::Failed(TransferError::WriteError)
            },
        ),
    }
}

/// Gives up after the last permitted attempt, or claims `name`, which was
/// generated from `prefix`.
fn claim(prefix: String, content: Vec<u8>, made: u32, name: String) -> (progress: Progress)
    ensures
        made >= MAX_ATTEMPTS ==> progress@ == ProgressView::Finished(
            OutcomeView::Failed(TransferError::ExhaustedRetries),
        ),
        made < MAX_ATTEMPTS ==> progress@ == ProgressView::Pending(
            TransferView::Claiming {
                prefix: prefix@,
                content: content@,
                attempts: made as nat + 1,
                candidate: name@,
            },
        ),
{
    if made >= MAX_ATTEMPTS {
        Progress::Finished(Outcome::Failed(TransferError::ExhaustedRetries))
    } else {
        Progress::Pending(
            Transfer { stage: Stage::Claiming { prefix, content, attempts: made + 1, candidate: name } },
        )
    }
}

impl Transfer {
    /// Takes up an operation, generating the first name, where one is
    /// needed, from the number `draw`.
    pub fn begin_with(operation: Operation, draw: u32) -> (progress: Progress)
        requires
            draw < SUFFIX_RANGE,
        ensures
            progress@ == begin_spec(operation@, draw as nat),
    {
        match operation {
            Operation::Delete { name } => Progress::Pending(
                Transfer { stage: Stage::Deleting { name } },
            ),
            Operation::Retrieve { name } => Progress::Pending(
                Transfer { stage: Stage::Retrieving { name } },
            ),
            Operation::StoreAt { name, content } => Progress::Pending(
                Transfer { stage: Stage::Creating { name, content } },
            ),
            Operation::StoreGenerated { prefix, content } => {
                let name = candidate(prefix.as_str(), draw);
                claim(prefix, content, 0, name)
            },
            Operation::Unmatched => Progress::Finished(Outcome::Unmatched),
        }
    }

    /// Takes up an operation.  Where a name is needed, it is generated from
    /// a number drawn at random.
    pub fn begin(operation: Operation) -> (progress: Progress)
        ensures
            exists|draw: nat|
                draw < SUFFIX_RANGE && progress@ == #[trigger] begin_spec(operation@, draw),
    {
        match operation {
            Operation::StoreGenerated { prefix, content } => {
                let name = generate(prefix.as_str());
                let ghost draw = choose|n: nat|
                    n < SUFFIX_RANGE && name@ == candidate_name(prefix@, n);
                let progress = claim(prefix, content, 0, name);
                assert(progress@ == begin_spec(operation@, draw));
                progress
            },
            other => {
                let progress = Transfer::begin_with(other, 0);
                assert(progress@ == begin_spec(operation@, 0));
                progress
            },
        }
    }

    /// The action that this request waits for.
    pub fn action(&self) -> (action: Action<'_>)
        ensures
            action@ == action_of(self@),
    {
        match &self.stage {
            Stage::Deleting { name } => Action::Remove { name: name.as_str() },
            Stage::Retrieving { name } => Action::Read { name: name.as_str() },
            Stage::Creating { name, .. } => Action::Create { name: name.as_str() },
            Stage::Claiming { candidate, .. } => Action::CreateNew { name: candidate.as_str() },
            Stage::Writing { name, content, .. } => Action::Write {
                name: name.as_str(),
                content: content.as_slice(),
            },
        }
    }

    /// Goes on after the action that this request waited for came to
    /// `event`, generating the next name, where one is needed, from the
    /// number `draw`.
    pub fn advance_with(self, event: Event, draw: u32) -> (progress: Progress)
        requires
            draw < SUFFIX_RANGE,
        ensures
            progress@ == advance_spec(self@, event@, draw as nat),
    {
        match self.stage {
            Stage::Claiming { prefix, content, attempts, candidate: taken } => match event {
                Event::Done => Progress::Pending(
                    Transfer { stage: Stage::Writing { name: taken, content, generated: true } },
                ),
                _ => {
                    let name = candidate(prefix.as_str(), draw);
                    claim(prefix, content, attempts, name)
                },
            },
            stage => Transfer { stage }.settle(event),
        }
    }

    /// Goes on after the action that this request waited for came to
    /// `event`.  Where another name is needed, it is generated from a number
    /// drawn at random.
    pub fn advance(self, event: Event) -> (progress: Progress)
        ensures
            exists|draw: nat|
                draw < SUFFIX_RANGE && progress@ == #[trigger] advance_spec(self@, event@, draw),
    {
        match self.stage {
            Stage::Claiming { prefix, content, attempts, candidate: taken } => match event {
                Event::Done => {
                    let progress = Progress::Pending(
                        Transfer {
                            stage: Stage::Writing { name: taken, content, generated: true },
                        },
                    );
                    assert(progress@ == advance_spec(self@, event@, 0));
                    progress
                },
                _ => {
                    let name = generate(prefix.as_str());
                    let ghost draw = choose|n: nat|
                        n < SUFFIX_RANGE && name@ == candidate_name(prefix@, n);
                    let progress = claim(prefix, content, attempts, name);
                    assert(progress@ == advance_spec(self@, event@, draw));
                    progress
                },
            },
            stage => {
                let progress = Transfer { stage }.settle(event);
                assert(progress@ == advance_spec(self@, event@, 0));
                progress
            },
        }
    }

    /// Goes on from a stage in which no name is generated.
    fn settle(self, event: Event) -> (progress: Progress)
        requires
            !(self@ is Claiming),
        ensures
            forall|draw: nat| progress@ == #[trigger] advance_spec(self@, event@, draw),
    {
        match self.stage {
            Stage::Deleting { .. } => match event {
                Event::Done => Progress::Finished(Outcome::Deleted),
                _ => Progress::Finished(Outcome::Failed(TransferError::NotFound)),
            },
            Stage::Retrieving { .. } => match event {
                Event::Bytes(content) => Progress::Finished(Outcome::Retrieved(content)),
                _ => Progress::Finished(Outcome::Failed(TransferError::NotFound)),
            },
            Stage::Creating { name, content } => match event {
                Event::Done => Progress::Pending(
                    Transfer { stage: Stage::Writing { name, content, generated: false } },
                ),
                _ => Progress::Finished(Outcome::Failed(TransferError::CreateError)),
            },
            Stage::Writing { name, generated, .. } => match event {
                Event::Done => if generated {
                    Progress::Finished(Outcome::StoredAs(name))
                } else {
                    Progress::Finished(Outcome::Stored)
                },
                _ => Progress::Finished(Outcome::Failed(TransferError::WriteError)),
            },
            Stage::Claiming { .. } => Progress::Finished(
                Outcome::Failed(TransferError::ExhaustedRetries),
            ),
        }
    }
}

} // verus!
