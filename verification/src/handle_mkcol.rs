//! MKCOL as a state machine: what the backends answered decides what is
//! asked of them next, and how the request ends.

use vstd::prelude::*;
use crate::davhandler::DavInner;
use crate::davpath::DavPath;
use crate::errors::{
    DavError,
    FsError,
    CONFLICT,
    CREATED,
    INTERNAL_SERVER_ERROR,
    LOCKED,
    METHOD_NOT_ALLOWED,
};
use crate::response::{content_location, DavResponse};

verus! {

/// Where a MKCOL request stands: what it waits for.
#[derive(Clone, Copy, Debug, PartialEq, Eq, Structural)]
pub enum MkcolState {
    /// Nothing was asked yet.
    Start,
    /// The target's metadata.
    Metadata,
    /// The lock tokens that the conditional headers claim.
    Conditional,
    /// The lock store's verdict on those tokens.
    LockCheck,
    /// The creation of the directory.
    CreateDir,
    /// Nothing: the request has ended.
    Done,
}

/// What happened, as the caller reports it.
#[derive(Debug)]
pub enum MkcolEvent {
    /// The request arrived.
    Begin,
    /// The metadata lookup came back: whether the target exists.
    Metadata(bool),
    /// The conditional headers were evaluated: the tokens they claim, or
    /// the status they fail the request with.
    Tokens(Result<Vec<String>, u16>),
    /// The lock store checked the tokens: whether the request may go on.
    LockChecked(bool),
    /// The backend tried to create the directory.
    Created(Result<(), FsError>),
}

/// What the caller has to do next.
#[derive(Debug)]
pub enum MkcolAction {
    /// Look up the target's metadata.
    FetchMetadata,
    /// Evaluate the conditional headers, with the target's metadata if it exists.
    Evaluate { exists: bool },
    /// Ask the lock store whether the tokens give access to the path.
    CheckLock { tokens: Vec<String>, exclusive: bool, recursive: bool },
    /// Create the directory.
    CreateDir,
    /// Answer with this response.
    Respond(DavResponse),
    /// Answer with this error.
    Fail(DavError),
}

/// An event without what it carries beyond the decision.
#[derive(Clone, Copy, Debug, PartialEq, Eq, Structural)]
pub enum EventKind {
    Begin,
    Metadata(bool),
    TokensOk,
    TokensErr(u16),
    LockOk,
    LockDenied,
    CreatedOk,
    CreatedErr(FsError),
}

/// An action without what it carries beyond the decision.
#[derive(Clone, Copy, Debug, PartialEq, Eq, Structural)]
pub enum ActionKind {
    FetchMetadata,
    Evaluate(bool),
    CheckLock,
    CreateDir,
    Respond,
    Fail(DavError),
}

impl MkcolEvent {
    pub open spec fn kind(&self) -> EventKind {
        match self {
            MkcolEvent::Begin => EventKind::Begin,
            MkcolEvent::Metadata(found) => EventKind::Metadata(*found),
            MkcolEvent::Tokens(Ok(_)) => EventKind::TokensOk,
            MkcolEvent::Tokens(Err(s)) => EventKind::TokensErr(*s),
            MkcolEvent::LockChecked(true) => EventKind::LockOk,
            MkcolEvent::LockChecked(false) => EventKind::LockDenied,
            MkcolEvent::Created(Ok(_)) => EventKind::CreatedOk,
            MkcolEvent::Created(Err(e)) => EventKind::CreatedErr(*e),
        }
    }
}

impl MkcolAction {
    pub open spec fn kind(&self) -> ActionKind {
        match self {
            MkcolAction::FetchMetadata => ActionKind::FetchMetadata,
            MkcolAction::Evaluate { exists } => ActionKind::Evaluate(*exists),
            MkcolAction::CheckLock { .. } => ActionKind::CheckLock,
            MkcolAction::CreateDir => ActionKind::CreateDir,
            MkcolAction::Respond(_) => ActionKind::Respond,
            MkcolAction::Fail(e) => ActionKind::Fail(*e),
        }
    }
}

/// How a failed creation ends the request: a target that exists with
/// 405, a missing parent with 409, anything else as the backend's error.
pub open spec fn create_error(e: FsError) -> DavError {
    match e {
        FsError::Exists => DavError::Status(METHOD_NOT_ALLOWED),
        FsError::NotFound => DavError::Status(CONFLICT),
        _ => DavError::FsError(e),
    }
}

/// The transition: the state after an event, and the action it calls
/// for. The conditional headers are evaluated whether the target exists
/// or not; the lock store, if there is one, is asked before the
/// directory is created; an event that the state does not wait for ends
/// the request with 500.
pub open spec fn mkcol_next(state: MkcolState, event: EventKind, has_locks: bool) -> (
    MkcolState,
    ActionKind,
) {
    match (state, event) {
        (MkcolState::Start, EventKind::Begin) => (MkcolState::Metadata, ActionKind::FetchMetadata),
        (MkcolState::Metadata, EventKind::Metadata(found)) => (
            MkcolState::Conditional,
            ActionKind::Evaluate(found),
        ),
        (MkcolState::Conditional, EventKind::TokensErr(s)) => (
            MkcolState::Done,
            ActionKind::Fail(DavError::Status(s)),
        ),
        (MkcolState::Conditional, EventKind::TokensOk) => if has_locks {
            (MkcolState::LockCheck, ActionKind::CheckLock)
        } else {
            (MkcolState::CreateDir, ActionKind::CreateDir)
        },
        (MkcolState::LockCheck, EventKind::LockDenied) => (
            MkcolState::Done,
            ActionKind::Fail(DavError::Status(LOCKED)),
        ),
        (MkcolState::LockCheck, EventKind::LockOk) => (MkcolState::CreateDir, ActionKind::CreateDir),
        (MkcolState::CreateDir, EventKind::CreatedErr(e)) => (
            MkcolState::Done,
            ActionKind::Fail(create_error(e)),
        ),
        (MkcolState::CreateDir, EventKind::CreatedOk) => (MkcolState::Done, ActionKind::Respond),
        _ => (MkcolState::Done, ActionKind::Fail(DavError::Status(INTERNAL_SERVER_ERROR))),
    }
}

/// The actions that a run of events calls for, one for each event.
pub open spec fn mkcol_run(state: MkcolState, events: Seq<EventKind>, has_locks: bool) -> Seq<
    ActionKind,
>
    decreases events.len(),
{
    if events.len() == 0 {
        Seq::empty()
    } else {
        let step = mkcol_next(state, events[0], has_locks);
        seq![step.1] + mkcol_run(step.0, events.drop_first(), has_locks)
    }
}

/// With a lock store, the directory is created only in answer to a lock
/// check that passed: in a run without one, from whatever state, no
/// action creates the directory.
pub proof fn locked_never_creates(state: MkcolState, events: Seq<EventKind>)
    requires
        forall|i: int| 0 <= i < events.len() ==> events[i] != EventKind::LockOk,
    ensures
        mkcol_run(state, events, true).len() == events.len(),
        forall|i: int|
            0 <= i < events.len() ==> mkcol_run(state, events, true)[i] != ActionKind::CreateDir,
    decreases events.len(),
{
    if events.len() > 0 {
        let step = mkcol_next(state, events[0], true);
        let rest = events.drop_first();
        assert forall|i: int| 0 <= i < rest.len() implies rest[i] != EventKind::LockOk by {
            assert(rest[i] == events[i + 1]);
        }
        locked_never_creates(step.0, rest);
        assert(events[0] != EventKind::LockOk);
        assert forall|i: int| 0 <= i < events.len() implies mkcol_run(state, events, true)[i]
            != ActionKind::CreateDir by {
            if i > 0 {
                assert(mkcol_run(state, events, true)[i] == mkcol_run(step.0, rest, true)[i - 1]);
            }
        }
    }
}

/// A lock check that fails ends the request with 423, and after that no
/// event brings it back to life.
pub proof fn lock_denied_is_final(event: EventKind, has_locks: bool)
    ensures
        mkcol_next(MkcolState::LockCheck, EventKind::LockDenied, has_locks) == (
            MkcolState::Done,
            ActionKind::Fail(DavError::Status(LOCKED)),
        ),
        mkcol_next(MkcolState::Done, event, has_locks) == (
            MkcolState::Done,
            ActionKind::Fail(DavError::Status(INTERNAL_SERVER_ERROR)),
        ),
{
}

impl<F: Clone, L: Clone> DavInner<F, L> {
    /// One step of a MKCOL request on `path`: takes the event that the
    /// state waited for and says what to do next. The lock store is asked
    /// for a lock that is neither exclusive nor recursive. A directory
    /// that was created is answered with 201; its path becomes a
    /// collection, and the response carries the URL that ends in a
    /// slash as its `Content-Location`.
    pub fn handle_mkcol(&self, path: &mut DavPath, state: MkcolState, event: MkcolEvent) -> (r: (
        MkcolState,
        MkcolAction,
    ))
        ensures
            (r.0, r.1.kind()) == mkcol_next(state, event.kind(), self.ls.is_some()),
            old(path).wf() ==> final(path).wf(),
            final(path).segments_spec() == old(path).segments_spec(),
            final(path).prefix_spec() == old(path).prefix_spec(),
            final(path).collection_spec() == (old(path).collection_spec() || r.1.kind()
                == ActionKind::Respond),
            r.1 matches MkcolAction::CheckLock { tokens, exclusive, recursive } ==> !exclusive
                && !recursive && event == MkcolEvent::Tokens(Ok(tokens)),
            r.1 matches MkcolAction::Respond(resp) ==> resp@ == (
                CREATED,
                seq![content_location(final(path).url_with_prefix())],
            ),
    {
        match (state, event) {
            (MkcolState::Start, MkcolEvent::Begin) => (MkcolState::Metadata, MkcolAction::FetchMetadata),
            (MkcolState::Metadata, MkcolEvent::Metadata(found)) => (
                MkcolState::Conditional,
                MkcolAction::Evaluate { exists: found },
            ),
            (MkcolState::Conditional, MkcolEvent::Tokens(Err(s))) => (
                MkcolState::Done,
                MkcolAction::Fail(DavError::Status(s)),
            ),
            (MkcolState::Conditional, MkcolEvent::Tokens(Ok(tokens))) => {
                if self.ls.is_some() {
                    (
                        MkcolState::LockCheck,
                        MkcolAction::CheckLock { tokens: tokens, exclusive: false, recursive: false },
                    )
                } else {
                    (MkcolState::CreateDir, MkcolAction::CreateDir)
                }
            },
            (MkcolState::LockCheck, MkcolEvent::LockChecked(passed)) => {
                if passed {
                    (MkcolState::CreateDir, MkcolAction::CreateDir)
                } else {
                    (MkcolState::Done, MkcolAction::Fail(DavError::Status(LOCKED)))
                }
            },
            (MkcolState::CreateDir, MkcolEvent::Created(Err(e))) => {
                let err = match e {
                    FsError::Exists => DavError::Status(METHOD_NOT_ALLOWED),
                    FsError::NotFound => DavError::Status(CONFLICT),
                    _ => DavError::FsError(e),
                };
                (MkcolState::Done, MkcolAction::Fail(err))
            },
            (MkcolState::CreateDir, MkcolEvent::Created(Ok(_))) => {
                let mut res = DavResponse::new(CREATED);
                path.add_slash();
                res.set_content_location(path.as_url_bytes_with_prefix());
                assert(res@.1 =~= seq![content_location(path.url_with_prefix())]);
                (MkcolState::Done, MkcolAction::Respond(res))
            },
            _ => (MkcolState::Done, MkcolAction::Fail(DavError::Status(INTERNAL_SERVER_ERROR))),
        }
    }
}

} // verus!
