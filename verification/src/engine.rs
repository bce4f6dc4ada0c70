//! The decisions of a run, as a state machine.
//!
//! The engine never touches a file. It names the next [`Action`]; the caller
//! performs it and reports what happened as an [`Event`]. A run starts with
//! [`Engine::begin`] and ends when the engine answers [`Action::Finish`] or
//! [`Action::Abort`].

use vstd::prelude::*;
use vstd::string::*;
use crate::combine::{combine_chunk, combined, nonce_usable, nonce_view};
use crate::error::{FileRole, IoOp, TransformError};
use crate::key_source::{KeyDemand, KeyPolicy, KeySource, KeySourceView, KeySupply};

verus! {

/// Where a run stands: what the engine is waiting for.
#[derive(Clone, Copy, PartialEq, Eq, Debug, Structural)]
pub enum Phase {
    /// Nothing was asked for yet.
    Created,
    /// The staging file is being created.
    AwaitStaging,
    /// A chunk of input is being read.
    AwaitInput,
    /// Key bytes for the chunk at hand are being read.
    AwaitKey,
    /// The key stream is being sent back to its start.
    AwaitRewind,
    /// A combined chunk is being appended to the staging file.
    AwaitWrite,
    /// The staging file is being flushed and closed.
    AwaitFlush,
    /// The input file is being deleted.
    AwaitDelete,
    /// The staging file is being renamed to the input's name.
    AwaitRename,
    /// The staging file has taken the place of the input.
    Finished,
    /// The run was aborted.
    Failed,
}

/// What the caller is to do next.
#[derive(PartialEq, Eq, Debug)]
pub enum Action {
    /// Create the staging file, empty.
    CreateStaging,
    /// Read at most this many bytes of input at its cursor.
    ReadInput(usize),
    /// Read at most this many bytes of the key stream at its cursor.
    ReadKey(usize),
    /// Move the cursor of the key stream to its start.
    RewindKey,
    /// Append these bytes to the staging file.
    Write(Vec<u8>),
    /// Flush and close the staging file.
    Flush,
    /// Delete the input file.
    DeleteInput,
    /// Rename the staging file to the name the input had.
    RenameStaging,
    /// Nothing more: the run succeeded.
    Finish,
    /// Nothing more: the run failed, for this reason.
    Abort(TransformError),
}

/// An [`Action`] with its bytes as a sequence.
pub enum ActionView {
    CreateStaging,
    ReadInput(usize),
    ReadKey(usize),
    RewindKey,
    Write(Seq<u8>),
    Flush,
    DeleteInput,
    RenameStaging,
    Finish,
    Abort(TransformError),
}

impl View for Action {
    type V = ActionView;

    open spec fn view(&self) -> ActionView {
        match *self {
            Action::CreateStaging => ActionView::CreateStaging,
            Action::ReadInput(limit) => ActionView::ReadInput(limit),
            Action::ReadKey(limit) => ActionView::ReadKey(limit),
            Action::RewindKey => ActionView::RewindKey,
            Action::Write(bytes) => ActionView::Write(bytes@),
            Action::Flush => ActionView::Flush,
            Action::DeleteInput => ActionView::DeleteInput,
            Action::RenameStaging => ActionView::RenameStaging,
            Action::Finish => ActionView::Finish,
            Action::Abort(error) => ActionView::Abort(error),
        }
    }
}

/// What came of the action that the engine asked for last.
#[derive(PartialEq, Eq, Debug)]
pub enum Event {
    /// The action succeeded and yields no data.
    Done,
    /// The input yielded these bytes; none means that it is at its end.
    InputRead(Vec<u8>),
    /// The key stream yielded these bytes; none means that it is at its end.
    KeyRead(Vec<u8>),
    /// The action failed.
    Failed,
}

/// An [`Event`] with its bytes as a sequence.
pub enum EventView {
    Done,
    InputRead(Seq<u8>),
    KeyRead(Seq<u8>),
    Failed,
}

impl View for Event {
    type V = EventView;

    open spec fn view(&self) -> EventView {
        match *self {
            Event::Done => EventView::Done,
            Event::InputRead(bytes) => EventView::InputRead(bytes@),
            Event::KeyRead(bytes) => EventView::KeyRead(bytes@),
            Event::Failed => EventView::Failed,
        }
    }
}

/// The name of the staging file: the name of the input with `.tmp` behind
/// it, so that the two names differ.
pub open spec fn staging_path_spec(input_path: Seq<char>) -> Seq<char> {
    input_path + ".tmp"@
}

/// Names the staging file for the input at `input_path`.
pub fn staging_path(input_path: &str) -> (path: String)
    ensures
        path@ == staging_path_spec(input_path@),
        path@ != input_path@,
{
    proof {
        reveal_strlit(".tmp");
    }
    String::from_str(input_path).concat(".tmp")
}

/// The failure that a key stream of `key_len` bytes and an input of
/// `input_len` bytes meet before anything is written, if any. An empty key
/// is refused under either policy; the strict policy also refuses a key
/// that is shorter than the input.
pub open spec fn preflight(policy: KeyPolicy, key_len: nat, input_len: nat) -> Option<
    TransformError,
> {
    if key_len == 0 {
        Some(TransformError::EmptyKey)
    } else if policy == KeyPolicy::Strict && key_len < input_len {
        Some(TransformError::KeyTooShort)
    } else {
        None
    }
}

/// The failure that a failed action means, by the phase it was asked in.
pub open spec fn failure_in(phase: Phase) -> TransformError {
    match phase {
        Phase::AwaitStaging => TransformError::Io { file: FileRole::Staging, op: IoOp::Create },
        Phase::AwaitInput => TransformError::Io { file: FileRole::Input, op: IoOp::Read },
        Phase::AwaitKey => TransformError::Io { file: FileRole::Key, op: IoOp::Read },
        Phase::AwaitRewind => TransformError::Io { file: FileRole::Key, op: IoOp::Seek },
        Phase::AwaitWrite => TransformError::Io { file: FileRole::Staging, op: IoOp::Write },
        Phase::AwaitFlush => TransformError::Io { file: FileRole::Staging, op: IoOp::Flush },
        Phase::AwaitDelete => TransformError::Io { file: FileRole::Input, op: IoOp::Delete },
        _ => TransformError::Replace,
    }
}

/// The mathematical state of an [`Engine`].
pub struct EngineView {
    pub phase: Phase,
    pub source: KeySourceView,
    pub nonce: Option<Seq<u8>>,
    /// The chunk of input that waits for its key bytes.
    pub pending: Seq<u8>,
}

impl EngineView {
    /// The largest chunk of input the engine asks for.
    pub open spec fn chunk_size(self) -> nat {
        self.source.capacity
    }

    /// The invariant of an engine: a chunk fits the buffer, and a chunk
    /// is pending exactly while key bytes for it are missing.
    pub open spec fn wf(self) -> bool {
        &&& self.source.wf()
        &&& nonce_usable(self.nonce)
        &&& self.chunk_size() <= usize::MAX
        &&& if self.phase == Phase::AwaitKey || self.phase == Phase::AwaitRewind {
            self.source.buffered.len() < self.pending.len() <= self.chunk_size()
        } else {
            self.pending.len() == 0
        }
    }

    /// The state of an engine that has asked for nothing yet.
    pub open spec fn created(policy: KeyPolicy, chunk_size: nat, nonce: Option<Seq<u8>>)
        -> EngineView {
        EngineView {
            phase: Phase::Created,
            source: KeySourceView::fresh(policy, chunk_size),
            nonce,
            pending: Seq::empty(),
        }
    }

    /// Whether `event` can be the outcome of the action asked for last.
    pub open spec fn expects(self, event: EventView) -> bool {
        match event {
            EventView::Failed => self.phase != Phase::Created && self.phase != Phase::Finished
                && self.phase != Phase::Failed,
            EventView::InputRead(bytes) => self.phase == Phase::AwaitInput && bytes.len()
                <= self.chunk_size(),
            EventView::KeyRead(bytes) => self.phase == Phase::AwaitKey && (self.source.demand(
                self.pending.len(),
            ) matches KeyDemand::Read(limit) && bytes.len() <= limit),
            EventView::Done => self.phase == Phase::AwaitStaging || self.phase
                == Phase::AwaitRewind || self.phase == Phase::AwaitWrite || self.phase
                == Phase::AwaitFlush || self.phase == Phase::AwaitDelete || self.phase
                == Phase::AwaitRename,
        }
    }

    /// The first step of a run.
    pub open spec fn begin(self) -> (EngineView, ActionView) {
        (EngineView { phase: Phase::AwaitStaging, ..self }, ActionView::CreateStaging)
    }

    /// Abort, whatever was going on; a pending chunk is dropped.
    pub open spec fn fail(self, error: TransformError) -> (EngineView, ActionView) {
        (
            EngineView { phase: Phase::Failed, pending: Seq::empty(), ..self },
            ActionView::Abort(error),
        )
    }

    /// Ask for the next chunk of input.
    pub open spec fn read_input(self) -> (EngineView, ActionView) {
        (
            EngineView { phase: Phase::AwaitInput, ..self },
            ActionView::ReadInput(self.chunk_size() as usize),
        )
    }

    /// With a chunk pending: combine it and ask for it to be written if the
    /// key bytes are there, else ask for key bytes.
    pub open spec fn pursue_key(self) -> (EngineView, ActionView) {
        match self.source.demand(self.pending.len()) {
            KeyDemand::Ready => (
                EngineView {
                    phase: Phase::AwaitWrite,
                    source: self.source.taken(self.pending.len()),
                    pending: Seq::empty(),
                    ..self
                },
                ActionView::Write(
                    combined(
                        self.pending,
                        self.source.buffered.take(self.pending.len() as int),
                        self.nonce,
                    ),
                ),
            ),
            KeyDemand::Read(limit) => (
                EngineView { phase: Phase::AwaitKey, ..self },
                ActionView::ReadKey(limit),
            ),
        }
    }

    /// The step taken when an action succeeded without data.
    pub open spec fn on_done(self) -> (EngineView, ActionView) {
        match self.phase {
            Phase::AwaitRewind => self.pursue_key(),
            Phase::AwaitFlush => (
                EngineView { phase: Phase::AwaitDelete, ..self },
                ActionView::DeleteInput,
            ),
            Phase::AwaitDelete => (
                EngineView { phase: Phase::AwaitRename, ..self },
                ActionView::RenameStaging,
            ),
            Phase::AwaitRename => (
                EngineView { phase: Phase::Finished, ..self },
                ActionView::Finish,
            ),
            _ => self.read_input(),
        }
    }

    /// The step taken when the input yielded `bytes`.
    pub open spec fn on_input(self, bytes: Seq<u8>) -> (EngineView, ActionView) {
        if bytes.len() == 0 {
            (EngineView { phase: Phase::AwaitFlush, ..self }, ActionView::Flush)
        } else {
            EngineView { pending: bytes, ..self }.pursue_key()
        }
    }

    /// The step taken when the key stream yielded `bytes`.
    pub open spec fn on_key(self, bytes: Seq<u8>) -> (EngineView, ActionView) {
        let fed = EngineView { source: self.source.supplied(bytes), ..self };
        match self.source.supply(bytes) {
            Ok(KeySupply::Accepted) => fed.pursue_key(),
            Ok(KeySupply::Rewind) => (
                EngineView { phase: Phase::AwaitRewind, ..fed },
                ActionView::RewindKey,
            ),
            Err(error) => fed.fail(error),
        }
    }

    /// The next state and the next action, given the outcome of the last.
    pub open spec fn step(self, event: EventView) -> (EngineView, ActionView) {
        match event {
            EventView::Failed => self.fail(failure_in(self.phase)),
            EventView::Done => self.on_done(),
            EventView::InputRead(bytes) => self.on_input(bytes),
            EventView::KeyRead(bytes) => self.on_key(bytes),
        }
    }
}

/// The input is deleted only once the staging file is flushed, and the
/// staging file is renamed only once the input is deleted.
pub proof fn lemma_replace_in_order(engine: EngineView, event: EventView)
    requires
        engine.wf(),
        engine.expects(event),
    ensures
        engine.step(event).1 is DeleteInput <==> engine.phase == Phase::AwaitFlush
            && event is Done,
        engine.step(event).1 is RenameStaging <==> engine.phase == Phase::AwaitDelete
            && event is Done,
        engine.step(event).1 is Finish <==> engine.phase == Phase::AwaitRename && event is Done,
{
}

/// A failed action ends the run: the engine aborts and expects no further
/// event, so that it asks for nothing more.
pub proof fn lemma_failure_ends_run(engine: EngineView, event: EventView)
    requires
        engine.wf(),
        engine.expects(EventView::Failed),
    ensures
        engine.step(EventView::Failed).1 == ActionView::Abort(failure_in(engine.phase)),
        !engine.step(EventView::Failed).0.expects(event),
{
}

/// Once the engine has ended the run, by finishing or by aborting, it
/// expects no further event.
pub proof fn lemma_end_is_final(engine: EngineView, event: EventView, later: EventView)
    requires
        engine.wf(),
        engine.expects(event),
        engine.step(event).1 is Finish || engine.step(event).1 is Abort,
    ensures
        !engine.step(event).0.expects(later),
{
}

/// The state of one run.
pub struct Engine {
    phase: Phase,
    source: KeySource,
    nonce: Option<Vec<u8>>,
    pending: Vec<u8>,
}

impl View for Engine {
    type V = EngineView;

    closed spec fn view(&self) -> EngineView {
        EngineView {
            phase: self.phase,
            source: self.source@,
            nonce: nonce_view(self.nonce),
            pending: self.pending@,
        }
    }
}

impl Engine {
    fn with(policy: KeyPolicy, chunk_size: usize, nonce: Option<Vec<u8>>) -> (engine: Engine)
        requires
            chunk_size > 0,
            nonce_usable(nonce_view(nonce)),
        ensures
            engine@ == EngineView::created(policy, chunk_size as nat, nonce_view(nonce)),
            engine@.wf(),
    {
        Engine {
            phase: Phase::Created,
            source: KeySource::new(policy, chunk_size),
            nonce,
            pending: Vec::new(),
        }
    }

    /// An engine for a run under the cyclic policy, without a nonce. A key
    /// stream without bytes is refused.
    pub fn cyclic(key_len: u64, chunk_size: usize) -> (made: Result<Engine, TransformError>)
        requires
            chunk_size > 0,
        ensures
            match made {
                Ok(engine) => preflight(KeyPolicy::Cyclic, key_len as nat, 0) is None && engine@
                    == EngineView::created(KeyPolicy::Cyclic, chunk_size as nat, None)
                    && engine@.wf(),
                Err(error) => preflight(KeyPolicy::Cyclic, key_len as nat, 0) == Some(error),
            },
    {
        if key_len == 0 {
            Err(TransformError::EmptyKey)
        } else {
            Ok(Engine::with(KeyPolicy::Cyclic, chunk_size, None))
        }
    }

    /// An engine for a run under the strict policy, with a nonce. A key
    /// stream without bytes, or with fewer bytes than the input, is refused.
    pub fn strict(key_len: u64, input_len: u64, nonce: Vec<u8>, chunk_size: usize) -> (made:
        Result<Engine, TransformError>)
        requires
            chunk_size > 0,
            nonce@.len() > 0,
        ensures
            match made {
                Ok(engine) => preflight(KeyPolicy::Strict, key_len as nat, input_len as nat)
                    is None && engine@ == EngineView::created(
                    KeyPolicy::Strict,
                    chunk_size as nat,
                    Some(nonce@),
                ) && engine@.wf(),
                Err(error) => preflight(KeyPolicy::Strict, key_len as nat, input_len as nat)
                    == Some(error),
            },
    {
        if key_len == 0 {
            Err(TransformError::EmptyKey)
        } else if key_len < input_len {
            Err(TransformError::KeyTooShort)
        } else {
            Ok(Engine::with(KeyPolicy::Strict, chunk_size, Some(nonce)))
        }
    }

    pub fn phase(&self) -> (phase: Phase)
        ensures
            phase == self@.phase,
    {
        self.phase
    }

    /// Whether `event` can be the outcome of the action asked for last.
    pub fn expects(&self, event: &Event) -> (expected: bool)
        requires
            self@.wf(),
        ensures
            expected == self@.expects(event@),
    {
        match event {
            Event::Failed => match self.phase {
                Phase::Created | Phase::Finished | Phase::Failed => false,
                _ => true,
            },
            Event::InputRead(bytes) => match self.phase {
                Phase::AwaitInput => bytes.len() <= self.source.capacity(),
                _ => false,
            },
            Event::KeyRead(bytes) => match self.phase {
                Phase::AwaitKey => match self.source.demand(self.pending.len()) {
                    KeyDemand::Read(limit) => bytes.len() <= limit,
                    KeyDemand::Ready => false,
                },
                _ => false,
            },
            Event::Done => match self.phase {
                Phase::AwaitStaging
                | Phase::AwaitRewind
                | Phase::AwaitWrite
                | Phase::AwaitFlush
                | Phase::AwaitDelete
                | Phase::AwaitRename => true,
                _ => false,
            },
        }
    }

    /// Starts the run: the staging file is to be created.
    pub fn begin(&mut self) -> (action: Action)
        requires
            old(self)@.wf(),
            old(self)@.phase == Phase::Created,
        ensures
            (final(self)@, action@) == old(self)@.begin(),
            final(self)@.wf(),
    {
        self.phase = Phase::AwaitStaging;
        Action::CreateStaging
    }

    fn read_input(&mut self) -> (action: Action)
        requires
            old(self)@.wf(),
            old(self)@.pending.len() == 0,
        ensures
            (final(self)@, action@) == old(self)@.read_input(),
            final(self)@.wf(),
    {
        self.phase = Phase::AwaitInput;
        Action::ReadInput(self.source.capacity())
    }

    fn fail(&mut self, error: TransformError) -> (action: Action)
        requires
            old(self)@.source.wf(),
            nonce_usable(old(self)@.nonce),
            old(self)@.chunk_size() <= usize::MAX,
        ensures
            (final(self)@, action@) == old(self)@.fail(error),
            final(self)@.wf(),
    {
        self.phase = Phase::Failed;
        self.pending = Vec::new();
        Action::Abort(error)
    }

    fn pursue_key(&mut self) -> (action: Action)
        requires
            old(self)@.source.wf(),
            nonce_usable(old(self)@.nonce),
            0 < old(self)@.pending.len() <= old(self)@.chunk_size() <= usize::MAX,
        ensures
            (final(self)@, action@) == old(self)@.pursue_key(),
            final(self)@.wf(),
    {
        let needed: usize = self.pending.len();
        match self.source.demand(needed) {
            KeyDemand::Ready => {
                let key: Vec<u8> = self.source.take(needed);
                let mut chunk: Vec<u8> = Vec::new();
                core::mem::swap(&mut self.pending, &mut chunk);
                combine_chunk(&mut chunk, key.as_slice(), &self.nonce);
                self.phase = Phase::AwaitWrite;
                Action::Write(chunk)
            },
            KeyDemand::Read(limit) => {
                self.phase = Phase::AwaitKey;
                Action::ReadKey(limit)
            },
        }
    }

    /// Takes in the outcome of the action asked for last and names the next
    /// action.
    pub fn step(&mut self, event: Event) -> (action: Action)
        requires
            old(self)@.wf(),
            old(self)@.expects(event@),
        ensures
            (final(self)@, action@) == old(self)@.step(event@),
            final(self)@.wf(),
    {
        match event {
            Event::Failed => {
                let error: TransformError = match self.phase {
                    Phase::AwaitStaging => TransformError::Io {
                        file: FileRole::Staging,
                        op: IoOp::Create,
                    },
                    Phase::AwaitInput => TransformError::Io {
                        file: FileRole::Input,
                        op: IoOp::Read,
                    },
                    Phase::AwaitKey => TransformError::Io { file: FileRole::Key, op: IoOp::Read },
                    Phase::AwaitRewind => TransformError::Io {
                        file: FileRole::Key,
                        op: IoOp::Seek,
                    },
                    Phase::AwaitWrite => TransformError::Io {
                        file: FileRole::Staging,
                        op: IoOp::Write,
                    },
                    Phase::AwaitFlush => TransformError::Io {
                        file: FileRole::Staging,
                        op: IoOp::Flush,
                    },
                    Phase::AwaitDelete => TransformError::Io {
                        file: FileRole::Input,
                        op: IoOp::Delete,
                    },
                    _ => TransformError::Replace,
                };
                self.fail(error)
            },
            Event::Done => match self.phase {
                Phase::AwaitRewind => self.pursue_key(),
                Phase::AwaitFlush => {
                    self.phase = Phase::AwaitDelete;
                    Action::DeleteInput
                },
                Phase::AwaitDelete => {
                    self.phase = Phase::AwaitRename;
                    Action::RenameStaging
                },
                Phase::AwaitRename => {
                    self.phase = Phase::Finished;
                    Action::Finish
                },
                _ => self.read_input(),
            },
            Event::InputRead(bytes) => {
                if bytes.len() == 0 {
                    self.phase = Phase::AwaitFlush;
                    Action::Flush
                } else {
                    self.pending = bytes;
                    self.pursue_key()
                }
            },
            Event::KeyRead(bytes) => match self.source.supply(bytes.as_slice()) {
                Ok(KeySupply::Accepted) => self.pursue_key(),
                Ok(KeySupply::Rewind) => {
                    self.phase = Phase::AwaitRewind;
                    Action::RewindKey
                },
                Err(error) => {
                    self.pending = Vec::new();
                    self.fail(error)
                },
            },
        }
    }
}

} // verus!
