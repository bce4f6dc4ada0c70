//! Whole runs over files held in memory.
//!
//! The functions here play the caller's part for an [`Engine`]: they perform
//! each action on a [`MemoryFiles`] and report the outcome. A [`Fault`] makes
//! one chosen action fail, so that what a failed run leaves behind can be
//! stated and proved.

use vstd::prelude::*;
use vstd::slice::{slice_subrange, slice_to_vec};
use vstd::arithmetic::div_mod::{lemma_add_mod_noop, lemma_mod_multiples_vanish, lemma_small_mod};
use vstd::arithmetic::mul::{lemma_mul_inequality, lemma_mul_is_commutative};
use crate::combine::{combined, nonce_usable};
use crate::engine::{Action, ActionView, Engine, EngineView, Event, EventView, Phase, preflight};
use crate::error::{FileRole, IoOp, TransformError};
use crate::key_source::{KeyDemand, KeyPolicy};
use crate::stream::{key_at, lemma_empty_input, lemma_transform_twice, output_byte, transformed};

verus! {

/// The files of a run; `None` stands for a file that does not exist.
#[derive(PartialEq, Eq, Debug)]
pub struct MemoryFiles {
    /// The file to transform, which the output replaces.
    pub input: Option<Vec<u8>>,
    /// The key stream.
    pub key: Vec<u8>,
    /// The temporary output.
    pub staging: Option<Vec<u8>>,
}

/// [`MemoryFiles`] with the contents as sequences.
pub struct FilesView {
    pub input: Option<Seq<u8>>,
    pub key: Seq<u8>,
    pub staging: Option<Seq<u8>>,
}

impl View for MemoryFiles {
    type V = FilesView;

    open spec fn view(&self) -> FilesView {
        FilesView {
            input: match self.input {
                Some(bytes) => Some(bytes@),
                None => None,
            },
            key: self.key@,
            staging: match self.staging {
                Some(bytes) => Some(bytes@),
                None => None,
            },
        }
    }
}

/// The one action of a run that is made to fail, if any.
#[derive(Clone, Copy, PartialEq, Eq, Debug, Structural)]
pub enum Fault {
    /// Every action succeeds.
    Never,
    /// The staging file cannot be created.
    CreateStaging,
    /// The staging file takes this many chunks, and the write after them
    /// fails.
    Write(usize),
    /// The staging file cannot be flushed.
    Flush,
    /// The input file cannot be deleted.
    Delete,
    /// The staging file cannot be renamed.
    Rename,
}

/// How a run ends and what it leaves behind.
///
/// A missing input, an empty key and, under the strict policy, a key shorter
/// than the input are refused before any file is touched. A fault up to the
/// deletion of the input leaves the input as it was, with the staging file
/// as far as it was written. A fault at the rename leaves no input, and the
/// whole output under the staging name. Without a fault the output takes the
/// place of the input and no staging file remains.
pub open spec fn outcome(
    files: FilesView,
    policy: KeyPolicy,
    nonce: Option<Seq<u8>>,
    chunk_size: nat,
    fault: Fault,
) -> (Result<(), TransformError>, FilesView) {
    match files.input {
        None => (Err(TransformError::Io { file: FileRole::Input, op: IoOp::Open }), files),
        Some(input) => match preflight(policy, files.key.len(), input.len()) {
            Some(error) => (Err(error), files),
            None => {
                let output = transformed(input, files.key, policy, nonce, chunk_size);
                let complete = FilesView { staging: Some(output), ..files };
                match fault {
                    Fault::CreateStaging => (
                        Err(TransformError::Io { file: FileRole::Staging, op: IoOp::Create }),
                        files,
                    ),
                    Fault::Write(chunks) if chunks * chunk_size < input.len() => (
                        Err(TransformError::Io { file: FileRole::Staging, op: IoOp::Write }),
                        FilesView {
                            staging: Some(output.take((chunks * chunk_size) as int)),
                            ..files
                        },
                    ),
                    Fault::Flush => (
                        Err(TransformError::Io { file: FileRole::Staging, op: IoOp::Flush }),
                        complete,
                    ),
                    Fault::Delete => (
                        Err(TransformError::Io { file: FileRole::Input, op: IoOp::Delete }),
                        complete,
                    ),
                    Fault::Rename => (
                        Err(TransformError::Replace),
                        FilesView { input: None, ..complete },
                    ),
                    _ => (Ok(()), FilesView { input: Some(output), staging: None, ..files }),
                }
            },
        },
    }
}

/// Under the strict policy a key that is shorter than the input is refused
/// and no file is touched.
pub proof fn lemma_short_key_refused(
    files: FilesView,
    nonce: Option<Seq<u8>>,
    chunk_size: nat,
    fault: Fault,
)
    requires
        files.input is Some,
        0 < files.key.len() < (files.input->0).len(),
    ensures
        outcome(files, KeyPolicy::Strict, nonce, chunk_size, fault) == (
            Err::<(), TransformError>(TransformError::KeyTooShort),
            files,
        ),
{
}

/// Under either policy a key without bytes is refused and no file is
/// touched.
pub proof fn lemma_empty_key_refused(
    files: FilesView,
    policy: KeyPolicy,
    nonce: Option<Seq<u8>>,
    chunk_size: nat,
    fault: Fault,
)
    requires
        files.input is Some,
        files.key.len() == 0,
    ensures
        outcome(files, policy, nonce, chunk_size, fault) == (
            Err::<(), TransformError>(TransformError::EmptyKey),
            files,
        ),
{
}

/// A write that fails before the last chunk is written makes the run fail
/// and leaves the input as it was.
pub proof fn lemma_failed_write_keeps_input(
    files: FilesView,
    policy: KeyPolicy,
    nonce: Option<Seq<u8>>,
    chunk_size: nat,
    chunks: usize,
)
    requires
        files.input is Some,
        chunks * chunk_size < (files.input->0).len(),
    ensures
        outcome(files, policy, nonce, chunk_size, Fault::Write(chunks)).0 is Err,
        outcome(files, policy, nonce, chunk_size, Fault::Write(chunks)).1.input == files.input,
{
}

/// Whatever fails, the input is as it was unless the failure is that of
/// the rename, and the key is as it was in any case.
pub proof fn lemma_failure_keeps_input(
    files: FilesView,
    policy: KeyPolicy,
    nonce: Option<Seq<u8>>,
    chunk_size: nat,
    fault: Fault,
)
    ensures
        outcome(files, policy, nonce, chunk_size, fault).1.key == files.key,
        outcome(files, policy, nonce, chunk_size, fault).0 matches Err(error)
            && error.input_intact_spec() ==> outcome(
            files,
            policy,
            nonce,
            chunk_size,
            fault,
        ).1.input == files.input,
{
}

/// An input without bytes, with a key of at least one byte, gives an output
/// without bytes, which takes the input's place.
pub proof fn lemma_empty_input_commits(
    files: FilesView,
    policy: KeyPolicy,
    nonce: Option<Seq<u8>>,
    chunk_size: nat,
)
    requires
        files.input == Some(Seq::<u8>::empty()),
        files.key.len() > 0,
    ensures
        outcome(files, policy, nonce, chunk_size, Fault::Never) == (
            Ok::<(), TransformError>(()),
            FilesView { input: Some(Seq::<u8>::empty()), staging: None, ..files },
        ),
{
    lemma_empty_input(files.key, policy, nonce, chunk_size);
}

/// A second run without a fault, with the same key, policy, nonce and chunk
/// size, gives back the input of the first.
pub proof fn lemma_second_run_restores(
    files: FilesView,
    policy: KeyPolicy,
    nonce: Option<Seq<u8>>,
    chunk_size: nat,
)
    requires
        outcome(files, policy, nonce, chunk_size, Fault::Never).0 is Ok,
    ensures
        ({
            let once = outcome(files, policy, nonce, chunk_size, Fault::Never).1;
            let twice = outcome(once, policy, nonce, chunk_size, Fault::Never);
            twice.0 is Ok && twice.1.input == files.input
        }),
{
    lemma_transform_twice(files.input->0, files.key, policy, nonce, chunk_size);
}

/// The buffered key bytes are those that follow the `consumed` bytes
/// already used.
spec fn window(policy: KeyPolicy, key: Seq<u8>, buffered: Seq<u8>, consumed: int) -> bool {
    forall|j: int| 0 <= j < buffered.len() ==> buffered[j] == key_at(policy, key, consumed + j)
}

/// The cursor of the key stream agrees with the `fed` bytes read from it so
/// far: under the strict policy it is their number, and no byte was read
/// ahead of the input; under the cyclic policy it is their number up to
/// whole passes over the key.
spec fn cursor_fits(policy: KeyPolicy, key_len: int, key_pos: int, fed: int, in_pos: int) -> bool {
    match policy {
        KeyPolicy::Strict => key_pos == fed && fed <= in_pos,
        KeyPolicy::Cyclic => key_pos % key_len == fed % key_len,
    }
}

/// The staging file holds the first `written` bytes of the output, in
/// `chunks` chunks, all of them full but possibly the last.
spec fn paced(
    files: FilesView,
    input: Seq<u8>,
    output: Seq<u8>,
    written: int,
    chunks: int,
    chunk_size: int,
) -> bool {
    &&& files.input == Some(input)
    &&& 0 <= chunks <= written <= input.len()
    &&& files.staging == Some(output.take(written))
    &&& written <= chunks * chunk_size
    &&& written < input.len() ==> written == chunks * chunk_size
}

/// The number of bytes in the staging file.
spec fn written_of(files: FilesView) -> int {
    match files.staging {
        Some(bytes) => bytes.len() as int,
        None => 0,
    }
}

/// A moment of a run: the files, the engine, the action that is to be
/// performed next, the cursors of input and key, and the number of chunks
/// written.
struct Moment {
    files: FilesView,
    engine: EngineView,
    action: ActionView,
    in_pos: int,
    key_pos: int,
    chunks: int,
}

impl Moment {
    /// The moment after the action was performed with the given outcome.
    spec fn after(
        self,
        event: EventView,
        files: FilesView,
        in_pos: int,
        key_pos: int,
        chunks: int,
    ) -> Moment {
        let (engine, action) = self.engine.step(event);
        Moment { files, engine, action, in_pos, key_pos, chunks }
    }

    /// The moment after the action failed.
    spec fn struck(self) -> Moment {
        self.after(EventView::Failed, self.files, self.in_pos, self.key_pos, self.chunks)
    }

    /// The part of a run the action belongs to, counted down.
    spec fn stage_rank(self) -> int {
        match self.action {
            ActionView::CreateStaging => 5,
            ActionView::ReadInput(_)
            | ActionView::ReadKey(_)
            | ActionView::RewindKey
            | ActionView::Write(_) => 4,
            ActionView::Flush => 3,
            ActionView::DeleteInput => 2,
            ActionView::RenameStaging => 1,
            _ => 0,
        }
    }

    /// While chunks are transformed: the bytes that are not yet written.
    spec fn bytes_left(self, start: FilesView) -> int {
        if self.stage_rank() == 4 {
            (start.input->0).len() - written_of(self.files)
        } else {
            0
        }
    }

    /// Within a chunk: reading it comes first, then its key bytes as long
    /// as some are missing, then writing.
    spec fn need_rank(self) -> int {
        match self.action {
            ActionView::ReadInput(_) => (self.engine.chunk_size() + 2) as int,
            ActionView::ReadKey(_) | ActionView::RewindKey => self.engine.pending.len()
                - self.engine.source.buffered.len() + 1,
            _ => 0,
        }
    }

    /// Between two key bytes: a read at the end of the key, a rewind, a
    /// read at its start.
    spec fn rewind_rank(self) -> int {
        match self.action {
            ActionView::ReadKey(_) => if self.engine.source.rewound {
                0
            } else {
                2
            },
            ActionView::RewindKey => 1,
            _ => 0,
        }
    }

    /// The ranks of `next` are below those of `self`, the first that
    /// differs deciding.
    spec fn descends_to(self, next: Moment, start: FilesView) -> bool {
        let (a1, b1, c1, d1) = (
            self.stage_rank(),
            self.bytes_left(start),
            self.need_rank(),
            self.rewind_rank(),
        );
        let (a2, b2, c2, d2) = (
            next.stage_rank(),
            next.bytes_left(start),
            next.need_rank(),
            next.rewind_rank(),
        );
        &&& a1 >= 0 && b1 >= 0 && c1 >= 0 && d1 >= 0
        &&& a2 < a1 || (a2 == a1 && (b2 < b1 || (b2 == b1 && (c2 < c1 || (c2 == c1 && d2 < d1)))))
    }

    /// Whether the fault makes the action of this moment fail.
    spec fn strikes(self, fault: Fault) -> bool {
        match self.action {
            ActionView::CreateStaging => fault == Fault::CreateStaging,
            ActionView::Write(_) => fault == Fault::Write(self.chunks as usize),
            ActionView::Flush => fault == Fault::Flush,
            ActionView::DeleteInput => fault == Fault::Delete,
            ActionView::RenameStaging => fault == Fault::Rename,
            _ => false,
        }
    }

    /// The fault did not strike at an earlier action.
    spec fn spared(self, fault: Fault) -> bool {
        match self.action {
            ActionView::CreateStaging | ActionView::Finish | ActionView::Abort(_) => true,
            ActionView::DeleteInput => fault != Fault::CreateStaging && fault != Fault::Flush,
            ActionView::RenameStaging => fault != Fault::CreateStaging && fault != Fault::Flush
                && fault != Fault::Delete,
            _ => fault != Fault::CreateStaging,
        }
    }

    /// What holds before each action of a run is performed.
    spec fn inv(self, start: FilesView, fault: Fault) -> bool {
        let Moment { files, engine, action, in_pos, key_pos, chunks } = self;
        let policy = engine.source.policy;
        let chunk_size = engine.chunk_size() as int;
        let buffered = engine.source.buffered;
        let key = start.key;
        let input = start.input->0;
        let output = transformed(input, key, policy, engine.nonce, engine.chunk_size());
        let written = written_of(files);
        &&& start.input is Some
        &&& preflight(policy, key.len(), input.len()) is None
        &&& engine.wf()
        &&& files.key == key
        &&& 0 <= in_pos <= input.len() <= usize::MAX
        &&& 0 <= key_pos <= key.len()
        &&& 0 <= chunks <= usize::MAX
        &&& fault matches Fault::Write(limit) ==> chunks <= limit
        &&& self.spared(fault)
        &&& match action {
            ActionView::CreateStaging => {
                &&& engine.phase == Phase::AwaitStaging
                &&& files == start
                &&& in_pos == 0
                &&& key_pos == 0
                &&& chunks == 0
                &&& buffered.len() == 0
                &&& !engine.source.rewound
            },
            ActionView::ReadInput(limit) => {
                &&& engine.phase == Phase::AwaitInput
                &&& limit == chunk_size
                &&& paced(files, input, output, written, chunks, chunk_size)
                &&& written == in_pos
                &&& window(policy, key, buffered, in_pos)
                &&& cursor_fits(policy, key.len() as int, key_pos, in_pos + buffered.len(), in_pos)
                &&& !engine.source.rewound
            },
            ActionView::ReadKey(limit) => {
                &&& engine.phase == Phase::AwaitKey
                &&& engine.source.demand(engine.pending.len()) == KeyDemand::Read(limit)
                &&& paced(files, input, output, written, chunks, chunk_size)
                &&& written < in_pos
                &&& in_pos == input.len() || in_pos - written == chunk_size
                &&& engine.pending == input.subrange(written, in_pos)
                &&& window(policy, key, buffered, written)
                &&& cursor_fits(
                    policy,
                    key.len() as int,
                    key_pos,
                    written + buffered.len(),
                    in_pos,
                )
                &&& engine.source.rewound ==> key_pos == 0
            },
            ActionView::RewindKey => {
                &&& engine.phase == Phase::AwaitRewind
                &&& policy == KeyPolicy::Cyclic
                &&& paced(files, input, output, written, chunks, chunk_size)
                &&& written < in_pos
                &&& in_pos == input.len() || in_pos - written == chunk_size
                &&& engine.pending == input.subrange(written, in_pos)
                &&& window(policy, key, buffered, written)
                &&& key_pos == key.len()
                &&& cursor_fits(
                    policy,
                    key.len() as int,
                    key_pos,
                    written + buffered.len(),
                    in_pos,
                )
                &&& engine.source.rewound
            },
            ActionView::Write(bytes) => {
                &&& engine.phase == Phase::AwaitWrite
                &&& paced(files, input, output, written, chunks, chunk_size)
                &&& written < in_pos
                &&& in_pos - written <= chunk_size
                &&& in_pos == input.len() || in_pos - written == chunk_size
                &&& bytes == output.subrange(written, in_pos)
                &&& window(policy, key, buffered, in_pos)
                &&& cursor_fits(policy, key.len() as int, key_pos, in_pos + buffered.len(), in_pos)
                &&& !engine.source.rewound
            },
            ActionView::Flush => {
                &&& engine.phase == Phase::AwaitFlush
                &&& files.input == Some(input)
                &&& files.staging == Some(output)
                &&& input.len() <= chunks * chunk_size
            },
            ActionView::DeleteInput => {
                &&& engine.phase == Phase::AwaitDelete
                &&& files.input == Some(input)
                &&& files.staging == Some(output)
                &&& input.len() <= chunks * chunk_size
            },
            ActionView::RenameStaging => {
                &&& engine.phase == Phase::AwaitRename
                &&& files.input.is_none()
                &&& files.staging == Some(output)
                &&& input.len() <= chunks * chunk_size
            },
            ActionView::Finish => (Ok::<(), TransformError>(()), files) == outcome(
                start,
                policy,
                engine.nonce,
                engine.chunk_size(),
                fault,
            ),
            ActionView::Abort(error) => (Err::<(), TransformError>(error), files) == outcome(
                start,
                policy,
                engine.nonce,
                engine.chunk_size(),
                fault,
            ),
        }
    }

    /// What performing the action must maintain: the outcome is one the
    /// engine expects, the invariant holds again, and the run has come
    /// closer to its end.
    spec fn leads_to(self, event: EventView, next: Moment, start: FilesView, fault: Fault) -> bool {
        &&& self.engine.expects(event)
        &&& next == self.after(event, next.files, next.in_pos, next.key_pos, next.chunks)
        &&& next.inv(start, fault)
        &&& self.descends_to(next, start)
        &&& next.engine.source.policy == self.engine.source.policy
        &&& next.engine.source.capacity == self.engine.source.capacity
        &&& next.engine.nonce == self.engine.nonce
    }
}

/// Numbers that are congruent stay so when both are shifted alike.
proof fn lemma_shift_congruent(a: int, b: int, shift: int, modulus: int)
    requires
        modulus > 0,
        a % modulus == b % modulus,
    ensures
        (a + shift) % modulus == (b + shift) % modulus,
{
    lemma_add_mod_noop(a, shift, modulus);
    lemma_add_mod_noop(b, shift, modulus);
}

/// An offset within a chunk is the position modulo the chunk size.
proof fn lemma_offset_in_chunk(chunks: int, chunk_size: int, offset: int)
    requires
        chunk_size > 0,
        0 <= offset < chunk_size,
    ensures
        (chunks * chunk_size + offset) % chunk_size == offset,
{
    lemma_mul_is_commutative(chunks, chunk_size);
    lemma_mod_multiples_vanish(chunks, offset, chunk_size);
    lemma_small_mod(offset as nat, chunk_size as nat);
}

/// A chunk that starts at a multiple of the chunk size, combined with the
/// key bytes that follow those already used, is the output at its place.
proof fn lemma_chunk_output(
    input: Seq<u8>,
    key: Seq<u8>,
    policy: KeyPolicy,
    nonce: Option<Seq<u8>>,
    chunk_size: nat,
    chunks: int,
    from: int,
    to: int,
    buffered: Seq<u8>,
)
    requires
        chunk_size > 0,
        from == chunks * chunk_size,
        0 <= from < to <= input.len(),
        to - from <= chunk_size,
        to - from <= buffered.len(),
        window(policy, key, buffered, from),
    ensures
        combined(input.subrange(from, to), buffered.take(to - from), nonce) == transformed(
            input,
            key,
            policy,
            nonce,
            chunk_size,
        ).subrange(from, to),
        window(policy, key, buffered.skip(to - from), to),
{
    let chunk = input.subrange(from, to);
    let mixed = combined(chunk, buffered.take(to - from), nonce);
    let output = transformed(input, key, policy, nonce, chunk_size);
    assert forall|j: int| 0 <= j < to - from implies mixed[j] == output.subrange(from, to)[j] by {
        lemma_offset_in_chunk(chunks, chunk_size as int, j);
        assert(buffered.take(to - from)[j] == key_at(policy, key, from + j));
        assert(output[from + j] == output_byte(input, key, policy, nonce, chunk_size, from + j));
    }
    assert(mixed =~= output.subrange(from, to));
    let rest = buffered.skip(to - from);
    assert forall|j: int| 0 <= j < rest.len() implies #[trigger] rest[j] == key_at(
        policy,
        key,
        to + j,
    ) by {
        assert(rest[j] == buffered[to - from + j]);
    }
}

/// Key bytes read at the cursor extend the window.
proof fn lemma_window_grows(
    policy: KeyPolicy,
    key: Seq<u8>,
    buffered: Seq<u8>,
    consumed: int,
    key_pos: int,
    got: int,
    in_pos: int,
)
    requires
        key.len() > 0,
        0 <= consumed,
        0 <= key_pos,
        0 < got,
        key_pos + got <= key.len(),
        window(policy, key, buffered, consumed),
        cursor_fits(policy, key.len() as int, key_pos, consumed + buffered.len(), in_pos),
        policy == KeyPolicy::Strict ==> consumed + buffered.len() + got <= in_pos,
    ensures
        window(policy, key, buffered + key.subrange(key_pos, key_pos + got), consumed),
        cursor_fits(
            policy,
            key.len() as int,
            key_pos + got,
            consumed + buffered.len() + got,
            in_pos,
        ),
{
    let fed = consumed + buffered.len();
    let grown = buffered + key.subrange(key_pos, key_pos + got);
    let modulus = key.len() as int;
    assert forall|j: int| 0 <= j < grown.len() implies grown[j] == key_at(
        policy,
        key,
        consumed + j,
    ) by {
        if j >= buffered.len() {
            let offset = j - buffered.len();
            assert(grown[j] == key[key_pos + offset]);
            if policy == KeyPolicy::Cyclic {
                lemma_shift_congruent(key_pos, fed, offset, modulus);
                lemma_small_mod((key_pos + offset) as nat, modulus as nat);
            }
        }
    }
    if policy == KeyPolicy::Cyclic {
        lemma_shift_congruent(key_pos, fed, got, modulus);
    }
}

/// Once a chunk is pending and the window holds: whether the engine asks
/// for key bytes or for a write, the invariant holds of what it asks.
proof fn lemma_pursue(now: Moment, fed: EngineView, next: Moment, start: FilesView, fault: Fault)
    requires
        now.inv(start, fault),
        start.input is Some,
        ({
            let input = start.input->0;
            let written = written_of(next.files);
            let chunk_size = fed.chunk_size() as int;
            &&& fed.source.wf()
            &&& fed.source.policy == now.engine.source.policy
            &&& fed.source.capacity == now.engine.source.capacity
            &&& fed.nonce == now.engine.nonce
            &&& nonce_usable(fed.nonce)
            &&& fed.chunk_size() <= usize::MAX
            &&& (next.engine, next.action) == fed.pursue_key()
            &&& next.chunks == now.chunks
            &&& 0 <= next.key_pos <= start.key.len()
            &&& paced(
                next.files,
                input,
                transformed(input, start.key, fed.source.policy, fed.nonce, fed.chunk_size()),
                written,
                next.chunks,
                chunk_size,
            )
            &&& next.files.key == start.key
            &&& written < next.in_pos <= input.len()
            &&& next.in_pos - written <= chunk_size
            &&& next.in_pos == input.len() || next.in_pos - written == chunk_size
            &&& fed.pending == input.subrange(written, next.in_pos)
            &&& window(fed.source.policy, start.key, fed.source.buffered, written)
            &&& cursor_fits(
                fed.source.policy,
                start.key.len() as int,
                next.key_pos,
                written + fed.source.buffered.len(),
                next.in_pos,
            )
            &&& fed.source.rewound ==> next.key_pos == 0
            &&& fed.source.rewound ==> fed.source.buffered.len() < fed.pending.len()
            &&& now.action is ReadInput || now.action is ReadKey
        }),
    ensures
        next.inv(start, fault),
        next.action is ReadKey || next.action is Write,
        next.action is ReadKey ==> next.engine.pending == fed.pending && next.engine.source
            == fed.source,
{
    let input = start.input->0;
    let written = written_of(next.files);
    if fed.source.buffered.len() >= fed.pending.len() {
        lemma_chunk_output(
            input,
            start.key,
            fed.source.policy,
            fed.nonce,
            fed.chunk_size(),
            next.chunks,
            written,
            next.in_pos,
            fed.source.buffered,
        );
    }
}

/// An action that the fault strikes ends the run with the outcome that is
/// stated for the fault.
proof fn lemma_struck(now: Moment, start: FilesView, fault: Fault)
    requires
        now.inv(start, fault),
        now.strikes(fault),
    ensures
        now.leads_to(EventView::Failed, now.struck(), start, fault),
{
}

/// After the staging file is created, empty, the first chunk is read.
proof fn lemma_created(now: Moment, next: Moment, start: FilesView, fault: Fault)
    requires
        now.inv(start, fault),
        now.action is CreateStaging,
        !now.strikes(fault),
        next == now.after(
            EventView::Done,
            FilesView { staging: Some(Seq::empty()), ..now.files },
            now.in_pos,
            now.key_pos,
            now.chunks,
        ),
    ensures
        now.leads_to(EventView::Done, next, start, fault),
{
    let input = start.input->0;
    let output = transformed(
        input,
        start.key,
        now.engine.source.policy,
        now.engine.nonce,
        now.engine.chunk_size(),
    );
    assert(output.take(0) =~= Seq::<u8>::empty());
}

/// After a read of the input: at its end the staging file is complete,
/// else the chunk that was read is pending.
proof fn lemma_input_read(now: Moment, next: Moment, end: int, start: FilesView, fault: Fault)
    requires
        now.inv(start, fault),
        now.action matches ActionView::ReadInput(limit) && end == if limit < (start.input->0).len()
            - now.in_pos {
            now.in_pos + limit
        } else {
            (start.input->0).len() as int
        },
        next == now.after(
            EventView::InputRead((start.input->0).subrange(now.in_pos, end)),
            now.files,
            end,
            now.key_pos,
            now.chunks,
        ),
    ensures
        now.leads_to(
            EventView::InputRead((start.input->0).subrange(now.in_pos, end)),
            next,
            start,
            fault,
        ),
{
    let input = start.input->0;
    let bytes = input.subrange(now.in_pos, end);
    let output = transformed(
        input,
        start.key,
        now.engine.source.policy,
        now.engine.nonce,
        now.engine.chunk_size(),
    );
    if bytes.len() == 0 {
        assert(output.take(now.in_pos) =~= output);
    } else {
        let fed = EngineView { pending: bytes, ..now.engine };
        lemma_pursue(now, fed, next, start, fault);
    }
}

/// After a read of the key: bytes extend the window; none, at the end of
/// the key, lead to a rewind.
proof fn lemma_key_read(now: Moment, next: Moment, end: int, start: FilesView, fault: Fault)
    requires
        now.inv(start, fault),
        now.action matches ActionView::ReadKey(limit) && end == if limit < start.key.len()
            - now.key_pos {
            now.key_pos + limit
        } else {
            start.key.len() as int
        },
        next == now.after(
            EventView::KeyRead(start.key.subrange(now.key_pos, end)),
            now.files,
            now.in_pos,
            end,
            now.chunks,
        ),
    ensures
        now.leads_to(
            EventView::KeyRead(start.key.subrange(now.key_pos, end)),
            next,
            start,
            fault,
        ),
{
    let bytes = start.key.subrange(now.key_pos, end);
    let written = written_of(now.files);
    if bytes.len() > 0 {
        lemma_window_grows(
            now.engine.source.policy,
            start.key,
            now.engine.source.buffered,
            written,
            now.key_pos,
            end - now.key_pos,
            now.in_pos,
        );
        let fed = EngineView { source: now.engine.source.supplied(bytes), ..now.engine };
        lemma_pursue(now, fed, next, start, fault);
    }
}

/// After a rewind the cursor is at the start of the key, which is where
/// the bytes read so far end, up to whole passes.
proof fn lemma_rewound(now: Moment, next: Moment, start: FilesView, fault: Fault)
    requires
        now.inv(start, fault),
        now.action is RewindKey,
        next == now.after(EventView::Done, now.files, now.in_pos, 0, now.chunks),
    ensures
        now.leads_to(EventView::Done, next, start, fault),
{
    lemma_small_mod(0, start.key.len());
    vstd::arithmetic::div_mod::lemma_mod_self_0(start.key.len() as int);
}

/// After a write the staging file is longer by the chunk.
proof fn lemma_written(now: Moment, next: Moment, start: FilesView, fault: Fault)
    requires
        now.inv(start, fault),
        now.action is Write,
        !now.strikes(fault),
        next == now.after(
            EventView::Done,
            FilesView {
                staging: Some(now.files.staging->0 + now.action->Write_0),
                ..now.files
            },
            now.in_pos,
            now.key_pos,
            now.chunks + 1,
        ),
    ensures
        now.leads_to(EventView::Done, next, start, fault),
        now.chunks + 1 <= usize::MAX,
{
    let input = start.input->0;
    let output = transformed(
        input,
        start.key,
        now.engine.source.policy,
        now.engine.nonce,
        now.engine.chunk_size(),
    );
    let written = written_of(now.files);
    let chunk_size = now.engine.chunk_size() as int;
    assert(output.take(written) + output.subrange(written, now.in_pos) =~= output.take(
        now.in_pos,
    ));
    assert((now.chunks + 1) * chunk_size == now.chunks * chunk_size + chunk_size)
        by (nonlinear_arith);
}

/// After the flush the input is to be deleted.
proof fn lemma_flushed(now: Moment, next: Moment, start: FilesView, fault: Fault)
    requires
        now.inv(start, fault),
        now.action is Flush,
        !now.strikes(fault),
        next == now.after(EventView::Done, now.files, now.in_pos, now.key_pos, now.chunks),
    ensures
        now.leads_to(EventView::Done, next, start, fault),
{
}

/// After the input is deleted the staging file is to be renamed.
proof fn lemma_deleted(now: Moment, next: Moment, start: FilesView, fault: Fault)
    requires
        now.inv(start, fault),
        now.action is DeleteInput,
        !now.strikes(fault),
        next == now.after(
            EventView::Done,
            FilesView { input: None, ..now.files },
            now.in_pos,
            now.key_pos,
            now.chunks,
        ),
    ensures
        now.leads_to(EventView::Done, next, start, fault),
{
}

/// After the rename the run is over: the output stands where the input
/// stood.
proof fn lemma_renamed(now: Moment, next: Moment, start: FilesView, fault: Fault)
    requires
        now.inv(start, fault),
        now.action is RenameStaging,
        !now.strikes(fault),
        next == now.after(
            EventView::Done,
            FilesView { input: now.files.staging, staging: None, ..now.files },
            now.in_pos,
            now.key_pos,
            now.chunks,
        ),
    ensures
        now.leads_to(EventView::Done, next, start, fault),
{
    if let Fault::Write(limit) = fault {
        lemma_mul_inequality(now.chunks, limit as int, now.engine.chunk_size() as int);
    }
}

/// Performs the actions of a run on `files` until the engine ends it.
fn drive(files: &mut MemoryFiles, fresh: Engine, fault: Fault) -> (result: Result<
    (),
    TransformError,
>)
    requires
        old(files)@.input is Some,
        (old(files)@.input->0).len() <= usize::MAX,
        fresh@.wf(),
        fresh@ == EngineView::created(fresh@.source.policy, fresh@.chunk_size(), fresh@.nonce),
        preflight(
            fresh@.source.policy,
            old(files)@.key.len(),
            (old(files)@.input->0).len(),
        ) is None,
    ensures
        (result, final(files)@) == outcome(
            old(files)@,
            fresh@.source.policy,
            fresh@.nonce,
            fresh@.chunk_size(),
            fault,
        ),
{
    let mut engine = fresh;
    let ghost start = files@;
    let mut in_pos: usize = 0;
    let mut key_pos: usize = 0;
    let mut chunks: usize = 0;
    let mut action: Action = engine.begin();
    let ghost mut now = Moment {
        files: files@,
        engine: engine@,
        action: action@,
        in_pos: 0,
        key_pos: 0,
        chunks: 0,
    };
    loop
        invariant
            start == old(files)@,
            engine@.source.policy == fresh@.source.policy,
            engine@.source.capacity == fresh@.source.capacity,
            engine@.nonce == fresh@.nonce,
            now == (Moment {
                files: files@,
                engine: engine@,
                action: action@,
                in_pos: in_pos as int,
                key_pos: key_pos as int,
                chunks: chunks as int,
            }),
            now.inv(start, fault),
        decreases now.stage_rank(), now.bytes_left(start), now.need_rank(), now.rewind_rank(),
    {
        let ghost next: Moment;
        let event: Event = match action {
            Action::Finish => {
                return Ok(());
            },
            Action::Abort(error) => {
                return Err(error);
            },
            Action::CreateStaging => {
                match fault {
                    Fault::CreateStaging => {
                        proof {
                            next = now.struck();
                            lemma_struck(now, start, fault);
                        }
                        Event::Failed
                    },
                    _ => {
                        files.staging = Some(Vec::new());
                        proof {
                            next = now.after(
                                EventView::Done,
                                files@,
                                in_pos as int,
                                key_pos as int,
                                chunks as int,
                            );
                            lemma_created(now, next, start, fault);
                        }
                        Event::Done
                    },
                }
            },
            Action::ReadInput(limit) => {
                let source: &Vec<u8> = files.input.as_ref().unwrap();
                let total: usize = source.len();
                let end: usize = if limit < total - in_pos {
                    in_pos + limit
                } else {
                    total
                };
                let bytes: Vec<u8> = slice_to_vec(slice_subrange(source.as_slice(), in_pos, end));
                proof {
                    next = now.after(
                        EventView::InputRead(bytes@),
                        files@,
                        end as int,
                        key_pos as int,
                        chunks as int,
                    );
                    lemma_input_read(now, next, end as int, start, fault);
                }
                in_pos = end;
                Event::InputRead(bytes)
            },
            Action::ReadKey(limit) => {
                let total: usize = files.key.len();
                let end: usize = if limit < total - key_pos {
                    key_pos + limit
                } else {
                    total
                };
                let bytes: Vec<u8> = slice_to_vec(
                    slice_subrange(files.key.as_slice(), key_pos, end),
                );
                proof {
                    next = now.after(
                        EventView::KeyRead(bytes@),
                        files@,
                        in_pos as int,
                        end as int,
                        chunks as int,
                    );
                    lemma_key_read(now, next, end as int, start, fault);
                }
                key_pos = end;
                Event::KeyRead(bytes)
            },
            Action::RewindKey => {
                proof {
                    next = now.after(EventView::Done, files@, in_pos as int, 0, chunks as int);
                    lemma_rewound(now, next, start, fault);
                }
                key_pos = 0;
                Event::Done
            },
            Action::Write(bytes) => {
                let failing: bool = match fault {
                    Fault::Write(limit) => limit == chunks,
                    _ => false,
                };
                if failing {
                    proof {
                        next = now.struck();
                        lemma_struck(now, start, fault);
                    }
                    Event::Failed
                } else {
                    let mut staged: Vec<u8> = files.staging.take().unwrap();
                    staged.extend_from_slice(bytes.as_slice());
                    assert(staged@ =~= now.files.staging->0 + bytes@);
                    files.staging = Some(staged);
                    proof {
                        next = now.after(
                            EventView::Done,
                            files@,
                            in_pos as int,
                            key_pos as int,
                            chunks + 1,
                        );
                        lemma_written(now, next, start, fault);
                    }
                    chunks = chunks + 1;
                    Event::Done
                }
            },
            Action::Flush => {
                match fault {
                    Fault::Flush => {
                        proof {
                            next = now.struck();
                            lemma_struck(now, start, fault);
                        }
                        Event::Failed
                    },
                    _ => {
                        proof {
                            next = now.after(
                                EventView::Done,
                                files@,
                                in_pos as int,
                                key_pos as int,
                                chunks as int,
                            );
                            lemma_flushed(now, next, start, fault);
                        }
                        Event::Done
                    },
                }
            },
            Action::DeleteInput => {
                match fault {
                    Fault::Delete => {
                        proof {
                            next = now.struck();
                            lemma_struck(now, start, fault);
                        }
                        Event::Failed
                    },
                    _ => {
                        files.input = None;
                        proof {
                            next = now.after(
                                EventView::Done,
                                files@,
                                in_pos as int,
                                key_pos as int,
                                chunks as int,
                            );
                            lemma_deleted(now, next, start, fault);
                        }
                        Event::Done
                    },
                }
            },
            Action::RenameStaging => {
                match fault {
                    Fault::Rename => {
                        proof {
                            next = now.struck();
                            lemma_struck(now, start, fault);
                        }
                        Event::Failed
                    },
                    _ => {
                        let staged: Option<Vec<u8>> = files.staging.take();
                        files.input = staged;
                        proof {
                            next = now.after(
                                EventView::Done,
                                files@,
                                in_pos as int,
                                key_pos as int,
                                chunks as int,
                            );
                            lemma_renamed(now, next, start, fault);
                        }
                        Event::Done
                    },
                }
            },
        };
        assert(now.leads_to(event@, next, start, fault));
        action = engine.step(event);
        proof {
            now = next;
        }
    }
}

/// Runs the transform under the cyclic policy, without a nonce, on files
/// held in memory.
pub fn run_cyclic(files: &mut MemoryFiles, chunk_size: usize, fault: Fault) -> (result: Result<
    (),
    TransformError,
>)
    requires
        chunk_size > 0,
    ensures
        (result, final(files)@) == outcome(
            old(files)@,
            KeyPolicy::Cyclic,
            None,
            chunk_size as nat,
            fault,
        ),
{
    match &files.input {
        Some(bytes) => {
            assert(bytes@.len() == bytes.len());
        },
        None => {
            return Err(TransformError::Io { file: FileRole::Input, op: IoOp::Open });
        },
    }
    match Engine::cyclic(files.key.len() as u64, chunk_size) {
        Ok(engine) => drive(files, engine, fault),
        Err(error) => Err(error),
    }
}

/// Runs the transform under the strict policy, with a nonce, on files held
/// in memory.
pub fn run_strict(
    files: &mut MemoryFiles,
    nonce: Vec<u8>,
    chunk_size: usize,
    fault: Fault,
) -> (result: Result<(), TransformError>)
    requires
        chunk_size > 0,
        nonce@.len() > 0,
    ensures
        (result, final(files)@) == outcome(
            old(files)@,
            KeyPolicy::Strict,
            Some(nonce@),
            chunk_size as nat,
            fault,
        ),
{
    let input_len: usize = match &files.input {
        Some(bytes) => bytes.len(),
        None => {
            return Err(TransformError::Io { file: FileRole::Input, op: IoOp::Open });
        },
    };
    match Engine::strict(files.key.len() as u64, input_len as u64, nonce, chunk_size) {
        Ok(engine) => drive(files, engine, fault),
        Err(error) => Err(error),
    }
}

} // verus!
