//! Uploading files in chunks: how a file is cut into chunks, and the steps
//! of an upload, with up to three attempts per chunk.

use vstd::prelude::*;
use crate::messages::{AppMsg, Msg, msgs_view};
use crate::paths::{child_of, child_path};
use crate::text::{decimal, decimal_string};

verus! {

/// The size of a chunk: 100 MiB.
pub const CHUNK_SIZE: u64 = 100 * 1024 * 1024;

/// How often a chunk is sent before the upload gives up.
pub const MAX_ATTEMPTS: u32 = 3;

/// The number of chunks of a file of `size` bytes: its size divided by the
/// chunk size and rounded up, and one chunk for an empty file.
pub open spec fn chunk_total(size: nat) -> nat {
    if size == 0 {
        1
    } else {
        ((size - 1) as nat / (CHUNK_SIZE as nat) + 1) as nat
    }
}

/// Where chunk `i` starts.
pub open spec fn chunk_offset(i: nat) -> nat {
    i * (CHUNK_SIZE as nat)
}

/// The length of chunk `i` of a file of `size` bytes: a full chunk, or what
/// is left of the file.
pub open spec fn chunk_len(size: nat, i: nat) -> nat {
    if size - chunk_offset(i) < CHUNK_SIZE {
        (size - chunk_offset(i)) as nat
    } else {
        CHUNK_SIZE as nat
    }
}

/// One chunk of a file: its number, where it starts and how many bytes it has.
#[derive(Clone, Copy, Debug, PartialEq, Eq, Structural)]
pub struct Chunk {
    pub index: u64,
    pub offset: u64,
    pub len: u64,
}

proof fn chunk_in_file(size: nat, i: nat)
    requires
        i < chunk_total(size),
    ensures
        size == 0 ==> i == 0,
        size > 0 ==> chunk_offset(i) < size,
{
    if size > 0 {
        let q = (size - 1) as nat / (CHUNK_SIZE as nat);
        assert(i <= q);
        assert(q * CHUNK_SIZE <= size - 1) by (nonlinear_arith)
            requires
                q == (size - 1) as nat / (CHUNK_SIZE as nat),
                size >= 1,
        ;
        assert(i * CHUNK_SIZE <= q * CHUNK_SIZE) by (nonlinear_arith)
            requires
                i <= q,
        ;
    }
}

/// The number of chunks of a file of `size` bytes.
pub fn chunk_count(size: u64) -> (n: u64)
    ensures
        n == chunk_total(size as nat),
{
    if size == 0 {
        1
    } else {
        (size - 1) / CHUNK_SIZE + 1
    }
}

/// Chunk `index` of a file of `size` bytes.
pub fn chunk_at(size: u64, index: u64) -> (c: Chunk)
    requires
        index < chunk_total(size as nat),
    ensures
        c.index == index,
        c.offset == chunk_offset(index as nat),
        c.len == chunk_len(size as nat, index as nat),
{
    proof {
        chunk_in_file(size as nat, index as nat);
    }
    let offset = index * CHUNK_SIZE;
    let left = size - offset;
    let len = if left < CHUNK_SIZE {
        left
    } else {
        CHUNK_SIZE
    };
    Chunk { index, offset, len }
}

/// Consecutive chunks fit together: every chunk but the last is full and
/// ends where the next one starts, and the last one ends with the file.
pub proof fn chunks_fit(size: nat, i: nat)
    requires
        i < chunk_total(size),
    ensures
        i + 1 < chunk_total(size) ==> chunk_len(size, i) == CHUNK_SIZE && chunk_offset(i)
            + chunk_len(size, i) == chunk_offset(i + 1),
        i + 1 == chunk_total(size) ==> chunk_offset(i) + chunk_len(size, i) == size,
        size > 0 ==> chunk_len(size, i) > 0,
{
    chunk_in_file(size, i);
    assert(chunk_offset(i + 1) == chunk_offset(i) + CHUNK_SIZE) by (nonlinear_arith);
    if i + 1 < chunk_total(size) {
        chunk_in_file(size, i + 1);
    }
    if i + 1 == chunk_total(size) && size > 0 {
        let q = (size - 1) as nat / (CHUNK_SIZE as nat);
        assert(i == q);
        assert(size - 1 < (q + 1) * CHUNK_SIZE) by (nonlinear_arith)
            requires
                q == (size - 1) as nat / (CHUNK_SIZE as nat),
                size >= 1,
        ;
        assert((q + 1) * CHUNK_SIZE == chunk_offset(i) + CHUNK_SIZE) by (nonlinear_arith)
            requires
                i == q,
        ;
        assert(size - chunk_offset(i) <= CHUNK_SIZE);
    }
    if size == 0 {
        assert(i == 0);
        assert(chunk_offset(0) == 0) by (nonlinear_arith);
    }
}

/// The number of bytes in the chunks before chunk `k`.
pub open spec fn bytes_before(size: nat, k: nat) -> nat
    decreases k,
{
    if k == 0 {
        0
    } else {
        bytes_before(size, (k - 1) as nat) + chunk_len(size, (k - 1) as nat)
    }
}

/// The chunks before chunk `k` are exactly the bytes before its start.
proof fn bytes_before_start(size: nat, k: nat)
    requires
        k < chunk_total(size),
    ensures
        bytes_before(size, k) == chunk_offset(k),
    decreases k,
{
    if k > 0 {
        bytes_before_start(size, (k - 1) as nat);
        chunks_fit(size, (k - 1) as nat);
    }
}

/// The chunks of a file, taken in order, hold exactly its bytes: together
/// they are as long as the file.
pub proof fn chunks_cover_file(size: nat)
    ensures
        bytes_before(size, chunk_total(size)) == size,
{
    let last = (chunk_total(size) - 1) as nat;
    bytes_before_start(size, last);
    chunks_fit(size, last);
}


/// Where an upload stands.
#[derive(Clone, Copy, Debug, PartialEq, Eq, Structural)]
pub enum UploadStage {
    /// Waiting for the current file to be opened.
    Opening,
    /// Waiting for chunk `chunk` of the current file, of `size` bytes, to be read.
    Reading { size: u64, chunk: u64 },
    /// Waiting for the server's answer to chunk `chunk`, sent after
    /// `attempts` failed attempts.
    Sending { size: u64, chunk: u64, attempts: u32 },
    /// Pausing before another attempt at chunk `chunk`, after `attempts`
    /// failed attempts.
    Pausing { size: u64, chunk: u64, attempts: u32 },
    /// The upload is over.
    Done,
}

/// What happened to the last step of an upload.
#[derive(Debug)]
pub enum UploadInput {
    /// The current file was opened; it has this many bytes.
    Opened(u64),
    /// The current file could not be opened, for the reason given.
    OpenFailed(String),
    /// The chunk was read.
    ChunkRead,
    /// The chunk could not be read, for the reason given.
    ReadFailed(String),
    /// The server accepted the chunk.
    Sent,
    /// The chunk did not reach the server or the server refused it.
    SendFailed,
    /// The pause is over.
    Resumed,
}

/// An upload input as a value.
pub enum InputView {
    Opened(u64),
    OpenFailed(Seq<char>),
    ChunkRead,
    ReadFailed(Seq<char>),
    Sent,
    SendFailed,
    Resumed,
}

impl View for UploadInput {
    type V = InputView;

    open spec fn view(&self) -> InputView {
        match self {
            UploadInput::Opened(n) => InputView::Opened(*n),
            UploadInput::OpenFailed(e) => InputView::OpenFailed(e@),
            UploadInput::ChunkRead => InputView::ChunkRead,
            UploadInput::ReadFailed(e) => InputView::ReadFailed(e@),
            UploadInput::Sent => InputView::Sent,
            UploadInput::SendFailed => InputView::SendFailed,
            UploadInput::Resumed => InputView::Resumed,
        }
    }
}

/// The fields of the form that carries one chunk: the name of the file on
/// the server, the chunk's number, the number of chunks and where the chunk
/// starts, each in decimal.
#[derive(Debug)]
pub struct ChunkForm {
    pub filename: String,
    pub chunk_index: String,
    pub total_chunks: String,
    pub offset: String,
}

/// A chunk form as a value.
pub struct FormView {
    pub filename: Seq<char>,
    pub chunk_index: Seq<char>,
    pub total_chunks: Seq<char>,
    pub offset: Seq<char>,
}

impl View for ChunkForm {
    type V = FormView;

    open spec fn view(&self) -> FormView {
        FormView {
            filename: self.filename@,
            chunk_index: self.chunk_index@,
            total_chunks: self.total_chunks@,
            offset: self.offset@,
        }
    }
}

/// The next thing to do for an upload.
#[derive(Debug)]
pub enum UploadAction {
    /// Open the local file at this position of the list.
    Open(usize),
    /// Read the next chunk of the open file: it starts at the first number
    /// and has as many bytes as the second.
    Read(u64, u64),
    /// Send the chunk read last, with this form.
    Send(ChunkForm),
    /// Pause before trying again, then report `Resumed`.
    Pause,
    /// The upload is over.
    Finish,
}

/// An upload action as a value.
pub enum ActionView {
    Open(nat),
    Read(u64, u64),
    Send(FormView),
    Pause,
    Finish,
}

impl View for UploadAction {
    type V = ActionView;

    open spec fn view(&self) -> ActionView {
        match self {
            UploadAction::Open(i) => ActionView::Open(*i as nat),
            UploadAction::Read(o, n) => ActionView::Read(*o, *n),
            UploadAction::Send(f) => ActionView::Send(f@),
            UploadAction::Pause => ActionView::Pause,
            UploadAction::Finish => ActionView::Finish,
        }
    }
}

/// An upload as a value: the names of the files on the server, the position
/// of the current file and the stage.
pub struct UploadView {
    pub targets: Seq<Seq<char>>,
    pub file: nat,
    pub stage: UploadStage,
}

/// One step of an upload: its new state, the messages to show and the next
/// action.
pub struct StepView {
    pub next: UploadView,
    pub msgs: Seq<Msg>,
    pub action: ActionView,
}

/// The form for chunk `chunk` of the current file of `m`, of `size` bytes.
pub open spec fn form_for(m: UploadView, size: u64, chunk: u64) -> FormView {
    FormView {
        filename: m.targets[m.file as int],
        chunk_index: decimal(chunk as nat),
        total_chunks: decimal(chunk_total(size as nat)),
        offset: decimal(chunk_offset(chunk as nat)),
    }
}

/// Going on with the file after the current one, after the messages `msgs`:
/// open it, or, when there is none, report that the upload is complete.
pub open spec fn after_file(m: UploadView, msgs: Seq<Msg>) -> StepView {
    if m.file + 1 < m.targets.len() {
        StepView {
            next: UploadView { file: m.file + 1, stage: UploadStage::Opening, ..m },
            msgs,
            action: ActionView::Open(m.file + 1),
        }
    } else {
        StepView {
            next: UploadView { stage: UploadStage::Done, ..m },
            msgs: msgs.push(Msg::ActionSuccess("Upload complete!"@)),
            action: ActionView::Finish,
        }
    }
}

/// The step of the upload `m` on `input`.
///
/// An opened file is read chunk by chunk; a chunk that was read is sent; an
/// accepted chunk is reported as progress and followed by the next chunk, or
/// by the next file after the last one. A file that cannot be opened, or a
/// chunk that cannot be read, is reported and the upload goes on with the next
/// file. A chunk that fails is sent again after a pause, up to three attempts
/// in all; after the third failure the upload reports it and stops. Once every
/// file was handled the upload reports that it is complete. Any input that
/// does not fit the stage ends the upload without a message.
pub open spec fn upload_step(m: UploadView, input: InputView) -> StepView {
    match (m.stage, input) {
        (UploadStage::Opening, InputView::Opened(size)) => StepView {
            next: UploadView { stage: UploadStage::Reading { size, chunk: 0 }, ..m },
            msgs: Seq::empty(),
            action: ActionView::Read(0, chunk_len(size as nat, 0) as u64),
        },
        (UploadStage::Opening, InputView::OpenFailed(e)) => after_file(
            m,
            seq![Msg::Error("Could not read local file: "@ + e)],
        ),
        (UploadStage::Reading { size, chunk }, InputView::ChunkRead) => StepView {
            next: UploadView { stage: UploadStage::Sending { size, chunk, attempts: 0 }, ..m },
            msgs: Seq::empty(),
            action: ActionView::Send(form_for(m, size, chunk)),
        },
        (UploadStage::Reading { size, chunk }, InputView::ReadFailed(e)) => after_file(
            m,
            seq![Msg::Error("Failed to read local chunk: "@ + e)],
        ),
        (UploadStage::Sending { size, chunk, attempts }, InputView::Sent) => {
            let progress = seq![Msg::UploadProgress((chunk + 1) as u64, chunk_total(size as nat) as u64)];
            if chunk + 1 < chunk_total(size as nat) {
                StepView {
                    next: UploadView {
                        stage: UploadStage::Reading { size, chunk: (chunk + 1) as u64 },
                        ..m
                    },
                    msgs: progress,
                    action: ActionView::Read(
                        chunk_offset((chunk + 1) as nat) as u64,
                        chunk_len(size as nat, (chunk + 1) as nat) as u64,
                    ),
                }
            } else {
                after_file(m, progress)
            }
        },
        (UploadStage::Sending { size, chunk, attempts }, InputView::SendFailed) => StepView {
            next: UploadView {
                stage: UploadStage::Pausing { size, chunk, attempts: (attempts + 1) as u32 },
                ..m
            },
            msgs: Seq::empty(),
            action: ActionView::Pause,
        },
        (UploadStage::Pausing { size, chunk, attempts }, InputView::Resumed) => if attempts
            < MAX_ATTEMPTS {
            StepView {
                next: UploadView { stage: UploadStage::Sending { size, chunk, attempts }, ..m },
                msgs: Seq::empty(),
                action: ActionView::Send(form_for(m, size, chunk)),
            }
        } else {
            StepView {
                next: UploadView { stage: UploadStage::Done, ..m },
                msgs: seq![Msg::Error("Upload failed after 3 retries: "@ + m.targets[m.file as int])],
                action: ActionView::Finish,
            }
        },
        _ => StepView {
            next: UploadView { stage: UploadStage::Done, ..m },
            msgs: Seq::empty(),
            action: ActionView::Finish,
        },
    }
}

/// Whether `m` is a state an upload can be in: the current file is one of
/// the files unless the upload is over, the chunk is one of the file's chunks,
/// a chunk being sent has failed fewer than three times and a pause follows
/// one to three failures.
pub open spec fn upload_ok(m: UploadView) -> bool {
    &&& m.stage != UploadStage::Done ==> m.file < m.targets.len()
    &&& match m.stage {
        UploadStage::Reading { size, chunk } => chunk < chunk_total(size as nat),
        UploadStage::Sending { size, chunk, attempts } => chunk < chunk_total(size as nat)
            && attempts < MAX_ATTEMPTS,
        UploadStage::Pausing { size, chunk, attempts } => chunk < chunk_total(size as nat) && 1
            <= attempts <= MAX_ATTEMPTS,
        _ => true,
    }
}

/// An upload of local files into a folder on the server.
pub struct Uploader {
    targets: Vec<String>,
    file: usize,
    stage: UploadStage,
}

impl View for Uploader {
    type V = UploadView;

    closed spec fn view(&self) -> UploadView {
        UploadView {
            targets: self.targets@.map_values(|t: String| t@),
            file: self.file as nat,
            stage: self.stage,
        }
    }
}

impl Uploader {
    #[verifier::type_invariant]
    closed spec fn well_formed(&self) -> bool {
        upload_ok(self@)
    }

    /// An upload of the files `names` into the folder `folder`, with its first
    /// action: opening the first file, or, with no files, reporting at once
    /// that the upload is complete.
    pub fn new(folder: &str, names: &Vec<String>) -> (res: (Uploader, Vec<AppMsg>, UploadAction))
        ensures
            res.0@.targets == names@.map_values(|n: String| child_of(folder@, n@)),
            res.0@.file == 0,
            names.len() > 0 ==> res.0@.stage == UploadStage::Opening && msgs_view(res.1@)
                == Seq::<Msg>::empty() && res.2@ == ActionView::Open(0),
            names.len() == 0 ==> res.0@.stage == UploadStage::Done && msgs_view(res.1@) == seq![
                Msg::ActionSuccess("Upload complete!"@),
            ] && res.2@ == ActionView::Finish,
    {
        let mut targets: Vec<String> = Vec::new();
        let mut i: usize = 0;
        while i < names.len()
            invariant
                i <= names.len(),
                targets.len() == i,
                forall|k: int| 0 <= k < i ==> #[trigger] targets@[k]@ == child_of(folder@, names@[k]@),
            decreases names.len() - i,
        {
            let t = child_path(folder, names[i].as_str());
            targets.push(t);
            i = i + 1;
        }
        assert(targets@.map_values(|t: String| t@) =~= names@.map_values(|n: String| child_of(folder@, n@)));
        let mut msgs: Vec<AppMsg> = Vec::new();
        if names.len() == 0 {
            msgs.push(AppMsg::ActionSuccess(String::from_str("Upload complete!")));
            assert(msgs_view(msgs@) =~= seq![Msg::ActionSuccess("Upload complete!"@)]);
            (Uploader { targets, file: 0, stage: UploadStage::Done }, msgs, UploadAction::Finish)
        } else {
            assert(msgs_view(msgs@) =~= Seq::<Msg>::empty());
            (Uploader { targets, file: 0, stage: UploadStage::Opening }, msgs, UploadAction::Open(0))
        }
    }

    /// The form for chunk `chunk` of the current file, of `size` bytes.
    fn form(&self, size: u64, chunk: u64) -> (f: ChunkForm)
        requires
            self.file < self.targets.len(),
            chunk < chunk_total(size as nat),
        ensures
            f@ == form_for(self@, size, chunk),
    {
        proof {
            chunk_in_file(size as nat, chunk as nat);
        }
        let c = chunk_at(size, chunk);
        ChunkForm {
            filename: self.targets[self.file].clone(),
            chunk_index: decimal_string(chunk),
            total_chunks: decimal_string(chunk_count(size)),
            offset: decimal_string(c.offset),
        }
    }

    /// Goes on with the next file after the messages `msgs`.
    fn next_file(&mut self, msgs: Vec<AppMsg>) -> (res: (Vec<AppMsg>, UploadAction))
        requires
            old(self).file < old(self).targets.len(),
        ensures
            final(self)@ == after_file(old(self)@, msgs_view(msgs@)).next,
            msgs_view(res.0@) == after_file(old(self)@, msgs_view(msgs@)).msgs,
            res.1@ == after_file(old(self)@, msgs_view(msgs@)).action,
    {
        let mut msgs = msgs;
        if self.file + 1 < self.targets.len() {
            self.stage = UploadStage::Opening;
            self.file = self.file + 1;
            (msgs, UploadAction::Open(self.file))
        } else {
            self.stage = UploadStage::Done;
            let ghost before = msgs@;
            msgs.push(AppMsg::ActionSuccess(String::from_str("Upload complete!")));
            assert(msgs_view(msgs@) =~= msgs_view(before).push(Msg::ActionSuccess("Upload complete!"@)));
            (msgs, UploadAction::Finish)
        }
    }

    /// Takes the outcome `input` of the last action and gives the messages to
    /// show and the next action.
    pub fn step(&mut self, input: UploadInput) -> (res: (Vec<AppMsg>, UploadAction))
        ensures
            final(self)@ == upload_step(old(self)@, input@).next,
            msgs_view(res.0@) == upload_step(old(self)@, input@).msgs,
            res.1@ == upload_step(old(self)@, input@).action,
    {
        proof {
            use_type_invariant(&*self);
        }
        let ghost m = self@;
        let none: Vec<AppMsg> = Vec::new();
        assert(msgs_view(none@) =~= Seq::<Msg>::empty());
        match (self.stage, input) {
            (UploadStage::Opening, UploadInput::Opened(size)) => {
                proof {
                    chunk_in_file(size as nat, 0);
                }
                let first = chunk_at(size, 0);
                self.stage = UploadStage::Reading { size, chunk: 0 };
                (none, UploadAction::Read(0, first.len))
            },
            (UploadStage::Opening, UploadInput::OpenFailed(e)) => {
                let mut msgs: Vec<AppMsg> = Vec::new();
                let mut text = String::from_str("Could not read local file: ");
                text.append(e.as_str());
                msgs.push(AppMsg::Error(text));
                assert(msgs_view(msgs@) =~= seq![Msg::Error("Could not read local file: "@ + e@)]);
                self.next_file(msgs)
            },
            (UploadStage::Reading { size, chunk }, UploadInput::ChunkRead) => {
                let f = self.form(size, chunk);
                self.stage = UploadStage::Sending { size, chunk, attempts: 0 };
                (none, UploadAction::Send(f))
            },
            (UploadStage::Reading { size, chunk }, UploadInput::ReadFailed(e)) => {
                let mut msgs: Vec<AppMsg> = Vec::new();
                let mut text = String::from_str("Failed to read local chunk: ");
                text.append(e.as_str());
                msgs.push(AppMsg::Error(text));
                assert(msgs_view(msgs@) =~= seq![Msg::Error("Failed to read local chunk: "@ + e@)]);
                self.next_file(msgs)
            },
            (UploadStage::Sending { size, chunk, attempts }, UploadInput::Sent) => {
                let total = chunk_count(size);
                let mut msgs: Vec<AppMsg> = Vec::new();
                msgs.push(AppMsg::UploadProgress(chunk + 1, total));
                assert(msgs_view(msgs@) =~= seq![Msg::UploadProgress((chunk + 1) as u64, total)]);
                if chunk + 1 < total {
                    let next = chunk_at(size, chunk + 1);
                    self.stage = UploadStage::Reading { size, chunk: chunk + 1 };
                    (msgs, UploadAction::Read(next.offset, next.len))
                } else {
                    self.next_file(msgs)
                }
            },
            (UploadStage::Sending { size, chunk, attempts }, UploadInput::SendFailed) => {
                self.stage = UploadStage::Pausing { size, chunk, attempts: attempts + 1 };
                (none, UploadAction::Pause)
            },
            (UploadStage::Pausing { size, chunk, attempts }, UploadInput::Resumed) => {
                if attempts < MAX_ATTEMPTS {
                    let f = self.form(size, chunk);
                    self.stage = UploadStage::Sending { size, chunk, attempts };
                    (none, UploadAction::Send(f))
                } else {
                    let mut text = String::from_str("Upload failed after 3 retries: ");
                    text.append(self.targets[self.file].as_str());
                    self.stage = UploadStage::Done;
                    let mut msgs: Vec<AppMsg> = Vec::new();
                    msgs.push(AppMsg::Error(text));
                    assert(msgs_view(msgs@) =~= seq![
                        Msg::Error("Upload failed after 3 retries: "@ + m.targets[m.file as int]),
                    ]);
                    (msgs, UploadAction::Finish)
                }
            },
            _ => {
                self.stage = UploadStage::Done;
                (none, UploadAction::Finish)
            },
        }
    }

    /// Where the upload stands.
    pub fn stage(&self) -> (s: UploadStage)
        ensures
            s == self@.stage,
    {
        self.stage
    }
}

/// Every step keeps an upload in a state it can be in. In particular a chunk
/// is only ever sent while it has failed fewer than three times, so no chunk
/// is sent more than three times.
pub proof fn upload_step_keeps_ok(m: UploadView, input: InputView)
    requires
        upload_ok(m),
    ensures
        upload_ok(upload_step(m, input).next),
{
    match (m.stage, input) {
        (UploadStage::Opening, InputView::Opened(size)) => {
            assert(0 < chunk_total(size as nat));
        },
        _ => {},
    }
}

/// Every progress report of an upload counts at least one sent chunk and no
/// more chunks than the file has.
pub proof fn upload_progress_in_range(m: UploadView, input: InputView, i: int)
    requires
        upload_ok(m),
        0 <= i < upload_step(m, input).msgs.len(),
    ensures
        upload_step(m, input).msgs[i] matches Msg::UploadProgress(done, total) ==> 1 <= done
            <= total,
{
}


/// A chunk that fails three times ends the upload: starting from its first
/// attempt, three failures, each followed by a pause, give two more attempts
/// and then the failure message, with nothing left to do.
pub proof fn three_failures_end_upload(m: UploadView, size: u64, chunk: u64)
    requires
        upload_ok(m),
        m.stage == (UploadStage::Sending { size, chunk, attempts: 0 }),
    ensures
        ({
            let s1 = upload_step(m, InputView::SendFailed);
            let s2 = upload_step(s1.next, InputView::Resumed);
            let s3 = upload_step(s2.next, InputView::SendFailed);
            let s4 = upload_step(s3.next, InputView::Resumed);
            let s5 = upload_step(s4.next, InputView::SendFailed);
            let s6 = upload_step(s5.next, InputView::Resumed);
            &&& s2.action == ActionView::Send(form_for(m, size, chunk))
            &&& s4.action == ActionView::Send(form_for(m, size, chunk))
            &&& s6.action == ActionView::Finish
            &&& s6.next.stage == UploadStage::Done
            &&& s6.msgs == seq![Msg::Error("Upload failed after 3 retries: "@ + m.targets[m.file as int])]
        }),
{
}

/// Every chunk form sent during an upload of the files `names` into the
/// folder `folder` carries the server name of the file being uploaded:
/// `folder/name` of the current file. No step changes the files' names.
pub proof fn chunk_forms_name_current_file(
    m: UploadView,
    input: InputView,
    folder: Seq<char>,
    names: Seq<Seq<char>>,
)
    requires
        upload_ok(m),
        m.targets == names.map_values(|n: Seq<char>| child_of(folder, n)),
    ensures
        upload_step(m, input).next.targets == m.targets,
        upload_step(m, input).action matches ActionView::Send(f) ==> m.file < names.len()
            && f.filename == child_of(folder, names[m.file as int]),
{
    if m.stage != UploadStage::Done {
        assert(m.targets[m.file as int] == child_of(folder, names[m.file as int]));
    }
}

} // verus!
