//! Per-client session state machine: metadata negotiation, block streaming,
//! targeted retransmission, hash confirmation, and cooperative cancellation.
//!
//! The machine is a pure function from state and observed event to next
//! state and effects; the surrounding runtime performs the effects (send a
//! datagram, read a block, deliver a report) and feeds back the next event.

use vstd::prelude::*;
use crate::protocol::{UFT_DATA_SIZE, valid_name, UftServerError};
use crate::codec::{Packet, PacketSpec, spec_encode, encode, sha256_of, sha256_digest};
use crate::meta::{spec_total_blocks, spec_final_block_size, total_blocks, final_block_size};
use crate::blocks::{keep_lt, filter_below, lemma_keep_lt_bound};

verus! {

/// Why a session ended without completing.
#[derive(Clone, Copy, PartialEq, Eq, Structural, Debug)]
pub enum FailReason {
    /// The requested file could not be opened, or was empty.
    FileUnavailable,
    /// A digest did not match: the metadata digest after all retries, or the
    /// client's verdict on the transferred content.
    HashMismatch,
    /// A retry timer expired with no reply once the retry budget was spent.
    Timeout,
    /// A block read returned the wrong amount of data.
    IoFailure,
}

/// The control state of a transfer session.
#[derive(Clone, Copy, PartialEq, Eq, Structural, Debug)]
pub enum SessionState {
    Requested,
    SendingMeta,
    AwaitMetaAck,
    Transferring,
    AwaitCompletionAck,
    AwaitHash,
    Completed,
    Failed(FailReason),
    Cancelled,
}

impl SessionState {
    /// A state the session never leaves.
    pub open spec fn is_terminal(self) -> bool {
        self == SessionState::Completed || self is Failed || self == SessionState::Cancelled
    }

    /// A state after metadata was computed and before the session ended.
    pub open spec fn is_active(self) -> bool {
        ||| self == SessionState::SendingMeta
        ||| self == SessionState::AwaitMetaAck
        ||| self == SessionState::Transferring
        ||| self == SessionState::AwaitCompletionAck
        ||| self == SessionState::AwaitHash
    }
}

/// How a finished session reports to the coordinator.
pub enum Outcome {
    Completed { name: Vec<u8> },
    Failed { reason: FailReason },
    Cancelled,
}

/// The mathematical value of an `Outcome`.
#[verifier::ext_equal]
pub enum OutcomeV {
    Completed { name: Seq<u8> },
    Failed { reason: FailReason },
    Cancelled,
}

impl View for Outcome {
    type V = OutcomeV;

    open spec fn view(&self) -> OutcomeV {
        match self {
            Outcome::Completed { name } => OutcomeV::Completed { name: name@ },
            Outcome::Failed { reason } => OutcomeV::Failed { reason: *reason },
            Outcome::Cancelled => OutcomeV::Cancelled,
        }
    }
}

/// What a session can observe at a suspension point.
pub enum SessionEvent {
    /// The requested file was opened and statted, with its size in bytes.
    FileOpened { size: u64 },
    /// The requested file could not be opened.
    FileOpenFailed,
    /// The scheduler resumed the session with nothing else pending.
    Proceed,
    /// The block the session asked for was read from the file.
    BlockRead { payload: Vec<u8> },
    /// The block read failed.
    ReadFailed,
    /// META_RECEIVED arrived carrying the client's digest of the metadata.
    MetaAck { digest: Vec<u8> },
    /// BLOCK_REQUEST arrived: the client still misses these blocks.
    MissingBlocks { missing: Vec<u64> },
    /// FILE_RECEIVED arrived.
    AllBlocksReceived,
    /// HASH_VALID arrived carrying the client's content digest.
    HashOk { digest: Vec<u8> },
    /// CLIENT_ERROR arrived with this code.
    ClientFault { code: u32 },
    /// The armed retry timer expired.
    TimerExpired,
    /// The shutdown broadcast was observed.
    ShutdownObserved,
    /// Any other packet; ignored.
    Other,
}

/// The mathematical value of a `SessionEvent`.
#[verifier::ext_equal]
pub enum SessionEventV {
    FileOpened { size: u64 },
    FileOpenFailed,
    Proceed,
    BlockRead { payload: Seq<u8> },
    ReadFailed,
    MetaAck { digest: Seq<u8> },
    MissingBlocks { missing: Seq<u64> },
    AllBlocksReceived,
    HashOk { digest: Seq<u8> },
    ClientFault { code: u32 },
    TimerExpired,
    ShutdownObserved,
    Other,
}

impl View for SessionEvent {
    type V = SessionEventV;

    open spec fn view(&self) -> SessionEventV {
        match self {
            SessionEvent::FileOpened { size } => SessionEventV::FileOpened { size: *size },
            SessionEvent::FileOpenFailed => SessionEventV::FileOpenFailed,
            SessionEvent::Proceed => SessionEventV::Proceed,
            SessionEvent::BlockRead { payload } => SessionEventV::BlockRead { payload: payload@ },
            SessionEvent::ReadFailed => SessionEventV::ReadFailed,
            SessionEvent::MetaAck { digest } => SessionEventV::MetaAck { digest: digest@ },
            SessionEvent::MissingBlocks { missing } => SessionEventV::MissingBlocks {
                missing: missing@,
            },
            SessionEvent::AllBlocksReceived => SessionEventV::AllBlocksReceived,
            SessionEvent::HashOk { digest } => SessionEventV::HashOk { digest: digest@ },
            SessionEvent::ClientFault { code } => SessionEventV::ClientFault { code: *code },
            SessionEvent::TimerExpired => SessionEventV::TimerExpired,
            SessionEvent::ShutdownObserved => SessionEventV::ShutdownObserved,
            SessionEvent::Other => SessionEventV::Other,
        }
    }
}

/// The session event a forwarded client packet stands for.
pub open spec fn spec_event_of_packet(p: PacketSpec) -> SessionEventV {
    match p {
        PacketSpec::MetaReceived { digest } => SessionEventV::MetaAck { digest },
        PacketSpec::BlockRequest { missing } => SessionEventV::MissingBlocks { missing },
        PacketSpec::FileReceived => SessionEventV::AllBlocksReceived,
        PacketSpec::HashValid { digest } => SessionEventV::HashOk { digest },
        PacketSpec::ErrorPacket { code } => SessionEventV::ClientFault { code },
        _ => SessionEventV::Other,
    }
}

/// Turns a forwarded packet into the event a session consumes.
pub fn event_of_packet(p: Packet) -> (e: SessionEvent)
    ensures
        e@ == spec_event_of_packet(p@),
{
    match p {
        Packet::MetaReceived { digest } => SessionEvent::MetaAck { digest },
        Packet::BlockRequest { missing } => SessionEvent::MissingBlocks { missing },
        Packet::FileReceived => SessionEvent::AllBlocksReceived,
        Packet::HashValid { digest } => SessionEvent::HashOk { digest },
        Packet::ErrorPacket { code } => SessionEvent::ClientFault { code },
        _ => SessionEvent::Other,
    }
}

/// What a step asks the runtime to do.
pub struct Effects {
    /// Send this packet to the session's client.
    pub send: Option<Packet>,
    /// Deliver this report to the coordinator.
    pub report: Option<Outcome>,
    /// Read this block from the file and feed back `BlockRead`.
    pub read_block: Option<u64>,
    /// Arm the retry timer for the new state.
    pub arm_timer: bool,
}

/// The mathematical value of `Effects`.
#[verifier::ext_equal]
pub struct EffectsV {
    pub send: Option<PacketSpec>,
    pub report: Option<OutcomeV>,
    pub read_block: Option<u64>,
    pub arm_timer: bool,
}

impl View for Effects {
    type V = EffectsV;

    open spec fn view(&self) -> EffectsV {
        EffectsV {
            send: match &self.send {
                Some(p) => Some(p@),
                None => None,
            },
            report: match &self.report {
                Some(o) => Some(o@),
                None => None,
            },
            read_block: self.read_block,
            arm_timer: self.arm_timer,
        }
    }
}

/// No effect at all.
pub open spec fn no_effects() -> EffectsV {
    EffectsV { send: None, report: None, read_block: None, arm_timer: false }
}

/// Server-side state for one client's transfer.
pub struct Session {
    pub state: SessionState,
    pub file_name: Vec<u8>,
    pub total_blocks: u64,
    pub final_block_size: u16,
    /// Next block to stream while `Transferring`; equals `total_blocks` once
    /// the final block went out.
    pub next_block: u64,
    /// SHA-256 digest of the encoded FILE_META packet, for the client's ack.
    pub meta_digest: Vec<u8>,
    pub retries: u32,
    pub retry_bound: u32,
    /// Whether the file handle is held; released on every exit path.
    pub file_open: bool,
    /// Blocks still to re-send while awaiting the completion ack.
    pub resend_pending: Vec<u64>,
    /// Whether the one timeout retry of the resend set was spent.
    pub resend_retry_used: bool,
}

/// The mathematical value of a `Session`.
#[verifier::ext_equal]
pub struct SessionV {
    pub state: SessionState,
    pub file_name: Seq<u8>,
    pub total_blocks: u64,
    pub final_block_size: u16,
    pub next_block: u64,
    pub meta_digest: Seq<u8>,
    pub retries: u32,
    pub retry_bound: u32,
    pub file_open: bool,
    pub resend_pending: Seq<u64>,
    pub resend_retry_used: bool,
}

impl View for Session {
    type V = SessionV;

    open spec fn view(&self) -> SessionV {
        SessionV {
            state: self.state,
            file_name: self.file_name@,
            total_blocks: self.total_blocks,
            final_block_size: self.final_block_size,
            next_block: self.next_block,
            meta_digest: self.meta_digest@,
            retries: self.retries,
            retry_bound: self.retry_bound,
            file_open: self.file_open,
            resend_pending: self.resend_pending@,
            resend_retry_used: self.resend_retry_used,
        }
    }
}

impl SessionV {
    /// Internal consistency, preserved by every step.
    pub open spec fn wf(self) -> bool {
        &&& valid_name(self.file_name)
        &&& (self.state.is_active() ==> {
            &&& self.total_blocks >= 1
            &&& 1 <= self.final_block_size <= UFT_DATA_SIZE
            &&& self.meta_digest.len() == 32
            &&& self.next_block <= self.total_blocks
        })
        &&& (self.state == SessionState::Transferring ==> self.next_block < self.total_blocks)
        &&& (self.state == SessionState::Requested ==> self.next_block == 0
            && self.resend_pending.len() == 0)
        &&& (forall|i: int| 0 <= i < self.resend_pending.len()
            ==> self.resend_pending[i] < self.total_blocks)
    }

    /// The FILE_META packet this session announces.
    pub open spec fn meta_packet(self) -> PacketSpec {
        PacketSpec::FileMeta {
            name: self.file_name,
            total_blocks: self.total_blocks,
            final_block_size: self.final_block_size,
        }
    }
}

/// A fresh session for `file_name`, before the file-open attempt.
pub open spec fn spec_new_session(file_name: Seq<u8>, retry_bound: u32) -> SessionV {
    SessionV {
        state: SessionState::Requested,
        file_name: file_name,
        total_blocks: 0,
        final_block_size: 0,
        next_block: 0,
        meta_digest: Seq::empty(),
        retries: 0,
        retry_bound: retry_bound,
        file_open: false,
        resend_pending: Seq::empty(),
        resend_retry_used: false,
    }
}

/// The step outcome when a session fails: release the file, report, and
/// optionally notify the client.
pub open spec fn spec_fail(s: SessionV, reason: FailReason, notify: Option<PacketSpec>) -> (
    SessionV,
    EffectsV,
) {
    (
        SessionV { state: SessionState::Failed(reason), file_open: false, ..s },
        EffectsV {
            send: notify,
            report: Some(OutcomeV::Failed { reason }),
            read_block: None,
            arm_timer: false,
        },
    )
}

/// The transition relation of the session machine: from state and event to
/// next state and effects. Terminal states absorb every event; the shutdown
/// signal, observed in any non-terminal state, cancels the session, releases
/// the file handle, and reports Cancelled.
pub open spec fn spec_step(s: SessionV, e: SessionEventV) -> (SessionV, EffectsV) {
    if s.state.is_terminal() {
        (s, no_effects())
    } else if e == SessionEventV::ShutdownObserved {
        (
            SessionV { state: SessionState::Cancelled, file_open: false, ..s },
            EffectsV { send: None, report: Some(OutcomeV::Cancelled), read_block: None, arm_timer: false },
        )
    } else {
        match s.state {
            SessionState::Requested => match e {
                SessionEventV::FileOpened { size } => {
                    if size >= 1 {
                        let t = spec_total_blocks(size as int, UFT_DATA_SIZE as int) as u64;
                        let f = spec_final_block_size(size as int, UFT_DATA_SIZE as int) as u16;
                        let s2 = SessionV {
                            state: SessionState::SendingMeta,
                            total_blocks: t,
                            final_block_size: f,
                            meta_digest: sha256_of(spec_encode(PacketSpec::FileMeta {
                                name: s.file_name,
                                total_blocks: t,
                                final_block_size: f,
                            })),
                            file_open: true,
                            ..s
                        };
                        (s2, no_effects())
                    } else {
                        spec_fail(s, FailReason::FileUnavailable, Some(PacketSpec::ErrorPacket {
                            code: UftServerError::FILE_UNAVAILABLE.spec_code(),
                        }))
                    }
                },
                SessionEventV::FileOpenFailed => spec_fail(
                    s,
                    FailReason::FileUnavailable,
                    Some(PacketSpec::ErrorPacket {
                        code: UftServerError::FILE_UNAVAILABLE.spec_code(),
                    }),
                ),
                _ => (s, no_effects()),
            },
            SessionState::SendingMeta => match e {
                SessionEventV::Proceed => (
                    SessionV { state: SessionState::AwaitMetaAck, ..s },
                    EffectsV {
                        send: Some(s.meta_packet()),
                        report: None,
                        read_block: None,
                        arm_timer: true,
                    },
                ),
                _ => (s, no_effects()),
            },
            SessionState::AwaitMetaAck => match e {
                SessionEventV::MetaAck { digest } => {
                    if digest == s.meta_digest {
                        (
                            SessionV { state: SessionState::Transferring, next_block: 0, ..s },
                            EffectsV {
                                send: None,
                                report: None,
                                read_block: Some(0),
                                arm_timer: false,
                            },
                        )
                    } else if s.retries < s.retry_bound {
                        (
                            SessionV {
                                state: SessionState::SendingMeta,
                                retries: (s.retries + 1) as u32,
                                ..s
                            },
                            EffectsV {
                                send: Some(PacketSpec::ErrorPacket {
                                    code: UftServerError::META_HASH_INVALID.spec_code(),
                                }),
                                report: None,
                                read_block: None,
                                arm_timer: false,
                            },
                        )
                    } else {
                        spec_fail(s, FailReason::HashMismatch, Some(PacketSpec::ErrorPacket {
                            code: UftServerError::META_HASH_INVALID.spec_code(),
                        }))
                    }
                },
                SessionEventV::TimerExpired => {
                    if s.retries < s.retry_bound {
                        (
                            SessionV {
                                state: SessionState::SendingMeta,
                                retries: (s.retries + 1) as u32,
                                ..s
                            },
                            no_effects(),
                        )
                    } else {
                        spec_fail(s, FailReason::Timeout, None)
                    }
                },
                _ => (s, no_effects()),
            },
            SessionState::Transferring => match e {
                SessionEventV::BlockRead { payload } => {
                    if s.next_block + 1 < s.total_blocks {
                        if payload.len() == UFT_DATA_SIZE {
                            (
                                SessionV { next_block: (s.next_block + 1) as u64, ..s },
                                EffectsV {
                                    send: Some(PacketSpec::FileData {
                                        seq_no: s.next_block,
                                        payload,
                                    }),
                                    report: None,
                                    read_block: Some((s.next_block + 1) as u64),
                                    arm_timer: false,
                                },
                            )
                        } else {
                            spec_fail(s, FailReason::IoFailure, None)
                        }
                    } else {
                        if payload.len() == s.final_block_size {
                            (
                                SessionV {
                                    state: SessionState::AwaitCompletionAck,
                                    next_block: (s.next_block + 1) as u64,
                                    ..s
                                },
                                EffectsV {
                                    send: Some(PacketSpec::FileComplete {
                                        seq_no: s.next_block,
                                        payload,
                                    }),
                                    report: None,
                                    read_block: None,
                                    arm_timer: true,
                                },
                            )
                        } else {
                            spec_fail(s, FailReason::IoFailure, None)
                        }
                    }
                },
                SessionEventV::ReadFailed => spec_fail(s, FailReason::IoFailure, None),
                _ => (s, no_effects()),
            },
            SessionState::AwaitCompletionAck => match e {
                SessionEventV::AllBlocksReceived => (
                    SessionV { state: SessionState::AwaitHash, ..s },
                    no_effects(),
                ),
                SessionEventV::MissingBlocks { missing } => {
                    let kept = keep_lt(missing, s.total_blocks);
                    (
                        SessionV { resend_pending: kept, ..s },
                        EffectsV {
                            send: None,
                            report: None,
                            read_block: if kept.len() > 0 {
                                Some(kept[0])
                            } else {
                                None
                            },
                            arm_timer: kept.len() == 0,
                        },
                    )
                },
                SessionEventV::BlockRead { payload } => {
                    if s.resend_pending.len() == 0 {
                        (s, no_effects())
                    } else {
                        let b = s.resend_pending[0];
                        let rest = s.resend_pending.skip(1);
                        let is_final = b + 1 == s.total_blocks;
                        let want: int = if is_final {
                            s.final_block_size as int
                        } else {
                            UFT_DATA_SIZE as int
                        };
                        if payload.len() == want {
                            (
                                SessionV { resend_pending: rest, ..s },
                                EffectsV {
                                    send: Some(
                                        if is_final {
                                            PacketSpec::FileComplete { seq_no: b, payload }
                                        } else {
                                            PacketSpec::FileData { seq_no: b, payload }
                                        },
                                    ),
                                    report: None,
                                    read_block: if rest.len() > 0 {
                                        Some(rest[0])
                                    } else {
                                        None
                                    },
                                    arm_timer: rest.len() == 0,
                                },
                            )
                        } else {
                            spec_fail(s, FailReason::IoFailure, None)
                        }
                    }
                },
                SessionEventV::TimerExpired => {
                    if !s.resend_retry_used && s.resend_pending.len() > 0 {
                        (
                            SessionV { resend_retry_used: true, ..s },
                            EffectsV {
                                send: None,
                                report: None,
                                read_block: Some(s.resend_pending[0]),
                                arm_timer: false,
                            },
                        )
                    } else {
                        spec_fail(s, FailReason::Timeout, None)
                    }
                },
                _ => (s, no_effects()),
            },
            SessionState::AwaitHash => match e {
                SessionEventV::HashOk { digest } => (
                    SessionV { state: SessionState::Completed, file_open: false, ..s },
                    EffectsV {
                        send: None,
                        report: Some(OutcomeV::Completed { name: s.file_name }),
                        read_block: None,
                        arm_timer: false,
                    },
                ),
                SessionEventV::ClientFault { code } => {
                    if code == crate::protocol::UftClientError::FILE_HASH_INVALID.spec_code() {
                        spec_fail(s, FailReason::HashMismatch, None)
                    } else {
                        (s, no_effects())
                    }
                },
                _ => (s, no_effects()),
            },
            _ => (s, no_effects()),
        }
    }
}

/// Observing the shutdown signal in any non-terminal state — in particular
/// while blocked in AwaitMetaAck — cancels the session, releases its file
/// handle, and reports Cancelled; nothing more is sent or read.
pub proof fn lemma_shutdown_cancels(s: SessionV)
    requires
        !s.state.is_terminal(),
    ensures
        spec_step(s, SessionEventV::ShutdownObserved).0.state == SessionState::Cancelled,
        !spec_step(s, SessionEventV::ShutdownObserved).0.file_open,
        spec_step(s, SessionEventV::ShutdownObserved).1.report == Some(OutcomeV::Cancelled),
        spec_step(s, SessionEventV::ShutdownObserved).1.send is None,
        spec_step(s, SessionEventV::ShutdownObserved).1.read_block is None,
{
}

/// Terminal states absorb every event without effects.
pub proof fn lemma_terminal_absorbs(s: SessionV, e: SessionEventV)
    requires
        s.state.is_terminal(),
    ensures
        spec_step(s, e).0 == s,
        spec_step(s, e).1 == no_effects(),
{
}

/// Copies a byte vector.
fn clone_bytes(v: &Vec<u8>) -> (r: Vec<u8>)
    ensures
        r@ == v@,
{
    let mut r: Vec<u8> = Vec::new();
    let mut i: usize = 0;
    while i < v.len()
        invariant
            i <= v@.len(),
            r@ == v@.take(i as int),
        decreases v@.len() - i,
    {
        r.push(v[i]);
        proof {
            assert(v@.take(i as int).push(v@[i as int]) =~= v@.take(i as int + 1));
        }
        i = i + 1;
    }
    proof {
        assert(v@.take(v@.len() as int) =~= v@);
    }
    r
}

/// Whether two byte vectors hold the same bytes.
fn bytes_eq(a: &Vec<u8>, b: &Vec<u8>) -> (r: bool)
    ensures
        r == (a@ == b@),
{
    if a.len() != b.len() {
        return false;
    }
    let mut i: usize = 0;
    while i < a.len()
        invariant
            a@.len() == b@.len(),
            i <= a@.len(),
            forall|t: int| 0 <= t < i ==> a@[t] == b@[t],
        decreases a@.len() - i,
    {
        if a[i] != b[i] {
            return false;
        }
        i = i + 1;
    }
    proof {
        assert(a@ =~= b@);
    }
    true
}

impl Session {
    /// A fresh session for one client's request, before the file is opened.
    pub fn new(file_name: Vec<u8>, retry_bound: u32) -> (s: Session)
        requires
            valid_name(file_name@),
        ensures
            s@ == spec_new_session(file_name@, retry_bound),
            s@.wf(),
    {
        Session {
            state: SessionState::Requested,
            file_name,
            total_blocks: 0,
            final_block_size: 0,
            next_block: 0,
            meta_digest: Vec::new(),
            retries: 0,
            retry_bound,
            file_open: false,
            resend_pending: Vec::new(),
            resend_retry_used: false,
        }
    }

    fn no_eff(&self) -> (eff: Effects)
        ensures
            eff@ == no_effects(),
    {
        Effects { send: None, report: None, read_block: None, arm_timer: false }
    }

    /// Drives the machine one step: consumes one observed event, updates the
    /// session exactly as the transition relation says, and returns the
    /// effects for the runtime to perform. Well-formedness is preserved, and
    /// every packet the step asks to send is well-formed.
    pub fn step(&mut self, e: SessionEvent) -> (eff: Effects)
        requires
            old(self)@.wf(),
        ensures
            (final(self)@, eff@) == spec_step(old(self)@, e@),
            final(self)@.wf(),
            eff@.send matches Some(p) ==> p.wf(),
    {
        let terminal = match self.state {
            SessionState::Completed => true,
            SessionState::Failed(_) => true,
            SessionState::Cancelled => true,
            _ => false,
        };
        if terminal {
            return self.no_eff();
        }
        match e {
            SessionEvent::ShutdownObserved => {
                self.state = SessionState::Cancelled;
                self.file_open = false;
                Effects {
                    send: None,
                    report: Some(Outcome::Cancelled),
                    read_block: None,
                    arm_timer: false,
                }
            },
            other => {
                match self.state {
                    SessionState::Requested => self.step_requested(other),
                    SessionState::SendingMeta => self.step_sending_meta(other),
                    SessionState::AwaitMetaAck => self.step_await_meta_ack(other),
                    SessionState::Transferring => self.step_transferring(other),
                    SessionState::AwaitCompletionAck => self.step_await_completion(other),
                    SessionState::AwaitHash => self.step_await_hash(other),
                    _ => {
                        proof {
                            assert(false);
                        }
                        self.no_eff()
                    },
                }
            },
        }
    }

    fn fail_with(&mut self, reason: FailReason, notify: Option<Packet>) -> (eff: Effects)
        requires
            old(self)@.wf(),
        ensures
            (final(self)@, eff@) == spec_fail(old(self)@, reason, match notify {
                Some(p) => Some(p@),
                None => None,
            }),
            final(self)@.wf(),
    {
        self.state = SessionState::Failed(reason);
        self.file_open = false;
        proof {
            assert((*self)@.wf());
        }
        Effects {
            send: notify,
            report: Some(Outcome::Failed { reason }),
            read_block: None,
            arm_timer: false,
        }
    }

    fn step_requested(&mut self, e: SessionEvent) -> (eff: Effects)
        requires
            old(self)@.wf(),
            old(self)@.state == SessionState::Requested,
            e@ != SessionEventV::ShutdownObserved,
        ensures
            (final(self)@, eff@) == spec_step(old(self)@, e@),
            final(self)@.wf(),
            eff@.send matches Some(p) ==> p.wf(),
    {
        match e {
            SessionEvent::FileOpened { size } => {
                if size >= 1 {
                    proof {
                        crate::meta::lemma_block_math(size as int, UFT_DATA_SIZE as int);
                    }
                    let t = total_blocks(size);
                    let f = final_block_size(size);
                    self.total_blocks = t;
                    self.final_block_size = f;
                    let meta_pkt = Packet::FileMeta {
                        name: clone_bytes(&self.file_name),
                        total_blocks: t,
                        final_block_size: f,
                    };
                    let enc = encode(&meta_pkt);
                    self.meta_digest = sha256_digest(enc.as_slice());
                    self.file_open = true;
                    self.state = SessionState::SendingMeta;
                    self.no_eff()
                } else {
                    self.fail_with(FailReason::FileUnavailable, Some(Packet::ErrorPacket {
                        code: UftServerError::FILE_UNAVAILABLE.code(),
                    }))
                }
            },
            SessionEvent::FileOpenFailed => self.fail_with(
                FailReason::FileUnavailable,
                Some(Packet::ErrorPacket { code: UftServerError::FILE_UNAVAILABLE.code() }),
            ),
            _ => self.no_eff(),
        }
    }

    fn step_sending_meta(&mut self, e: SessionEvent) -> (eff: Effects)
        requires
            old(self)@.wf(),
            old(self)@.state == SessionState::SendingMeta,
            e@ != SessionEventV::ShutdownObserved,
        ensures
            (final(self)@, eff@) == spec_step(old(self)@, e@),
            final(self)@.wf(),
            eff@.send matches Some(p) ==> p.wf(),
    {
        match e {
            SessionEvent::Proceed => {
                let pkt = Packet::FileMeta {
                    name: clone_bytes(&self.file_name),
                    total_blocks: self.total_blocks,
                    final_block_size: self.final_block_size,
                };
                self.state = SessionState::AwaitMetaAck;
                Effects { send: Some(pkt), report: None, read_block: None, arm_timer: true }
            },
            _ => self.no_eff(),
        }
    }

    fn step_await_meta_ack(&mut self, e: SessionEvent) -> (eff: Effects)
        requires
            old(self)@.wf(),
            old(self)@.state == SessionState::AwaitMetaAck,
            e@ != SessionEventV::ShutdownObserved,
        ensures
            (final(self)@, eff@) == spec_step(old(self)@, e@),
            final(self)@.wf(),
            eff@.send matches Some(p) ==> p.wf(),
    {
        match e {
            SessionEvent::MetaAck { digest } => {
                if bytes_eq(&digest, &self.meta_digest) {
                    self.state = SessionState::Transferring;
                    self.next_block = 0;
                    Effects { send: None, report: None, read_block: Some(0), arm_timer: false }
                } else if self.retries < self.retry_bound {
                    self.retries = self.retries + 1;
                    self.state = SessionState::SendingMeta;
                    Effects {
                        send: Some(Packet::ErrorPacket {
                            code: UftServerError::META_HASH_INVALID.code(),
                        }),
                        report: None,
                        read_block: None,
                        arm_timer: false,
                    }
                } else {
                    self.fail_with(FailReason::HashMismatch, Some(Packet::ErrorPacket {
                        code: UftServerError::META_HASH_INVALID.code(),
                    }))
                }
            },
            SessionEvent::TimerExpired => {
                if self.retries < self.retry_bound {
                    self.retries = self.retries + 1;
                    self.state = SessionState::SendingMeta;
                    self.no_eff()
                } else {
                    self.fail_with(FailReason::Timeout, None)
                }
            },
            _ => self.no_eff(),
        }
    }

    fn step_transferring(&mut self, e: SessionEvent) -> (eff: Effects)
        requires
            old(self)@.wf(),
            old(self)@.state == SessionState::Transferring,
            e@ != SessionEventV::ShutdownObserved,
        ensures
            (final(self)@, eff@) == spec_step(old(self)@, e@),
            final(self)@.wf(),
            eff@.send matches Some(p) ==> p.wf(),
    {
        match e {
            SessionEvent::BlockRead { payload } => {
                if self.next_block + 1 < self.total_blocks {
                    if payload.len() == UFT_DATA_SIZE {
                        let seq_no = self.next_block;
                        self.next_block = self.next_block + 1;
                        Effects {
                            send: Some(Packet::FileData { seq_no, payload }),
                            report: None,
                            read_block: Some(seq_no + 1),
                            arm_timer: false,
                        }
                    } else {
                        self.fail_with(FailReason::IoFailure, None)
                    }
                } else {
                    if payload.len() == self.final_block_size as usize {
                        let seq_no = self.next_block;
                        self.next_block = self.next_block + 1;
                        self.state = SessionState::AwaitCompletionAck;
                        Effects {
                            send: Some(Packet::FileComplete { seq_no, payload }),
                            report: None,
                            read_block: None,
                            arm_timer: true,
                        }
                    } else {
                        self.fail_with(FailReason::IoFailure, None)
                    }
                }
            },
            SessionEvent::ReadFailed => self.fail_with(FailReason::IoFailure, None),
            _ => self.no_eff(),
        }
    }

    fn step_await_completion(&mut self, e: SessionEvent) -> (eff: Effects)
        requires
            old(self)@.wf(),
            old(self)@.state == SessionState::AwaitCompletionAck,
            e@ != SessionEventV::ShutdownObserved,
        ensures
            (final(self)@, eff@) == spec_step(old(self)@, e@),
            final(self)@.wf(),
            eff@.send matches Some(p) ==> p.wf(),
    {
        match e {
            SessionEvent::AllBlocksReceived => {
                self.state = SessionState::AwaitHash;
                self.no_eff()
            },
            SessionEvent::MissingBlocks { missing } => {
                let kept = filter_below(missing, self.total_blocks);
                proof {
                    lemma_keep_lt_bound(missing@, self.total_blocks);
                }
                let read_block = if kept.len() > 0 {
                    Some(kept[0])
                } else {
                    None
                };
                let arm_timer = kept.len() == 0;
                self.resend_pending = kept;
                Effects { send: None, report: None, read_block, arm_timer }
            },
            SessionEvent::BlockRead { payload } => {
                if self.resend_pending.len() == 0 {
                    self.no_eff()
                } else {
                    let b = self.resend_pending[0];
                    proof {
                        assert(old(self)@.resend_pending[0] < old(self)@.total_blocks);
                    }
                    let is_final = b + 1 == self.total_blocks;
                    let want: usize = if is_final {
                        self.final_block_size as usize
                    } else {
                        UFT_DATA_SIZE
                    };
                    if payload.len() == want {
                        let _removed = self.resend_pending.remove(0);
                        proof {
                            assert(old(self)@.resend_pending.remove(0)
                                =~= old(self)@.resend_pending.skip(1));
                        }
                        let read_block = if self.resend_pending.len() > 0 {
                            Some(self.resend_pending[0])
                        } else {
                            None
                        };
                        let arm_timer = self.resend_pending.len() == 0;
                        let pkt = if is_final {
                            Packet::FileComplete { seq_no: b, payload }
                        } else {
                            Packet::FileData { seq_no: b, payload }
                        };
                        Effects { send: Some(pkt), report: None, read_block, arm_timer }
                    } else {
                        self.fail_with(FailReason::IoFailure, None)
                    }
                }
            },
            SessionEvent::TimerExpired => {
                if !self.resend_retry_used && self.resend_pending.len() > 0 {
                    self.resend_retry_used = true;
                    let b = self.resend_pending[0];
                    Effects { send: None, report: None, read_block: Some(b), arm_timer: false }
                } else {
                    self.fail_with(FailReason::Timeout, None)
                }
            },
            _ => self.no_eff(),
        }
    }

    fn step_await_hash(&mut self, e: SessionEvent) -> (eff: Effects)
        requires
            old(self)@.wf(),
            old(self)@.state == SessionState::AwaitHash,
            e@ != SessionEventV::ShutdownObserved,
        ensures
            (final(self)@, eff@) == spec_step(old(self)@, e@),
            final(self)@.wf(),
            eff@.send matches Some(p) ==> p.wf(),
    {
        match e {
            SessionEvent::HashOk { digest } => {
                self.state = SessionState::Completed;
                self.file_open = false;
                Effects {
                    send: None,
                    report: Some(Outcome::Completed { name: clone_bytes(&self.file_name) }),
                    read_block: None,
                    arm_timer: false,
                }
            },
            SessionEvent::ClientFault { code } => {
                if code == crate::protocol::UftClientError::FILE_HASH_INVALID.code() {
                    self.fail_with(FailReason::HashMismatch, None)
                } else {
                    self.no_eff()
                }
            },
            _ => self.no_eff(),
        }
    }
}

} // verus!
