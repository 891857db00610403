//! Cancellation and reporting coordinator: collects each session's terminal
//! report, and decides when the shutdown broadcast fires.

use vstd::prelude::*;
use crate::registry::ClientAddr;
use crate::session::{Outcome, OutcomeV};

verus! {

/// A session's one terminal report to the coordinator.
pub struct CompletionReport {
    pub addr: ClientAddr,
    pub outcome: Outcome,
}

/// The mathematical value of a `CompletionReport`.
#[verifier::ext_equal]
pub struct CompletionReportV {
    pub addr: ClientAddr,
    pub outcome: OutcomeV,
}

impl View for CompletionReport {
    type V = CompletionReportV;

    open spec fn view(&self) -> CompletionReportV {
        CompletionReportV { addr: self.addr, outcome: self.outcome@ }
    }
}

/// What the coordinator can observe.
pub enum CoordEvent {
    /// A session delivered its terminal report.
    Report(CompletionReport),
    /// The fan-in report channel itself failed: an unrecoverable condition.
    ChannelFailed,
    /// An operator asked for shutdown.
    OperatorShutdown,
}

/// The mathematical value of a `CoordEvent`.
#[verifier::ext_equal]
pub enum CoordEventV {
    Report(CompletionReportV),
    ChannelFailed,
    OperatorShutdown,
}

impl View for CoordEvent {
    type V = CoordEventV;

    open spec fn view(&self) -> CoordEventV {
        match self {
            CoordEvent::Report(r) => CoordEventV::Report(r@),
            CoordEvent::ChannelFailed => CoordEventV::ChannelFailed,
            CoordEvent::OperatorShutdown => CoordEventV::OperatorShutdown,
        }
    }
}

/// `x + 1`, stopping at the type's maximum.
pub open spec fn saturating_inc(x: u64) -> u64 {
    if x < u64::MAX {
        (x + 1) as u64
    } else {
        x
    }
}

/// The coordinator's state: whether the shutdown broadcast has fired, and a
/// tally of terminal outcomes.
#[derive(Clone, Copy, PartialEq, Eq, Structural, Debug)]
pub struct Coordinator {
    pub shutdown_fired: bool,
    pub completed: u64,
    pub failed: u64,
    pub cancelled: u64,
}

/// The coordinator's transition rule. Ordinary per-session reports only
/// update the tally and never escalate; only an unrecoverable condition or
/// an operator request fires the broadcast, and it fires at most once.
pub open spec fn spec_on_event(c: Coordinator, e: CoordEventV) -> (Coordinator, bool) {
    match e {
        CoordEventV::Report(r) => (
            match r.outcome {
                OutcomeV::Completed { name } => Coordinator {
                    completed: saturating_inc(c.completed),
                    ..c
                },
                OutcomeV::Failed { reason } => Coordinator { failed: saturating_inc(c.failed), ..c },
                OutcomeV::Cancelled => Coordinator { cancelled: saturating_inc(c.cancelled), ..c },
            },
            false,
        ),
        CoordEventV::ChannelFailed => (
            Coordinator { shutdown_fired: true, ..c },
            !c.shutdown_fired,
        ),
        CoordEventV::OperatorShutdown => (
            Coordinator { shutdown_fired: true, ..c },
            !c.shutdown_fired,
        ),
    }
}

impl Coordinator {
    /// A coordinator that has seen nothing and not fired.
    pub fn new() -> (c: Coordinator)
        ensures
            c == (Coordinator { shutdown_fired: false, completed: 0, failed: 0, cancelled: 0 }),
    {
        Coordinator { shutdown_fired: false, completed: 0, failed: 0, cancelled: 0 }
    }

    /// Consumes one observation; the result says whether to broadcast the
    /// shutdown signal now. The broadcast is requested at most once over the
    /// coordinator's lifetime, and never for an ordinary report.
    pub fn on_event(&mut self, e: &CoordEvent) -> (fire: bool)
        ensures
            (*final(self), fire) == spec_on_event(*old(self), e@),
            fire ==> !old(self).shutdown_fired && final(self).shutdown_fired,
            e@ is Report ==> !fire && final(self).shutdown_fired == old(self).shutdown_fired,
    {
        match e {
            CoordEvent::Report(r) => {
                match &r.outcome {
                    Outcome::Completed { .. } => {
                        if self.completed < u64::MAX {
                            self.completed = self.completed + 1;
                        }
                    },
                    Outcome::Failed { .. } => {
                        if self.failed < u64::MAX {
                            self.failed = self.failed + 1;
                        }
                    },
                    Outcome::Cancelled => {
                        if self.cancelled < u64::MAX {
                            self.cancelled = self.cancelled + 1;
                        }
                    },
                }
                false
            },
            CoordEvent::ChannelFailed => {
                let fire = !self.shutdown_fired;
                self.shutdown_fired = true;
                fire
            },
            CoordEvent::OperatorShutdown => {
                let fire = !self.shutdown_fired;
                self.shutdown_fired = true;
                fire
            },
        }
    }
}

} // verus!
