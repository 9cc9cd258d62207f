//! A session's turns as the server tracks them: at most one running turn,
//! the latest finished one, the session's status, and what is broadcast,
//! in order, when a turn starts, ends or is interrupted.
use vstd::prelude::*;

use crate::server::approval::TurnId;
use crate::server::protocol::{interrupt_check, next_sequence, turn_start_admit, ProtocolErrorCode, Refusal};
use crate::tui::worker::TurnStatus;

verus! {

/// Whether a session runs a turn.
#[derive(Clone, Copy, Debug, PartialEq, Eq, Structural)]
pub enum SessionStatus {
    Idle,
    ActiveTurn,
}

/// A turn of a session.
#[derive(Clone, Debug)]
pub struct TurnRecord {
    pub turn_id: TurnId,
    /// One for a session's first turn, then one more for each.
    pub sequence: u64,
    pub status: TurnStatus,
    pub model: String,
}

/// A turn, by value.
pub struct TurnView {
    pub turn_id: TurnId,
    pub sequence: u64,
    pub status: TurnStatus,
    pub model: Seq<char>,
}

impl View for TurnRecord {
    type V = TurnView;

    open spec fn view(&self) -> TurnView {
        TurnView { turn_id: self.turn_id, sequence: self.sequence, status: self.status, model: self.model@ }
    }
}

/// The turns of a session.
#[derive(Clone, Debug)]
pub struct SessionTurns {
    pub active_turn: Option<TurnRecord>,
    pub latest_turn: Option<TurnRecord>,
    pub status: SessionStatus,
}

/// The turns of a session, by value.
pub struct TurnsView {
    pub active_turn: Option<TurnView>,
    pub latest_turn: Option<TurnView>,
    pub status: SessionStatus,
}

/// A turn, where there is one, by value.
pub open spec fn turn_opt(t: Option<TurnRecord>) -> Option<TurnView> {
    match t {
        Some(r) => Some(r@),
        None => None,
    }
}

impl View for SessionTurns {
    type V = TurnsView;

    open spec fn view(&self) -> TurnsView {
        TurnsView { active_turn: turn_opt(self.active_turn), latest_turn: turn_opt(self.latest_turn), status: self.status }
    }
}

/// What the server broadcasts about a session's turns.
#[derive(Clone, Debug)]
pub enum TurnBroadcast {
    StatusChanged(SessionStatus),
    TurnStarted(TurnRecord),
    TurnFailed(TurnRecord),
    TurnInterrupted(TurnRecord),
    TurnCompleted(TurnRecord),
}

/// A broadcast, by value.
pub enum BroadcastView {
    StatusChanged(SessionStatus),
    TurnStarted(TurnView),
    TurnFailed(TurnView),
    TurnInterrupted(TurnView),
    TurnCompleted(TurnView),
}

/// The value of a broadcast.
pub open spec fn broadcast_view(b: TurnBroadcast) -> BroadcastView {
    match b {
        TurnBroadcast::StatusChanged(s) => BroadcastView::StatusChanged(s),
        TurnBroadcast::TurnStarted(t) => BroadcastView::TurnStarted(t@),
        TurnBroadcast::TurnFailed(t) => BroadcastView::TurnFailed(t@),
        TurnBroadcast::TurnInterrupted(t) => BroadcastView::TurnInterrupted(t@),
        TurnBroadcast::TurnCompleted(t) => BroadcastView::TurnCompleted(t@),
    }
}

/// Broadcasts, by value.
pub open spec fn broadcasts_view(bs: Seq<TurnBroadcast>) -> Seq<BroadcastView> {
    bs.map_values(|b: TurnBroadcast| broadcast_view(b))
}

/// The sequence number a new turn of `s` gets.
pub open spec fn next_turn_sequence(s: TurnsView) -> int {
    match s.latest_turn {
        Some(t) => t.sequence + 1,
        None => 1,
    }
}

/// A new turn of `s`: running, numbered after the latest.
pub open spec fn new_turn(s: TurnsView, id: TurnId, model: Seq<char>) -> TurnView {
    TurnView { turn_id: id, sequence: next_turn_sequence(s) as u64, status: TurnStatus::InProgress, model }
}

/// `t` ended with `status`.
pub open spec fn ended(t: TurnView, status: TurnStatus) -> TurnView {
    TurnView { status, ..t }
}

/// A session with no turn running, whose latest turn is `t`.
pub open spec fn idle_after(t: TurnView) -> TurnsView {
    TurnsView { active_turn: None, latest_turn: Some(t), status: SessionStatus::Idle }
}

fn clone_turn(t: &TurnRecord) -> (r: TurnRecord)
    ensures
        r@ == t@,
{
    TurnRecord { turn_id: t.turn_id, sequence: t.sequence, status: t.status, model: t.model.clone() }
}

impl SessionTurns {
    /// A session that has run no turn.
    pub fn new() -> (r: SessionTurns)
        ensures
            r@ == (TurnsView { active_turn: None, latest_turn: None, status: SessionStatus::Idle }),
    {
        SessionTurns { active_turn: None, latest_turn: None, status: SessionStatus::Idle }
    }

    /// Starts the turn `id` with `model`. A session runs one turn at a time,
    /// so a second start is refused and changes nothing. The new turn is
    /// running and numbered after the latest; the session becomes active;
    /// its status change is broadcast, then the turn's start.
    pub fn start_turn(&mut self, id: TurnId, model: String) -> (r: Result<(TurnRecord, Vec<TurnBroadcast>), Refusal>)
        requires
            old(self)@.latest_turn matches Some(t) ==> t.sequence < u64::MAX,
        ensures
            r is Ok <==> old(self)@.active_turn is None,
            match r {
                Ok((turn, bs)) => {
                    &&& turn@ == new_turn(old(self)@, id, model@)
                    &&& final(self)@ == (TurnsView {
                        active_turn: Some(turn@),
                        latest_turn: old(self)@.latest_turn,
                        status: SessionStatus::ActiveTurn,
                    })
                    &&& broadcasts_view(bs@) == seq![
                        BroadcastView::StatusChanged(SessionStatus::ActiveTurn),
                        BroadcastView::TurnStarted(turn@),
                    ]
                },
                Err(e) => e.code == ProtocolErrorCode::TurnAlreadyRunning && e.message@
                    == "session already has an active turn"@ && final(self)@ == old(self)@,
            },
    {
        match turn_start_admit(self.active_turn.is_some()) {
            Err(e) => Err(e),
            Ok(()) => {
                let latest = match &self.latest_turn {
                    Some(t) => Some(t.sequence),
                    None => None,
                };
                let turn = TurnRecord { turn_id: id, sequence: next_sequence(latest), status: TurnStatus::InProgress, model };
                self.active_turn = Some(clone_turn(&turn));
                self.status = SessionStatus::ActiveTurn;
                let bs = vec![TurnBroadcast::StatusChanged(SessionStatus::ActiveTurn), TurnBroadcast::TurnStarted(clone_turn(&turn))];
                assert(broadcasts_view(bs@) =~= seq![
                    BroadcastView::StatusChanged(SessionStatus::ActiveTurn),
                    BroadcastView::TurnStarted(turn@),
                ]);
                Ok((turn, bs))
            },
        }
    }

    /// The turn `turn` came back from the model: it ended completed where
    /// the query succeeded, failed otherwise. It becomes the latest turn,
    /// no turn runs and the session is idle. A failure is broadcast first,
    /// then the turn's completion, then the status change.
    pub fn finish_turn(&mut self, turn: TurnRecord, succeeded: bool) -> (r: Vec<TurnBroadcast>)
        ensures
            ({
                let done = ended(turn@, if succeeded { TurnStatus::Completed } else { TurnStatus::Failed });
                &&& final(self)@ == idle_after(done)
                &&& broadcasts_view(r@) == if succeeded {
                    seq![BroadcastView::TurnCompleted(done), BroadcastView::StatusChanged(SessionStatus::Idle)]
                } else {
                    seq![
                        BroadcastView::TurnFailed(done),
                        BroadcastView::TurnCompleted(done),
                        BroadcastView::StatusChanged(SessionStatus::Idle),
                    ]
                }
            }),
    {
        let mut done = turn;
        done.status = if succeeded {
            TurnStatus::Completed
        } else {
            TurnStatus::Failed
        };
        self.latest_turn = Some(clone_turn(&done));
        self.active_turn = None;
        self.status = SessionStatus::Idle;
        let mut r: Vec<TurnBroadcast> = Vec::new();
        if !succeeded {
            r.push(TurnBroadcast::TurnFailed(clone_turn(&done)));
        }
        r.push(TurnBroadcast::TurnCompleted(done));
        r.push(TurnBroadcast::StatusChanged(SessionStatus::Idle));
        proof {
            let d = ended(turn@, if succeeded { TurnStatus::Completed } else { TurnStatus::Failed });
            if succeeded {
                assert(broadcasts_view(r@) =~= seq![BroadcastView::TurnCompleted(d), BroadcastView::StatusChanged(SessionStatus::Idle)]);
            } else {
                assert(broadcasts_view(r@) =~= seq![
                    BroadcastView::TurnFailed(d),
                    BroadcastView::TurnCompleted(d),
                    BroadcastView::StatusChanged(SessionStatus::Idle),
                ]);
            }
        }
        r
    }

    /// Interrupts the running turn `id`. Where no turn runs, or another
    /// does, the request is refused and nothing changes. Otherwise the turn
    /// ends interrupted and becomes the latest, no turn runs and the session
    /// is idle; the interruption is broadcast, then the turn's completion,
    /// then the status change.
    pub fn interrupt_turn(&mut self, id: TurnId) -> (r: Result<(TurnRecord, Vec<TurnBroadcast>), Refusal>)
        ensures
            r is Ok <==> (old(self)@.active_turn matches Some(t) && t.turn_id == id),
            match r {
                Ok((turn, bs)) => {
                    &&& turn@ == ended(old(self)@.active_turn.unwrap(), TurnStatus::Interrupted)
                    &&& final(self)@ == idle_after(turn@)
                    &&& broadcasts_view(bs@) == seq![
                        BroadcastView::TurnInterrupted(turn@),
                        BroadcastView::TurnCompleted(turn@),
                        BroadcastView::StatusChanged(SessionStatus::Idle),
                    ]
                },
                Err(e) => e.code == ProtocolErrorCode::TurnNotFound && e.message@ == (if old(self)@.active_turn is None {
                    "turn is not active"@
                } else {
                    "turn does not exist"@
                }) && final(self)@ == old(self)@,
            },
    {
        let active = match &self.active_turn {
            Some(t) => Some(t.turn_id),
            None => None,
        };
        match interrupt_check(true, active, id) {
            Err(e) => Err(e),
            Ok(()) => {
                let mut turn = match self.active_turn.take() {
                    Some(t) => t,
                    None => {
                        return Err(Refusal { code: ProtocolErrorCode::TurnNotFound, message: "turn is not active" });
                    },
                };
                turn.status = TurnStatus::Interrupted;
                self.latest_turn = Some(clone_turn(&turn));
                self.status = SessionStatus::Idle;
                let bs = vec![
                    TurnBroadcast::TurnInterrupted(clone_turn(&turn)),
                    TurnBroadcast::TurnCompleted(clone_turn(&turn)),
                    TurnBroadcast::StatusChanged(SessionStatus::Idle),
                ];
                assert(broadcasts_view(bs@) =~= seq![
                    BroadcastView::TurnInterrupted(turn@),
                    BroadcastView::TurnCompleted(turn@),
                    BroadcastView::StatusChanged(SessionStatus::Idle),
                ]);
                Ok((turn, bs))
            },
        }
    }
}

/// A session runs its turns one after another, numbered in order: once a
/// turn is started and then finished or interrupted, the session is idle
/// again and its next turn is numbered one after it.
pub proof fn law_turns_numbered_in_order(s: TurnsView, id: TurnId, model: Seq<char>, status: TurnStatus)
    requires
        s.active_turn is None,
        s.latest_turn matches Some(t) ==> t.sequence < u64::MAX,
    ensures
        ({
            let t = new_turn(s, id, model);
            let after = idle_after(ended(t, status));
            &&& after.status == SessionStatus::Idle
            &&& after.active_turn is None
            &&& next_turn_sequence(after) == next_turn_sequence(s) + 1
        }),
{
}

} // verus!
