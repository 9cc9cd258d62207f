//! Approvals that tools wait on until a client answers them.
use vstd::prelude::*;

use tokio::sync::oneshot;

use crate::text::{chars_eq, chars_of};

verus! {

#[verifier::external_type_specification]
#[verifier::external_body]
#[verifier::reject_recursive_types(T)]
pub struct ExOneshotSender<T>(oneshot::Sender<T>);

#[verifier::external_type_specification]
#[verifier::external_body]
#[verifier::reject_recursive_types(T)]
pub struct ExOneshotReceiver<T>(oneshot::Receiver<T>);

/// The error a receiver resolves to when its sender is dropped; the
/// receiver's type names it.
#[verifier::external_type_specification]
#[verifier::external_body]
pub struct ExOneshotRecvError(oneshot::error::RecvError);

/// Identifies a session.
#[derive(Clone, Copy, Debug, PartialEq, Eq, Structural)]
pub struct SessionId(pub u128);

/// Identifies a turn within a session.
#[derive(Clone, Copy, Debug, PartialEq, Eq, Structural)]
pub struct TurnId(pub u128);

/// What a waiting tool learns: whether it may go ahead.
#[derive(Clone, Copy, Debug, PartialEq, Eq, Structural)]
pub struct ApprovalResult {
    pub approved: bool,
}

/// A client's answer to an approval request.
#[derive(Clone, Copy, Debug, PartialEq, Eq, Structural)]
pub enum ApprovalDecision {
    Approve,
    Deny,
    Cancel,
}

/// How far a client's answer reaches.
#[derive(Clone, Copy, Debug, PartialEq, Eq, Structural)]
pub enum ApprovalScope {
    Once,
    Turn,
    Session,
    PathPrefix,
    Host,
    Tool,
}

/// `tokio::sync::oneshot::channel`: a new channel's sending and receiving
/// ends. Nothing is stated of them.
#[verifier::external_body]
fn approval_channel() -> (r: (oneshot::Sender<ApprovalResult>, oneshot::Receiver<ApprovalResult>)) {
    oneshot::channel()
}

/// `tokio::sync::oneshot::Sender::send`: hands `result` to the receiving end
/// (`Ok`), or gives it back when that end is gone (`Err`). Either way the
/// value carried is the one handed over.
#[verifier::external_body]
fn send_result(responder: oneshot::Sender<ApprovalResult>, result: ApprovalResult) -> (r: Result<ApprovalResult, ApprovalResult>)
    ensures
        match r {
            Ok(v) => v == result,
            Err(v) => v == result,
        },
{
    match responder.send(result) {
        Ok(()) => Ok(result),
        Err(v) => Err(v),
    }
}

/// Hands `result` to the tool waiting on `responder` and returns the value
/// handed over, whether or not the tool still waits.
fn deliver(responder: oneshot::Sender<ApprovalResult>, result: ApprovalResult) -> (sent: ApprovalResult)
    ensures
        sent == result,
{
    match send_result(responder, result) {
        Ok(v) => v,
        Err(v) => v,
    }
}

/// The answer a tool is told when its approval is dropped unanswered.
pub open spec fn not_approved() -> ApprovalResult {
    ApprovalResult { approved: false }
}

/// The result handed to a waiting tool for `decision`: only an approval lets
/// it go ahead.
pub open spec fn verdict(decision: ApprovalDecision) -> ApprovalResult {
    ApprovalResult { approved: decision == ApprovalDecision::Approve }
}

/// The result handed to a waiting tool for `decision`.
pub fn approval_result(decision: ApprovalDecision) -> (r: ApprovalResult)
    ensures
        r == verdict(decision),
{
    ApprovalResult { approved: decision == ApprovalDecision::Approve }
}

/// What the manager knows of a pending approval.
pub struct PendingView {
    pub session_id: SessionId,
    pub turn_id: TurnId,
    pub tool_name: Seq<char>,
    pub action_summary: Seq<char>,
    pub justification: Seq<char>,
}

/// One pending approval waiting for a client response.
struct PendingApproval {
    approval_id: String,
    session_id: SessionId,
    turn_id: TurnId,
    tool_name: String,
    action_summary: String,
    justification: String,
    responder: oneshot::Sender<ApprovalResult>,
}

impl PendingApproval {
    spec fn info(&self) -> PendingView {
        PendingView {
            session_id: self.session_id,
            turn_id: self.turn_id,
            tool_name: self.tool_name@,
            action_summary: self.action_summary@,
            justification: self.justification@,
        }
    }
}

/// The information returned when an approval is resolved.
#[derive(Debug, Clone)]
pub struct ResolvedApproval {
    pub session_id: SessionId,
    pub turn_id: TurnId,
    pub tool_name: String,
    pub action_summary: String,
    pub justification: String,
}

impl ResolvedApproval {
    /// The resolved approval's information.
    pub open spec fn info(&self) -> PendingView {
        PendingView {
            session_id: self.session_id,
            turn_id: self.turn_id,
            tool_name: self.tool_name@,
            action_summary: self.action_summary@,
            justification: self.justification@,
        }
    }
}

spec fn has_id(s: Seq<PendingApproval>, k: Seq<char>) -> bool {
    exists|i: int| 0 <= i < s.len() && #[trigger] s[i].approval_id@ == k
}

spec fn index_of_id(s: Seq<PendingApproval>, k: Seq<char>) -> int {
    choose|i: int| 0 <= i < s.len() && #[trigger] s[i].approval_id@ == k
}

spec fn distinct_ids(s: Seq<PendingApproval>) -> bool {
    forall|i: int, j: int| 0 <= i < s.len() && 0 <= j < s.len() && i != j ==> #[trigger] s[i].approval_id@ != #[trigger] s[j].approval_id@
}

spec fn pending_map(s: Seq<PendingApproval>) -> Map<Seq<char>, PendingView> {
    Map::new(|k: Seq<char>| has_id(s, k), |k: Seq<char>| s[index_of_id(s, k)].info())
}

proof fn lemma_entry(s: Seq<PendingApproval>, i: int)
    requires
        distinct_ids(s),
        0 <= i < s.len(),
    ensures
        pending_map(s).contains_key(s[i].approval_id@),
        pending_map(s)[s[i].approval_id@] == s[i].info(),
{
    let k = s[i].approval_id@;
    assert(has_id(s, k));
    let j = index_of_id(s, k);
    assert(s[j].approval_id@ == k);
}

/// `x` is an unselected entry of `old_s` at `lo` or later.
spec fn kept_origin(x: PendingApproval, old_s: Seq<PendingApproval>, lo: int, sel: Selector) -> bool {
    exists|j: int| lo <= j < old_s.len() && x == old_s[j] && !selects(sel, old_s[j].info())
}

/// Every entry of `kept` is an unselected entry of `old_s` at `lo` or later.
spec fn kept_from(kept: Seq<PendingApproval>, old_s: Seq<PendingApproval>, lo: int, sel: Selector) -> bool {
    forall|i: int| 0 <= i < kept.len() ==> kept_origin(#[trigger] kept[i], old_s, lo, sel)
}

/// Every unselected entry of `old_s` at `lo` or later is in `kept`.
spec fn covers(kept: Seq<PendingApproval>, old_s: Seq<PendingApproval>, lo: int, sel: Selector) -> bool {
    forall|j: int| lo <= j < old_s.len() && !selects(sel, old_s[j].info()) ==> kept.contains(#[trigger] old_s[j])
}

proof fn lemma_skip_selected(old_s: Seq<PendingApproval>, kept: Seq<PendingApproval>, m: int, sel: Selector)
    requires
        0 <= m < old_s.len(),
        selects(sel, old_s[m].info()),
        kept_from(kept, old_s, m + 1, sel),
        covers(kept, old_s, m + 1, sel),
    ensures
        kept_from(kept, old_s, m, sel),
        covers(kept, old_s, m, sel),
{
    assert forall|i: int| 0 <= i < kept.len() implies kept_origin(#[trigger] kept[i], old_s, m, sel) by {
        assert(kept_origin(kept[i], old_s, m + 1, sel));
        let j = choose|j: int| m + 1 <= j < old_s.len() && kept[i] == old_s[j] && !selects(sel, old_s[j].info());
        assert(m <= j < old_s.len() && kept[i] == old_s[j] && !selects(sel, old_s[j].info()));
    }
    assert forall|j: int| m <= j < old_s.len() && !selects(sel, old_s[j].info()) implies kept.contains(#[trigger] old_s[j]) by {
        assert(j != m);
    }
}

proof fn lemma_keep_unselected(old_s: Seq<PendingApproval>, kept: Seq<PendingApproval>, m: int, sel: Selector)
    requires
        0 <= m < old_s.len(),
        !selects(sel, old_s[m].info()),
        distinct_ids(old_s),
        distinct_ids(kept),
        kept_from(kept, old_s, m + 1, sel),
        covers(kept, old_s, m + 1, sel),
    ensures
        distinct_ids(kept.push(old_s[m])),
        kept_from(kept.push(old_s[m]), old_s, m, sel),
        covers(kept.push(old_s[m]), old_s, m, sel),
{
    let nk = kept.push(old_s[m]);
    assert forall|i: int| 0 <= i < kept.len() implies kept[i].approval_id@ != old_s[m].approval_id@ by {
        assert(kept_origin(kept[i], old_s, m + 1, sel));
        let j = choose|j: int| m + 1 <= j < old_s.len() && kept[i] == old_s[j] && !selects(sel, old_s[j].info());
        assert(old_s[j].approval_id@ != old_s[m].approval_id@);
    }
    assert forall|i: int, j: int| 0 <= i < nk.len() && 0 <= j < nk.len() && i != j implies #[trigger] nk[i].approval_id@
        != #[trigger] nk[j].approval_id@ by {
        if i < kept.len() && j < kept.len() {
            assert(nk[i] == kept[i]);
            assert(nk[j] == kept[j]);
        } else if i < kept.len() {
            assert(nk[i] == kept[i]);
        } else if j < kept.len() {
            assert(nk[j] == kept[j]);
        }
    }
    assert forall|i: int| 0 <= i < nk.len() implies kept_origin(#[trigger] nk[i], old_s, m, sel) by {
        if i < kept.len() {
            assert(nk[i] == kept[i]);
            assert(kept_origin(kept[i], old_s, m + 1, sel));
            let j = choose|j: int| m + 1 <= j < old_s.len() && kept[i] == old_s[j] && !selects(sel, old_s[j].info());
            assert(m <= j < old_s.len() && nk[i] == old_s[j] && !selects(sel, old_s[j].info()));
        } else {
            assert(nk[i] == old_s[m]);
        }
    }
    assert forall|j: int| m <= j < old_s.len() && !selects(sel, old_s[j].info()) implies nk.contains(#[trigger] old_s[j]) by {
        if j == m {
            assert(nk[kept.len() as int] == old_s[j]);
        } else {
            assert(kept.contains(old_s[j]));
            let i = choose|i: int| 0 <= i < kept.len() && kept[i] == old_s[j];
            assert(nk[i] == kept[i]);
        }
    }
}

proof fn lemma_kept_map(old_s: Seq<PendingApproval>, kept: Seq<PendingApproval>, sel: Selector)
    requires
        distinct_ids(old_s),
        distinct_ids(kept),
        kept_from(kept, old_s, 0, sel),
        covers(kept, old_s, 0, sel),
    ensures
        pending_map(kept) == without(pending_map(old_s), sel),
{
    let expected = without(pending_map(old_s), sel);
    assert forall|q: Seq<char>| #[trigger] pending_map(kept).contains_key(q) <==> expected.contains_key(q) by {
        if has_id(kept, q) {
            let i = choose|i: int| 0 <= i < kept.len() && #[trigger] kept[i].approval_id@ == q;
            assert(kept_origin(kept[i], old_s, 0, sel));
            let j = choose|j: int| 0 <= j < old_s.len() && kept[i] == old_s[j] && !selects(sel, old_s[j].info());
            lemma_entry(old_s, j);
        }
        if has_id(old_s, q) && !selects(sel, pending_map(old_s)[q]) {
            let j = choose|j: int| 0 <= j < old_s.len() && #[trigger] old_s[j].approval_id@ == q;
            lemma_entry(old_s, j);
            assert(kept.contains(old_s[j]));
            let i = choose|i: int| 0 <= i < kept.len() && kept[i] == old_s[j];
            assert(kept[i].approval_id@ == q);
        }
    }
    assert forall|q: Seq<char>| #[trigger] pending_map(kept).contains_key(q) implies pending_map(kept)[q] == expected[q] by {
        let i = choose|i: int| 0 <= i < kept.len() && #[trigger] kept[i].approval_id@ == q;
        lemma_entry(kept, i);
        assert(kept_origin(kept[i], old_s, 0, sel));
        let j = choose|j: int| 0 <= j < old_s.len() && kept[i] == old_s[j] && !selects(sel, old_s[j].info());
        lemma_entry(old_s, j);
    }
    assert(pending_map(kept) =~= expected);
}

/// `a` refuses an approval of `old_s` at `lo` or later that `sel` selects.
spec fn refused_from(a: (Seq<char>, ApprovalResult), old_s: Seq<PendingApproval>, lo: int, sel: Selector) -> bool {
    exists|j: int| lo <= j < old_s.len() && selects(sel, old_s[j].info()) && a == (old_s[j].approval_id@, not_approved())
}

proof fn lemma_refusals(
    old_s: Seq<PendingApproval>,
    old_log: Seq<(Seq<char>, ApprovalResult)>,
    added: Seq<(Seq<char>, ApprovalResult)>,
    sel: Selector,
)
    requires
        distinct_ids(old_s),
        forall|i: int| 0 <= i < added.len() ==> refused_from(#[trigger] added[i], old_s, 0, sel),
        forall|i: int, j: int| 0 <= i < j < added.len() ==> (#[trigger] added[i]).0 != (#[trigger] added[j]).0,
        forall|j: int| 0 <= j < old_s.len() && selects(sel, #[trigger] old_s[j].info()) ==> exists|i: int|
            0 <= i < added.len() && (#[trigger] added[i]).0 == old_s[j].approval_id@,
    ensures
        refusals_added(old_log, old_log + added, pending_map(old_s).remove_keys(without(pending_map(old_s), sel).dom())),
{
    let after = old_log + added;
    let gone = pending_map(old_s).remove_keys(without(pending_map(old_s), sel).dom());
    assert(after.subrange(0, old_log.len() as int) =~= old_log);
    assert(after.subrange(old_log.len() as int, after.len() as int) =~= added);
    assert forall|i: int| 0 <= i < added.len() implies (#[trigger] added[i]).1 == not_approved() && gone.contains_key(added[i].0) by {
        assert(refused_from(added[i], old_s, 0, sel));
        let j = choose|j: int| 0 <= j < old_s.len() && selects(sel, old_s[j].info())
            && added[i] == (old_s[j].approval_id@, not_approved());
        lemma_entry(old_s, j);
    }
    assert forall|k: Seq<char>| #[trigger] gone.contains_key(k) implies exists|i: int| 0 <= i < added.len() && (#[trigger] added[i]).0 == k by {
        assert(has_id(old_s, k));
        let j = choose|j: int| 0 <= j < old_s.len() && #[trigger] old_s[j].approval_id@ == k;
        lemma_entry(old_s, j);
        assert(selects(sel, old_s[j].info()));
    }
}

/// Pending approvals across all sessions, by approval id.
pub struct ApprovalManager {
    pending: Vec<PendingApproval>,
    /// Every answer handed to a waiting tool, with its approval id, in order.
    handed: Ghost<Seq<(Seq<char>, ApprovalResult)>>,
}

/// `after` is `before` followed by one refusal for each approval of `gone`,
/// each approval once.
pub open spec fn refusals_added(
    before: Seq<(Seq<char>, ApprovalResult)>,
    after: Seq<(Seq<char>, ApprovalResult)>,
    gone: Map<Seq<char>, PendingView>,
) -> bool {
    let added = after.subrange(before.len() as int, after.len() as int);
    &&& before.len() <= after.len()
    &&& after.subrange(0, before.len() as int) == before
    &&& forall|i: int| 0 <= i < added.len() ==> (#[trigger] added[i]).1 == not_approved() && gone.contains_key(added[i].0)
    &&& forall|i: int, j: int| 0 <= i < j < added.len() ==> (#[trigger] added[i]).0 != (#[trigger] added[j]).0
    &&& forall|k: Seq<char>| #[trigger] gone.contains_key(k) ==> exists|i: int| 0 <= i < added.len() && (#[trigger] added[i]).0 == k
}

/// `m` without the approvals of turn `t`.
pub open spec fn without_turn(m: Map<Seq<char>, PendingView>, t: TurnId) -> Map<Seq<char>, PendingView> {
    Map::new(|k: Seq<char>| m.contains_key(k) && m[k].turn_id != t, |k: Seq<char>| m[k])
}

/// `m` without the approvals of session `s`.
pub open spec fn without_session(m: Map<Seq<char>, PendingView>, s: SessionId) -> Map<Seq<char>, PendingView> {
    Map::new(|k: Seq<char>| m.contains_key(k) && m[k].session_id != s, |k: Seq<char>| m[k])
}

spec fn without(m: Map<Seq<char>, PendingView>, sel: Selector) -> Map<Seq<char>, PendingView> {
    Map::new(|k: Seq<char>| m.contains_key(k) && !selects(sel, m[k]), |k: Seq<char>| m[k])
}

/// Selects approvals of one turn or of one session.
enum Selector {
    Turn(TurnId),
    Session(SessionId),
}

spec fn selects(sel: Selector, v: PendingView) -> bool {
    match sel {
        Selector::Turn(t) => v.turn_id == t,
        Selector::Session(s) => v.session_id == s,
    }
}

fn selector_matches(sel: &Selector, p: &PendingApproval) -> (r: bool)
    ensures
        r == selects(*sel, p.info()),
{
    match sel {
        Selector::Turn(t) => p.turn_id == *t,
        Selector::Session(s) => p.session_id == *s,
    }
}

impl View for ApprovalManager {
    type V = Map<Seq<char>, PendingView>;

    closed spec fn view(&self) -> Map<Seq<char>, PendingView> {
        pending_map(self.pending@)
    }
}

impl ApprovalManager {
    #[verifier::type_invariant]
    closed spec fn well_formed(&self) -> bool {
        distinct_ids(self.pending@)
    }

    /// Every answer handed to a waiting tool so far, with its approval id,
    /// in order.
    pub closed spec fn handed_out(&self) -> Seq<(Seq<char>, ApprovalResult)> {
        self.handed@
    }

    /// A manager with nothing pending.
    pub fn new() -> (r: ApprovalManager)
        ensures
            r@ == Map::<Seq<char>, PendingView>::empty(),
            r.handed_out() == Seq::<(Seq<char>, ApprovalResult)>::empty(),
    {
        let r = ApprovalManager { pending: Vec::new(), handed: Ghost(Seq::empty()) };
        assert(r@ =~= Map::<Seq<char>, PendingView>::empty());
        r
    }

    fn position(&self, approval_id: &str) -> (r: Option<usize>)
        ensures
            match r {
                Some(k) => k < self.pending@.len() && self.pending@[k as int].approval_id@ == approval_id@,
                None => !has_id(self.pending@, approval_id@),
            },
    {
        let target = chars_of(approval_id);
        let mut k: usize = 0;
        while k < self.pending.len()
            invariant
                k <= self.pending@.len(),
                target@ == approval_id@,
                forall|j: int| 0 <= j < k ==> self.pending@[j].approval_id@ != approval_id@,
            decreases self.pending.len() - k,
        {
            if chars_eq(chars_of(self.pending[k].approval_id.as_str()).as_slice(), target.as_slice()) {
                return Some(k);
            }
            k += 1;
        }
        None
    }

    /// Registers a pending approval under `approval_id` and returns the end
    /// on which its answer arrives. An approval already pending under that id
    /// is replaced, and the tool waiting on it is told that it was not
    /// approved.
    pub fn register(
        &mut self,
        approval_id: String,
        session_id: SessionId,
        turn_id: TurnId,
        tool_name: String,
        action_summary: String,
        justification: String,
    ) -> (r: oneshot::Receiver<ApprovalResult>)
        ensures
            final(self)@ == old(self)@.insert(
                approval_id@,
                PendingView {
                    session_id,
                    turn_id,
                    tool_name: tool_name@,
                    action_summary: action_summary@,
                    justification: justification@,
                },
            ),
            final(self).handed_out() == (if old(self)@.contains_key(approval_id@) {
                old(self).handed_out().push((approval_id@, not_approved()))
            } else {
                old(self).handed_out()
            }),
    {
        proof {
            use_type_invariant(&*self);
        }
        let (tx, rx) = approval_channel();
        let found = self.position(approval_id.as_str());
        let entry = PendingApproval {
            approval_id,
            session_id,
            turn_id,
            tool_name,
            action_summary,
            justification,
            responder: tx,
        };
        let ghost key = entry.approval_id@;
        let ghost info = entry.info();
        let ghost old_s = self.pending@;
        let mut pending: Vec<PendingApproval> = Vec::new();
        std::mem::swap(&mut pending, &mut self.pending);
        match found {
            Some(k) => {
                let previous = pending.remove(k);
                pending.push(entry);
                let ghost new_s = pending@;
                proof {
                    assert(new_s =~= old_s.remove(k as int).push(entry));
                    assert(distinct_ids(new_s)) by {
                        assert forall|i: int, j: int| 0 <= i < new_s.len() && 0 <= j < new_s.len() && i != j implies #[trigger] new_s[i].approval_id@ != #[trigger] new_s[j].approval_id@ by {
                            if i < new_s.len() - 1 && j < new_s.len() - 1 {
                                let oi = if i < k { i } else { i + 1 };
                                let oj = if j < k { j } else { j + 1 };
                                assert(new_s[i] == old_s[oi]);
                                assert(new_s[j] == old_s[oj]);
                            } else if i < new_s.len() - 1 {
                                let oi = if i < k { i } else { i + 1 };
                                assert(new_s[i] == old_s[oi]);
                                assert(old_s[k as int].approval_id@ == key);
                            } else if j < new_s.len() - 1 {
                                let oj = if j < k { j } else { j + 1 };
                                assert(new_s[j] == old_s[oj]);
                                assert(old_s[k as int].approval_id@ == key);
                            }
                        }
                    }
                    assert forall|q: Seq<char>| #[trigger] pending_map(new_s).contains_key(q) <==> pending_map(old_s).insert(
                        key,
                        info,
                    ).contains_key(q) by {
                        if has_id(new_s, q) {
                            let i = choose|i: int| 0 <= i < new_s.len() && #[trigger] new_s[i].approval_id@ == q;
                            if i < new_s.len() - 1 {
                                let oi = if i < k { i } else { i + 1 };
                                assert(new_s[i] == old_s[oi]);
                            }
                        }
                        if has_id(old_s, q) && q != key {
                            let oi = choose|i: int| 0 <= i < old_s.len() && #[trigger] old_s[i].approval_id@ == q;
                            assert(oi != k);
                            let i = if oi < k { oi } else { oi - 1 };
                            assert(new_s[i] == old_s[oi]);
                        }
                        if q == key {
                            assert(new_s[new_s.len() - 1].approval_id@ == q);
                        }
                    }
                    assert forall|q: Seq<char>| #[trigger] pending_map(new_s).contains_key(q) implies pending_map(new_s)[q]
                        == pending_map(old_s).insert(key, info)[q] by {
                        let i = choose|i: int| 0 <= i < new_s.len() && #[trigger] new_s[i].approval_id@ == q;
                        lemma_entry(new_s, i);
                        if i < new_s.len() - 1 {
                            let oi = if i < k { i } else { i + 1 };
                            assert(new_s[i] == old_s[oi]);
                            lemma_entry(old_s, oi);
                        }
                    }
                    assert(pending_map(new_s) =~= pending_map(old_s).insert(key, info));
                }
                self.pending = pending;
                let ghost prev_id = previous.approval_id@;
                let sent = deliver(previous.responder, ApprovalResult { approved: false });
                proof {
                    lemma_entry(old_s, k as int);
                    self.handed@ = self.handed@.push((prev_id, sent));
                }
            },
            None => {
                pending.push(entry);
                let ghost new_s = pending@;
                proof {
                    assert(new_s =~= old_s.push(entry));
                    assert(distinct_ids(new_s)) by {
                        assert forall|i: int, j: int| 0 <= i < new_s.len() && 0 <= j < new_s.len() && i != j implies #[trigger] new_s[i].approval_id@ != #[trigger] new_s[j].approval_id@ by {
                            if i < old_s.len() && j < old_s.len() {
                                assert(new_s[i] == old_s[i]);
                                assert(new_s[j] == old_s[j]);
                            } else if i < old_s.len() {
                                assert(new_s[i] == old_s[i]);
                            } else if j < old_s.len() {
                                assert(new_s[j] == old_s[j]);
                            }
                        }
                    }
                    assert forall|q: Seq<char>| #[trigger] pending_map(new_s).contains_key(q) <==> pending_map(old_s).insert(
                        key,
                        info,
                    ).contains_key(q) by {
                        if has_id(new_s, q) {
                            let i = choose|i: int| 0 <= i < new_s.len() && #[trigger] new_s[i].approval_id@ == q;
                            if i < old_s.len() {
                                assert(new_s[i] == old_s[i]);
                            }
                        }
                        if has_id(old_s, q) {
                            let i = choose|i: int| 0 <= i < old_s.len() && #[trigger] old_s[i].approval_id@ == q;
                            assert(new_s[i] == old_s[i]);
                        }
                        if q == key {
                            assert(new_s[new_s.len() - 1].approval_id@ == q);
                        }
                    }
                    assert forall|q: Seq<char>| #[trigger] pending_map(new_s).contains_key(q) implies pending_map(new_s)[q]
                        == pending_map(old_s).insert(key, info)[q] by {
                        let i = choose|i: int| 0 <= i < new_s.len() && #[trigger] new_s[i].approval_id@ == q;
                        lemma_entry(new_s, i);
                        if i < old_s.len() {
                            assert(new_s[i] == old_s[i]);
                            lemma_entry(old_s, i);
                        }
                    }
                    assert(pending_map(new_s) =~= pending_map(old_s).insert(key, info));
                }
                self.pending = pending;
            },
        }
        rx
    }

    /// Resolves the approval pending under `approval_id`: hands the waiting
    /// tool the verdict for `decision` and returns what the approval was
    /// about. Fails when nothing is pending under that id.
    pub fn respond(&mut self, approval_id: &str, decision: ApprovalDecision, _scope: ApprovalScope) -> (r: Result<
        ResolvedApproval,
        (),
    >)
        ensures
            old(self)@.contains_key(approval_id@) <==> r is Ok,
            match r {
                Ok(resolved) => resolved.info() == old(self)@[approval_id@] && final(self)@ == old(self)@.remove(
                    approval_id@,
                ) && final(self).handed_out() == old(self).handed_out().push((approval_id@, verdict(decision))),
                Err(()) => final(self)@ == old(self)@ && final(self).handed_out() == old(self).handed_out(),
            },
    {
        proof {
            use_type_invariant(&*self);
        }
        let k = match self.position(approval_id) {
            Some(k) => k,
            None => {
                return Err(());
            },
        };
        let ghost old_s = self.pending@;
        let ghost key = approval_id@;
        proof {
            lemma_entry(old_s, k as int);
        }
        let mut pending: Vec<PendingApproval> = Vec::new();
        std::mem::swap(&mut pending, &mut self.pending);
        let entry = pending.remove(k);
        let ghost new_s = pending@;
        proof {
            assert(new_s =~= old_s.remove(k as int));
            assert(distinct_ids(new_s)) by {
                assert forall|i: int, j: int| 0 <= i < new_s.len() && 0 <= j < new_s.len() && i != j implies #[trigger] new_s[i].approval_id@ != #[trigger] new_s[j].approval_id@ by {
                    let oi = if i < k { i } else { i + 1 };
                    let oj = if j < k { j } else { j + 1 };
                    assert(new_s[i] == old_s[oi]);
                    assert(new_s[j] == old_s[oj]);
                }
            }
            assert forall|q: Seq<char>| #[trigger] pending_map(new_s).contains_key(q) <==> pending_map(old_s).remove(key).contains_key(q) by {
                if has_id(new_s, q) {
                    let i = choose|i: int| 0 <= i < new_s.len() && #[trigger] new_s[i].approval_id@ == q;
                    let oi = if i < k { i } else { i + 1 };
                    assert(new_s[i] == old_s[oi]);
                    assert(oi != k);
                }
                if has_id(old_s, q) && q != key {
                    let oi = choose|i: int| 0 <= i < old_s.len() && #[trigger] old_s[i].approval_id@ == q;
                    assert(oi != k);
                    let i = if oi < k { oi } else { oi - 1 };
                    assert(new_s[i] == old_s[oi]);
                }
            }
            assert forall|q: Seq<char>| #[trigger] pending_map(new_s).contains_key(q) implies pending_map(new_s)[q]
                == pending_map(old_s).remove(key)[q] by {
                let i = choose|i: int| 0 <= i < new_s.len() && #[trigger] new_s[i].approval_id@ == q;
                lemma_entry(new_s, i);
                let oi = if i < k { i } else { i + 1 };
                assert(new_s[i] == old_s[oi]);
                lemma_entry(old_s, oi);
            }
            assert(pending_map(new_s) =~= pending_map(old_s).remove(key));
        }
        self.pending = pending;
        let PendingApproval { approval_id: _, session_id, turn_id, tool_name, action_summary, justification, responder } =
            entry;
        let sent = deliver(responder, approval_result(decision));
        proof {
            self.handed@ = self.handed@.push((key, sent));
        }
        Ok(ResolvedApproval { session_id, turn_id, tool_name, action_summary, justification })
    }

    /// Drops every pending approval that `sel` selects, telling each waiting
    /// tool that it was not approved.
    fn cancel_matching(&mut self, sel: Selector)
        ensures
            final(self)@ == without(old(self)@, sel),
            refusals_added(old(self).handed_out(), final(self).handed_out(), old(self)@.remove_keys(final(self)@.dom())),
    {
        proof {
            use_type_invariant(&*self);
        }
        let ghost old_s = self.pending@;
        let ghost old_log = self.handed@;
        let mut rest: Vec<PendingApproval> = Vec::new();
        std::mem::swap(&mut rest, &mut self.pending);
        let mut kept: Vec<PendingApproval> = Vec::new();
        let ghost mut added: Seq<(Seq<char>, ApprovalResult)> = Seq::empty();
        assert(rest@.take(rest@.len() as int) =~= old_s);
        while rest.len() > 0
            invariant
                rest@.len() <= old_s.len(),
                rest@ == old_s.take(rest@.len() as int),
                distinct_ids(old_s),
                distinct_ids(kept@),
                kept_from(kept@, old_s, rest@.len() as int, sel),
                covers(kept@, old_s, rest@.len() as int, sel),
                forall|i: int| 0 <= i < added.len() ==> refused_from(#[trigger] added[i], old_s, rest@.len() as int, sel),
                forall|i: int, j: int| 0 <= i < j < added.len() ==> (#[trigger] added[i]).0 != (#[trigger] added[j]).0,
                forall|j: int| rest@.len() <= j < old_s.len() && selects(sel, #[trigger] old_s[j].info()) ==> exists|i: int|
                    0 <= i < added.len() && (#[trigger] added[i]).0 == old_s[j].approval_id@,
            decreases rest@.len(),
        {
            let ghost m = rest@.len() - 1;
            let entry = rest.pop().unwrap();
            assert(entry == old_s[m]);
            let ghost kept_before = kept@;
            if selector_matches(&sel, &entry) {
                proof {
                    lemma_skip_selected(old_s, kept@, m, sel);
                }
                let ghost id = entry.approval_id@;
                let sent = deliver(entry.responder, ApprovalResult { approved: false });
                proof {
                    let before = added;
                    added = added.push((id, sent));
                    assert forall|i: int| 0 <= i < added.len() implies refused_from(#[trigger] added[i], old_s, m, sel) by {
                        if i < before.len() {
                            assert(added[i] == before[i]);
                            assert(refused_from(before[i], old_s, m + 1, sel));
                            let j = choose|j: int| m + 1 <= j < old_s.len() && selects(sel, old_s[j].info())
                                && before[i] == (old_s[j].approval_id@, not_approved());
                            assert(m <= j < old_s.len() && selects(sel, old_s[j].info())
                                && added[i] == (old_s[j].approval_id@, not_approved()));
                        } else {
                            assert(added[i] == (old_s[m].approval_id@, not_approved()));
                        }
                    }
                    assert forall|i: int, j: int| 0 <= i < j < added.len() implies (#[trigger] added[i]).0 != (#[trigger] added[j]).0 by {
                        if j < before.len() {
                            assert(added[i] == before[i] && added[j] == before[j]);
                        } else {
                            assert(added[i] == before[i]);
                            assert(refused_from(before[i], old_s, m + 1, sel));
                            let q = choose|q: int| m + 1 <= q < old_s.len() && selects(sel, old_s[q].info())
                                && before[i] == (old_s[q].approval_id@, not_approved());
                            assert(old_s[q].approval_id@ != old_s[m].approval_id@);
                        }
                    }
                    assert forall|j: int| m <= j < old_s.len() && selects(sel, #[trigger] old_s[j].info()) implies exists|i: int|
                        0 <= i < added.len() && (#[trigger] added[i]).0 == old_s[j].approval_id@ by {
                        if j == m {
                            assert(added[before.len() as int].0 == old_s[j].approval_id@);
                        } else {
                            let i = choose|i: int| 0 <= i < before.len() && (#[trigger] before[i]).0 == old_s[j].approval_id@;
                            assert(added[i] == before[i]);
                        }
                    }
                }
            } else {
                kept.push(entry);
                proof {
                    lemma_keep_unselected(old_s, kept_before, m, sel);
                    assert forall|i: int| 0 <= i < added.len() implies refused_from(#[trigger] added[i], old_s, m, sel) by {
                        assert(refused_from(added[i], old_s, m + 1, sel));
                        let j = choose|j: int| m + 1 <= j < old_s.len() && selects(sel, old_s[j].info())
                            && added[i] == (old_s[j].approval_id@, not_approved());
                        assert(m <= j < old_s.len() && selects(sel, old_s[j].info())
                            && added[i] == (old_s[j].approval_id@, not_approved()));
                    }
                }
            }
            assert(rest@ =~= old_s.take(rest@.len() as int));
        }
        proof {
            lemma_kept_map(old_s, kept@, sel);
            lemma_refusals(old_s, old_log, added, sel);
        }
        self.pending = kept;
        self.handed = Ghost(old_log + added);
    }

    /// Cancels every approval pending for `turn_id`, telling each waiting
    /// tool that it was not approved.
    pub fn cancel_for_turn(&mut self, turn_id: &TurnId)
        ensures
            final(self)@ == without_turn(old(self)@, *turn_id),
            refusals_added(old(self).handed_out(), final(self).handed_out(), old(self)@.remove_keys(final(self)@.dom())),
    {
        self.cancel_matching(Selector::Turn(*turn_id));
        assert(without(old(self)@, Selector::Turn(*turn_id)) =~= without_turn(old(self)@, *turn_id));
    }

    /// Cancels every approval pending for `session_id`, telling each waiting
    /// tool that it was not approved.
    pub fn cancel_for_session(&mut self, session_id: &SessionId)
        ensures
            final(self)@ == without_session(old(self)@, *session_id),
            refusals_added(old(self).handed_out(), final(self).handed_out(), old(self)@.remove_keys(final(self)@.dom())),
    {
        self.cancel_matching(Selector::Session(*session_id));
        assert(without(old(self)@, Selector::Session(*session_id)) =~= without_session(old(self)@, *session_id));
    }
}

impl Default for ApprovalManager {
    fn default() -> (r: ApprovalManager)
        ensures
            r@ == Map::<Seq<char>, PendingView>::empty(),
    {
        ApprovalManager::new()
    }
}

/// The name under which a decision is reported.
pub open spec fn decision_label(decision: ApprovalDecision) -> Seq<char> {
    match decision {
        ApprovalDecision::Approve => "approve"@,
        ApprovalDecision::Deny => "deny"@,
        ApprovalDecision::Cancel => "cancel"@,
    }
}

/// The name under which a decision is reported.
pub fn decision_name(decision: ApprovalDecision) -> (r: &'static str)
    ensures
        r@ == decision_label(decision),
{
    match decision {
        ApprovalDecision::Approve => "approve",
        ApprovalDecision::Deny => "deny",
        ApprovalDecision::Cancel => "cancel",
    }
}

/// The name under which a scope is reported.
pub open spec fn scope_label(scope: ApprovalScope) -> Seq<char> {
    match scope {
        ApprovalScope::Once => "once"@,
        ApprovalScope::Turn => "turn"@,
        ApprovalScope::Session => "session"@,
        ApprovalScope::PathPrefix => "path_prefix"@,
        ApprovalScope::Host => "host"@,
        ApprovalScope::Tool => "tool"@,
    }
}

/// The name under which a scope is reported.
pub fn scope_name(scope: ApprovalScope) -> (r: &'static str)
    ensures
        r@ == scope_label(scope),
{
    match scope {
        ApprovalScope::Once => "once",
        ApprovalScope::Turn => "turn",
        ApprovalScope::Session => "session",
        ApprovalScope::PathPrefix => "path_prefix",
        ApprovalScope::Host => "host",
        ApprovalScope::Tool => "tool",
    }
}

/// Whether an answer lets the tool skip approval for the rest of the
/// session: an approval for the session or for the tool.
pub fn remembers_tool(decision: ApprovalDecision, scope: ApprovalScope) -> (r: bool)
    ensures
        r == (decision == ApprovalDecision::Approve && (scope == ApprovalScope::Session || scope
            == ApprovalScope::Tool)),
{
    decision == ApprovalDecision::Approve && (scope == ApprovalScope::Session || scope == ApprovalScope::Tool)
}

// ---------------------------------------------------------------- laws

/// Answering an approval right after registering it resolves it with what
/// was registered and leaves the other approvals as they were.
pub proof fn law_respond_after_register(m: Map<Seq<char>, PendingView>, id: Seq<char>, info: PendingView)
    ensures
        m.insert(id, info).contains_key(id),
        m.insert(id, info)[id] == info,
        m.insert(id, info).remove(id) == m.remove(id),
{
    assert(m.insert(id, info).remove(id) =~= m.remove(id));
}

/// An approval is answered at most once: after it is resolved, answering
/// it again fails.
pub proof fn law_respond_once(m: Map<Seq<char>, PendingView>, id: Seq<char>)
    ensures
        !m.remove(id).contains_key(id),
{
}

/// Cancelling a turn leaves no approval of that turn pending and keeps every
/// approval of other turns.
pub proof fn law_cancel_for_turn(m: Map<Seq<char>, PendingView>, t: TurnId)
    ensures
        forall|k: Seq<char>| #[trigger] without_turn(m, t).contains_key(k) ==> without_turn(m, t)[k].turn_id != t,
        forall|k: Seq<char>| m.contains_key(k) && m[k].turn_id != t ==> #[trigger] without_turn(m, t).contains_key(k)
            && without_turn(m, t)[k] == m[k],
{
}

} // verus!
