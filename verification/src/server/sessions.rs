//! How a new session is configured, and the order sessions are listed in.
use vstd::prelude::*;

use crate::server::approval::SessionId;
use crate::server::inputs::SandboxPolicyRecord;
use crate::server::titles::{forked_title, title_view, SessionTitle};
use crate::tui::provider::opt_view;

verus! {

/// The configuration of a new session, where the request overrides the
/// server's: the permission mode given, else the default one; the sandbox
/// given, else the server's baseline. Without any override, none: the
/// server's own configuration applies.
pub open spec fn overrides<P>(
    permission: Option<P>,
    default_permission: P,
    sandbox: Option<SandboxPolicyRecord>,
    baseline: Option<SandboxPolicyRecord>,
) -> Option<(P, Option<SandboxPolicyRecord>)> {
    if permission is None && sandbox is None {
        None
    } else {
        Some(
            (
                match permission {
                    Some(p) => p,
                    None => default_permission,
                },
                match sandbox {
                    Some(s) => Some(s),
                    None => baseline,
                },
            ),
        )
    }
}

/// The configuration of a new session; see [`overrides`].
pub fn session_config<P: Copy>(
    permission: Option<P>,
    default_permission: P,
    sandbox: Option<SandboxPolicyRecord>,
    baseline: Option<SandboxPolicyRecord>,
) -> (r: Option<(P, Option<SandboxPolicyRecord>)>)
    ensures
        r == overrides(permission, default_permission, sandbox, baseline),
{
    if permission.is_none() && sandbox.is_none() {
        return None;
    }
    let p = match permission {
        Some(p) => p,
        None => default_permission,
    };
    let s = match sandbox {
        Some(s) => Some(s),
        None => baseline,
    };
    Some((p, s))
}

/// Overriding one of the permission mode and the sandbox leaves the other
/// as the server has it: a sandbox alone keeps the default permission mode,
/// a permission mode alone keeps the baseline sandbox.
pub proof fn law_overrides_independent<P>(
    permission: Option<P>,
    default_permission: P,
    sandbox: Option<SandboxPolicyRecord>,
    baseline: Option<SandboxPolicyRecord>,
)
    ensures
        permission is None && sandbox is Some ==> overrides(permission, default_permission, sandbox, baseline) == Some(
            (default_permission, sandbox),
        ),
        permission is Some && sandbox is None ==> overrides(permission, default_permission, sandbox, baseline) == Some(
            (permission.unwrap(), baseline),
        ),
{
}

/// The model a new session uses: the one requested, else the default.
pub fn resolved_model(requested: Option<String>, default_model: &str) -> (r: String)
    ensures
        r@ == match requested {
            Some(m) => m@,
            None => default_model@,
        },
{
    match requested {
        Some(m) => m,
        None => default_model.to_owned(),
    }
}

// ---------------------------------------------------------------- forking

/// What a fork takes from the session it copies.
#[derive(Clone, Debug)]
pub struct ForkSource {
    pub cwd: String,
    pub title: SessionTitle,
    pub ephemeral: bool,
    pub resolved_model: Option<String>,
    pub total_input_tokens: u64,
    pub total_output_tokens: u64,
    pub total_cache_creation_tokens: u64,
    pub total_cache_read_tokens: u64,
    /// The input tokens of the session's last request.
    pub last_input_tokens: u64,
    pub turn_count: u64,
    /// How many history items the session holds.
    pub loaded_item_count: u64,
}

/// A session forked from another, before its conversation is copied over.
#[derive(Clone, Debug)]
pub struct ForkedSession {
    pub session_id: SessionId,
    pub cwd: String,
    pub title: SessionTitle,
    pub ephemeral: bool,
    pub resolved_model: String,
    pub total_input_tokens: u64,
    pub total_output_tokens: u64,
    pub total_cache_creation_tokens: u64,
    pub total_cache_read_tokens: u64,
    pub last_input_tokens: u64,
    pub turn_count: u64,
    pub loaded_item_count: u64,
    /// The sequence number of the fork's next item.
    pub next_item_seq: u64,
    /// The fork is written to disk: it is not ephemeral.
    pub persisted: bool,
}

/// The fork `id` of `source`: the requested working directory, else the
/// source's; the requested title, else the source's, with the source's
/// title state; the source's model, else the default; the source's token
/// counts (cache ones too), turn count and history; numbering after the
/// history; written to disk unless
/// the source is ephemeral.
pub fn fork_session(
    source: &ForkSource,
    id: SessionId,
    cwd: Option<String>,
    requested_title: Option<String>,
    default_model: &str,
) -> (r: ForkedSession)
    requires
        source.loaded_item_count < u64::MAX,
    ensures
        r.session_id == id,
        r.cwd@ == match cwd {
            Some(c) => c@,
            None => source.cwd@,
        },
        title_view(r.title) == (
            match requested_title {
                Some(t) => Some(t@),
                None => opt_view(source.title.title),
            },
            source.title.state,
        ),
        r.ephemeral == source.ephemeral,
        r.resolved_model@ == match source.resolved_model {
            Some(m) => m@,
            None => default_model@,
        },
        r.total_input_tokens == source.total_input_tokens,
        r.total_output_tokens == source.total_output_tokens,
        r.total_cache_creation_tokens == source.total_cache_creation_tokens,
        r.total_cache_read_tokens == source.total_cache_read_tokens,
        r.last_input_tokens == source.last_input_tokens,
        r.turn_count == source.turn_count,
        r.loaded_item_count == source.loaded_item_count,
        r.next_item_seq == source.loaded_item_count + 1,
        r.persisted == !source.ephemeral,
{
    let fork_cwd = match cwd {
        Some(c) => c,
        None => source.cwd.clone(),
    };
    let model = match &source.resolved_model {
        Some(m) => m.clone(),
        None => default_model.to_owned(),
    };
    ForkedSession {
        session_id: id,
        cwd: fork_cwd,
        title: forked_title(requested_title, &source.title),
        ephemeral: source.ephemeral,
        resolved_model: model,
        total_input_tokens: source.total_input_tokens,
        total_output_tokens: source.total_output_tokens,
        total_cache_creation_tokens: source.total_cache_creation_tokens,
        total_cache_read_tokens: source.total_cache_read_tokens,
        last_input_tokens: source.last_input_tokens,
        turn_count: source.turn_count,
        loaded_item_count: source.loaded_item_count,
        next_item_seq: source.loaded_item_count + 1,
        persisted: !source.ephemeral,
    }
}

// ---------------------------------------------------------------- listing order

/// `order` lists each position below `n` once.
pub open spec fn is_arrangement(order: Seq<usize>, n: int) -> bool {
    &&& order.len() == n
    &&& forall|i: int| 0 <= i < order.len() ==> order[i] < n
    &&& forall|i: int, j: int| 0 <= i < j < order.len() ==> order[i] != order[j]
}

/// The times of `order` never increase, and positions of equal times keep
/// their order.
pub open spec fn newest_first_stable(order: Seq<usize>, times: Seq<i64>) -> bool {
    forall|i: int, j: int|
        0 <= i < j < order.len() ==> times[order[i] as int] > times[order[j] as int] || (times[order[i] as int]
            == times[order[j] as int] && order[i] < order[j])
}

/// The order in which to list sessions updated at `times`: the most
/// recently updated first, sessions updated at the same time in the order
/// given.
pub fn order_by_recent(times: &[i64]) -> (r: Vec<usize>)
    ensures
        is_arrangement(r@, times.len() as int),
        newest_first_stable(r@, times@),
{
    let mut r: Vec<usize> = Vec::new();
    let mut i: usize = 0;
    while i < times.len()
        invariant
            i <= times.len(),
            r@.len() == i,
            forall|k: int| 0 <= k < r@.len() ==> r@[k] < i,
            forall|a: int, b: int| 0 <= a < b < r@.len() ==> r@[a] != r@[b],
            newest_first_stable(r@, times@),
        decreases times.len() - i,
    {
        let t = times[i];
        let mut p: usize = 0;
        while p < r.len() && times[r[p]] >= t
            invariant
                p <= r@.len(),
                forall|k: int| 0 <= k < r@.len() ==> r@[k] < i,
                i < times.len(),
                forall|k: int| 0 <= k < p ==> times@[r@[k] as int] >= t,
            decreases r@.len() - p,
        {
            p += 1;
        }
        let ghost before = r@;
        proof {
            assert forall|k: int| p <= k < before.len() implies times@[before[k] as int] < t by {
                if p < before.len() {
                    assert(times@[before[p as int] as int] < t);
                    if k > p {
                        assert(newest_first_stable(before, times@));
                        assert(times@[before[p as int] as int] >= times@[before[k] as int]);
                    }
                }
            }
        }
        r.insert(p, i);
        proof {
            let after = r@;
            assert(after =~= before.take(p as int).push(i).add(before.skip(p as int)));
            assert forall|k: int| 0 <= k < after.len() implies after[k] < i + 1 by {
                if k < p {
                    assert(after[k] == before[k]);
                } else if k > p {
                    assert(after[k] == before[k - 1]);
                }
            }
            assert forall|a: int, b: int| 0 <= a < b < after.len() implies after[a] != after[b] by {
                if a < p && b < p {
                    assert(after[a] == before[a] && after[b] == before[b]);
                } else if a < p && b == p {
                    assert(after[a] == before[a]);
                } else if a < p && b > p {
                    assert(after[a] == before[a] && after[b] == before[b - 1]);
                } else if a == p {
                    assert(after[b] == before[b - 1]);
                } else {
                    assert(after[a] == before[a - 1] && after[b] == before[b - 1]);
                }
            }
            assert forall|a: int, b: int| 0 <= a < b < after.len() implies times@[after[a] as int] > times@[after[b] as int]
                || (times@[after[a] as int] == times@[after[b] as int] && after[a] < after[b]) by {
                if a < p && b < p {
                    assert(after[a] == before[a] && after[b] == before[b]);
                } else if a < p && b == p {
                    assert(after[a] == before[a]);
                    assert(after[b] == i);
                } else if a < p && b > p {
                    assert(after[a] == before[a] && after[b] == before[b - 1]);
                } else if a == p {
                    assert(after[a] == i);
                    assert(after[b] == before[b - 1]);
                } else {
                    assert(after[a] == before[a - 1] && after[b] == before[b - 1]);
                }
            }
        }
        i += 1;
    }
    r
}

} // verus!
