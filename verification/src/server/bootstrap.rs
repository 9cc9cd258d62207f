//! Start-up arguments and settings of the server process.
use vstd::prelude::*;

use crate::ls::{joined_path, ls_base};
use crate::mcp::{add_absent, all_pairs, all_views, register_mcp_tools, McpServerStatus};
use crate::registry::{
    apply_tool_filters, passes_filters, register_builtin_tools, with_builtin_views, with_builtins, ToolRegistry,
};
use crate::text::{chars_of, split_chars, split_on, string_of, strings, trim, trim_chars, views};

verus! {

/// Command-line arguments accepted by the standalone server process.
#[derive(Debug, Clone)]
pub struct ServerProcessArgs {
    /// Optional workspace root used for project-level config resolution.
    pub working_root: Option<String>,
}

/// The server's tools: the built-in ones, then those of the MCP servers
/// where their names are free, filtered by the allow and deny lists (empty
/// lists keep every tool).
pub fn server_tool_registry(statuses: &[McpServerStatus], allowed: &[String], disallowed: &[String]) -> (r: ToolRegistry)
    ensures
        r@ == add_absent(with_builtins(Map::empty()), all_pairs(statuses@)).restrict(
            Set::new(|n: Seq<char>| passes_filters(allowed@, disallowed@, n)),
        ),
        r.tool_views() == add_absent(with_builtin_views(Map::empty()), all_views(statuses@)).restrict(
            Set::new(|n: Seq<char>| passes_filters(allowed@, disallowed@, n)),
        ),
{
    let mut registry = ToolRegistry::new();
    register_builtin_tools(&mut registry);
    register_mcp_tools(&mut registry, statuses);
    let ghost m = registry@;
    let ghost v = registry.tool_views();
    if allowed.len() > 0 || disallowed.len() > 0 {
        apply_tool_filters(&mut registry, allowed, disallowed);
    } else {
        proof {
            let keep = Set::new(|n: Seq<char>| passes_filters(allowed@, disallowed@, n));
            assert(m.restrict(keep) =~= m);
            assert(v.restrict(keep) =~= v);
        }
    }
    registry
}

/// The trimmed, non-empty entries among `parts`, in order.
pub open spec fn csv_entries(parts: Seq<Seq<char>>) -> Seq<Seq<char>>
    decreases parts.len(),
{
    if parts.len() == 0 {
        Seq::empty()
    } else {
        let rest = csv_entries(parts.drop_last());
        let t = trim(parts.last());
        if t.len() == 0 {
            rest
        } else {
            rest.push(t)
        }
    }
}

/// Splits a comma-separated value into trimmed, non-empty entries.
pub fn split_csv(value: &str) -> (r: Vec<String>)
    ensures
        strings(r@) == csv_entries(split_on(value@, ',')),
{
    let parts = split_chars(chars_of(value).as_slice(), ',');
    let ghost ps = views(parts@);
    let mut r: Vec<String> = Vec::new();
    let mut i: usize = 0;
    while i < parts.len()
        invariant
            i <= parts.len(),
            ps == views(parts@),
            strings(r@) == csv_entries(ps.take(i as int)),
        decreases parts.len() - i,
    {
        assert(ps.take((i + 1) as int).drop_last() =~= ps.take(i as int));
        assert(ps[i as int] == parts@[i as int]@);
        let t = trim_chars(parts[i].as_slice());
        if t.len() > 0 {
            let ghost before = r@;
            r.push(string_of(t.as_slice()));
            assert(strings(r@) =~= strings(before).push(t@));
        }
        i += 1;
    }
    assert(ps.take(i as int) =~= ps);
    r
}

/// The user's skill directories: each configured root, relative ones taken
/// under the user's configuration directory.
pub open spec fn user_roots(roots: Seq<Seq<char>>, config_dir: Seq<char>) -> Seq<Seq<char>> {
    roots.map_values(|p: Seq<char>| joined_path(config_dir, p))
}

/// The workspace's skill directories: absolute roots as they are, relative
/// ones under the project's configuration directory, and none of the
/// relative ones where there is no project.
pub open spec fn workspace_roots(roots: Seq<Seq<char>>, base: Option<Seq<char>>) -> Seq<Seq<char>>
    decreases roots.len(),
{
    if roots.len() == 0 {
        Seq::empty()
    } else {
        let rest = workspace_roots(roots.drop_last(), base);
        let p = roots.last();
        if p.len() > 0 && p[0] == '/' {
            rest.push(p)
        } else {
            match base {
                Some(b) => rest.push(joined_path(b, p)),
                None => rest,
            }
        }
    }
}

/// The user's skill directories.
pub fn user_skill_roots(roots: &[String], user_config_dir: &str) -> (r: Vec<String>)
    ensures
        strings(r@) == user_roots(strings(roots@), user_config_dir@),
{
    let mut r: Vec<String> = Vec::new();
    let mut i: usize = 0;
    while i < roots.len()
        invariant
            i <= roots.len(),
            strings(r@) == user_roots(strings(roots@.take(i as int)), user_config_dir@),
        decreases roots.len() - i,
    {
        let ghost before = r@;
        r.push(ls_base(user_config_dir, Some(roots[i].as_str())));
        proof {
            assert(strings(r@) =~= strings(before).push(joined_path(user_config_dir@, roots@[i as int]@)));
            assert(strings(roots@.take((i + 1) as int)) =~= strings(roots@.take(i as int)).push(roots@[i as int]@));
            assert(user_roots(strings(roots@.take((i + 1) as int)), user_config_dir@) =~= user_roots(
                strings(roots@.take(i as int)),
                user_config_dir@,
            ).push(joined_path(user_config_dir@, roots@[i as int]@)));
        }
        i += 1;
    }
    assert(roots@.take(i as int) =~= roots@);
    r
}

/// The workspace's skill directories; `project_skill_base` is the project's
/// configuration directory, where there is a project.
pub fn workspace_skill_roots(roots: &[String], project_skill_base: Option<&str>) -> (r: Vec<String>)
    ensures
        strings(r@) == workspace_roots(
            strings(roots@),
            match project_skill_base {
                Some(b) => Some(b@),
                None => None,
            },
        ),
{
    let ghost base = match project_skill_base {
        Some(b) => Some(b@),
        None => None,
    };
    let mut r: Vec<String> = Vec::new();
    let mut i: usize = 0;
    while i < roots.len()
        invariant
            i <= roots.len(),
            base == match project_skill_base {
                Some(b) => Some(b@),
                None => None::<Seq<char>>,
            },
            strings(r@) == workspace_roots(strings(roots@.take(i as int)), base),
        decreases roots.len() - i,
    {
        let ghost before = r@;
        proof {
            assert(strings(roots@.take((i + 1) as int)).drop_last() =~= strings(roots@.take(i as int)));
            assert(strings(roots@.take((i + 1) as int)).last() == roots@[i as int]@);
        }
        let p = chars_of(roots[i].as_str());
        if p.len() > 0 && p[0] == '/' {
            r.push(roots[i].clone());
            assert(strings(r@) =~= strings(before).push(roots@[i as int]@));
        } else {
            match project_skill_base {
                Some(b) => {
                    r.push(ls_base(b, Some(roots[i].as_str())));
                    assert(strings(r@) =~= strings(before).push(joined_path(b@, roots@[i as int]@)));
                },
                None => {},
            }
        }
        i += 1;
    }
    assert(roots@.take(i as int) =~= roots@);
    r
}

} // verus!
