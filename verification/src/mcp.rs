//! Tools that MCP servers offer, brought into the tool registry under
//! namespaced names, and their results flattened to text.
use vstd::prelude::*;

use crate::ls::ToolOutput;
use crate::registry::{flags_of, is_listed, listed, ToolEntry, ToolRegistry, ToolView};
use crate::text::{chars_of, decimal, join, join_chars, push_decimal, string_of, strings, views};
use crate::tui::transcript::push_str;

verus! {

/// The prefix of every name under which an MCP tool is registered.
pub const MCP_TOOL_PREFIX: &'static str = "mcp__";

/// A tool that an MCP server describes.
#[derive(Clone, Debug)]
pub struct McpToolDescriptor {
    pub name: String,
    pub description: String,
    /// The JSON schema of the tool's input, as text.
    pub input_schema: String,
    /// The server's hint that the tool only reads, where it gives one.
    pub read_only_hint: Option<bool>,
}

/// An MCP server and the tools it offers.
#[derive(Clone, Debug)]
pub struct McpServerStatus {
    pub server_id: String,
    pub tools: Vec<McpToolDescriptor>,
}

/// A block of an MCP tool's result.
#[derive(Clone, Debug)]
pub enum ContentBlock {
    Text(String),
    /// An image: its MIME subtype and the length of its data in bytes.
    Image { mime_type: String, data_len: usize },
    /// A resource, as JSON text.
    Resource(String),
    /// A block of another kind, as JSON text.
    Other(String),
}

/// The result of an MCP tool call.
#[derive(Clone, Debug)]
pub struct CallToolResult {
    pub content: Vec<ContentBlock>,
    pub is_error: bool,
}

/// The name under which a server's tool is registered:
/// `mcp__<server>__<tool>`.
pub open spec fn exposed(server_id: Seq<char>, tool: Seq<char>) -> Seq<char> {
    "mcp__"@ + server_id + "__"@ + tool
}

/// Whether a tool only reads: its hint, and no when there is none.
pub open spec fn hinted_read_only(hint: Option<bool>) -> bool {
    match hint {
        Some(b) => b,
        None => false,
    }
}

fn exposed_name_of(server_id: &str, tool: &str) -> (r: String)
    ensures
        r@ == exposed(server_id@, tool@),
{
    let mut v = chars_of(MCP_TOOL_PREFIX);
    push_str(&mut v, server_id);
    push_str(&mut v, "__");
    push_str(&mut v, tool);
    string_of(v.as_slice())
}

/// One MCP tool as the registry sees it.
#[derive(Clone, Debug)]
pub struct McpToolAdapter {
    server_id: String,
    tool_name: String,
    description: String,
    input_schema: String,
    exposed_name: String,
    read_only_hint: Option<bool>,
}

impl McpToolAdapter {
    /// The server the tool belongs to.
    pub closed spec fn spec_server_id(&self) -> Seq<char> {
        self.server_id@
    }

    /// The tool's name on its server.
    pub closed spec fn spec_tool_name(&self) -> Seq<char> {
        self.tool_name@
    }

    /// The tool's description.
    pub closed spec fn spec_description(&self) -> Seq<char> {
        self.description@
    }

    /// The JSON schema of the tool's input, as text.
    pub closed spec fn spec_input_schema(&self) -> Seq<char> {
        self.input_schema@
    }

    /// The name the tool is registered under.
    pub closed spec fn spec_exposed_name(&self) -> Seq<char> {
        self.exposed_name@
    }

    /// Whether the tool only reads.
    pub closed spec fn spec_read_only(&self) -> bool {
        hinted_read_only(self.read_only_hint)
    }

    /// The adapter of `descriptor` on server `server_id`; it is registered
    /// as `mcp__<server_id>__<tool name>`.
    pub fn new(server_id: &str, descriptor: &McpToolDescriptor) -> (r: McpToolAdapter)
        ensures
            r.spec_server_id() == server_id@,
            r.spec_tool_name() == descriptor.name@,
            r.spec_description() == descriptor.description@,
            r.spec_input_schema() == descriptor.input_schema@,
            r.spec_exposed_name() == exposed(server_id@, descriptor.name@),
            r.spec_read_only() == hinted_read_only(descriptor.read_only_hint),
    {
        McpToolAdapter {
            server_id: server_id.to_owned(),
            tool_name: descriptor.name.clone(),
            description: descriptor.description.clone(),
            input_schema: descriptor.input_schema.clone(),
            exposed_name: exposed_name_of(server_id, descriptor.name.as_str()),
            read_only_hint: descriptor.read_only_hint,
        }
    }

    /// The name the tool is registered under.
    pub fn exposed_name(&self) -> (r: &str)
        ensures
            r@ == self.spec_exposed_name(),
    {
        self.exposed_name.as_str()
    }

    /// The tool's name in the registry, the exposed name.
    pub fn name(&self) -> (r: &str)
        ensures
            r@ == self.spec_exposed_name(),
    {
        self.exposed_name.as_str()
    }

    /// The server the tool belongs to.
    pub fn server_id(&self) -> (r: &str)
        ensures
            r@ == self.spec_server_id(),
    {
        self.server_id.as_str()
    }

    /// The tool's name on its server, which a call sends.
    pub fn tool_name(&self) -> (r: &str)
        ensures
            r@ == self.spec_tool_name(),
    {
        self.tool_name.as_str()
    }

    /// The tool's description.
    pub fn description(&self) -> (r: &str)
        ensures
            r@ == self.spec_description(),
    {
        self.description.as_str()
    }

    /// The JSON schema of the tool's input, as text.
    pub fn input_schema(&self) -> (r: &str)
        ensures
            r@ == self.spec_input_schema(),
    {
        self.input_schema.as_str()
    }

    /// Whether the tool only reads: the server's hint, no when there is none.
    pub fn is_read_only(&self) -> (r: bool)
        ensures
            r == self.spec_read_only(),
    {
        match self.read_only_hint {
            Some(b) => b,
            None => false,
        }
    }
}

// ---------------------------------------------------------------- results

/// One block as text: text as it is; an image, a resource or another block
/// as a one-line placeholder.
pub open spec fn block_text(b: ContentBlock) -> Seq<char> {
    match b {
        ContentBlock::Text(t) => t@,
        ContentBlock::Image { mime_type, data_len } => "[image/"@ + mime_type@ + ": "@ + decimal(data_len as nat)
            + " bytes]"@,
        ContentBlock::Resource(r) => "[resource: "@ + r@ + "]"@,
        ContentBlock::Other(v) => "[unsupported: "@ + v@ + "]"@,
    }
}

/// The text of a result: its blocks' texts joined by newlines.
pub open spec fn result_text(blocks: Seq<ContentBlock>) -> Seq<char> {
    join(blocks.map_values(|b: ContentBlock| block_text(b)), "\n"@)
}

fn block_chars(b: &ContentBlock) -> (r: Vec<char>)
    ensures
        r@ == block_text(*b),
{
    match b {
        ContentBlock::Text(t) => chars_of(t.as_str()),
        ContentBlock::Image { mime_type, data_len } => {
            let mut v = chars_of("[image/");
            push_str(&mut v, mime_type.as_str());
            push_str(&mut v, ": ");
            push_decimal(&mut v, *data_len);
            push_str(&mut v, " bytes]");
            v
        },
        ContentBlock::Resource(r) => {
            let mut v = chars_of("[resource: ");
            push_str(&mut v, r.as_str());
            push_str(&mut v, "]");
            v
        },
        ContentBlock::Other(o) => {
            let mut v = chars_of("[unsupported: ");
            push_str(&mut v, o.as_str());
            push_str(&mut v, "]");
            v
        },
    }
}

/// A tool result as a tool output: the blocks' texts joined by newlines,
/// failed where the result says so, with the raw result, where given, kept
/// as metadata.
pub fn flatten_call_tool_result(result: &CallToolResult, raw: Option<String>) -> (r: ToolOutput)
    ensures
        r.content@ == result_text(result.content@),
        r.is_error == result.is_error,
        r.metadata == raw,
{
    let mut parts: Vec<Vec<char>> = Vec::new();
    let mut i: usize = 0;
    while i < result.content.len()
        invariant
            i <= result.content.len(),
            views(parts@) == result.content@.take(i as int).map_values(|b: ContentBlock| block_text(b)),
        decreases result.content.len() - i,
    {
        let ghost before = parts@;
        parts.push(block_chars(&result.content[i]));
        proof {
            assert(views(parts@) =~= views(before).push(block_text(result.content@[i as int])));
            assert(result.content@.take((i + 1) as int).map_values(|b: ContentBlock| block_text(b)) =~= result.content@.take(
                i as int,
            ).map_values(|b: ContentBlock| block_text(b)).push(block_text(result.content@[i as int])));
        }
        i += 1;
    }
    assert(result.content@.take(i as int) =~= result.content@);
    let text = join_chars(&parts, chars_of("\n").as_slice());
    ToolOutput { content: string_of(text.as_slice()), is_error: result.is_error, metadata: raw }
}

// ---------------------------------------------------------------- registration

/// The registrations a server asks for: each tool's exposed name and
/// whether it only reads, in order.
pub open spec fn server_pairs(status: McpServerStatus) -> Seq<(Seq<char>, bool)> {
    status.tools@.map_values(
        |d: McpToolDescriptor| (exposed(status.server_id@, d.name@), hinted_read_only(d.read_only_hint)),
    )
}

/// The registrations all servers ask for, server by server.
pub open spec fn all_pairs(statuses: Seq<McpServerStatus>) -> Seq<(Seq<char>, bool)>
    decreases statuses.len(),
{
    if statuses.len() == 0 {
        Seq::empty()
    } else {
        all_pairs(statuses.drop_last()) + server_pairs(statuses.last())
    }
}

/// The tools a server offers as the registry keeps them: each tool's exposed
/// name with its read-only flag, description and schema, in order.
pub open spec fn server_views(status: McpServerStatus) -> Seq<(Seq<char>, ToolView)> {
    status.tools@.map_values(
        |d: McpToolDescriptor|
            (
                exposed(status.server_id@, d.name@),
                ToolView {
                    read_only: hinted_read_only(d.read_only_hint),
                    description: d.description@,
                    input_schema: d.input_schema@,
                },
            ),
    )
}

/// The tools all servers offer, server by server.
pub open spec fn all_views(statuses: Seq<McpServerStatus>) -> Seq<(Seq<char>, ToolView)>
    decreases statuses.len(),
{
    if statuses.len() == 0 {
        Seq::empty()
    } else {
        all_views(statuses.drop_last()) + server_views(statuses.last())
    }
}

/// The registry after registering `pairs` in order, each only where its
/// name is not yet taken.
pub open spec fn add_absent<V>(m: Map<Seq<char>, V>, pairs: Seq<(Seq<char>, V)>) -> Map<Seq<char>, V>
    decreases pairs.len(),
{
    if pairs.len() == 0 {
        m
    } else {
        let before = add_absent(m, pairs.drop_last());
        let p = pairs.last();
        if before.contains_key(p.0) {
            before
        } else {
            before.insert(p.0, p.1)
        }
    }
}

proof fn lemma_add_absent_push<V>(m: Map<Seq<char>, V>, pairs: Seq<(Seq<char>, V)>, p: (Seq<char>, V))
    ensures
        add_absent(m, pairs.push(p)) == (if add_absent(m, pairs).contains_key(p.0) {
            add_absent(m, pairs)
        } else {
            add_absent(m, pairs).insert(p.0, p.1)
        }),
{
    assert(pairs.push(p).drop_last() =~= pairs);
}

/// Registers one adapter per tool of each server. A tool whose exposed name
/// is already registered is skipped, so the first registration of a name
/// stays.
pub fn register_mcp_tools(registry: &mut ToolRegistry, statuses: &[McpServerStatus])
    ensures
        final(registry)@ == add_absent(old(registry)@, all_pairs(statuses@)),
        final(registry).tool_views() == add_absent(old(registry).tool_views(), all_views(statuses@)),
{
    let ghost start = registry@;
    let ghost start_views = registry.tool_views();
    let mut i: usize = 0;
    while i < statuses.len()
        invariant
            i <= statuses.len(),
            registry@ == add_absent(start, all_pairs(statuses@.take(i as int))),
            registry.tool_views() == add_absent(start_views, all_views(statuses@.take(i as int))),
        decreases statuses.len() - i,
    {
        let status = &statuses[i];
        let ghost done = all_pairs(statuses@.take(i as int));
        let ghost done_views = all_views(statuses@.take(i as int));
        let mut j: usize = 0;
        while j < status.tools.len()
            invariant
                i < statuses.len(),
                *status == statuses@[i as int],
                j <= status.tools.len(),
                registry@ == add_absent(start, done + server_pairs(*status).take(j as int)),
                registry.tool_views() == add_absent(start_views, done_views + server_views(*status).take(j as int)),
            decreases status.tools.len() - j,
        {
            let adapter = McpToolAdapter::new(status.server_id.as_str(), &status.tools[j]);
            let ghost p = server_pairs(*status)[j as int];
            let ghost pv = server_views(*status)[j as int];
            proof {
                lemma_add_absent_push(start, done + server_pairs(*status).take(j as int), p);
                assert((done + server_pairs(*status).take(j as int)).push(p) =~= done + server_pairs(*status).take(
                    (j + 1) as int,
                ));
                lemma_add_absent_push(start_views, done_views + server_views(*status).take(j as int), pv);
                assert((done_views + server_views(*status).take(j as int)).push(pv) =~= done_views + server_views(
                    *status,
                ).take((j + 1) as int));
                registry.lemma_views_agree();
                assert(flags_of(registry.tool_views()).contains_key(pv.0) == registry.tool_views().contains_key(pv.0));
            }
            if registry.get(adapter.exposed_name()).is_none() {
                registry.register(
                    ToolEntry::with_definition(
                        adapter.exposed_name(),
                        adapter.description(),
                        adapter.input_schema(),
                        adapter.is_read_only(),
                    ),
                );
            }
            j += 1;
        }
        proof {
            assert(server_pairs(*status).take(j as int) =~= server_pairs(*status));
            assert(server_views(*status).take(j as int) =~= server_views(*status));
            assert(statuses@.take((i + 1) as int).drop_last() =~= statuses@.take(i as int));
        }
        i += 1;
    }
    assert(statuses@.take(i as int) =~= statuses@);
}

/// Registering MCP tools changes no tool that was registered before, and
/// afterwards every tool the servers offer is registered under its exposed
/// name.
pub proof fn law_mcp_registration_keeps_first<V>(m: Map<Seq<char>, V>, pairs: Seq<(Seq<char>, V)>)
    ensures
        forall|n: Seq<char>| #[trigger] m.contains_key(n) ==> add_absent(m, pairs).contains_key(n) && add_absent(m, pairs)[n]
            == m[n],
        forall|k: int| 0 <= k < pairs.len() ==> add_absent(m, pairs).contains_key(#[trigger] pairs[k].0),
        forall|n: Seq<char>| #[trigger] add_absent(m, pairs).contains_key(n) ==> m.contains_key(n) || exists|k: int|
            0 <= k < pairs.len() && #[trigger] pairs[k].0 == n,
    decreases pairs.len(),
{
    if pairs.len() > 0 {
        let rest = pairs.drop_last();
        law_mcp_registration_keeps_first(m, rest);
        assert forall|k: int| 0 <= k < pairs.len() implies add_absent(m, pairs).contains_key(#[trigger] pairs[k].0) by {
            if k < rest.len() {
                assert(rest[k] == pairs[k]);
            }
        }
        assert forall|n: Seq<char>| #[trigger] add_absent(m, pairs).contains_key(n) implies m.contains_key(n) || exists|k: int|
            0 <= k < pairs.len() && #[trigger] pairs[k].0 == n by {
            if !m.contains_key(n) && add_absent(m, rest).contains_key(n) {
                let k = choose|k: int| 0 <= k < rest.len() && #[trigger] rest[k].0 == n;
                assert(pairs[k] == rest[k]);
            } else if !m.contains_key(n) {
                assert(pairs[pairs.len() - 1].0 == n);
            }
        }
    }
}

/// The exposed names of the tools of trusted servers, server by server;
/// those tools skip the approval flow.
pub open spec fn trusted_names(statuses: Seq<McpServerStatus>, trusted: Seq<String>) -> Seq<Seq<char>>
    decreases statuses.len(),
{
    if statuses.len() == 0 {
        Seq::empty()
    } else {
        let rest = trusted_names(statuses.drop_last(), trusted);
        let st = statuses.last();
        if listed(trusted, st.server_id@) {
            rest + st.tools@.map_values(|d: McpToolDescriptor| exposed(st.server_id@, d.name@))
        } else {
            rest
        }
    }
}

/// The exposed names of the tools of the servers whose ids are in
/// `trusted_server_ids`.
pub fn trusted_mcp_tool_names(statuses: &[McpServerStatus], trusted_server_ids: &[String]) -> (r: Vec<String>)
    ensures
        strings(r@) == trusted_names(statuses@, trusted_server_ids@),
{
    let mut r: Vec<String> = Vec::new();
    let mut i: usize = 0;
    while i < statuses.len()
        invariant
            i <= statuses.len(),
            strings(r@) == trusted_names(statuses@.take(i as int), trusted_server_ids@),
        decreases statuses.len() - i,
    {
        let st = &statuses[i];
        proof {
            assert(statuses@.take((i + 1) as int).drop_last() =~= statuses@.take(i as int));
        }
        if is_listed(trusted_server_ids, st.server_id.as_str()) {
            let ghost done = strings(r@);
            let ghost names = st.tools@.map_values(|d: McpToolDescriptor| exposed(st.server_id@, d.name@));
            let mut j: usize = 0;
            while j < st.tools.len()
                invariant
                    j <= st.tools.len(),
                    names == st.tools@.map_values(|d: McpToolDescriptor| exposed(st.server_id@, d.name@)),
                    strings(r@) == done + names.take(j as int),
                decreases st.tools.len() - j,
            {
                let ghost before = r@;
                r.push(exposed_name_of(st.server_id.as_str(), st.tools[j].name.as_str()));
                assert(strings(r@) =~= strings(before).push(names[j as int]));
                assert(names.take((j + 1) as int) =~= names.take(j as int).push(names[j as int]));
                j += 1;
            }
            assert(names.take(j as int) =~= names);
        }
        i += 1;
    }
    assert(statuses@.take(i as int) =~= statuses@);
    r
}

} // verus!
