//! The registry of tools available to a session.
use vstd::prelude::*;

use crate::text::{chars_eq, chars_of, string_of};

verus! {

/// What the registry knows of a tool: its name and whether it only reads.
#[derive(Debug, Clone)]
pub struct ToolEntry {
    name: String,
    description: String,
    input_schema: String,
    read_only: bool,
}

impl ToolEntry {
    /// The tool's name.
    pub closed spec fn spec_name(&self) -> Seq<char> {
        self.name@
    }

    /// Whether the tool only reads.
    pub closed spec fn spec_read_only(&self) -> bool {
        self.read_only
    }

    /// The tool's description, for the model.
    pub closed spec fn spec_description(&self) -> Seq<char> {
        self.description@
    }

    /// The JSON schema of the tool's input, as text.
    pub closed spec fn spec_input_schema(&self) -> Seq<char> {
        self.input_schema@
    }

    /// Everything the registry keeps of the tool but its name.
    pub open spec fn spec_view(&self) -> ToolView {
        ToolView {
            read_only: self.spec_read_only(),
            description: self.spec_description(),
            input_schema: self.spec_input_schema(),
        }
    }

    /// A tool entry with no description and no schema.
    pub fn new(name: &str, read_only: bool) -> (r: ToolEntry)
        ensures
            r.spec_name() == name@,
            r.spec_read_only() == read_only,
            r.spec_description() == Seq::<char>::empty(),
            r.spec_input_schema() == Seq::<char>::empty(),
    {
        ToolEntry { name: string_of(chars_of(name).as_slice()), description: String::new(), input_schema: String::new(), read_only }
    }

    /// A tool entry with its description and the JSON schema of its input.
    pub fn with_definition(name: &str, description: &str, input_schema: &str, read_only: bool) -> (r: ToolEntry)
        ensures
            r.spec_name() == name@,
            r.spec_read_only() == read_only,
            r.spec_description() == description@,
            r.spec_input_schema() == input_schema@,
    {
        ToolEntry {
            name: name.to_owned(),
            description: description.to_owned(),
            input_schema: input_schema.to_owned(),
            read_only,
        }
    }

    /// The tool's description.
    pub fn description(&self) -> (r: &str)
        ensures
            r@ == self.spec_description(),
    {
        self.description.as_str()
    }

    /// The JSON schema of the tool's input, as text.
    pub fn input_schema(&self) -> (r: &str)
        ensures
            r@ == self.spec_input_schema(),
    {
        self.input_schema.as_str()
    }

    /// The tool's name.
    pub fn name(&self) -> (r: &str)
        ensures
            r@ == self.spec_name(),
    {
        self.name.as_str()
    }

    /// Whether the tool only reads.
    pub fn is_read_only(&self) -> (r: bool)
        ensures
            r == self.spec_read_only(),
    {
        self.read_only
    }
}

/// What the registry keeps of a tool under its name: whether it only reads,
/// its description and the JSON schema of its input, as text.
pub struct ToolView {
    pub read_only: bool,
    pub description: Seq<char>,
    pub input_schema: Seq<char>,
}

/// Name-to-tool map of `entries`; a later entry wins over an earlier one.
pub open spec fn views_map(entries: Seq<ToolEntry>) -> Map<Seq<char>, ToolView>
    decreases entries.len(),
{
    if entries.len() == 0 {
        Map::empty()
    } else {
        views_map(entries.drop_last()).insert(entries.last().spec_name(), entries.last().spec_view())
    }
}

/// The read-only flags of `m`.
pub open spec fn flags_of(m: Map<Seq<char>, ToolView>) -> Map<Seq<char>, bool> {
    m.map_values(|v: ToolView| v.read_only)
}

proof fn lemma_views_flags(entries: Seq<ToolEntry>)
    ensures
        entries_map(entries) == flags_of(views_map(entries)),
    decreases entries.len(),
{
    if entries.len() > 0 {
        lemma_views_flags(entries.drop_last());
        assert(entries_map(entries) =~= flags_of(views_map(entries)));
    } else {
        assert(entries_map(entries) =~= flags_of(views_map(entries)));
    }
}

proof fn lemma_views_dom(entries: Seq<ToolEntry>)
    ensures
        forall|n: Seq<char>| #[trigger] views_map(entries).contains_key(n) <==> entry_names(entries).contains(n),
{
    lemma_views_flags(entries);
    lemma_entries_map_dom(entries);
    assert forall|n: Seq<char>| #[trigger] views_map(entries).contains_key(n) <==> entry_names(entries).contains(n) by {
        assert(flags_of(views_map(entries)).contains_key(n) == views_map(entries).contains_key(n));
        assert(entries_map(entries).contains_key(n) == entry_names(entries).contains(n));
    }
}

/// With distinct names, each entry is what the map holds for its name.
proof fn lemma_views_value(entries: Seq<ToolEntry>, k: int)
    requires
        entry_names(entries).no_duplicates(),
        0 <= k < entries.len(),
    ensures
        views_map(entries).contains_key(entries[k].spec_name()),
        views_map(entries)[entries[k].spec_name()] == entries[k].spec_view(),
    decreases entries.len(),
{
    let rest = entries.drop_last();
    if k < entries.len() - 1 {
        assert(entry_names(rest).no_duplicates()) by {
            assert forall|i: int, j: int| 0 <= i < entry_names(rest).len() && 0 <= j < entry_names(rest).len() && i != j implies entry_names(rest)[i] != entry_names(rest)[j] by {
                assert(entry_names(rest)[i] == entry_names(entries)[i]);
                assert(entry_names(rest)[j] == entry_names(entries)[j]);
            }
        }
        lemma_views_value(rest, k);
        assert(entry_names(entries)[k] != entry_names(entries)[entries.len() - 1]);
    }
}

/// The names of `entries`, in order.
pub open spec fn entry_names(entries: Seq<ToolEntry>) -> Seq<Seq<char>> {
    entries.map_values(|e: ToolEntry| e.spec_name())
}

/// Name-to-read-only map of `entries`; a later entry wins over an earlier one.
pub open spec fn entries_map(entries: Seq<ToolEntry>) -> Map<Seq<char>, bool>
    decreases entries.len(),
{
    if entries.len() == 0 {
        Map::empty()
    } else {
        entries_map(entries.drop_last()).insert(entries.last().spec_name(), entries.last().spec_read_only())
    }
}

proof fn lemma_entries_map_dom(entries: Seq<ToolEntry>)
    ensures
        forall|n: Seq<char>| #[trigger] entries_map(entries).contains_key(n) <==> entry_names(entries).contains(n),
        entries_map(entries).dom().finite(),
    decreases entries.len(),
{
    if entries.len() > 0 {
        let rest = entries.drop_last();
        lemma_entries_map_dom(rest);
        assert forall|n: Seq<char>| #[trigger] entries_map(entries).contains_key(n) <==> entry_names(entries).contains(n) by {
            if n == entries.last().spec_name() {
                assert(entry_names(entries)[entries.len() - 1] == n);
            }
            if entry_names(rest).contains(n) {
                let k = choose|k: int| 0 <= k < entry_names(rest).len() && entry_names(rest)[k] == n;
                assert(entry_names(entries)[k] == n);
            }
            if entry_names(entries).contains(n) {
                let k = choose|k: int| 0 <= k < entry_names(entries).len() && entry_names(entries)[k] == n;
                if k < rest.len() {
                    assert(entry_names(rest)[k] == n);
                }
            }
        }
    }
}

/// With distinct names, each entry's flag is what the map holds for its name.
proof fn lemma_entries_map_value(entries: Seq<ToolEntry>, k: int)
    requires
        entry_names(entries).no_duplicates(),
        0 <= k < entries.len(),
    ensures
        entries_map(entries).contains_key(entries[k].spec_name()),
        entries_map(entries)[entries[k].spec_name()] == entries[k].spec_read_only(),
    decreases entries.len(),
{
    let rest = entries.drop_last();
    if k < entries.len() - 1 {
        assert(entry_names(rest).no_duplicates()) by {
            assert forall|i: int, j: int| 0 <= i < entry_names(rest).len() && 0 <= j < entry_names(rest).len() && i != j implies entry_names(rest)[i] != entry_names(rest)[j] by {
                assert(entry_names(rest)[i] == entry_names(entries)[i]);
                assert(entry_names(rest)[j] == entry_names(entries)[j]);
            }
        }
        lemma_entries_map_value(rest, k);
        assert(entry_names(entries)[k] != entry_names(entries)[entries.len() - 1]);
    }
}

/// `keep` returned `answer` for some string slice reading `n`.
pub open spec fn answered<F: Fn(&str) -> bool>(keep: F, n: Seq<char>, answer: bool) -> bool {
    exists|s: &str| s@ == n && #[trigger] keep.ensures((s,), answer)
}

/// The registry holds at most one entry per name.
pub open spec fn distinct_names(entries: Seq<ToolEntry>) -> bool {
    entry_names(entries).no_duplicates()
}

/// Central registry of available tools, looked up by name.
pub struct ToolRegistry {
    tools: Vec<ToolEntry>,
}

impl View for ToolRegistry {
    type V = Map<Seq<char>, bool>;

    closed spec fn view(&self) -> Map<Seq<char>, bool> {
        entries_map(self.tools@)
    }
}

impl ToolRegistry {
    #[verifier::type_invariant]
    closed spec fn well_formed(&self) -> bool {
        distinct_names(self.tools@)
    }

    /// The registry's map is finite.
    pub proof fn lemma_finite(&self)
        ensures
            self@.dom().finite(),
    {
        lemma_entries_map_dom(self.tools@);
    }

    /// Each registered tool by its name.
    pub closed spec fn tool_views(&self) -> Map<Seq<char>, ToolView> {
        views_map(self.tools@)
    }

    /// The name-to-read-only view holds the flags of the registered tools.
    pub proof fn lemma_views_agree(&self)
        ensures
            self@ == flags_of(self.tool_views()),
    {
        lemma_views_flags(self.tools@);
    }

    /// The registered entries, in the order the registry keeps them.
    pub closed spec fn spec_tools(&self) -> Seq<ToolEntry> {
        self.tools@
    }

    /// An empty registry.
    pub fn new() -> (r: ToolRegistry)
        ensures
            r@ == Map::<Seq<char>, bool>::empty(),
            r.tool_views() == Map::<Seq<char>, ToolView>::empty(),
    {
        let r = ToolRegistry { tools: Vec::new() };
        assert(entry_names(r.tools@) =~= Seq::<Seq<char>>::empty());
        r
    }

    fn position(&self, name: &str) -> (r: Option<usize>)
        ensures
            match r {
                Some(k) => k < self.tools@.len() && self.tools@[k as int].spec_name() == name@,
                None => !entry_names(self.tools@).contains(name@),
            },
    {
        let target = chars_of(name);
        let mut k: usize = 0;
        while k < self.tools.len()
            invariant
                k <= self.tools@.len(),
                target@ == name@,
                forall|j: int| 0 <= j < k ==> entry_names(self.tools@)[j] != name@,
            decreases self.tools.len() - k,
        {
            let n = chars_of(self.tools[k].name());
            if chars_eq(n.as_slice(), target.as_slice()) {
                return Some(k);
            }
            k += 1;
        }
        None
    }

    /// Registers `tool` under its name, replacing a tool of the same name.
    pub fn register(&mut self, tool: ToolEntry)
        ensures
            final(self)@ == old(self)@.insert(tool.spec_name(), tool.spec_read_only()),
            final(self).tool_views() == old(self).tool_views().insert(tool.spec_name(), tool.spec_view()),
    {
        proof {
            use_type_invariant(&*self);
        }
        let ghost old_tools = self.tools@;
        let ghost key = tool.spec_name();
        match self.position(tool.name()) {
            Some(k) => {
                let ghost new_tools = old_tools.update(k as int, tool);
                proof {
                    assert(entry_names(new_tools) =~= entry_names(old_tools));
                    lemma_entries_map_dom(old_tools);
                    lemma_entries_map_dom(new_tools);
                    assert forall|n: Seq<char>| #[trigger] entries_map(new_tools).contains_key(n) implies entries_map(new_tools)[n]
                        == entries_map(old_tools).insert(key, tool.spec_read_only())[n] by {
                        let j = choose|j: int| 0 <= j < entry_names(new_tools).len() && entry_names(new_tools)[j] == n;
                        lemma_entries_map_value(new_tools, j);
                        lemma_entries_map_value(old_tools, j);
                        if j == k {
                        } else {
                            assert(entry_names(old_tools)[j] != entry_names(old_tools)[k as int]);
                        }
                    }
                    assert(entry_names(old_tools)[k as int] == key);
                    assert forall|n: Seq<char>| #[trigger] entries_map(new_tools).contains_key(n) <==> entries_map(
                        old_tools,
                    ).insert(key, tool.spec_read_only()).contains_key(n) by {
                        if n == key {
                            assert(entry_names(new_tools).contains(n));
                        }
                    }
                    assert(entries_map(new_tools) =~= entries_map(old_tools).insert(key, tool.spec_read_only()));
                    lemma_views_dom(old_tools);
                    lemma_views_dom(new_tools);
                    assert forall|n: Seq<char>| #[trigger] views_map(new_tools).contains_key(n) implies views_map(new_tools)[n]
                        == views_map(old_tools).insert(key, tool.spec_view())[n] by {
                        let j = choose|j: int| 0 <= j < entry_names(new_tools).len() && entry_names(new_tools)[j] == n;
                        lemma_views_value(new_tools, j);
                        lemma_views_value(old_tools, j);
                        if j != k {
                            assert(entry_names(old_tools)[j] != entry_names(old_tools)[k as int]);
                        }
                    }
                    assert forall|n: Seq<char>| #[trigger] views_map(new_tools).contains_key(n) <==> views_map(
                        old_tools,
                    ).insert(key, tool.spec_view()).contains_key(n) by {
                        if n == key {
                            assert(entry_names(new_tools).contains(n));
                        }
                    }
                    assert(views_map(new_tools) =~= views_map(old_tools).insert(key, tool.spec_view()));
                }
                let mut tools: Vec<ToolEntry> = Vec::new();
                std::mem::swap(&mut tools, &mut self.tools);
                tools.set(k, tool);
                self.tools = tools;
            },
            None => {
                let mut tools: Vec<ToolEntry> = Vec::new();
                std::mem::swap(&mut tools, &mut self.tools);
                tools.push(tool);
                assert(tools@.drop_last() =~= old_tools);
                assert(entry_names(tools@) =~= entry_names(old_tools).push(key));
                self.tools = tools;
            },
        }
    }

    /// The tool registered under `name`.
    pub fn get(&self, name: &str) -> (r: Option<&ToolEntry>)
        ensures
            match r {
                Some(t) => self@.contains_key(name@) && t.spec_name() == name@ && t.spec_read_only() == self@[name@]
                && self.tool_views().contains_key(name@) && t.spec_view() == self.tool_views()[name@],
                None => !self@.contains_key(name@),
            },
    {
        proof {
            use_type_invariant(self);
            lemma_entries_map_dom(self.tools@);
        }
        match self.position(name) {
            Some(k) => {
                proof {
                    lemma_entries_map_value(self.tools@, k as int);
                    lemma_views_value(self.tools@, k as int);
                }
                Some(&self.tools[k])
            },
            None => None,
        }
    }

    /// Drops every tool whose name `keep` rejects.
    pub fn retain<F: Fn(&str) -> bool>(&mut self, keep: F)
        requires
            forall|s: &str| #[trigger] keep.requires((s,)),
        ensures
            forall|n: Seq<char>| #[trigger] final(self)@.contains_key(n) ==> old(self)@.contains_key(n)
                && final(self)@[n] == old(self)@[n]
                && answered(keep, n, true),
            forall|n: Seq<char>| old(self)@.contains_key(n) && !#[trigger] final(self)@.contains_key(n)
                ==> answered(keep, n, false),
            final(self).tool_views() == old(self).tool_views().restrict(final(self)@.dom()),
    {
        proof {
            use_type_invariant(&*self);
        }
        let ghost old_tools = self.tools@;
        let mut rest: Vec<ToolEntry> = Vec::new();
        std::mem::swap(&mut rest, &mut self.tools);
        let mut kept: Vec<ToolEntry> = Vec::new();
        assert(rest@.take(rest@.len() as int) =~= old_tools);
        assert(entry_names(kept@) =~= Seq::<Seq<char>>::empty());
        while rest.len() > 0
            invariant
                rest@.len() <= old_tools.len(),
                rest@ == old_tools.take(rest@.len() as int),
                distinct_names(old_tools),
                distinct_names(kept@),
                forall|s: &str| #[trigger] keep.requires((s,)),
                forall|i: int| 0 <= i < kept@.len() ==> exists|j: int| rest@.len() <= j < old_tools.len()
                    && #[trigger] kept@[i] == old_tools[j],
                forall|i: int| 0 <= i < kept@.len() ==> answered(keep, (#[trigger] kept@[i]).spec_name(), true),
                forall|j: int| rest@.len() <= j < old_tools.len() ==> entry_names(kept@).contains(#[trigger] old_tools[j].spec_name())
                    || answered(keep, old_tools[j].spec_name(), false),
            decreases rest@.len(),
        {
            let ghost m = rest@.len() - 1;
            let entry = rest.pop().unwrap();
            assert(entry == old_tools[m]);
            let ghost kept_before = kept@;
            let name_ref = entry.name();
            let keep_it = keep(name_ref);
            if keep_it {
                proof {
                    assert forall|i: int| 0 <= i < kept_before.len() implies entry_names(kept_before)[i] != entry.spec_name() by {
                        let j = choose|j: int| m + 1 <= j < old_tools.len() && #[trigger] kept_before[i] == old_tools[j];
                        assert(entry_names(old_tools)[j] == kept_before[i].spec_name());
                        assert(entry_names(old_tools)[m] == entry.spec_name());
                    }
                }
                kept.push(entry);
                proof {
                    assert(entry_names(kept@) =~= entry_names(kept_before).push(entry.spec_name()));
                    assert(kept@[kept_before.len() as int] == old_tools[m]);
                    assert forall|j: int| rest@.len() <= j < old_tools.len() implies entry_names(kept@).contains(#[trigger] old_tools[j].spec_name())
                        || answered(keep, old_tools[j].spec_name(), false) by {
                        if j == m {
                            assert(entry_names(kept@)[kept_before.len() as int] == old_tools[j].spec_name());
                        } else if entry_names(kept_before).contains(old_tools[j].spec_name()) {
                            let i = choose|i: int| 0 <= i < entry_names(kept_before).len() && entry_names(kept_before)[i] == old_tools[j].spec_name();
                            assert(entry_names(kept@)[i] == old_tools[j].spec_name());
                        }
                    }
                    assert forall|i: int| 0 <= i < kept@.len() implies exists|j: int| rest@.len() <= j < old_tools.len()
                        && #[trigger] kept@[i] == old_tools[j] by {
                        if i < kept_before.len() {
                            assert(kept@[i] == kept_before[i]);
                        } else {
                            assert(kept@[i] == old_tools[m]);
                        }
                    }
                    assert forall|i: int| 0 <= i < kept@.len() implies answered(keep, (#[trigger] kept@[i]).spec_name(), true) by {
                        if i < kept_before.len() {
                            assert(kept@[i] == kept_before[i]);
                        } else {
                            assert(kept@[i] == entry);
                            assert(name_ref@ == entry.spec_name());
                        }
                    }
                }
            } else {
                proof {
                    assert(name_ref@ == entry.spec_name());
                    assert forall|i: int| 0 <= i < kept@.len() implies exists|j: int| rest@.len() <= j < old_tools.len()
                        && #[trigger] kept@[i] == old_tools[j] by {
                        let j = choose|j: int| m + 1 <= j < old_tools.len() && #[trigger] kept@[i] == old_tools[j];
                    }
                    assert forall|i: int| 0 <= i < kept@.len() implies answered(keep, (#[trigger] kept@[i]).spec_name(), true) by {
                        assert(kept@[i] == kept_before[i]);
                    }
                }
            }
            assert(rest@ =~= old_tools.take(rest@.len() as int));
        }
        proof {
            lemma_entries_map_dom(old_tools);
            lemma_entries_map_dom(kept@);
            assert forall|n: Seq<char>| #[trigger] entries_map(kept@).contains_key(n) implies entries_map(old_tools).contains_key(n)
                && entries_map(kept@)[n] == entries_map(old_tools)[n]
                && answered(keep, n, true) by {
                let i = choose|i: int| 0 <= i < entry_names(kept@).len() && entry_names(kept@)[i] == n;
                let j = choose|j: int| 0 <= j < old_tools.len() && #[trigger] kept@[i] == old_tools[j];
                lemma_entries_map_value(kept@, i);
                lemma_entries_map_value(old_tools, j);
                assert(kept@[i].spec_name() == n);
            }
            assert forall|n: Seq<char>| entries_map(old_tools).contains_key(n) && !#[trigger] entries_map(kept@).contains_key(n)
                implies answered(keep, n, false) by {
                let j = choose|j: int| 0 <= j < entry_names(old_tools).len() && entry_names(old_tools)[j] == n;
                assert(old_tools[j].spec_name() == n);
            }
            lemma_views_dom(old_tools);
            lemma_views_dom(kept@);
            let kd = entries_map(kept@).dom();
            assert forall|n: Seq<char>| #[trigger] views_map(kept@).contains_key(n) <==> views_map(old_tools).restrict(kd).contains_key(n) by {
                assert(entries_map(kept@).contains_key(n) == entry_names(kept@).contains(n));
                assert(entries_map(old_tools).contains_key(n) == entry_names(old_tools).contains(n));
            }
            assert forall|n: Seq<char>| #[trigger] views_map(kept@).contains_key(n) implies views_map(kept@)[n]
                == views_map(old_tools)[n] by {
                let i = choose|i: int| 0 <= i < entry_names(kept@).len() && entry_names(kept@)[i] == n;
                let j = choose|j: int| 0 <= j < old_tools.len() && #[trigger] kept@[i] == old_tools[j];
                lemma_views_value(kept@, i);
                lemma_views_value(old_tools, j);
            }
            assert(views_map(kept@) =~= views_map(old_tools).restrict(kd));
        }
        self.tools = kept;
    }

    /// Every registered tool, once each.
    pub fn all(&self) -> (r: Vec<&ToolEntry>)
        ensures
            r@.len() == self@.len(),
            forall|i: int| 0 <= i < r@.len() ==> self@.contains_key(#[trigger] r@[i].spec_name())
                && self@[r@[i].spec_name()] == r@[i].spec_read_only()
                && self.tool_views()[r@[i].spec_name()] == r@[i].spec_view(),
            forall|i: int, j: int| 0 <= i < j < r@.len() ==> r@[i].spec_name() != r@[j].spec_name(),
    {
        proof {
            use_type_invariant(self);
            lemma_entries_map_dom(self.tools@);
            entry_names(self.tools@).unique_seq_to_set();
            assert(self@.dom() =~= entry_names(self.tools@).to_set());
        }
        let mut r: Vec<&ToolEntry> = Vec::new();
        let mut k: usize = 0;
        while k < self.tools.len()
            invariant
                k <= self.tools@.len(),
                distinct_names(self.tools@),
                r@.len() == k,
                forall|i: int| 0 <= i < k ==> r@[i] == self.tools@[i],
            decreases self.tools.len() - k,
        {
            r.push(&self.tools[k]);
            k += 1;
        }
        proof {
            assert forall|i: int| 0 <= i < r@.len() implies self@.contains_key(#[trigger] r@[i].spec_name())
                && self@[r@[i].spec_name()] == r@[i].spec_read_only()
                && self.tool_views()[r@[i].spec_name()] == r@[i].spec_view() by {
                lemma_entries_map_value(self.tools@, i);
                lemma_views_value(self.tools@, i);
            }
            assert forall|i: int, j: int| 0 <= i < j < r@.len() implies r@[i].spec_name() != r@[j].spec_name() by {
                assert(entry_names(self.tools@)[i] == r@[i].spec_name());
                assert(entry_names(self.tools@)[j] == r@[j].spec_name());
            }
        }
        r
    }
}



impl Default for ToolRegistry {
    fn default() -> (r: ToolRegistry)
        ensures
            r@ == Map::<Seq<char>, bool>::empty(),
            r.tool_views() == Map::<Seq<char>, ToolView>::empty(),
    {
        ToolRegistry::new()
    }
}

/// `n` is one of `names`.
pub open spec fn listed(names: Seq<String>, n: Seq<char>) -> bool {
    exists|i: int| 0 <= i < names.len() && #[trigger] names[i]@ == n
}

/// Whether `name` is one of `names`.
pub fn is_listed(names: &[String], name: &str) -> (r: bool)
    ensures
        r == listed(names@, name@),
{
    let target = chars_of(name);
    let mut i: usize = 0;
    while i < names.len()
        invariant
            i <= names.len(),
            target@ == name@,
            forall|k: int| 0 <= k < i ==> names@[k]@ != name@,
        decreases names.len() - i,
    {
        if chars_eq(chars_of(names[i].as_str()).as_slice(), target.as_slice()) {
            assert(names@[i as int]@ == name@);
            return true;
        }
        i += 1;
    }
    false
}

/// A tool survives the filters when the allow list is empty or names it, and
/// the deny list does not name it.
pub open spec fn passes_filters(allowed: Seq<String>, disallowed: Seq<String>, n: Seq<char>) -> bool {
    (allowed.len() == 0 || listed(allowed, n)) && !listed(disallowed, n)
}

/// Applies allow and deny lists of tool names to a registry.
pub fn apply_tool_filters(registry: &mut ToolRegistry, allowed: &[String], disallowed: &[String])
    ensures
        final(registry)@ == old(registry)@.restrict(
            Set::new(|n: Seq<char>| passes_filters(allowed@, disallowed@, n)),
        ),
        final(registry).tool_views() == old(registry).tool_views().restrict(
            Set::new(|n: Seq<char>| passes_filters(allowed@, disallowed@, n)),
        ),
{
    let ghost before = registry@;
    let ghost before_views = registry.tool_views();
    proof {
        registry.lemma_views_agree();
    }
    if allowed.len() > 0 {
        let keep = |name: &str| -> (b: bool)
            ensures
                b == listed(allowed@, name@),
            { is_listed(allowed, name) };
        registry.retain(keep);
        proof {
            assert forall|n: Seq<char>| #[trigger] registry@.contains_key(n) implies listed(allowed@, n) by {
                let w = choose|w: &str| w@ == n && #[trigger] keep.ensures((w,), true);
            }
            assert forall|n: Seq<char>| before.contains_key(n) && listed(allowed@, n) implies #[trigger] registry@.contains_key(n) by {
                if !registry@.contains_key(n) {
                    let w = choose|w: &str| w@ == n && #[trigger] keep.ensures((w,), false);
                }
            }
        }
    }
    let ghost mid = registry@;
    if disallowed.len() > 0 {
        let keep = |name: &str| -> (b: bool)
            ensures
                b == !listed(disallowed@, name@),
            { !is_listed(disallowed, name) };
        registry.retain(keep);
        proof {
            assert forall|n: Seq<char>| #[trigger] registry@.contains_key(n) implies !listed(disallowed@, n) by {
                let w = choose|w: &str| w@ == n && #[trigger] keep.ensures((w,), true);
            }
            assert forall|n: Seq<char>| mid.contains_key(n) && !listed(disallowed@, n) implies #[trigger] registry@.contains_key(n) by {
                if !registry@.contains_key(n) {
                    let w = choose|w: &str| w@ == n && #[trigger] keep.ensures((w,), false);
                }
            }
        }
    }
    assert(registry@ =~= before.restrict(Set::new(|n: Seq<char>| passes_filters(allowed@, disallowed@, n))));
    proof {
        registry.lemma_views_agree();
        let keep = Set::new(|n: Seq<char>| passes_filters(allowed@, disallowed@, n));
        assert forall|n: Seq<char>| #[trigger] registry.tool_views().contains_key(n) <==> before_views.restrict(keep).contains_key(n) by {
            assert(flags_of(registry.tool_views()).contains_key(n) == registry.tool_views().contains_key(n));
            assert(flags_of(before_views).contains_key(n) == before_views.contains_key(n));
        }
        assert(registry.tool_views() =~= before_views.restrict(keep));
    }
}

/// `m` with each built-in tool registered; only `ls` is read-only.
pub open spec fn with_builtins(m: Map<Seq<char>, bool>) -> Map<Seq<char>, bool> {
    m.insert("bash"@, false).insert("read"@, false).insert("write"@, false).insert("glob"@, false).insert(
        "grep"@,
        false,
    ).insert("ls"@, true).insert("invalid"@, false).insert("question"@, false).insert("todowrite"@, false).insert(
        "webfetch"@,
        false,
    ).insert("websearch"@, false).insert("skill"@, false).insert("apply_patch"@, false).insert("update_plan"@, false)
}

/// The schema of a tool whose input is any JSON object.
pub const OBJECT_SCHEMA: &'static str = "{\"type\":\"object\"}";

/// A built-in tool that writes or acts, with `description` and an object as
/// the schema of its input.
pub open spec fn builtin_view(description: Seq<char>) -> ToolView {
    ToolView { read_only: false, description, input_schema: OBJECT_SCHEMA@ }
}

/// `m` with each built-in tool registered, with its description and the
/// schema of its input; only `ls` is read-only.
pub open spec fn with_builtin_views(m: Map<Seq<char>, ToolView>) -> Map<Seq<char>, ToolView> {
    m
        .insert("bash"@, builtin_view("Run a shell command in the working directory"@))
        .insert("read"@, builtin_view("Read a file"@))
        .insert("write"@, builtin_view("Write a file"@))
        .insert("glob"@, builtin_view("Find files whose paths match a glob pattern"@))
        .insert("grep"@, builtin_view("Search the contents of files for a pattern"@))
        .insert("ls"@, ToolView { read_only: true, description: ls_description(), input_schema: ls_schema() })
        .insert("invalid"@, builtin_view("Report a tool call that could not be understood"@))
        .insert("question"@, builtin_view("Ask the user a question"@))
        .insert("todowrite"@, builtin_view("Record the list of tasks"@))
        .insert("webfetch"@, builtin_view("Fetch the content of a URL"@))
        .insert("websearch"@, builtin_view("Search the web"@))
        .insert("skill"@, builtin_view("Load the instructions of a skill"@))
        .insert("apply_patch"@, ToolView { read_only: false, description: apply_patch_description(), input_schema: apply_patch_schema() })
        .insert("update_plan"@, builtin_view("Update the plan of the current task"@))
}

/// Registers every built-in tool.
pub fn register_builtin_tools(registry: &mut ToolRegistry)
    ensures
        final(registry)@ == with_builtins(old(registry)@),
        final(registry).tool_views() == with_builtin_views(old(registry).tool_views()),
{
    registry.register(ToolEntry::with_definition("bash", "Run a shell command in the working directory", OBJECT_SCHEMA, false));
    registry.register(ToolEntry::with_definition("read", "Read a file", OBJECT_SCHEMA, false));
    registry.register(ToolEntry::with_definition("write", "Write a file", OBJECT_SCHEMA, false));
    registry.register(ToolEntry::with_definition("glob", "Find files whose paths match a glob pattern", OBJECT_SCHEMA, false));
    registry.register(ToolEntry::with_definition("grep", "Search the contents of files for a pattern", OBJECT_SCHEMA, false));
    registry.register(LsTool.entry());
    registry.register(ToolEntry::with_definition("invalid", "Report a tool call that could not be understood", OBJECT_SCHEMA, false));
    registry.register(ToolEntry::with_definition("question", "Ask the user a question", OBJECT_SCHEMA, false));
    registry.register(ToolEntry::with_definition("todowrite", "Record the list of tasks", OBJECT_SCHEMA, false));
    registry.register(ToolEntry::with_definition("webfetch", "Fetch the content of a URL", OBJECT_SCHEMA, false));
    registry.register(ToolEntry::with_definition("websearch", "Search the web", OBJECT_SCHEMA, false));
    registry.register(ToolEntry::with_definition("skill", "Load the instructions of a skill", OBJECT_SCHEMA, false));
    registry.register(ApplyPatchTool.entry());
    registry.register(ToolEntry::with_definition("update_plan", "Update the plan of the current task", OBJECT_SCHEMA, false));
}

/// The JSON schema of the patch tool's input, as text.
pub open spec fn apply_patch_schema() -> Seq<char> {
    "{\"type\":\"object\",\"properties\":{\"patchText\":{\"type\":\"string\",\"description\":\"The full patch text that describes all changes to be made\"}},\"required\":[\"patchText\"]}"@
}

/// What the patch tool is described as, to the model.
pub open spec fn apply_patch_description() -> Seq<char> {
    "Apply a patch that adds, deletes, updates or moves files"@
}

/// What the listing tool is described as, to the model.
pub open spec fn ls_description() -> Seq<char> {
    "List the entries of a directory"@
}

/// The JSON schema of the listing tool's input, as text.
pub open spec fn ls_schema() -> Seq<char> {
    "{\"type\":\"object\",\"properties\":{\"path\":{\"type\":\"string\",\"description\":\"Directory to list (default: cwd)\"}}}"@
}

/// The tool that applies patches.
pub struct ApplyPatchTool;

impl ApplyPatchTool {
    /// The tool's name.
    pub fn name(&self) -> (r: &'static str)
        ensures
            r@ == "apply_patch"@,
    {
        "apply_patch"
    }

    /// What the tool is described as, to the model.
    pub fn description(&self) -> (r: &'static str)
        ensures
            r@ == apply_patch_description(),
    {
        "Apply a patch that adds, deletes, updates or moves files"
    }

    /// The JSON schema of the tool's input: an object whose `patchText`
    /// string is required.
    pub fn input_schema(&self) -> (r: &'static str)
        ensures
            r@ == apply_patch_schema(),
    {
        "{\"type\":\"object\",\"properties\":{\"patchText\":{\"type\":\"string\",\"description\":\"The full patch text that describes all changes to be made\"}},\"required\":[\"patchText\"]}"
    }

    /// Registry entry of the tool; it writes files.
    pub fn entry(&self) -> (r: ToolEntry)
        ensures
            r.spec_name() == "apply_patch"@,
            !r.spec_read_only(),
            r.spec_description() == apply_patch_description(),
            r.spec_input_schema() == apply_patch_schema(),
    {
        ToolEntry::with_definition(self.name(), self.description(), self.input_schema(), false)
    }
}

/// The tool that lists a directory.
pub struct LsTool;

impl LsTool {
    /// The tool's name.
    pub fn name(&self) -> (r: &'static str)
        ensures
            r@ == "ls"@,
    {
        "ls"
    }

    /// The tool only reads.
    pub fn is_read_only(&self) -> (r: bool)
        ensures
            r,
    {
        true
    }

    /// What the tool is described as, to the model.
    pub fn description(&self) -> (r: &'static str)
        ensures
            r@ == ls_description(),
    {
        "List the entries of a directory"
    }

    /// The JSON schema of the tool's input: an object with an optional
    /// `path` string.
    pub fn input_schema(&self) -> (r: &'static str)
        ensures
            r@ == ls_schema(),
    {
        "{\"type\":\"object\",\"properties\":{\"path\":{\"type\":\"string\",\"description\":\"Directory to list (default: cwd)\"}}}"
    }

    /// Registry entry of the tool.
    pub fn entry(&self) -> (r: ToolEntry)
        ensures
            r.spec_name() == "ls"@,
            r.spec_read_only(),
            r.spec_description() == ls_description(),
            r.spec_input_schema() == ls_schema(),
    {
        ToolEntry::with_definition(self.name(), self.description(), self.input_schema(), self.is_read_only())
    }
}

// ---------------------------------------------------------------- laws

/// After a tool is registered, looking its name up finds it, with the flag it
/// was registered with; every other name is found as before.
pub proof fn law_get_after_register(m: Map<Seq<char>, bool>, name: Seq<char>, read_only: bool, other: Seq<char>)
    requires
        other != name,
    ensures
        m.insert(name, read_only).contains_key(name),
        m.insert(name, read_only)[name] == read_only,
        m.insert(name, read_only).contains_key(other) == m.contains_key(other),
        m.contains_key(other) ==> m.insert(name, read_only)[other] == m[other],
{
}

/// Registering a second tool under a name replaces the first.
pub proof fn law_register_overwrites(m: Map<Seq<char>, bool>, name: Seq<char>, first: bool, second: bool)
    ensures
        m.insert(name, first).insert(name, second) == m.insert(name, second),
{
    assert(m.insert(name, first).insert(name, second) =~= m.insert(name, second));
}

/// Empty allow and deny lists keep every tool.
pub proof fn law_empty_filters_keep_all(m: Map<Seq<char>, bool>)
    ensures
        m.restrict(Set::new(|n: Seq<char>| passes_filters(Seq::empty(), Seq::empty(), n))) == m,
{
    assert(m.restrict(Set::new(|n: Seq<char>| passes_filters(Seq::empty(), Seq::empty(), n))) =~= m);
}

/// Filtering never adds a tool or changes one, and a denied name never
/// survives, even when it is also allowed.
pub proof fn law_filters_only_remove(m: Map<Seq<char>, bool>, allowed: Seq<String>, disallowed: Seq<String>, n: Seq<char>)
    ensures
        m.restrict(Set::new(|k: Seq<char>| passes_filters(allowed, disallowed, k))).contains_key(n) ==> m.contains_key(n)
            && m.restrict(Set::new(|k: Seq<char>| passes_filters(allowed, disallowed, k)))[n] == m[n],
        listed(disallowed, n) ==> !m.restrict(
            Set::new(|k: Seq<char>| passes_filters(allowed, disallowed, k)),
        ).contains_key(n),
{
}

/// Applying the same filters twice is the same as applying them once.
pub proof fn law_filters_idempotent(m: Map<Seq<char>, bool>, allowed: Seq<String>, disallowed: Seq<String>)
    ensures
        ({
            let keep = Set::new(|k: Seq<char>| passes_filters(allowed, disallowed, k));
            m.restrict(keep).restrict(keep) == m.restrict(keep)
        }),
{
    let keep = Set::new(|k: Seq<char>| passes_filters(allowed, disallowed, k));
    assert(m.restrict(keep).restrict(keep) =~= m.restrict(keep));
}

/// A tool as the model is told of it.
#[derive(Clone, Debug)]
pub struct ToolDefinition {
    pub name: String,
    pub description: String,
    /// The JSON schema of the tool's input, as text.
    pub input_schema: String,
}

impl ToolRegistry {
    /// The definitions of every registered tool, for the model request.
    pub fn tool_definitions(&self) -> (r: Vec<ToolDefinition>)
        ensures
            r.len() == self@.len(),
            forall|i: int| 0 <= i < r.len() ==> self@.contains_key(#[trigger] r@[i].name@),
            forall|i: int, j: int| 0 <= i < j < r.len() ==> r@[i].name@ != r@[j].name@,
            forall|i: int|
                0 <= i < r.len() ==> {
                    &&& (#[trigger] r@[i]).name@ == self.spec_tools()[i].spec_name()
                    &&& r@[i].description@ == self.spec_tools()[i].spec_description()
                    &&& r@[i].input_schema@ == self.spec_tools()[i].spec_input_schema()
                },
    {
        proof {
            use_type_invariant(self);
            lemma_entries_map_dom(self.tools@);
            entry_names(self.tools@).unique_seq_to_set();
            assert(self@.dom() =~= entry_names(self.tools@).to_set());
        }
        let mut r: Vec<ToolDefinition> = Vec::new();
        let mut k: usize = 0;
        while k < self.tools.len()
            invariant
                k <= self.tools@.len(),
                r.len() == k,
                distinct_names(self.tools@),
                forall|i: int|
                    0 <= i < k ==> {
                        &&& (#[trigger] r@[i]).name@ == self.spec_tools()[i].spec_name()
                        &&& r@[i].description@ == self.spec_tools()[i].spec_description()
                        &&& r@[i].input_schema@ == self.spec_tools()[i].spec_input_schema()
                    },
            decreases self.tools.len() - k,
        {
            let t = &self.tools[k];
            r.push(
                ToolDefinition {
                    name: t.name().to_owned(),
                    description: t.description().to_owned(),
                    input_schema: t.input_schema().to_owned(),
                },
            );
            k += 1;
        }
        proof {
            assert forall|i: int| 0 <= i < r.len() implies self@.contains_key(#[trigger] r@[i].name@) by {
                lemma_entries_map_value(self.tools@, i);
            }
            assert forall|i: int, j: int| 0 <= i < j < r.len() implies r@[i].name@ != r@[j].name@ by {
                assert(entry_names(self.tools@)[i] == r@[i].name@);
                assert(entry_names(self.tools@)[j] == r@[j].name@);
            }
        }
        r
    }
}

} // verus!
