//! What the pickers list and what picking an entry does: the model
//! switcher, the onboarding model picker, the provider presets and the
//! thinking modes.
use vstd::prelude::*;

use crate::text::{chars_of, has_prefix, string_of};
use crate::tui::panels::{
    AuxPanel, AuxPanelContent, ModelListEntry, PresetListEntry, SessionListEntry, ThinkingListEntry,
};
use crate::tui::provider::{family_of, opt_view, ProviderFamily, ProviderWireApi};
use crate::tui::slash::{move_selection, moved};
use crate::tui::transcript::push_str;

verus! {

/// A model the user saved, with where it is served and its key.
#[derive(Clone, Debug)]
pub struct SavedModelEntry {
    pub model: String,
    pub provider: ProviderFamily,
    pub wire_api: ProviderWireApi,
    pub base_url: Option<String>,
    pub api_key: Option<String>,
}

/// A model of the built-in catalog.
#[derive(Clone, Debug)]
pub struct CatalogModel {
    pub slug: String,
    pub display_name: String,
    pub provider: ProviderFamily,
    pub description: Option<String>,
}

/// A provider preset: an id, how it is shown, the base URL it defaults to,
/// the protocol it speaks, whether its endpoint is the user's own, how its
/// model slugs look, and the environment variables its key may come from.
#[derive(Clone, Debug)]
pub struct ProviderPreset {
    pub id: String,
    pub display_name: String,
    pub description: String,
    pub default_base_url: Option<String>,
    pub wire_api: ProviderWireApi,
    pub is_custom: bool,
    pub slug_hint: String,
    pub api_key_env_vars: Vec<String>,
}

/// A thinking mode a model offers.
#[derive(Clone, Debug)]
pub struct ThinkingOption {
    pub label: String,
    pub value: String,
    pub description: String,
}

/// A model list entry, by value.
pub struct ModelRow {
    pub slug: Seq<char>,
    pub display_name: Seq<char>,
    pub provider: ProviderFamily,
    pub description: Option<Seq<char>>,
    pub is_current: bool,
    pub is_builtin: bool,
    pub is_custom_mode: bool,
}

/// The value of a model list entry.
pub open spec fn model_row(e: ModelListEntry) -> ModelRow {
    ModelRow {
        slug: e.slug@,
        display_name: e.display_name@,
        provider: e.provider,
        description: opt_view(e.description),
        is_current: e.is_current,
        is_builtin: e.is_builtin,
        is_custom_mode: e.is_custom_mode,
    }
}

/// The values of model list entries.
pub open spec fn model_rows_of(es: Seq<ModelListEntry>) -> Seq<ModelRow> {
    es.map_values(|e: ModelListEntry| model_row(e))
}

/// A saved model as the switcher lists it.
pub open spec fn saved_row(m: SavedModelEntry, current: Seq<char>) -> ModelRow {
    ModelRow {
        slug: m.model@,
        display_name: m.model@,
        provider: m.provider,
        description: match m.base_url {
            Some(u) => Some("saved model from "@ + u@),
            None => None,
        },
        is_current: m.model@ == current,
        is_builtin: false,
        is_custom_mode: false,
    }
}

/// A catalog model as a picker lists it.
pub open spec fn catalog_row(m: CatalogModel, current: Seq<char>) -> ModelRow {
    ModelRow {
        slug: m.slug@,
        display_name: m.display_name@,
        provider: m.provider,
        description: opt_view(m.description),
        is_current: m.slug@ == current,
        is_builtin: true,
        is_custom_mode: false,
    }
}

/// The entry standing for the model in use when nothing else lists it.
pub open spec fn current_model_row(current: Seq<char>, provider: ProviderFamily) -> ModelRow {
    ModelRow {
        slug: current,
        display_name: current,
        provider,
        description: Some("current model"@),
        is_current: true,
        is_builtin: false,
        is_custom_mode: false,
    }
}

/// The switcher's last entry, which opens onboarding.
pub open spec fn add_model_row(provider: ProviderFamily) -> ModelRow {
    ModelRow {
        slug: "__add_model__"@,
        display_name: "Add model"@,
        provider,
        description: Some("Open onboarding to add another model"@),
        is_current: false,
        is_builtin: false,
        is_custom_mode: true,
    }
}

/// The onboarding picker's last entry, for a model typed by hand.
pub open spec fn custom_model_row(provider: ProviderFamily) -> ModelRow {
    ModelRow {
        slug: "__custom__"@,
        display_name: "Custom model"@,
        provider,
        description: Some("enter a model name manually"@),
        is_current: false,
        is_builtin: false,
        is_custom_mode: true,
    }
}

/// Some row is the current model.
pub open spec fn any_current(rows: Seq<ModelRow>) -> bool {
    exists|i: int| 0 <= i < rows.len() && #[trigger] rows[i].is_current
}

/// The model switcher's entries: the saved models, or else the catalog, or
/// else the model in use; the model in use first when none of them is it;
/// and last the entry that opens onboarding.
pub open spec fn switch_rows(
    saved: Seq<SavedModelEntry>,
    catalog: Seq<CatalogModel>,
    current: Seq<char>,
    provider: ProviderFamily,
) -> Seq<ModelRow> {
    let base = if saved.len() > 0 {
        saved.map_values(|m: SavedModelEntry| saved_row(m, current))
    } else if catalog.len() > 0 {
        catalog.map_values(|m: CatalogModel| catalog_row(m, current))
    } else {
        seq![current_model_row(current, provider)]
    };
    let listed = if any_current(base) {
        base
    } else {
        seq![current_model_row(current, provider)] + base
    };
    listed.push(add_model_row(provider))
}

/// The catalog lists a model of that slug.
pub open spec fn catalog_has(catalog: Seq<CatalogModel>, slug: Seq<char>) -> bool {
    exists|i: int| 0 <= i < catalog.len() && #[trigger] catalog[i].slug@ == slug
}

/// The onboarding picker's entries: the catalog; outside onboarding the
/// model in use first when the catalog lacks it; during onboarding the
/// custom-model entry last; the model in use alone when nothing else is
/// listed.
pub open spec fn picker_rows(
    catalog: Seq<CatalogModel>,
    current: Seq<char>,
    provider: ProviderFamily,
    onboarding: bool,
) -> Seq<ModelRow> {
    let base = catalog.map_values(|m: CatalogModel| catalog_row(m, current));
    let with_current = if !onboarding && !catalog_has(catalog, current) {
        seq![current_model_row(current, provider)] + base
    } else {
        base
    };
    let with_custom = if onboarding {
        with_current.push(custom_model_row(provider))
    } else {
        with_current
    };
    if with_custom.len() == 0 {
        seq![current_model_row(current, provider)]
    } else {
        with_custom
    }
}

fn opt_string(o: &Option<String>) -> (r: Option<String>)
    ensures
        opt_view(r) == opt_view(*o),
{
    match o {
        Some(s) => Some(s.clone()),
        None => None,
    }
}

fn row_entry(
    slug: String,
    display_name: String,
    provider: ProviderFamily,
    description: Option<String>,
    is_current: bool,
    is_builtin: bool,
    is_custom_mode: bool,
) -> (r: ModelListEntry)
    ensures
        model_row(r) == (ModelRow {
            slug: slug@,
            display_name: display_name@,
            provider,
            description: opt_view(description),
            is_current,
            is_builtin,
            is_custom_mode,
        }),
{
    ModelListEntry { slug, display_name, provider, description, is_current, is_builtin, is_custom_mode }
}

fn current_model_entry(current: &str, provider: ProviderFamily) -> (r: ModelListEntry)
    ensures
        model_row(r) == current_model_row(current@, provider),
{
    row_entry(current.to_owned(), current.to_owned(), provider, Some("current model".to_owned()), true, false, false)
}

fn push_entry(es: &mut Vec<ModelListEntry>, e: ModelListEntry)
    ensures
        model_rows_of(final(es)@) == model_rows_of(old(es)@).push(model_row(e)),
{
    let ghost before = es@;
    es.push(e);
    assert(model_rows_of(es@) =~= model_rows_of(before).push(model_row(e)));
}

fn catalog_entries(catalog: &[CatalogModel], current: &str) -> (r: Vec<ModelListEntry>)
    ensures
        model_rows_of(r@) == catalog@.map_values(|m: CatalogModel| catalog_row(m, current@)),
{
    let cur = current.to_owned();
    let mut es: Vec<ModelListEntry> = Vec::new();
    let mut i: usize = 0;
    while i < catalog.len()
        invariant
            i <= catalog.len(),
            cur@ == current@,
            model_rows_of(es@) == catalog@.take(i as int).map_values(|m: CatalogModel| catalog_row(m, current@)),
        decreases catalog.len() - i,
    {
        let m = &catalog[i];
        let is_current = m.slug == cur;
        push_entry(
            &mut es,
            row_entry(m.slug.clone(), m.display_name.clone(), m.provider, opt_string(&m.description), is_current, true, false),
        );
        assert(catalog@.take((i + 1) as int).map_values(|m: CatalogModel| catalog_row(m, current@)) =~= catalog@.take(
            i as int,
        ).map_values(|m: CatalogModel| catalog_row(m, current@)).push(catalog_row(catalog@[i as int], current@)));
        i += 1;
    }
    assert(catalog@.take(i as int) =~= catalog@);
    es
}

fn has_current(es: &Vec<ModelListEntry>) -> (r: bool)
    ensures
        r == any_current(model_rows_of(es@)),
{
    let mut i: usize = 0;
    while i < es.len()
        invariant
            i <= es.len(),
            forall|k: int| 0 <= k < i ==> !es@[k].is_current,
        decreases es.len() - i,
    {
        if es[i].is_current {
            assert(model_rows_of(es@)[i as int].is_current);
            return true;
        }
        i += 1;
    }
    proof {
        if any_current(model_rows_of(es@)) {
            let k = choose|k: int| 0 <= k < model_rows_of(es@).len() && #[trigger] model_rows_of(es@)[k].is_current;
            assert(es@[k].is_current);
        }
    }
    false
}

fn insert_first(es: Vec<ModelListEntry>, e: ModelListEntry) -> (r: Vec<ModelListEntry>)
    ensures
        model_rows_of(r@) == seq![model_row(e)] + model_rows_of(es@),
{
    let mut r: Vec<ModelListEntry> = Vec::new();
    push_entry(&mut r, e);
    let mut es = es;
    let ghost rest = es@;
    let mut i: usize = 0;
    while i < es.len()
        invariant
            i <= es.len(),
            es@ == rest,
            model_rows_of(r@) == seq![model_row(e)] + model_rows_of(rest.take(i as int)),
        decreases es.len() - i,
    {
        let x = es[i].clone_entry();
        push_entry(&mut r, x);
        assert(model_rows_of(rest.take((i + 1) as int)) =~= model_rows_of(rest.take(i as int)).push(model_row(rest[i as int])));
        i += 1;
    }
    assert(rest.take(i as int) =~= rest);
    r
}

impl ModelListEntry {
    /// A copy of the entry.
    pub fn clone_entry(&self) -> (r: ModelListEntry)
        ensures
            model_row(r) == model_row(*self),
    {
        row_entry(
            self.slug.clone(),
            self.display_name.clone(),
            self.provider,
            opt_string(&self.description),
            self.is_current,
            self.is_builtin,
            self.is_custom_mode,
        )
    }
}

/// The entries of the model switcher.
pub fn model_switch_entries(
    saved: &[SavedModelEntry],
    catalog: &[CatalogModel],
    current: &str,
    provider: ProviderFamily,
) -> (r: Vec<ModelListEntry>)
    ensures
        model_rows_of(r@) == switch_rows(saved@, catalog@, current@, provider),
{
    let cur = current.to_owned();
    let mut es: Vec<ModelListEntry> = Vec::new();
    let mut i: usize = 0;
    while i < saved.len()
        invariant
            i <= saved.len(),
            cur@ == current@,
            model_rows_of(es@) == saved@.take(i as int).map_values(|m: SavedModelEntry| saved_row(m, current@)),
        decreases saved.len() - i,
    {
        let m = &saved[i];
        let description = match &m.base_url {
            Some(u) => {
                let mut d = chars_of("saved model from ");
                push_str(&mut d, u.as_str());
                Some(string_of(d.as_slice()))
            },
            None => None,
        };
        let is_current = m.model == cur;
        push_entry(&mut es, row_entry(m.model.clone(), m.model.clone(), m.provider, description, is_current, false, false));
        assert(saved@.take((i + 1) as int).map_values(|m: SavedModelEntry| saved_row(m, current@)) =~= saved@.take(
            i as int,
        ).map_values(|m: SavedModelEntry| saved_row(m, current@)).push(saved_row(saved@[i as int], current@)));
        i += 1;
    }
    assert(saved@.take(i as int) =~= saved@);
    if es.len() == 0 {
        es = catalog_entries(catalog, current);
    }
    if es.len() == 0 {
        push_entry(&mut es, current_model_entry(current, provider));
        assert(model_rows_of(es@) =~= seq![current_model_row(current@, provider)]);
    }
    if !has_current(&es) {
        es = insert_first(es, current_model_entry(current, provider));
    }
    push_entry(
        &mut es,
        row_entry(
            "__add_model__".to_owned(),
            "Add model".to_owned(),
            provider,
            Some("Open onboarding to add another model".to_owned()),
            false,
            false,
            true,
        ),
    );
    es
}

fn catalog_contains(catalog: &[CatalogModel], slug: &String) -> (r: bool)
    ensures
        r == catalog_has(catalog@, slug@),
{
    let mut i: usize = 0;
    while i < catalog.len()
        invariant
            i <= catalog.len(),
            forall|k: int| 0 <= k < i ==> catalog@[k].slug@ != slug@,
        decreases catalog.len() - i,
    {
        if catalog[i].slug == *slug {
            return true;
        }
        i += 1;
    }
    false
}

/// The entries of the onboarding model picker.
pub fn onboarding_model_picker_entries(
    catalog: &[CatalogModel],
    current: &str,
    provider: ProviderFamily,
    show_model_onboarding: bool,
) -> (r: Vec<ModelListEntry>)
    ensures
        model_rows_of(r@) == picker_rows(catalog@, current@, provider, show_model_onboarding),
{
    let mut es = catalog_entries(catalog, current);
    let cur = current.to_owned();
    if !show_model_onboarding && !catalog_contains(catalog, &cur) {
        es = insert_first(es, current_model_entry(current, provider));
    }
    if show_model_onboarding {
        push_entry(
            &mut es,
            row_entry(
                "__custom__".to_owned(),
                "Custom model".to_owned(),
                provider,
                Some("enter a model name manually".to_owned()),
                false,
                false,
                true,
            ),
        );
    }
    if es.len() == 0 {
        push_entry(&mut es, current_model_entry(current, provider));
        assert(model_rows_of(es@) =~= seq![current_model_row(current@, provider)]);
    }
    es
}

// ---------------------------------------------------------------- saved models

/// The position of the first saved model named `model`.
pub open spec fn saved_index(saved: Seq<SavedModelEntry>, model: Seq<char>) -> Option<int>
    decreases saved.len(),
{
    if saved.len() == 0 {
        None
    } else if saved[0].model@ == model {
        Some(0)
    } else {
        match saved_index(saved.drop_first(), model) {
            Some(i) => Some(i + 1),
            None => None,
        }
    }
}

proof fn lemma_saved_index(saved: Seq<SavedModelEntry>, model: Seq<char>)
    ensures
        match saved_index(saved, model) {
            Some(i) => 0 <= i < saved.len() && saved[i].model@ == model && forall|k: int| 0 <= k < i ==> saved[k].model@ != model,
            None => forall|k: int| 0 <= k < saved.len() ==> saved[k].model@ != model,
        },
    decreases saved.len(),
{
    if saved.len() > 0 {
        lemma_saved_index(saved.drop_first(), model);
        assert forall|k: int| 1 <= k < saved.len() implies saved[k] == saved.drop_first()[k - 1] by {}
    }
}

/// The position of the first saved model named `model`.
pub fn saved_model_entry(saved: &[SavedModelEntry], model: &str) -> (r: Option<usize>)
    ensures
        match r {
            Some(i) => i < saved.len() && saved_index(saved@, model@) == Some(i as int),
            None => saved_index(saved@, model@) is None,
        },
{
    proof {
        lemma_saved_index(saved@, model@);
    }
    let m = model.to_owned();
    let mut i: usize = 0;
    while i < saved.len()
        invariant
            i <= saved.len(),
            m@ == model@,
            forall|k: int| 0 <= k < i ==> saved@[k].model@ != model@,
            match saved_index(saved@, model@) {
                Some(j) => 0 <= j < saved@.len() && saved@[j].model@ == model@ && forall|k: int| 0 <= k < j ==> saved@[k].model@ != model@,
                None => forall|k: int| 0 <= k < saved@.len() ==> saved@[k].model@ != model@,
            },
        decreases saved.len() - i,
    {
        if saved[i].model == m {
            return Some(i);
        }
        i += 1;
    }
    None
}

/// The saved models after recording `entry`: it replaces the first saved
/// model of the same name, or is added at the end.
pub open spec fn upserted(saved: Seq<SavedModelEntry>, entry: SavedModelEntry) -> Seq<SavedModelEntry> {
    match saved_index(saved, entry.model@) {
        Some(i) => saved.update(i, entry),
        None => saved.push(entry),
    }
}

/// Records `entry`: it replaces the first saved model of the same name, or
/// is added at the end.
pub fn upsert_saved_model(saved: &mut Vec<SavedModelEntry>, entry: SavedModelEntry)
    ensures
        final(saved)@ == upserted(old(saved)@, entry),
{
    match saved_model_entry(saved.as_slice(), entry.model.as_str()) {
        Some(i) => {
            saved.set(i, entry);
        },
        None => {
            saved.push(entry);
        },
    }
}

/// The provider used to onboard `model`: that of its saved entry, else the
/// catalog's, else the provider in use.
pub open spec fn provider_for_model(
    saved: Seq<SavedModelEntry>,
    model: Seq<char>,
    catalog_provider: Option<ProviderFamily>,
    provider: ProviderFamily,
) -> ProviderFamily {
    match saved_index(saved, model) {
        Some(i) => saved[i].provider,
        None => match catalog_provider {
            Some(p) => p,
            None => provider,
        },
    }
}

/// The provider used to onboard `model`; `catalog_provider` is the
/// catalog's provider for it, where the catalog lists it.
pub fn onboarding_provider_for_model(
    saved: &[SavedModelEntry],
    model: &str,
    catalog_provider: Option<ProviderFamily>,
    provider: ProviderFamily,
) -> (r: ProviderFamily)
    ensures
        r == provider_for_model(saved@, model@, catalog_provider, provider),
{
    match saved_model_entry(saved, model) {
        Some(i) => saved[i].provider,
        None => match catalog_provider {
            Some(p) => p,
            None => provider,
        },
    }
}

/// Checks that a model fits the provider chosen for it: a model the catalog
/// ties to another provider is refused, with that provider as the error.
pub fn validate_model_provider_selection(catalog_provider: Option<ProviderFamily>, provider: ProviderFamily) -> (r:
    Result<(), ProviderFamily>)
    ensures
        match r {
            Ok(()) => catalog_provider is None || catalog_provider == Some(provider),
            Err(p) => catalog_provider == Some(p) && p != provider,
        },
{
    match catalog_provider {
        Some(p) => if p == provider {
            Ok(())
        } else {
            Err(p)
        },
        None => Ok(()),
    }
}

/// The name under which a provider family is shown.
pub open spec fn family_name(p: ProviderFamily) -> Seq<char> {
    match p {
        ProviderFamily::Anthropic => "anthropic"@,
        ProviderFamily::Openai => "openai"@,
        ProviderFamily::Google => "google"@,
    }
}

fn family_name_of(p: ProviderFamily) -> (r: &'static str)
    ensures
        r@ == family_name(p),
{
    match p {
        ProviderFamily::Anthropic => "anthropic",
        ProviderFamily::Openai => "openai",
        ProviderFamily::Google => "google",
    }
}

/// Why a model cannot run on the provider in use.
pub open spec fn mismatch_message(model: Seq<char>, required: ProviderFamily, active: ProviderFamily) -> Seq<char> {
    "model `"@ + model + "` requires provider `"@ + family_name(required) + "`, but the active wire_api resolves to `"@
        + family_name(active) + "`"@
}

/// What the interface shows when a model switch is refused: a status line,
/// and an error item with its title and message.
#[derive(Clone, Debug)]
pub struct ModelSwitchFailure {
    pub status: String,
    pub title: String,
    pub message: String,
}

/// The provider a switch to `model` runs with: that of its saved entry's
/// protocol, else the provider in use.
pub open spec fn switch_provider(saved: Seq<SavedModelEntry>, model: Seq<char>, provider: ProviderFamily) -> ProviderFamily {
    match saved_index(saved, model) {
        Some(i) => family_of(saved[i].wire_api),
        None => provider,
    }
}

/// Checks a switch to `model` (`/model <name>` or a picked entry) before
/// anything changes: the model runs with the provider of its saved entry,
/// else the provider in use, and a model the catalog ties to another
/// provider is refused. On refusal the model in use stays, the status line
/// reads `Failed to switch model` and an error item `Model switch failed`
/// gives the mismatch. `catalog_provider` is the catalog's provider for the
/// model, where the catalog lists it.
pub fn check_model_switch(
    saved: &[SavedModelEntry],
    model: &str,
    catalog_provider: Option<ProviderFamily>,
    provider: ProviderFamily,
) -> (r: Result<ProviderFamily, ModelSwitchFailure>)
    ensures
        ({
            let target = switch_provider(saved@, model@, provider);
            match r {
                Ok(p) => p == target && (catalog_provider is None || catalog_provider == Some(target)),
                Err(f) => catalog_provider is Some && catalog_provider != Some(target) && f.status@
                    == "Failed to switch model"@ && f.title@ == "Model switch failed"@ && f.message@ == mismatch_message(
                    model@,
                    catalog_provider.unwrap(),
                    target,
                ),
            }
        }),
{
    let target = match saved_model_entry(saved, model) {
        Some(i) => crate::tui::provider::provider_family_of(saved[i].wire_api),
        None => provider,
    };
    match validate_model_provider_selection(catalog_provider, target) {
        Ok(()) => Ok(target),
        Err(required) => {
            let mut v = chars_of("model `");
            push_str(&mut v, model);
            push_str(&mut v, "` requires provider `");
            push_str(&mut v, family_name_of(required));
            push_str(&mut v, "`, but the active wire_api resolves to `");
            push_str(&mut v, family_name_of(target));
            push_str(&mut v, "`");
            Err(
                ModelSwitchFailure {
                    status: "Failed to switch model".to_owned(),
                    title: "Model switch failed".to_owned(),
                    message: string_of(v.as_slice()),
                },
            )
        },
    }
}

// ---------------------------------------------------------------- presets

/// The position of the first preset whose default base URL begins `url`.
pub open spec fn matching_preset(presets: Seq<ProviderPreset>, url: Seq<char>) -> Option<int>
    decreases presets.len(),
{
    if presets.len() == 0 {
        None
    } else if (match presets[0].default_base_url {
        Some(d) => crate::text::starts_with(url, d@),
        None => false,
    }) {
        Some(0)
    } else {
        match matching_preset(presets.drop_first(), url) {
            Some(i) => Some(i + 1),
            None => None,
        }
    }
}

proof fn lemma_matching_preset(presets: Seq<ProviderPreset>, url: Seq<char>)
    ensures
        match matching_preset(presets, url) {
            Some(i) => 0 <= i < presets.len(),
            None => true,
        },
    decreases presets.len(),
{
    if presets.len() > 0 {
        lemma_matching_preset(presets.drop_first(), url);
    }
}

/// The preset id named by the provider family alone; an OpenAI provider
/// with a saved base URL is `custom`.
pub open spec fn family_preset(provider: ProviderFamily, has_saved_url: bool) -> Seq<char> {
    match provider {
        ProviderFamily::Anthropic => "anthropic"@,
        ProviderFamily::Openai => if has_saved_url {
            "custom"@
        } else {
            "openai"@
        },
        ProviderFamily::Google => "google"@,
    }
}

/// The saved base URL of `model`, where it has one.
pub open spec fn saved_url(saved: Seq<SavedModelEntry>, model: Seq<char>) -> Option<Seq<char>> {
    match saved_index(saved, model) {
        Some(i) => opt_view(saved[i].base_url),
        None => None,
    }
}

/// The id of the preset in use: the first preset whose default base URL
/// begins the model's saved base URL, else the one named by the provider.
pub open spec fn active_preset(
    saved: Seq<SavedModelEntry>,
    presets: Seq<ProviderPreset>,
    model: Seq<char>,
    provider: ProviderFamily,
) -> Seq<char> {
    match saved_url(saved, model) {
        Some(u) => match matching_preset(presets, u) {
            Some(k) => presets[k].id@,
            None => family_preset(provider, true),
        },
        None => family_preset(provider, false),
    }
}

fn find_matching_preset(presets: &[ProviderPreset], url: &String) -> (r: Option<usize>)
    ensures
        match r {
            Some(k) => matching_preset(presets@, url@) == Some(k as int),
            None => matching_preset(presets@, url@) is None,
        },
{
    let u = chars_of(url.as_str());
    let mut i: usize = 0;
    assert(presets@.skip(0) =~= presets@);
    while i < presets.len()
        invariant
            i <= presets.len(),
            u@ == url@,
            matching_preset(presets@, url@) == match matching_preset(presets@.skip(i as int), url@) {
                Some(k) => Some(k + i),
                None => None,
            },
        decreases presets.len() - i,
    {
        let hit = match &presets[i].default_base_url {
            Some(d) => has_prefix(u.as_slice(), chars_of(d.as_str()).as_slice()),
            None => false,
        };
        assert(presets@.skip(i as int)[0] == presets@[i as int]);
        if hit {
            return Some(i);
        }
        assert(presets@.skip(i as int).drop_first() =~= presets@.skip(i + 1));
        i += 1;
    }
    None
}

fn family_preset_of(provider: ProviderFamily, has_saved_url: bool) -> (r: String)
    ensures
        r@ == family_preset(provider, has_saved_url),
{
    match provider {
        ProviderFamily::Anthropic => "anthropic".to_owned(),
        ProviderFamily::Openai => if has_saved_url {
            "custom".to_owned()
        } else {
            "openai".to_owned()
        },
        ProviderFamily::Google => "google".to_owned(),
    }
}

/// The id of the preset in use, matching the model's saved base URL against
/// the presets so that OpenAI-compatible services are told apart.
pub fn active_preset_id(
    saved: &[SavedModelEntry],
    presets: &[ProviderPreset],
    model: &str,
    provider: ProviderFamily,
) -> (r: Option<String>)
    ensures
        r is Some,
        r.unwrap()@ == active_preset(saved@, presets@, model@, provider),
{
    proof {
        lemma_matching_preset(presets@, saved_url(saved@, model@).unwrap_or(Seq::empty()));
    }
    match saved_model_entry(saved, model) {
        Some(i) => match &saved[i].base_url {
            Some(u) => {
                proof {
                    lemma_matching_preset(presets@, u@);
                }
                match find_matching_preset(presets, u) {
                    Some(k) => Some(presets[k].id.clone()),
                    None => Some(family_preset_of(provider, true)),
                }
            },
            None => Some(family_preset_of(provider, false)),
        },
        None => Some(family_preset_of(provider, false)),
    }
}

/// Each preset as the preset picker lists it; the one whose id is `active`
/// is marked current.
pub fn configure_preset_entries(presets: &[ProviderPreset], active: &Option<String>) -> (r: Vec<PresetListEntry>)
    ensures
        r.len() == presets.len(),
        forall|i: int|
            0 <= i < presets.len() ==> {
                &&& (#[trigger] r@[i]).id@ == presets@[i].id@
                &&& r@[i].display_name@ == presets@[i].display_name@
                &&& r@[i].description@ == presets@[i].description@
                &&& opt_view(r@[i].default_base_url) == opt_view(presets@[i].default_base_url)
                &&& r@[i].is_current == (opt_view(*active) == Some(presets@[i].id@))
            },
{
    let mut r: Vec<PresetListEntry> = Vec::new();
    let mut i: usize = 0;
    while i < presets.len()
        invariant
            i <= presets.len(),
            r.len() == i,
            forall|k: int|
                0 <= k < i ==> {
                    &&& (#[trigger] r@[k]).id@ == presets@[k].id@
                    &&& r@[k].display_name@ == presets@[k].display_name@
                    &&& r@[k].description@ == presets@[k].description@
                    &&& opt_view(r@[k].default_base_url) == opt_view(presets@[k].default_base_url)
                    &&& r@[k].is_current == (opt_view(*active) == Some(presets@[k].id@))
                },
        decreases presets.len() - i,
    {
        let p = &presets[i];
        let is_current = match active {
            Some(a) => *a == p.id,
            None => false,
        };
        r.push(
            PresetListEntry {
                id: p.id.clone(),
                display_name: p.display_name.clone(),
                description: p.description.clone(),
                default_base_url: opt_string(&p.default_base_url),
                is_current,
            },
        );
        i += 1;
    }
    r
}

// ---------------------------------------------------------------- thinking

/// `s` in lower case, as `str::to_lowercase` gives it.
pub uninterp spec fn lowercase(s: Seq<char>) -> Seq<char>;

/// `s` in lower case: calls `str::to_lowercase`, whose result this names.
#[verifier::external_body]
fn lowercase_of(s: &str) -> (r: String)
    ensures
        r@ == lowercase(s@),
{
    s.to_lowercase()
}

/// The thinking mode to mark current: the chosen one, in lower case, else
/// the model's default.
pub fn thinking_current(selection: Option<&str>, default: &str) -> (r: String)
    ensures
        r@ == match selection {
            Some(s) => lowercase(s@),
            None => default@,
        },
{
    match selection {
        Some(s) => lowercase_of(s),
        None => default.to_owned(),
    }
}

/// Each thinking option as the thinking picker lists it; the one whose value
/// is `current`, or whose label in lower case is, is marked current.
pub fn thinking_entries(options: &[ThinkingOption], current: &str) -> (r: Vec<ThinkingListEntry>)
    ensures
        r.len() == options.len(),
        forall|i: int|
            0 <= i < options.len() ==> {
                &&& (#[trigger] r@[i]).label@ == options@[i].label@
                &&& r@[i].value@ == options@[i].value@
                &&& r@[i].description@ == options@[i].description@
                &&& r@[i].is_current == (options@[i].value@ == current@ || lowercase(options@[i].label@) == current@)
            },
{
    let cur = current.to_owned();
    let mut r: Vec<ThinkingListEntry> = Vec::new();
    let mut i: usize = 0;
    while i < options.len()
        invariant
            i <= options.len(),
            cur@ == current@,
            r.len() == i,
            forall|k: int|
                0 <= k < i ==> {
                    &&& (#[trigger] r@[k]).label@ == options@[k].label@
                    &&& r@[k].value@ == options@[k].value@
                    &&& r@[k].description@ == options@[k].description@
                    &&& r@[k].is_current == (options@[k].value@ == current@ || lowercase(options@[k].label@) == current@)
                },
        decreases options.len() - i,
    {
        let o = &options[i];
        let is_current = o.value == cur || lowercase_of(o.label.as_str()) == cur;
        r.push(
            ThinkingListEntry {
                label: o.label.clone(),
                value: o.value.clone(),
                description: o.description.clone(),
                is_current,
            },
        );
        i += 1;
    }
    r
}

// ---------------------------------------------------------------- panel selection

/// How many entries the panel lists; a text panel lists none.
pub open spec fn listed_count(panel: Option<&AuxPanel>) -> int {
    match panel {
        Some(p) => match p.content {
            AuxPanelContent::SessionList(es) => es.len() as int,
            AuxPanelContent::ModelList(es) => es.len() as int,
            AuxPanelContent::ThinkingList(es) => es.len() as int,
            AuxPanelContent::PresetList(es) => es.len() as int,
            AuxPanelContent::Text(_) => 0,
        },
        None => 0,
    }
}

/// The panel's selection after moving it `delta` steps, wrapping.
pub fn move_aux_panel_selection(panel: Option<&AuxPanel>, selection: usize, delta: isize) -> (r: usize)
    requires
        selection <= isize::MAX,
        isize::MIN <= selection + delta <= isize::MAX,
    ensures
        r == moved(selection as int, delta as int, listed_count(panel)),
{
    let len = match panel {
        Some(p) => match &p.content {
            AuxPanelContent::SessionList(es) => es.len(),
            AuxPanelContent::ModelList(es) => es.len(),
            AuxPanelContent::ThinkingList(es) => es.len(),
            AuxPanelContent::PresetList(es) => es.len(),
            AuxPanelContent::Text(_) => 0,
        },
        None => 0,
    };
    move_selection(selection, delta, len)
}

/// Whether the panel lists entries one can pick.
pub fn has_selectable_aux_panel(panel: Option<&AuxPanel>) -> (r: bool)
    ensures
        r == (panel matches Some(p) && !(p.content is Text)),
{
    match panel {
        Some(p) => match &p.content {
            AuxPanelContent::Text(_) => false,
            _ => true,
        },
        None => false,
    }
}

/// Whether the onboarding model picker is shown.
pub fn is_onboarding_model_picker_open(show_model_onboarding: bool, panel: Option<&AuxPanel>) -> (r: bool)
    ensures
        r == (show_model_onboarding && (panel matches Some(p) && p.content is ModelList)),
{
    show_model_onboarding && match panel {
        Some(p) => match &p.content {
            AuxPanelContent::ModelList(_) => true,
            _ => false,
        },
        None => false,
    }
}

/// A text panel, its selection at the top.
pub fn text_panel(title: &str, body: &str) -> (r: (AuxPanel, usize))
    ensures
        r.0.title@ == title@,
        r.0.content matches AuxPanelContent::Text(b) && b@ == body@,
        r.1 == 0,
{
    (AuxPanel { title: title.to_owned(), content: AuxPanelContent::Text(body.to_owned()) }, 0)
}

fn active_flags(sessions: &Vec<SessionListEntry>) -> (r: Vec<bool>)
    ensures
        r@ == sessions@.map_values(|e: SessionListEntry| e.is_active),
{
    let mut r: Vec<bool> = Vec::new();
    let mut i: usize = 0;
    while i < sessions.len()
        invariant
            i <= sessions.len(),
            r@ == sessions@.take(i as int).map_values(|e: SessionListEntry| e.is_active),
        decreases sessions.len() - i,
    {
        r.push(sessions[i].is_active);
        i += 1;
        assert(r@ =~= sessions@.take(i as int).map_values(|e: SessionListEntry| e.is_active));
    }
    assert(sessions@.take(i as int) =~= sessions@);
    r
}

fn current_model_flags(entries: &Vec<ModelListEntry>) -> (r: Vec<bool>)
    ensures
        r@ == entries@.map_values(|e: ModelListEntry| e.is_current),
{
    let mut r: Vec<bool> = Vec::new();
    let mut i: usize = 0;
    while i < entries.len()
        invariant
            i <= entries.len(),
            r@ == entries@.take(i as int).map_values(|e: ModelListEntry| e.is_current),
        decreases entries.len() - i,
    {
        r.push(entries[i].is_current);
        i += 1;
        assert(r@ =~= entries@.take(i as int).map_values(|e: ModelListEntry| e.is_current));
    }
    assert(entries@.take(i as int) =~= entries@);
    r
}

/// The session list, titled `Sessions`, its selection on the active session.
pub fn session_panel(sessions: Vec<SessionListEntry>) -> (r: (AuxPanel, usize))
    ensures
        r.0.title@ == "Sessions"@,
        r.0.content == AuxPanelContent::SessionList(sessions),
        r.1 == first_set(sessions@.map_values(|e: SessionListEntry| e.is_active)),
{
    let flags = active_flags(&sessions);
    let k = initial_selection(flags.as_slice());
    (AuxPanel { title: "Sessions".to_owned(), content: AuxPanelContent::SessionList(sessions) }, k)
}

/// A model list under `title`, its selection on the current model.
pub fn model_panel(title: &str, entries: Vec<ModelListEntry>) -> (r: (AuxPanel, usize))
    ensures
        r.0.title@ == title@,
        r.0.content == AuxPanelContent::ModelList(entries),
        r.1 == first_set(entries@.map_values(|e: ModelListEntry| e.is_current)),
{
    let flags = current_model_flags(&entries);
    let k = initial_selection(flags.as_slice());
    (AuxPanel { title: title.to_owned(), content: AuxPanelContent::ModelList(entries) }, k)
}

/// The thinking modes, titled `Thinking`, the selection on the current one.
pub fn thinking_panel(entries: Vec<ThinkingListEntry>) -> (r: (AuxPanel, usize))
    ensures
        r.0.title@ == "Thinking"@,
        r.0.content == AuxPanelContent::ThinkingList(entries),
        r.1 == first_set(entries@.map_values(|e: ThinkingListEntry| e.is_current)),
{
    let mut flags: Vec<bool> = Vec::new();
    let mut i: usize = 0;
    while i < entries.len()
        invariant
            i <= entries.len(),
            flags@ == entries@.take(i as int).map_values(|e: ThinkingListEntry| e.is_current),
        decreases entries.len() - i,
    {
        flags.push(entries[i].is_current);
        i += 1;
        assert(flags@ =~= entries@.take(i as int).map_values(|e: ThinkingListEntry| e.is_current));
    }
    assert(entries@.take(i as int) =~= entries@);
    let k = initial_selection(flags.as_slice());
    (AuxPanel { title: "Thinking".to_owned(), content: AuxPanelContent::ThinkingList(entries) }, k)
}

/// The presets, titled `Pick a provider`, the selection on the current one.
pub fn preset_panel(entries: Vec<PresetListEntry>) -> (r: (AuxPanel, usize))
    ensures
        r.0.title@ == "Pick a provider"@,
        r.0.content == AuxPanelContent::PresetList(entries),
        r.1 == first_set(entries@.map_values(|e: PresetListEntry| e.is_current)),
{
    let mut flags: Vec<bool> = Vec::new();
    let mut i: usize = 0;
    while i < entries.len()
        invariant
            i <= entries.len(),
            flags@ == entries@.take(i as int).map_values(|e: PresetListEntry| e.is_current),
        decreases entries.len() - i,
    {
        flags.push(entries[i].is_current);
        i += 1;
        assert(flags@ =~= entries@.take(i as int).map_values(|e: PresetListEntry| e.is_current));
    }
    assert(entries@.take(i as int) =~= entries@);
    let k = initial_selection(flags.as_slice());
    (AuxPanel { title: "Pick a provider".to_owned(), content: AuxPanelContent::PresetList(entries) }, k)
}

/// The first position whose flag is set, else the first position.
pub open spec fn first_set(flags: Seq<bool>) -> int {
    if exists|i: int| 0 <= i < flags.len() && flags[i] {
        choose|i: int| 0 <= i < flags.len() && flags[i] && forall|k: int| 0 <= k < i ==> !flags[k]
    } else {
        0
    }
}

/// Where a picker opens: on its first current entry, else on its first.
pub fn initial_selection(current: &[bool]) -> (r: usize)
    ensures
        r == first_set(current@),
        current.len() > 0 ==> r < current.len(),
{
    let mut i: usize = 0;
    while i < current.len()
        invariant
            i <= current.len(),
            forall|k: int| 0 <= k < i ==> !current@[k],
        decreases current.len() - i,
    {
        if current[i] {
            assert(0 <= i < current@.len() && current@[i as int] && forall|k: int| 0 <= k < i ==> !current@[k]);
            proof {
                let c = choose|j: int| 0 <= j < current@.len() && current@[j] && forall|k: int| 0 <= k < j ==> !current@[k];
                if c < i {
                } else if c > i {
                    assert(!current@[i as int]);
                }
            }
            return i;
        }
        i += 1;
    }
    0
}

// ---------------------------------------------------------------- accepting an entry

/// What accepting the selected entry of the panel does.
#[derive(Clone, Debug)]
pub enum PanelAccept {
    /// Nothing: no panel, typed input, an empty list, or a text panel.
    Ignored,
    /// Switch to the session of this id.
    SwitchSession(String),
    /// Ask for a model name typed by hand, within onboarding.
    BeginCustomModelOnboarding,
    /// Open onboarding.
    StartOnboarding,
    /// Ask for the credentials of this unsaved model, within onboarding.
    BeginModelCredentials(String),
    /// Go on with this unsaved model of the chosen preset, within onboarding:
    /// a saved key of the preset's provider is reused, else one is asked for.
    ProceedWithPresetModel(String),
    /// Use the model of this slug with the provider in use.
    SetModel(String),
    /// Use the saved model at this position, with its base URL and key.
    ReconfigureSaved(usize),
    /// Continue with the preset of this id.
    SelectPreset(String),
    /// Use this thinking mode; its label is shown.
    SetThinking { value: String, label: String },
}

/// What accepting an entry does, by value.
pub enum AcceptChoice {
    Ignored,
    SwitchSession(Seq<char>),
    BeginCustomModelOnboarding,
    StartOnboarding,
    BeginModelCredentials(Seq<char>),
    ProceedWithPresetModel(Seq<char>),
    SetModel(Seq<char>),
    ReconfigureSaved(int),
    SelectPreset(Seq<char>),
    SetThinking(Seq<char>, Seq<char>),
}

/// The value of an accept action.
pub open spec fn accept_view(a: PanelAccept) -> AcceptChoice {
    match a {
        PanelAccept::Ignored => AcceptChoice::Ignored,
        PanelAccept::SwitchSession(id) => AcceptChoice::SwitchSession(id@),
        PanelAccept::BeginCustomModelOnboarding => AcceptChoice::BeginCustomModelOnboarding,
        PanelAccept::StartOnboarding => AcceptChoice::StartOnboarding,
        PanelAccept::BeginModelCredentials(slug) => AcceptChoice::BeginModelCredentials(slug@),
        PanelAccept::ProceedWithPresetModel(slug) => AcceptChoice::ProceedWithPresetModel(slug@),
        PanelAccept::SetModel(slug) => AcceptChoice::SetModel(slug@),
        PanelAccept::ReconfigureSaved(i) => AcceptChoice::ReconfigureSaved(i as int),
        PanelAccept::SelectPreset(id) => AcceptChoice::SelectPreset(id@),
        PanelAccept::SetThinking { value, label } => AcceptChoice::SetThinking(value@, label@),
    }
}

/// The selection, kept within a list of `len` entries.
pub open spec fn clamp_selection(selection: int, len: int) -> int {
    if selection < len - 1 {
        selection
    } else {
        len - 1
    }
}

/// What accepting a model entry does: an entry that opens onboarding asks
/// for a model by hand within onboarding, else opens it; a saved model is
/// reconfigured with its saved settings; an unsaved one goes on with the
/// chosen preset within onboarding (reusing the provider's saved key), asks
/// for credentials within onboarding when no preset is chosen, and is set
/// directly outside onboarding.
pub open spec fn model_choice(
    e: ModelListEntry,
    onboarding: bool,
    preset_chosen: bool,
    saved: Seq<SavedModelEntry>,
) -> AcceptChoice {
    if e.is_custom_mode {
        if onboarding {
            AcceptChoice::BeginCustomModelOnboarding
        } else {
            AcceptChoice::StartOnboarding
        }
    } else {
        match saved_index(saved, e.slug@) {
            Some(i) => AcceptChoice::ReconfigureSaved(i),
            None => if onboarding && preset_chosen {
                AcceptChoice::ProceedWithPresetModel(e.slug@)
            } else if onboarding {
                AcceptChoice::BeginModelCredentials(e.slug@)
            } else {
                AcceptChoice::SetModel(e.slug@)
            },
        }
    }
}

/// What accepting the selected entry does, when the input is blank and the
/// panel lists something.
pub open spec fn accept_choice(
    panel: Option<&AuxPanel>,
    selection: int,
    input_blank: bool,
    onboarding: bool,
    preset_chosen: bool,
    saved: Seq<SavedModelEntry>,
) -> AcceptChoice {
    match panel {
        None => AcceptChoice::Ignored,
        Some(p) => if !input_blank {
            AcceptChoice::Ignored
        } else {
            match p.content {
                AuxPanelContent::SessionList(es) => if es.len() == 0 {
                    AcceptChoice::Ignored
                } else {
                    AcceptChoice::SwitchSession(es@[clamp_selection(selection, es.len() as int)].session_id@)
                },
                AuxPanelContent::ModelList(es) => if es.len() == 0 {
                    AcceptChoice::Ignored
                } else {
                    model_choice(es@[clamp_selection(selection, es.len() as int)], onboarding, preset_chosen, saved)
                },
                AuxPanelContent::PresetList(es) => if es.len() == 0 {
                    AcceptChoice::Ignored
                } else {
                    AcceptChoice::SelectPreset(es@[clamp_selection(selection, es.len() as int)].id@)
                },
                AuxPanelContent::ThinkingList(es) => if es.len() == 0 {
                    AcceptChoice::Ignored
                } else {
                    let e = es@[clamp_selection(selection, es.len() as int)];
                    AcceptChoice::SetThinking(e.value@, e.label@)
                },
                AuxPanelContent::Text(_) => AcceptChoice::Ignored,
            }
        },
    }
}

fn clamp_index(selection: usize, len: usize) -> (r: usize)
    requires
        len > 0,
    ensures
        r == clamp_selection(selection as int, len as int),
        r < len,
{
    if selection < len - 1 {
        selection
    } else {
        len - 1
    }
}

/// What accepting the selected entry of the panel does; `input_blank` is
/// whether the composer is empty, `saved` the saved models.
pub fn panel_accept_action(
    panel: Option<&AuxPanel>,
    selection: usize,
    input_blank: bool,
    show_model_onboarding: bool,
    preset_chosen: bool,
    saved: &[SavedModelEntry],
) -> (r: PanelAccept)
    ensures
        accept_view(r) == accept_choice(panel, selection as int, input_blank, show_model_onboarding, preset_chosen, saved@),
{
    let p = match panel {
        Some(p) => p,
        None => return PanelAccept::Ignored,
    };
    if !input_blank {
        return PanelAccept::Ignored;
    }
    match &p.content {
        AuxPanelContent::SessionList(es) => {
            if es.len() == 0 {
                return PanelAccept::Ignored;
            }
            let k = clamp_index(selection, es.len());
            PanelAccept::SwitchSession(es[k].session_id.clone())
        },
        AuxPanelContent::ModelList(es) => {
            if es.len() == 0 {
                return PanelAccept::Ignored;
            }
            let k = clamp_index(selection, es.len());
            let e = &es[k];
            if e.is_custom_mode {
                if show_model_onboarding {
                    PanelAccept::BeginCustomModelOnboarding
                } else {
                    PanelAccept::StartOnboarding
                }
            } else {
                match saved_model_entry(saved, e.slug.as_str()) {
                    Some(i) => PanelAccept::ReconfigureSaved(i),
                    None => if show_model_onboarding && preset_chosen {
                        PanelAccept::ProceedWithPresetModel(e.slug.clone())
                    } else if show_model_onboarding {
                        PanelAccept::BeginModelCredentials(e.slug.clone())
                    } else {
                        PanelAccept::SetModel(e.slug.clone())
                    },
                }
            }
        },
        AuxPanelContent::PresetList(es) => {
            if es.len() == 0 {
                return PanelAccept::Ignored;
            }
            let k = clamp_index(selection, es.len());
            PanelAccept::SelectPreset(es[k].id.clone())
        },
        AuxPanelContent::ThinkingList(es) => {
            if es.len() == 0 {
                return PanelAccept::Ignored;
            }
            let k = clamp_index(selection, es.len());
            PanelAccept::SetThinking { value: es[k].value.clone(), label: es[k].label.clone() }
        },
        AuxPanelContent::Text(_) => PanelAccept::Ignored,
    }
}

// ---------------------------------------------------------------- laws

/// The model switcher always marks one entry as the model in use, and
/// always ends with the entry that opens onboarding.
pub proof fn law_switcher_marks_current(
    saved: Seq<SavedModelEntry>,
    catalog: Seq<CatalogModel>,
    current: Seq<char>,
    provider: ProviderFamily,
)
    ensures
        any_current(switch_rows(saved, catalog, current, provider)),
        switch_rows(saved, catalog, current, provider).last() == add_model_row(provider),
{
    let base = if saved.len() > 0 {
        saved.map_values(|m: SavedModelEntry| saved_row(m, current))
    } else if catalog.len() > 0 {
        catalog.map_values(|m: CatalogModel| catalog_row(m, current))
    } else {
        seq![current_model_row(current, provider)]
    };
    let listed = if any_current(base) {
        base
    } else {
        seq![current_model_row(current, provider)] + base
    };
    assert(switch_rows(saved, catalog, current, provider) == listed.push(add_model_row(provider)));
    if any_current(base) {
        let i = choose|i: int| 0 <= i < base.len() && #[trigger] base[i].is_current;
        assert(listed.push(add_model_row(provider))[i].is_current);
    } else {
        assert(listed.push(add_model_row(provider))[0].is_current);
    }
}

/// The onboarding picker never lists nothing.
pub proof fn law_picker_not_empty(catalog: Seq<CatalogModel>, current: Seq<char>, provider: ProviderFamily, onboarding: bool)
    ensures
        picker_rows(catalog, current, provider, onboarding).len() > 0,
{
}

/// After a model is recorded, looking it up finds exactly what was
/// recorded, and no other saved model changed.
pub proof fn law_upsert_then_lookup(saved: Seq<SavedModelEntry>, entry: SavedModelEntry)
    ensures
        saved_index(upserted(saved, entry), entry.model@) matches Some(i) && upserted(saved, entry)[i] == entry,
        forall|k: int| 0 <= k < saved.len() && saved[k].model@ != entry.model@ ==> #[trigger] upserted(saved, entry)[k] == saved[k],
        upserted(saved, entry).len() == saved.len() || upserted(saved, entry).len() == saved.len() + 1,
{
    lemma_saved_index(saved, entry.model@);
    let after = upserted(saved, entry);
    lemma_saved_index(after, entry.model@);
    match saved_index(saved, entry.model@) {
        Some(i) => {
            assert(after[i].model@ == entry.model@);
            match saved_index(after, entry.model@) {
                Some(j) => {
                    if j < i {
                        assert(after[j] == saved[j]);
                    }
                },
                None => {},
            }
        },
        None => {
            assert(after[saved.len() as int] == entry);
            match saved_index(after, entry.model@) {
                Some(j) => {
                    if j < saved.len() {
                        assert(after[j] == saved[j]);
                    }
                },
                None => {},
            }
        },
    }
}

// ---------------------------------------------------------------- saved keys

/// The position of the first saved model of the preset's provider: the
/// same protocol and exactly the preset's base URL.
pub open spec fn key_source(saved: Seq<SavedModelEntry>, preset: ProviderPreset) -> Option<int>
    decreases saved.len(),
{
    match preset.default_base_url {
        None => None,
        Some(d) => if saved.len() == 0 {
            None
        } else if saved[0].wire_api == preset.wire_api && opt_view(saved[0].base_url) == Some(d@) {
            Some(0)
        } else {
            match key_source(saved.drop_first(), preset) {
                Some(i) => Some(i + 1),
                None => None,
            }
        },
    }
}

proof fn lemma_key_source(saved: Seq<SavedModelEntry>, preset: ProviderPreset)
    ensures
        key_source(saved, preset) matches Some(i) ==> 0 <= i < saved.len() && saved[i].wire_api == preset.wire_api
            && preset.default_base_url is Some && opt_view(saved[i].base_url) == Some(preset.default_base_url.unwrap()@),
    decreases saved.len(),
{
    if saved.len() > 0 {
        lemma_key_source(saved.drop_first(), preset);
    }
}

/// The saved key of the preset's provider, where one is saved.
pub open spec fn reusable_key(saved: Seq<SavedModelEntry>, preset: ProviderPreset) -> Option<Seq<char>> {
    match key_source(saved, preset) {
        Some(i) => opt_view(saved[i].api_key),
        None => None,
    }
}

/// A saved API key of the same provider as `preset`: the key of the first
/// saved model that speaks the preset's protocol at exactly its base URL. A
/// preset without a base URL reuses no key.
pub fn existing_api_key_for_preset(saved: &[SavedModelEntry], preset: &ProviderPreset) -> (r: Option<String>)
    ensures
        opt_view(r) == reusable_key(saved@, *preset),
{
    proof {
        lemma_key_source(saved@, *preset);
    }
    let d = match &preset.default_base_url {
        Some(d) => d,
        None => return None,
    };
    let mut i: usize = 0;
    assert(saved@.skip(0) =~= saved@);
    while i < saved.len()
        invariant
            i <= saved.len(),
            preset.default_base_url == Some(*d),
            key_source(saved@, *preset) == match key_source(saved@.skip(i as int), *preset) {
                Some(k) => Some(k + i),
                None => None,
            },
        decreases saved.len() - i,
    {
        assert(saved@.skip(i as int)[0] == saved@[i as int]);
        let same_url = match &saved[i].base_url {
            Some(u) => *u == *d,
            None => false,
        };
        if saved[i].wire_api == preset.wire_api && same_url {
            return opt_string(&saved[i].api_key);
        }
        assert(saved@.skip(i as int).drop_first() =~= saved@.skip(i + 1));
        i += 1;
    }
    None
}

/// A key is reused only from a saved model of the very same provider: its
/// protocol and its whole base URL match the preset's, so providers whose
/// URLs merely share a prefix never lend each other a key.
pub proof fn law_key_reuse_exact(saved: Seq<SavedModelEntry>, preset: ProviderPreset)
    ensures
        reusable_key(saved, preset) is Some ==> exists|i: int|
            0 <= i < saved.len() && saved[i].wire_api == preset.wire_api && preset.default_base_url is Some && opt_view(
                #[trigger] saved[i].base_url,
            ) == Some(preset.default_base_url.unwrap()@) && opt_view(saved[i].api_key) == reusable_key(saved, preset),
{
    lemma_key_source(saved, preset);
    if reusable_key(saved, preset) is Some {
        let i = key_source(saved, preset).unwrap();
        assert(opt_view(saved[i].base_url) == Some(preset.default_base_url.unwrap()@));
    }
}

/// A key as shown: `***` and its last four characters, or four stars when
/// it is no longer than four.
pub open spec fn masked_key(key: Seq<char>) -> Seq<char> {
    if key.len() > 4 {
        "***"@ + key.skip(key.len() - 4)
    } else {
        "****"@
    }
}

/// A key as shown, keeping only its last four characters.
pub fn mask_with_suffix(key: &str) -> (r: String)
    ensures
        r@ == masked_key(key@),
{
    let c = chars_of(key);
    if c.len() > 4 {
        let mut v = chars_of("***");
        let tail = crate::text::slice_chars(c.as_slice(), c.len() - 4, c.len());
        assert(tail@ =~= key@.skip(key@.len() - 4));
        crate::text::extend_chars(&mut v, tail.as_slice());
        string_of(v.as_slice())
    } else {
        "****".to_owned()
    }
}

/// The summary of the configuration in use, shown when onboarding starts.
pub open spec fn config_summary_text(
    provider_label: Seq<char>,
    model: Seq<char>,
    saved: Option<SavedModelEntry>,
) -> Seq<char> {
    let base_url = match saved {
        Some(s) => match s.base_url {
            Some(u) => u@,
            None => "(default)"@,
        },
        None => "(default)"@,
    };
    let key = match saved {
        Some(s) => match s.api_key {
            Some(k) => masked_key(k@),
            None => "(not set)"@,
        },
        None => "(not set)"@,
    };
    "Provider: "@ + provider_label + "\nModel:    "@ + model + "\nBase URL: "@ + base_url + "\nAPI key:  "@ + key
}

/// The summary of the configuration in use: the provider, the model, and
/// the model's saved base URL and masked key.
pub fn current_config_summary(provider_label: &str, model: &str, saved: &[SavedModelEntry]) -> (r: String)
    ensures
        r@ == config_summary_text(
            provider_label@,
            model@,
            match saved_index(saved@, model@) {
                Some(i) => Some(saved@[i]),
                None => None,
            },
        ),
{
    let entry = saved_model_entry(saved, model);
    let mut v = chars_of("Provider: ");
    push_str(&mut v, provider_label);
    push_str(&mut v, "\nModel:    ");
    push_str(&mut v, model);
    push_str(&mut v, "\nBase URL: ");
    match entry {
        Some(i) => match &saved[i].base_url {
            Some(u) => push_str(&mut v, u.as_str()),
            None => push_str(&mut v, "(default)"),
        },
        None => push_str(&mut v, "(default)"),
    }
    push_str(&mut v, "\nAPI key:  ");
    match entry {
        Some(i) => match &saved[i].api_key {
            Some(k) => {
                let m = mask_with_suffix(k.as_str());
                push_str(&mut v, m.as_str());
            },
            None => push_str(&mut v, "(not set)"),
        },
        None => push_str(&mut v, "(not set)"),
    }
    string_of(v.as_slice())
}

/// The preset of this id, by position.
pub open spec fn preset_index(presets: Seq<ProviderPreset>, id: Seq<char>) -> Option<int>
    decreases presets.len(),
{
    if presets.len() == 0 {
        None
    } else if presets[0].id@ == id {
        Some(0)
    } else {
        match preset_index(presets.drop_first(), id) {
            Some(i) => Some(i + 1),
            None => None,
        }
    }
}

/// The preset of this id, by position.
pub fn preset_by_id(presets: &[ProviderPreset], id: &str) -> (r: Option<usize>)
    ensures
        match r {
            Some(i) => i < presets.len() && preset_index(presets@, id@) == Some(i as int),
            None => preset_index(presets@, id@) is None,
        },
{
    let target = id.to_owned();
    let mut i: usize = 0;
    assert(presets@.skip(0) =~= presets@);
    while i < presets.len()
        invariant
            i <= presets.len(),
            target@ == id@,
            preset_index(presets@, id@) == match preset_index(presets@.skip(i as int), id@) {
                Some(k) => Some(k + i),
                None => None,
            },
        decreases presets.len() - i,
    {
        assert(presets@.skip(i as int)[0] == presets@[i as int]);
        if presets[i].id == target {
            return Some(i);
        }
        assert(presets@.skip(i as int).drop_first() =~= presets@.skip(i + 1));
        i += 1;
    }
    None
}

} // verus!
