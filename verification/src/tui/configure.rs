//! The onboarding flow that configures a provider and a model: which
//! question is pending, what has been chosen so far, and where each step,
//! answer or Escape leads.
use vstd::prelude::*;

use crate::text::{chars_of, string_of};
use crate::tui::provider::{family_of, opt_view, provider_family_of, ProviderFamily};
use crate::tui::selection::{existing_api_key_for_preset, reusable_key, ProviderPreset, SavedModelEntry};
use crate::tui::onboarding::{submission_view, Submission, SubmissionChoice};
use crate::tui::transcript::push_str;

verus! {

/// The state of onboarding.
#[derive(Clone, Debug)]
pub struct OnboardingState {
    /// Onboarding is shown.
    pub active: bool,
    /// The preset picked, by id.
    pub preset_id: Option<String>,
    /// A model name is asked for.
    pub custom_model_pending: bool,
    /// A base URL is asked for.
    pub base_url_pending: bool,
    /// An API key is asked for.
    pub api_key_pending: bool,
    pub selected_model: Option<String>,
    /// The model was typed rather than picked.
    pub selected_model_is_custom: bool,
    pub selected_base_url: Option<String>,
    pub selected_api_key: Option<String>,
    /// The question shown in the composer.
    pub prompt: Option<String>,
}

/// The state of onboarding, by value.
pub struct OnboardingView {
    pub active: bool,
    pub preset_id: Option<Seq<char>>,
    pub custom_model_pending: bool,
    pub base_url_pending: bool,
    pub api_key_pending: bool,
    pub selected_model: Option<Seq<char>>,
    pub selected_model_is_custom: bool,
    pub selected_base_url: Option<Seq<char>>,
    pub selected_api_key: Option<Seq<char>>,
    pub prompt: Option<Seq<char>>,
}

impl View for OnboardingState {
    type V = OnboardingView;

    open spec fn view(&self) -> OnboardingView {
        OnboardingView {
            active: self.active,
            preset_id: opt_view(self.preset_id),
            custom_model_pending: self.custom_model_pending,
            base_url_pending: self.base_url_pending,
            api_key_pending: self.api_key_pending,
            selected_model: opt_view(self.selected_model),
            selected_model_is_custom: self.selected_model_is_custom,
            selected_base_url: opt_view(self.selected_base_url),
            selected_api_key: opt_view(self.selected_api_key),
            prompt: opt_view(self.prompt),
        }
    }
}

/// The panel a step shows next.
#[derive(Clone, Copy, Debug, PartialEq, Eq, Structural)]
pub enum PanelChange {
    /// Leave the panel as it is.
    Keep,
    /// Close the panel.
    Close,
    /// Show the provider presets.
    PresetList,
    /// Show the chosen preset's models.
    PresetModels,
    /// Show the onboarding model picker.
    OnboardingModels,
}

/// At most one question is pending.
pub open spec fn one_question(s: OnboardingView) -> bool {
    &&& !(s.custom_model_pending && s.base_url_pending)
    &&& !(s.custom_model_pending && s.api_key_pending)
    &&& !(s.base_url_pending && s.api_key_pending)
}

/// Every question and choice cleared.
pub open spec fn cleared(active: bool, preset_id: Option<Seq<char>>) -> OnboardingView {
    OnboardingView {
        active,
        preset_id,
        custom_model_pending: false,
        base_url_pending: false,
        api_key_pending: false,
        selected_model: None,
        selected_model_is_custom: false,
        selected_base_url: None,
        selected_api_key: None,
        prompt: None,
    }
}

fn some_text(s: &str) -> (r: Option<String>)
    ensures
        opt_view(r) == Some(s@),
{
    Some(s.to_owned())
}

impl OnboardingState {
    /// Onboarding not shown, with nothing chosen.
    pub fn new() -> (r: OnboardingState)
        ensures
            r@ == cleared(false, None),
    {
        OnboardingState {
            active: false,
            preset_id: None,
            custom_model_pending: false,
            base_url_pending: false,
            api_key_pending: false,
            selected_model: None,
            selected_model_is_custom: false,
            selected_base_url: None,
            selected_api_key: None,
            prompt: None,
        }
    }

    fn clear(&mut self)
        ensures
            final(self)@ == cleared(old(self)@.active, old(self)@.preset_id),
    {
        self.custom_model_pending = false;
        self.base_url_pending = false;
        self.api_key_pending = false;
        self.selected_model = None;
        self.selected_model_is_custom = false;
        self.selected_base_url = None;
        self.selected_api_key = None;
        self.prompt = None;
    }

    /// Starts onboarding afresh: nothing chosen, no preset, the presets shown.
    pub fn start_onboarding(&mut self) -> (r: PanelChange)
        ensures
            final(self)@ == cleared(true, None),
            r == PanelChange::PresetList,
    {
        self.clear();
        self.active = true;
        self.preset_id = None;
        PanelChange::PresetList
    }

    /// Leaves onboarding: every question and choice dropped; the preset
    /// picked stays.
    pub fn exit_onboarding(&mut self) -> (r: PanelChange)
        ensures
            final(self)@ == cleared(false, old(self)@.preset_id),
            r == PanelChange::Close,
    {
        self.clear();
        self.active = false;
        PanelChange::Close
    }

    /// Asks for a model name typed by hand.
    pub fn begin_custom_model_onboarding(&mut self) -> (r: PanelChange)
        ensures
            final(self)@ == (OnboardingView {
                custom_model_pending: true,
                selected_model_is_custom: true,
                prompt: Some("model name"@),
                ..cleared(old(self)@.active, old(self)@.preset_id)
            }),
            r == PanelChange::Close,
    {
        self.clear();
        self.custom_model_pending = true;
        self.selected_model_is_custom = true;
        self.prompt = some_text("model name");
        PanelChange::Close
    }

    /// Asks for the base URL of a model picked from the list.
    pub fn begin_model_credentials_onboarding(&mut self, model: String) -> (r: PanelChange)
        ensures
            final(self)@ == (OnboardingView {
                base_url_pending: true,
                selected_model: Some(model@),
                prompt: Some("base url"@),
                ..cleared(old(self)@.active, old(self)@.preset_id)
            }),
            r == PanelChange::Close,
    {
        self.clear();
        self.base_url_pending = true;
        self.selected_model = Some(model);
        self.prompt = some_text("base url");
        PanelChange::Close
    }
}

/// `a`, then `sep`, then `b`.
pub open spec fn joined3(a: Seq<char>, sep: Seq<char>, b: Seq<char>) -> Seq<char> {
    a + sep + b
}

fn text2(a: &str, b: &str) -> (r: String)
    ensures
        r@ == a@ + b@,
{
    let mut v = chars_of(a);
    push_str(&mut v, b);
    string_of(v.as_slice())
}

fn text3(a: &str, sep: &str, b: &str) -> (r: String)
    ensures
        r@ == joined3(a@, sep@, b@),
{
    let mut v = chars_of(a);
    push_str(&mut v, sep);
    push_str(&mut v, b);
    string_of(v.as_slice())
}

impl OnboardingState {
    /// Picks a preset: its base URL is taken, the model and key dropped; a
    /// preset for the user's own endpoint asks for a model name, any other
    /// shows its models. Gives the provider family the preset's protocol
    /// belongs to, the panel to show and the status line.
    pub fn preset_selected(&mut self, preset: &ProviderPreset) -> (r: (ProviderFamily, PanelChange, String))
        ensures
            r.0 == family_of(preset.wire_api),
            final(self)@ == (OnboardingView {
                preset_id: Some(preset.id@),
                selected_base_url: opt_view(preset.default_base_url),
                custom_model_pending: preset.is_custom,
                selected_model_is_custom: preset.is_custom,
                prompt: if preset.is_custom {
                    Some("model name"@ + " — "@ + preset.slug_hint@)
                } else {
                    None
                },
                ..cleared(old(self)@.active, old(self)@.preset_id)
            }),
            r.1 == if preset.is_custom {
                PanelChange::Keep
            } else {
                PanelChange::PresetModels
            },
            r.2@ == if preset.is_custom {
                "Selected "@ + preset.display_name@
            } else {
                "Selected "@ + preset.display_name@ + " — choose a model"@
            },
    {
        self.clear();
        self.preset_id = Some(preset.id.clone());
        self.selected_base_url = match &preset.default_base_url {
            Some(u) => Some(u.clone()),
            None => None,
        };
        let family = provider_family_of(preset.wire_api);
        if preset.is_custom {
            self.custom_model_pending = true;
            self.selected_model_is_custom = true;
            self.prompt = Some(text3("model name", " — ", preset.slug_hint.as_str()));
            (family, PanelChange::Keep, text2("Selected ", preset.display_name.as_str()))
        } else {
            (family, PanelChange::PresetModels, text3("Selected ", preset.display_name.as_str(), " — choose a model"))
        }
    }

    /// Asks for a model slug of the chosen preset, typed by hand, its hint
    /// shown.
    pub fn begin_preset_custom_model(&mut self, slug_hint: Option<&str>) -> (r: PanelChange)
        ensures
            final(self)@ == (OnboardingView {
                custom_model_pending: true,
                selected_model: None,
                selected_model_is_custom: true,
                prompt: Some(
                    "model slug"@ + " — "@ + match slug_hint {
                        Some(h) => h@,
                        None => "model slug"@,
                    },
                ),
                ..old(self)@
            }),
            r == PanelChange::Close,
    {
        self.custom_model_pending = true;
        self.selected_model = None;
        self.selected_model_is_custom = true;
        let hint = match slug_hint {
            Some(h) => h,
            None => "model slug",
        };
        self.prompt = Some(text3("model slug", " — ", hint));
        PanelChange::Close
    }
}

/// What follows once a preset's model is known.
#[derive(Clone, Debug)]
pub enum Proceed {
    /// Test the connection now; where a saved key is reused, the status line
    /// that says so.
    Validate(Option<String>),
    /// The key is asked for first; the status line.
    AskKey(String),
}

/// What proceeding with a preset's model answers, `key` being the key given
/// before: the connection test, with a status line where a saved key is
/// reused, or the question for the key, with its status line.
pub open spec fn proceed_outcome(
    key: Option<Seq<char>>,
    preset: Option<&ProviderPreset>,
    saved: Seq<SavedModelEntry>,
    r: Proceed,
) -> bool {
    match r {
        Proceed::Validate(status) => proceeds_to_validation(key_after_model(key, preset, saved), preset) && match status {
            Some(m) => key_after_model(key, preset, saved) is Some && m@ == "Reusing saved API key for "@ + preset_label(
                preset,
            ),
            None => key_after_model(key, preset, saved) is None,
        },
        Proceed::AskKey(status) => !proceeds_to_validation(key_after_model(key, preset, saved), preset) && status@
            == "Enter your "@ + preset_label(preset) + " API key"@,
    }
}

/// What follows once a preset's model is known: a key given or saved for
/// the provider, or a provider that needs none, leads to the connection
/// test; otherwise the key is asked for.
pub open spec fn proceeds_to_validation(key: Option<Seq<char>>, preset: Option<&ProviderPreset>) -> bool {
    key is Some || !(match preset {
        Some(p) => p.api_key_env_vars.len() > 0,
        None => true,
    })
}

/// The label of the provider in messages.
pub open spec fn preset_label(preset: Option<&ProviderPreset>) -> Seq<char> {
    match preset {
        Some(p) => p.display_name@,
        None => "provider"@,
    }
}

/// The key after a preset's model is known: the one given, else the saved
/// one of the preset's provider.
pub open spec fn key_after_model(
    key: Option<Seq<char>>,
    preset: Option<&ProviderPreset>,
    saved: Seq<SavedModelEntry>,
) -> Option<Seq<char>> {
    match key {
        Some(k) => Some(k),
        None => match preset {
            Some(p) => reusable_key(saved, *p),
            None => None,
        },
    }
}

/// The question asked for a key: with the environment variable it is also
/// read from, where the preset names one.
pub open spec fn key_question(preset: Option<&ProviderPreset>) -> Seq<char> {
    match preset {
        Some(p) => if p.api_key_env_vars.len() > 0 {
            p.display_name@ + " API key (also read from $"@ + p.api_key_env_vars@[0]@ + ")"@
        } else {
            p.display_name@ + " API key"@
        },
        None => "provider API key"@,
    }
}

/// Onboarding after a preset's model is known: the model recorded, the
/// key given or reused, and the key asked for only where it is needed and
/// missing.
pub open spec fn proceeded(
    s: OnboardingView,
    model: Seq<char>,
    preset: Option<&ProviderPreset>,
    saved: Seq<SavedModelEntry>,
) -> OnboardingView {
    let key = key_after_model(s.selected_api_key, preset, saved);
    let go = proceeds_to_validation(key, preset);
    OnboardingView {
        selected_model: Some(model),
        custom_model_pending: false,
        selected_api_key: key,
        api_key_pending: !go,
        prompt: if go {
            None
        } else {
            Some(key_question(preset))
        },
        ..s
    }
}

impl OnboardingState {
    /// The model of the chosen preset is known: it is recorded, a saved key
    /// of the provider is reused where none was given, and either the
    /// connection is tested or the key asked for.
    pub fn proceed_with_preset_model(
        &mut self,
        model: String,
        preset: Option<&ProviderPreset>,
        saved: &[SavedModelEntry],
    ) -> (r: Proceed)
        ensures
            final(self)@ == proceeded(old(self)@, model@, preset, saved@),
            proceed_outcome(old(self)@.selected_api_key, preset, saved@, r),
    {
        self.selected_model = Some(model);
        self.custom_model_pending = false;
        if self.selected_api_key.is_none() {
            match preset {
                Some(p) => {
                    self.selected_api_key = existing_api_key_for_preset(saved, p);
                },
                None => {},
            }
        }
        let needs_key = match preset {
            Some(p) => p.api_key_env_vars.len() > 0,
            None => true,
        };
        let label: &str = match preset {
            Some(p) => p.display_name.as_str(),
            None => "provider",
        };
        if self.selected_api_key.is_some() || !needs_key {
            self.api_key_pending = false;
            self.prompt = None;
            if self.selected_api_key.is_some() {
                return Proceed::Validate(Some(text2("Reusing saved API key for ", label)));
            }
            return Proceed::Validate(None);
        }
        self.api_key_pending = true;
        let question = match preset {
            Some(p) => if p.api_key_env_vars.len() > 0 {
                let mut v = chars_of(p.display_name.as_str());
                push_str(&mut v, " API key (also read from $");
                push_str(&mut v, p.api_key_env_vars[0].as_str());
                push_str(&mut v, ")");
                string_of(v.as_slice())
            } else {
                text2(p.display_name.as_str(), " API key")
            },
            None => "provider API key".to_owned(),
        };
        self.prompt = Some(question);
        Proceed::AskKey(text3("Enter your ", label, " API key"))
    }
}

/// Where Escape leads.
#[derive(Clone, Copy, Debug, PartialEq, Eq, Structural)]
pub enum EscapeOutcome {
    /// Escape does nothing here.
    NotHandled,
    /// A previous question is asked again.
    Asked,
    /// Back to a model list or the presets.
    Show(PanelChange),
    /// Onboarding is left.
    Exited,
}

/// Where Escape leads during onboarding: each question steps back to the
/// one before it (the key to the base URL or the preset's models, the base
/// URL to the model name or the model picker, the model name to a model
/// list); from a preset's model list back to the presets; from the bare
/// model list out of onboarding.
pub open spec fn escaped(
    s: OnboardingView,
    preset_needs_model_list: bool,
    model_picker_open: bool,
) -> (OnboardingView, EscapeOutcome) {
    if s.api_key_pending {
        if preset_needs_model_list {
            (OnboardingView { api_key_pending: false, prompt: None, ..s }, EscapeOutcome::Show(PanelChange::PresetModels))
        } else {
            (
                OnboardingView { api_key_pending: false, base_url_pending: true, prompt: Some("base url"@), ..s },
                EscapeOutcome::Asked,
            )
        }
    } else if s.base_url_pending {
        if s.selected_model_is_custom {
            (
                OnboardingView {
                    base_url_pending: false,
                    selected_base_url: None,
                    custom_model_pending: true,
                    prompt: Some("model name"@),
                    ..s
                },
                EscapeOutcome::Asked,
            )
        } else {
            (
                OnboardingView { base_url_pending: false, selected_base_url: None, prompt: None, ..s },
                EscapeOutcome::Show(PanelChange::OnboardingModels),
            )
        }
    } else if s.custom_model_pending {
        (
            OnboardingView {
                custom_model_pending: false,
                selected_model: None,
                selected_model_is_custom: false,
                prompt: None,
                ..s
            },
            EscapeOutcome::Show(
                if preset_needs_model_list {
                    PanelChange::PresetModels
                } else {
                    PanelChange::OnboardingModels
                },
            ),
        )
    } else if model_picker_open {
        if s.preset_id is Some {
            (
                OnboardingView { preset_id: None, selected_base_url: None, selected_api_key: None, ..s },
                EscapeOutcome::Show(PanelChange::PresetList),
            )
        } else {
            (cleared(false, s.preset_id), EscapeOutcome::Exited)
        }
    } else {
        (s, EscapeOutcome::NotHandled)
    }
}

impl OnboardingState {
    /// Escape during onboarding; `preset_needs_model_list` is whether the
    /// chosen preset lists its models, `model_picker_open` whether the
    /// onboarding model picker is shown.
    pub fn handle_escape(&mut self, preset_needs_model_list: bool, model_picker_open: bool) -> (r: EscapeOutcome)
        ensures
            (final(self)@, r) == escaped(old(self)@, preset_needs_model_list, model_picker_open),
    {
        if self.api_key_pending {
            self.api_key_pending = false;
            if preset_needs_model_list {
                self.prompt = None;
                return EscapeOutcome::Show(PanelChange::PresetModels);
            }
            self.base_url_pending = true;
            self.prompt = some_text("base url");
            return EscapeOutcome::Asked;
        }
        if self.base_url_pending {
            self.base_url_pending = false;
            self.selected_base_url = None;
            if self.selected_model_is_custom {
                self.custom_model_pending = true;
                self.prompt = some_text("model name");
                return EscapeOutcome::Asked;
            }
            self.prompt = None;
            return EscapeOutcome::Show(PanelChange::OnboardingModels);
        }
        if self.custom_model_pending {
            self.custom_model_pending = false;
            self.selected_model = None;
            self.selected_model_is_custom = false;
            self.prompt = None;
            return EscapeOutcome::Show(
                if preset_needs_model_list {
                    PanelChange::PresetModels
                } else {
                    PanelChange::OnboardingModels
                },
            );
        }
        if model_picker_open {
            if self.preset_id.is_some() {
                self.preset_id = None;
                self.selected_base_url = None;
                self.selected_api_key = None;
                return EscapeOutcome::Show(PanelChange::PresetList);
            }
            self.exit_onboarding();
            return EscapeOutcome::Exited;
        }
        EscapeOutcome::NotHandled
    }
}

// ---------------------------------------------------------------- validation

/// Onboarding after a failed connection test, back to entering input: the
/// model and base URL stay; a provider that needs a key is asked for a new
/// one, any other for a new model slug.
pub open spec fn changed_inputs(s: OnboardingView, preset: Option<&ProviderPreset>) -> OnboardingView {
    let needs_key = match preset {
        Some(p) => p.api_key_env_vars.len() > 0,
        None => true,
    };
    if needs_key {
        OnboardingView { selected_api_key: None, api_key_pending: true, prompt: Some(key_question(preset)), ..s }
    } else {
        OnboardingView {
            custom_model_pending: true,
            selected_model: None,
            prompt: Some(
                "model slug for "@ + preset_label(preset) + " — "@ + match preset {
                    Some(p) => p.slug_hint@,
                    None => "model slug"@,
                },
            ),
            ..s
        }
    }
}

impl OnboardingState {
    /// After a failed connection test, asks again for what most likely
    /// failed; gives the status line.
    pub fn change_validation_inputs(&mut self, preset: Option<&ProviderPreset>) -> (r: String)
        ensures
            final(self)@ == changed_inputs(old(self)@, preset),
            r@ == if (match preset {
                Some(p) => p.api_key_env_vars.len() > 0,
                None => true,
            }) {
                "Enter a different API key for "@ + preset_label(preset)
            } else {
                "Enter a different model slug for "@ + preset_label(preset)
            },
    {
        let needs_key = match preset {
            Some(p) => p.api_key_env_vars.len() > 0,
            None => true,
        };
        let label: &str = match preset {
            Some(p) => p.display_name.as_str(),
            None => "provider",
        };
        if needs_key {
            self.selected_api_key = None;
            self.api_key_pending = true;
            let question = match preset {
                Some(p) => if p.api_key_env_vars.len() > 0 {
                    let mut v = chars_of(p.display_name.as_str());
                    push_str(&mut v, " API key (also read from $");
                    push_str(&mut v, p.api_key_env_vars[0].as_str());
                    push_str(&mut v, ")");
                    string_of(v.as_slice())
                } else {
                    text2(p.display_name.as_str(), " API key")
                },
                None => "provider API key".to_owned(),
            };
            self.prompt = Some(question);
            text2("Enter a different API key for ", label)
        } else {
            let hint: &str = match preset {
                Some(p) => p.slug_hint.as_str(),
                None => "model slug",
            };
            self.custom_model_pending = true;
            self.selected_model = None;
            let mut v = chars_of("model slug for ");
            push_str(&mut v, label);
            push_str(&mut v, " — ");
            push_str(&mut v, hint);
            self.prompt = Some(string_of(v.as_slice()));
            text2("Enter a different model slug for ", label)
        }
    }
}

/// Asking again after a failed test keeps the model and base URL for a
/// provider that needs a key, and the base URL always.
pub proof fn law_retry_keeps_choices(s: OnboardingView, preset: Option<&ProviderPreset>)
    ensures
        changed_inputs(s, preset).selected_base_url == s.selected_base_url,
        (match preset {
            Some(p) => p.api_key_env_vars.len() > 0,
            None => true,
        }) ==> changed_inputs(s, preset).selected_model == s.selected_model,
{
}

// ---------------------------------------------------------------- finishing

impl OnboardingState {
    /// Takes the model, base URL and key chosen, to be saved; nothing where
    /// no model was chosen.
    pub fn take_selection(&mut self) -> (r: Option<(String, Option<String>, Option<String>)>)
        ensures
            match r {
                Some((m, u, k)) => old(self)@.selected_model == Some(m@) && old(self)@.selected_base_url == opt_view(u)
                    && old(self)@.selected_api_key == opt_view(k) && final(self)@ == (OnboardingView {
                    selected_model: None,
                    selected_base_url: None,
                    selected_api_key: None,
                    ..old(self)@
                }),
                None => old(self)@.selected_model is None && final(self)@ == old(self)@,
            },
    {
        let model = match self.selected_model.take() {
            Some(m) => m,
            None => return None,
        };
        let base_url = self.selected_base_url.take();
        let api_key = self.selected_api_key.take();
        Some((model, base_url, api_key))
    }

    /// Ends onboarding once its choice is saved: no question pending, no
    /// preset, no prompt. Onboarding shown for the first time is then
    /// closed; says whether to announce that the configuration was saved.
    pub fn finish_selection(&mut self, announced: bool) -> (r: bool)
        ensures
            r == (old(self)@.active && !announced),
            final(self)@ == (OnboardingView {
                active: old(self)@.active && announced,
                custom_model_pending: false,
                selected_model_is_custom: false,
                preset_id: None,
                prompt: None,
                base_url_pending: false,
                api_key_pending: false,
                ..old(self)@
            }),
    {
        self.custom_model_pending = false;
        self.selected_model_is_custom = false;
        self.preset_id = None;
        self.prompt = None;
        self.base_url_pending = false;
        self.api_key_pending = false;
        if self.active && !announced {
            self.active = false;
            return true;
        }
        false
    }
}

// ---------------------------------------------------------------- answers

/// What an answer to an onboarding question leads to.
#[derive(Clone, Debug)]
pub enum Answered {
    /// The line was no answer to an onboarding question.
    NotOnboarding,
    /// The question is asked again.
    AskedAgain,
    /// The base URL given was refused; it is asked again, with this status
    /// line.
    BaseUrlRejected(String),
    /// The next question is asked; the status line, where one is shown.
    NextQuestion(Option<String>),
    /// A preset's model is known; what follows.
    Proceeded(Proceed),
    /// Test the connection now.
    Validate,
}

/// The kind of what an answer leads to.
pub enum AnswerKind {
    NotOnboarding,
    AskedAgain,
    BaseUrlRejected,
    NextQuestion,
    Proceeded,
    Validate,
}

/// The kind of an answer's outcome.
pub open spec fn answer_kind(a: Answered) -> AnswerKind {
    match a {
        Answered::NotOnboarding => AnswerKind::NotOnboarding,
        Answered::AskedAgain => AnswerKind::AskedAgain,
        Answered::BaseUrlRejected(_) => AnswerKind::BaseUrlRejected,
        Answered::NextQuestion(_) => AnswerKind::NextQuestion,
        Answered::Proceeded(_) => AnswerKind::Proceeded,
        Answered::Validate => AnswerKind::Validate,
    }
}

/// Onboarding after an answer, and what the answer leads to: a model name
/// goes on to the preset's key (for a listed preset) or to the base URL; a
/// base URL to the key; a key to the connection test, or to the model slug
/// where a preset still needs one.
pub open spec fn answered(
    s: OnboardingView,
    sub: SubmissionChoice,
    is_custom_preset: bool,
    preset: Option<&ProviderPreset>,
    saved: Seq<SavedModelEntry>,
) -> (OnboardingView, AnswerKind) {
    match sub {
        SubmissionChoice::ModelMissing => (OnboardingView { prompt: Some("model name"@), ..s }, AnswerKind::AskedAgain),
        SubmissionChoice::ModelChosen(m) => {
            let chosen = OnboardingView {
                custom_model_pending: false,
                selected_model: Some(m),
                selected_model_is_custom: true,
                ..s
            };
            if s.preset_id is Some && !is_custom_preset {
                (proceeded(chosen, m, preset, saved), AnswerKind::Proceeded)
            } else {
                (OnboardingView { base_url_pending: true, prompt: Some("base url"@), ..chosen }, AnswerKind::NextQuestion)
            }
        },
        SubmissionChoice::BaseUrlRejected => (OnboardingView { prompt: Some("base url"@), ..s }, AnswerKind::BaseUrlRejected),
        SubmissionChoice::BaseUrlChosen(u) => (
            OnboardingView {
                base_url_pending: false,
                api_key_pending: true,
                selected_base_url: u,
                prompt: Some("api key"@),
                ..s
            },
            AnswerKind::NextQuestion,
        ),
        SubmissionChoice::ApiKeyChosen(k) => {
            let keyed = OnboardingView {
                api_key_pending: false,
                selected_api_key: match k {
                    Some(v) => Some(v),
                    None => s.selected_api_key,
                },
                ..s
            };
            if s.selected_model is Some {
                (keyed, AnswerKind::Validate)
            } else {
                match preset {
                    Some(p) => (
                        OnboardingView {
                            custom_model_pending: true,
                            prompt: Some("model slug for "@ + p.display_name@ + " — "@ + p.slug_hint@),
                            ..keyed
                        },
                        AnswerKind::NextQuestion,
                    ),
                    None => (keyed, AnswerKind::Validate),
                }
            }
        },
        _ => (s, AnswerKind::NotOnboarding),
    }
}

/// The status line shown with the next question: after a base URL, that it
/// was saved for the model chosen; after a key, where a preset's model slug
/// is asked next, that the key was saved.
pub open spec fn next_question_status(s: OnboardingView, sub: SubmissionChoice, preset: Option<&ProviderPreset>) -> Option<
    Seq<char>,
> {
    match sub {
        SubmissionChoice::BaseUrlChosen(_) => match s.selected_model {
            Some(m) => Some("Base URL saved for "@ + m),
            None => None,
        },
        SubmissionChoice::ApiKeyChosen(_) => match preset {
            Some(p) => Some("API key saved for "@ + p.display_name@),
            None => None,
        },
        _ => None,
    }
}

/// What an answer carries besides its kind: the status line of the next
/// question, what proceeding with a preset's model gave, and the status
/// line of a refused base URL.
pub open spec fn answer_payload(
    s: OnboardingView,
    sub: SubmissionChoice,
    preset: Option<&ProviderPreset>,
    saved: Seq<SavedModelEntry>,
    r: Answered,
) -> bool {
    match r {
        Answered::NextQuestion(status) => opt_view(status) == next_question_status(s, sub, preset),
        Answered::Proceeded(p) => proceed_outcome(s.selected_api_key, preset, saved, p),
        Answered::BaseUrlRejected(status) => status@ == "Base URL must start with http:// or https://"@,
        _ => true,
    }
}

impl OnboardingState {
    /// Takes an answer to the pending onboarding question; `is_custom_preset`
    /// is whether the chosen preset is the user's own endpoint.
    pub fn apply_submission(
        &mut self,
        submission: Submission,
        is_custom_preset: bool,
        preset: Option<&ProviderPreset>,
        saved: &[SavedModelEntry],
    ) -> (r: Answered)
        ensures
            (final(self)@, answer_kind(r)) == answered(old(self)@, submission_view(submission), is_custom_preset, preset, saved@),
            answer_payload(old(self)@, submission_view(submission), preset, saved@, r),
    {
        match submission {
            Submission::ModelMissing => {
                self.prompt = some_text("model name");
                Answered::AskedAgain
            },
            Submission::ModelChosen(m) => {
                self.custom_model_pending = false;
                self.selected_model = Some(m.clone());
                self.selected_model_is_custom = true;
                if self.preset_id.is_some() && !is_custom_preset {
                    return Answered::Proceeded(self.proceed_with_preset_model(m, preset, saved));
                }
                self.base_url_pending = true;
                self.prompt = some_text("base url");
                Answered::NextQuestion(None)
            },
            Submission::BaseUrlRejected => {
                self.prompt = some_text("base url");
                Answered::BaseUrlRejected("Base URL must start with http:// or https://".to_owned())
            },
            Submission::BaseUrlChosen(u) => {
                self.base_url_pending = false;
                self.api_key_pending = true;
                self.selected_base_url = u;
                self.prompt = some_text("api key");
                let status = match &self.selected_model {
                    Some(m) => Some(text2("Base URL saved for ", m.as_str())),
                    None => None,
                };
                Answered::NextQuestion(status)
            },
            Submission::ApiKeyChosen(k) => {
                self.api_key_pending = false;
                match k {
                    Some(v) => {
                        self.selected_api_key = Some(v);
                    },
                    None => {},
                }
                if self.selected_model.is_some() {
                    return Answered::Validate;
                }
                match preset {
                    Some(p) => {
                        self.custom_model_pending = true;
                        let mut v = chars_of("model slug for ");
                        push_str(&mut v, p.display_name.as_str());
                        push_str(&mut v, " — ");
                        push_str(&mut v, p.slug_hint.as_str());
                        self.prompt = Some(string_of(v.as_slice()));
                        Answered::NextQuestion(Some(text2("API key saved for ", p.display_name.as_str())))
                    },
                    None => Answered::Validate,
                }
            },
            _ => Answered::NotOnboarding,
        }
    }
}

// ---------------------------------------------------------------- laws

/// Onboarding never asks two questions at once: starting, leaving,
/// stepping back with Escape and answering each keep at most one question
/// pending.
pub proof fn law_one_question_at_a_time(
    s: OnboardingView,
    line: Seq<char>,
    is_custom_preset: bool,
    preset: Option<&ProviderPreset>,
    saved: Seq<SavedModelEntry>,
    preset_needs_model_list: bool,
    model_picker_open: bool,
)
    requires
        one_question(s),
    ensures
        one_question(cleared(true, None)),
        one_question(cleared(false, s.preset_id)),
        one_question(escaped(s, preset_needs_model_list, model_picker_open).0),
        one_question(
            answered(
                s,
                crate::tui::onboarding::submission_choice(s.custom_model_pending, s.base_url_pending, s.api_key_pending, line),
                is_custom_preset,
                preset,
                saved,
            ).0,
        ),
{
}

/// Leaving onboarding drops every question and choice, and Escape from the
/// bare model picker leaves it.
pub proof fn law_escape_from_bare_picker_exits(s: OnboardingView)
    requires
        !s.api_key_pending,
        !s.base_url_pending,
        !s.custom_model_pending,
        s.preset_id is None,
    ensures
        escaped(s, false, true) == (cleared(false, None), EscapeOutcome::Exited),
        escaped(s, true, true) == (cleared(false, None), EscapeOutcome::Exited),
{
}

} // verus!
