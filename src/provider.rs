//! The text-generation backend: its settings, the credential check, the
//! decision between a dry-run preview and a live request, and the reading of
//! the backend's answer.

use vstd::prelude::*;
use vstd::string::*;

use crate::config::{masking_config_text, opt_view, Config, ConfigView, DEFAULT_OPENAI_MODEL, PROVIDER_OPENAI};
use crate::json::{array_items, json_array, json_document, json_member, json_text, member, parse_json, text_value};
use crate::prompt::{build_system_prompt, system_prompt};
use crate::text::{decimal, decimal_string, same_text};

verus! {

/// Endpoint of the OpenAI chat-completion API.
pub const OPENAI_ENDPOINT: &'static str = "https://api.openai.com/v1/chat/completions";

/// Display name of a backend whose settings name no provider.
pub const DEFAULT_PROVIDER_NAME: &'static str = "OpenAI";

/// Result of a dry run, in place of a generated message.
pub const DRY_RUN_COMPLETE: &'static str = "Dry run complete.";

pub const MISSING_KEY_MESSAGE: &'static str = "API key not found in config";

pub const INVALID_FORMAT_MESSAGE: &'static str = "Invalid response format from OpenAI API";

pub const STATUS_FAILED_LEAD: &'static str = "API request failed with status: ";

pub const API_ERROR_LEAD: &'static str = "API Error: ";

pub const CONFIG_ERROR_LEAD: &'static str = "Configuration Error: ";

pub const NETWORK_ERROR_LEAD: &'static str = "Network Error: ";

pub const DRY_RUN_HEADER: &'static str = "--- Dry Run ---\n";

pub const PROMPT_HEADER: &'static str = "\n--- Prompt ---\n";

pub const DIFF_HEADER: &'static str = "\n\n--- Git Diff ---\n";

pub const DRY_RUN_FOOTER: &'static str = "\n--- End Dry Run ---\n";

pub const CHOICES_KEY: &'static str = "choices";

pub const MESSAGE_KEY: &'static str = "message";

pub const CONTENT_KEY: &'static str = "content";

/// Model and endpoint of a backend.
#[derive(Debug, Clone)]
pub struct LlmConfig {
    pub model: String,
    pub endpoint: String,
}

/// Why a generation failed.
#[derive(Debug)]
pub enum LlmError {
    /// The backend refused the request or answered in an unexpected shape.
    ApiError(String),
    /// The settings do not allow a request.
    ConfigError(String),
    /// The transport failed; holds the transport's description.
    NetworkError(String),
}

impl LlmError {
    /// The error as a line of text for the user.
    pub fn message(&self) -> (r: String)
        ensures
            r@ == match self {
                LlmError::ApiError(m) => API_ERROR_LEAD@ + m@,
                LlmError::ConfigError(m) => CONFIG_ERROR_LEAD@ + m@,
                LlmError::NetworkError(m) => NETWORK_ERROR_LEAD@ + m@,
            },
    {
        let (lead, m) = match self {
            LlmError::ApiError(m) => (API_ERROR_LEAD, m),
            LlmError::ConfigError(m) => (CONFIG_ERROR_LEAD, m),
            LlmError::NetworkError(m) => (NETWORK_ERROR_LEAD, m),
        };
        let mut out = String::from_str(lead);
        out.append(m.as_str());
        out
    }
}

/// What a generation call does next.
#[derive(Debug)]
pub enum Generation {
    /// A dry run: print this preview; the call's result is `DRY_RUN_COMPLETE`.
    DryRun(String),
    /// A live request with this system prompt and the diff.
    Request(String),
}

/// The dry-run preview: masked settings, the system prompt, and the diff, in
/// delimited sections.
pub open spec fn dry_run_preview(
    settings: Seq<char>,
    prompt: Seq<char>,
    diff: Seq<char>,
) -> Seq<char> {
    DRY_RUN_HEADER@ + settings + PROMPT_HEADER@ + prompt + DIFF_HEADER@ + diff + DRY_RUN_FOOTER@
}

/// Whether settings hold a usable credential: present and not empty.
pub open spec fn has_credential(c: ConfigView) -> bool {
    c.api_key is Some && c.api_key->0.len() > 0
}

/// The candidate count that settings ask for; one when unset.
pub open spec fn candidate_count_of(c: ConfigView) -> u32 {
    match c.candidate_count {
        Some(n) => n,
        None => 1,
    }
}

/// A 2xx status.
pub open spec fn is_success_status(status: u16) -> bool {
    200 <= status && status <= 299
}

/// The text of `choices[0].message.content` in the response body `body`.
pub open spec fn first_choice_content(body: Seq<char>) -> Option<Seq<char>> {
    match json_document(body) {
        None => None,
        Some(doc) => match json_member(doc, CHOICES_KEY@) {
            None => None,
            Some(choices) => match json_array(choices) {
                None => None,
                Some(items) => if items.len() == 0 {
                    None
                } else {
                    match json_member(items[0], MESSAGE_KEY@) {
                        None => None,
                        Some(message) => match json_member(message, CONTENT_KEY@) {
                            None => None,
                            Some(content) => json_text(content),
                        },
                    }
                },
            },
        },
    }
}

/// The outcome of an answer with HTTP status `status` whose message content is
/// `content`: the content, or an API error naming the status or the shape.
pub open spec fn response_outcome(
    status: u16,
    content: Option<Seq<char>>,
    r: Result<String, LlmError>,
) -> bool {
    if !is_success_status(status) {
        &&& r is Err
        &&& r->Err_0 is ApiError
        &&& r->Err_0->ApiError_0@ == STATUS_FAILED_LEAD@ + decimal(status as nat)
    } else {
        match content {
            Some(c) => r is Ok && r->Ok_0@ == c,
            None => {
                &&& r is Err
                &&& r->Err_0 is ApiError
                &&& r->Err_0->ApiError_0@ == INVALID_FORMAT_MESSAGE@
            },
        }
    }
}

/// Decides the result of an answer from its status and the message content
/// found in its body.
pub fn interpret_response(status: u16, content: Option<String>) -> (r: Result<String, LlmError>)
    ensures
        response_outcome(status, opt_view(content), r),
{
    if !(200 <= status && status <= 299) {
        let mut m = String::from_str(STATUS_FAILED_LEAD);
        let code = decimal_string(status as u64);
        m.append(code.as_str());
        return Err(LlmError::ApiError(m));
    }
    match content {
        Some(c) => Ok(c),
        None => Err(LlmError::ApiError(String::from_str(INVALID_FORMAT_MESSAGE))),
    }
}

/// Finds `choices[0].message.content` in a chat-completion response body.
pub fn first_choice_text(body: &str) -> (r: Option<String>)
    ensures
        opt_view(r) == first_choice_content(body@),
{
    let doc = match parse_json(body) {
        Some(d) => d,
        None => return None,
    };
    let choices = match member(&doc, CHOICES_KEY) {
        Some(c) => c,
        None => return None,
    };
    let items = match array_items(&choices) {
        Some(i) => i,
        None => return None,
    };
    if items.len() == 0 {
        return None;
    }
    let message = match member(&items[0], MESSAGE_KEY) {
        Some(m) => m,
        None => return None,
    };
    let content = match member(&message, CONTENT_KEY) {
        Some(c) => c,
        None => return None,
    };
    text_value(&content)
}

/// Reads a backend answer: a non-2xx status is an API error naming it; a body
/// without a string at `choices[0].message.content` is an API error about the
/// shape; otherwise that string is the result.
pub fn handle_response(status: u16, body: &str) -> (r: Result<String, LlmError>)
    ensures
        is_success_status(status) ==> response_outcome(status, first_choice_content(body@), r),
        !is_success_status(status) ==> response_outcome(status, None, r),
{
    if !(200 <= status && status <= 299) {
        return interpret_response(status, None);
    }
    let content = first_choice_text(body);
    interpret_response(status, content)
}

/// The OpenAI chat-completion backend.
pub struct OpenAiProvider {
    config: LlmConfig,
    app_config: Config,
}

/// What an `OpenAiProvider` holds.
pub struct ProviderView {
    pub model: Seq<char>,
    pub endpoint: Seq<char>,
    pub settings: ConfigView,
}

impl View for OpenAiProvider {
    type V = ProviderView;

    closed spec fn view(&self) -> ProviderView {
        ProviderView {
            model: self.config.model@,
            endpoint: self.config.endpoint@,
            settings: self.app_config@,
        }
    }
}

impl OpenAiProvider {
    /// A backend with the default model.
    pub fn new(app_config: Config) -> (r: Self)
        ensures
            r@.model == DEFAULT_OPENAI_MODEL@,
            r@.endpoint == OPENAI_ENDPOINT@,
            r@.settings == app_config@,
    {
        OpenAiProvider {
            config: LlmConfig {
                model: String::from_str(DEFAULT_OPENAI_MODEL),
                endpoint: String::from_str(OPENAI_ENDPOINT),
            },
            app_config,
        }
    }

    /// A backend with the model `model`.
    pub fn with_model(app_config: Config, model: &str) -> (r: Self)
        ensures
            r@.model == model@,
            r@.endpoint == OPENAI_ENDPOINT@,
            r@.settings == app_config@,
    {
        OpenAiProvider {
            config: LlmConfig {
                model: String::from_str(model),
                endpoint: String::from_str(OPENAI_ENDPOINT),
            },
            app_config,
        }
    }

    /// Model and endpoint.
    pub fn get_config(&self) -> (r: &LlmConfig)
        ensures
            r.model@ == self@.model,
            r.endpoint@ == self@.endpoint,
    {
        &self.config
    }

    /// The configured provider identifier, or `"OpenAI"` when none is set.
    pub fn get_provider_name(&self) -> (r: String)
        ensures
            r@ == match self@.settings.llm_provider {
                Some(p) => p,
                None => DEFAULT_PROVIDER_NAME@,
            },
    {
        match &self.app_config.llm_provider {
            Some(p) => p.clone(),
            None => String::from_str(DEFAULT_PROVIDER_NAME),
        }
    }

    /// The settings this backend was made with.
    pub fn get_app_config(&self) -> (r: &Config)
        ensures
            r@ == self@.settings,
    {
        &self.app_config
    }

    /// The credential; a configuration error when it is absent or empty.
    pub fn get_api_key(&self) -> (r: Result<String, LlmError>)
        ensures
            has_credential(self@.settings) ==> r is Ok && r->Ok_0@ == self@.settings.api_key->0,
            !has_credential(self@.settings) ==> r is Err && r->Err_0 is ConfigError
                && r->Err_0->ConfigError_0@ == MISSING_KEY_MESSAGE@,
    {
        match &self.app_config.api_key {
            Some(k) => {
                if !k.as_str().is_empty() {
                    return Ok(k.clone());
                }
            },
            None => {},
        }
        Err(LlmError::ConfigError(String::from_str(MISSING_KEY_MESSAGE)))
    }

    /// The number of candidates to ask for; one when unset.
    pub fn get_candidate_count(&self) -> (r: u32)
        ensures
            r == candidate_count_of(self@.settings),
    {
        match self.app_config.candidate_count {
            Some(n) => n,
            None => 1,
        }
    }

    /// Decides what a generation call does with the resolved `conventions`
    /// and the staged `diff`.
    ///
    /// The credential is checked first, also for a dry run. Then the system
    /// prompt is built; a dry run gives the preview to print, otherwise the
    /// prompt for the live request.
    pub fn prepare_generation(&self, conventions: &str, diff: &str, dry_run: bool) -> (r: Result<
        Generation,
        LlmError,
    >)
        ensures
            !has_credential(self@.settings) ==> r is Err && r->Err_0 is ConfigError
                && r->Err_0->ConfigError_0@ == MISSING_KEY_MESSAGE@,
            has_credential(self@.settings) ==> r is Ok,
            has_credential(self@.settings) && dry_run ==> r->Ok_0 is DryRun
                && r->Ok_0->DryRun_0@ == dry_run_preview(
                masking_config_text(self@.settings),
                system_prompt(conventions@, candidate_count_of(self@.settings)),
                diff@,
            ),
            has_credential(self@.settings) && !dry_run ==> r->Ok_0 is Request
                && r->Ok_0->Request_0@ == system_prompt(
                conventions@,
                candidate_count_of(self@.settings),
            ),
    {
        match self.get_api_key() {
            Ok(_) => {},
            Err(e) => return Err(e),
        }
        let count = self.get_candidate_count();
        let prompt = build_system_prompt(conventions, count);
        if dry_run {
            let mut out = String::from_str(DRY_RUN_HEADER);
            let settings = self.app_config.show_masking_config();
            out.append(settings.as_str());
            out.append(PROMPT_HEADER);
            out.append(prompt.as_str());
            out.append(DIFF_HEADER);
            out.append(diff);
            out.append(DRY_RUN_FOOTER);
            Ok(Generation::DryRun(out))
        } else {
            Ok(Generation::Request(prompt))
        }
    }
}

/// The model a backend is made with: the configured model when the settings
/// select OpenAI (or no provider), the default model for any other provider.
pub open spec fn selected_model(c: ConfigView) -> Seq<char> {
    let provider = match c.llm_provider {
        Some(p) => p,
        None => PROVIDER_OPENAI@,
    };
    if provider == PROVIDER_OPENAI@ {
        match c.llm_model {
            Some(m) => m,
            None => DEFAULT_OPENAI_MODEL@,
        }
    } else {
        DEFAULT_OPENAI_MODEL@
    }
}

/// Makes backends from settings.
pub struct ProviderFactory;

impl ProviderFactory {
    /// The backend that the settings select. An absent or unknown provider
    /// falls back to OpenAI with its default model.
    pub fn create_provider(config: Config) -> (r: OpenAiProvider)
        ensures
            r@.model == selected_model(config@),
            r@.endpoint == OPENAI_ENDPOINT@,
            r@.settings == config@,
    {
        let is_openai = match &config.llm_provider {
            Some(p) => same_text(p.as_str(), PROVIDER_OPENAI),
            None => true,
        };
        if is_openai {
            let model = match &config.llm_model {
                Some(m) => m.clone(),
                None => String::from_str(DEFAULT_OPENAI_MODEL),
            };
            OpenAiProvider::with_model(config, model.as_str())
        } else {
            OpenAiProvider::new(config)
        }
    }

    /// An OpenAI backend with the default model.
    pub fn create_openai(config: Config) -> (r: OpenAiProvider)
        ensures
            r@.model == DEFAULT_OPENAI_MODEL@,
            r@.endpoint == OPENAI_ENDPOINT@,
            r@.settings == config@,
    {
        OpenAiProvider::new(config)
    }

    /// An OpenAI backend with the model `model`.
    pub fn create_openai_with_model(config: Config, model: &str) -> (r: OpenAiProvider)
        ensures
            r@.model == model@,
            r@.endpoint == OPENAI_ENDPOINT@,
            r@.settings == config@,
    {
        OpenAiProvider::with_model(config, model)
    }
}

} // verus!
