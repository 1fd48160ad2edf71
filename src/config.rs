//! The user's stored settings and the operations on them that involve no file:
//! setting and reading a key, masking the credential, and the settings display.

use vstd::prelude::*;
use vstd::string::*;

use crate::text::{chars_of, decimal, decimal_string, same_text, string_of_range, views};

verus! {

/// Name of the settings file in the user's home directory.
pub const CONFIG_FILE_NAME: &'static str = ".committo.toml";

/// Settings key of the credential.
pub const API_KEY_CONFIG: &'static str = "api-key";

/// Settings key of the backend identifier.
pub const LLM_PROVIDER_CONFIG: &'static str = "llm-provider";

/// Settings key of the model name.
pub const LLM_MODEL_CONFIG: &'static str = "llm-model";

/// Settings key of the number of candidates to ask for.
pub const CANDIDATE_COUNT_CONFIG: &'static str = "candidate-count";

/// Model used when none is configured.
pub const DEFAULT_OPENAI_MODEL: &'static str = "gpt-3.5-turbo";

/// The larger OpenAI model.
pub const GPT4_MODEL: &'static str = "gpt-4";

/// Identifier of the OpenAI backend.
pub const PROVIDER_OPENAI: &'static str = "openai";

/// The newer small OpenAI model offered at setup.
pub const GPT41_MINI_MODEL: &'static str = "gpt-4.1-mini-2025-04-14";

/// Candidate count proposed at setup.
pub const SETUP_CANDIDATE_COUNT: &'static str = "5";

/// The models that setup offers for `provider`.
pub open spec fn offered_models(provider: Seq<char>) -> Seq<Seq<char>> {
    if provider == PROVIDER_OPENAI@ {
        seq![DEFAULT_OPENAI_MODEL@, GPT4_MODEL@, GPT41_MINI_MODEL@]
    } else {
        seq![DEFAULT_OPENAI_MODEL@]
    }
}

/// The providers that setup offers.
pub fn setup_providers() -> (r: Vec<String>)
    ensures
        views(r@) == seq![PROVIDER_OPENAI@],
{
    let r = vec![String::from_str(PROVIDER_OPENAI)];
    assert(views(r@) =~= seq![PROVIDER_OPENAI@]);
    r
}

/// The models that setup offers for the chosen provider.
pub fn setup_models(provider: &str) -> (r: Vec<String>)
    ensures
        views(r@) == offered_models(provider@),
{
    let r = if same_text(provider, PROVIDER_OPENAI) {
        vec![
            String::from_str(DEFAULT_OPENAI_MODEL),
            String::from_str(GPT4_MODEL),
            String::from_str(GPT41_MINI_MODEL),
        ]
    } else {
        vec![String::from_str(DEFAULT_OPENAI_MODEL)]
    };
    assert(views(r@) =~= offered_models(provider@));
    r
}

/// Read access to settings, for whatever holds them.
pub trait ConfigProvider {
    /// The credential, if set.
    fn get_api_key(&self) -> Option<String>;

    /// The backend identifier, if set.
    fn get_llm_provider(&self) -> Option<String>;

    /// The model name, if set.
    fn get_llm_model(&self) -> Option<String>;

    /// The number of candidates to ask for, if set.
    fn get_candidate_count(&self) -> Option<u32>;
}

/// The user's settings; every field may be absent.
#[derive(Debug, Clone)]
pub struct Config {
    pub api_key: Option<String>,
    pub candidate_count: Option<u32>,
    pub llm_provider: Option<String>,
    pub llm_model: Option<String>,
}

/// What a `Config` holds, as text sequences.
pub struct ConfigView {
    pub api_key: Option<Seq<char>>,
    pub candidate_count: Option<u32>,
    pub llm_provider: Option<Seq<char>>,
    pub llm_model: Option<Seq<char>>,
}

pub open spec fn opt_view(o: Option<String>) -> Option<Seq<char>> {
    match o {
        Some(s) => Some(s@),
        None => None,
    }
}

impl View for Config {
    type V = ConfigView;

    open spec fn view(&self) -> ConfigView {
        ConfigView {
            api_key: opt_view(self.api_key),
            candidate_count: self.candidate_count,
            llm_provider: opt_view(self.llm_provider),
            llm_model: opt_view(self.llm_model),
        }
    }
}

/// Settings with nothing set.
pub open spec fn empty_config() -> ConfigView {
    ConfigView { api_key: None, candidate_count: None, llm_provider: None, llm_model: None }
}

impl Default for Config {
    fn default() -> (r: Config)
        ensures
            r@ == empty_config(),
    {
        Config { api_key: None, candidate_count: None, llm_provider: None, llm_model: None }
    }
}

impl ConfigProvider for Config {
    fn get_api_key(&self) -> Option<String> {
        self.api_key.clone()
    }

    fn get_llm_provider(&self) -> Option<String> {
        self.llm_provider.clone()
    }

    fn get_llm_model(&self) -> Option<String> {
        self.llm_model.clone()
    }

    fn get_candidate_count(&self) -> Option<u32> {
        self.candidate_count
    }
}

/// Why a settings change was refused.
#[derive(Debug)]
pub enum ConfigError {
    /// The candidate count given was not a number.
    InvalidCount,
    /// The key is not one of the settings keys.
    InvalidKey(String),
}

impl ConfigError {
    /// The error as a line of text for the user.
    pub fn message(&self) -> (r: String)
        ensures
            r@ == match self {
                ConfigError::InvalidCount => INVALID_COUNT_MESSAGE@,
                ConfigError::InvalidKey(k) => INVALID_KEY_LEAD@ + k@ + INVALID_KEY_TAIL@,
            },
    {
        match self {
            ConfigError::InvalidCount => String::from_str(INVALID_COUNT_MESSAGE),
            ConfigError::InvalidKey(k) => {
                let mut m = String::from_str(INVALID_KEY_LEAD);
                m.append(k.as_str());
                m.append(INVALID_KEY_TAIL);
                m
            },
        }
    }
}

pub const INVALID_COUNT_MESSAGE: &'static str = "candidate-count must be a number";

pub const INVALID_KEY_LEAD: &'static str = "Invalid config key '";

pub const INVALID_KEY_TAIL: &'static str = "'. Valid keys are: api-key, candidate-count, llm-provider, llm-model, committo-dev";

pub open spec fn is_digit(c: char) -> bool {
    '0' <= c && c <= '9'
}

pub open spec fn digit_value(c: char) -> nat {
    ((c as u32) - ('0' as u32)) as nat
}

/// The number that the decimal digits `ds` denote.
pub open spec fn digits_value(ds: Seq<char>) -> nat
    decreases ds.len(),
{
    if ds.len() == 0 {
        0
    } else {
        digits_value(ds.drop_last()) * 10 + digit_value(ds.last())
    }
}

/// `s` without a leading `+`.
pub open spec fn unsigned_digits(s: Seq<char>) -> Seq<char> {
    if s.len() > 0 && s[0] == '+' {
        s.drop_first()
    } else {
        s
    }
}

/// The `u32` that `s` denotes as `str::parse::<u32>` reads it: an optional `+`
/// and then one or more decimal digits, within range; `None` otherwise.
pub open spec fn parse_u32(s: Seq<char>) -> Option<u32> {
    let ds = unsigned_digits(s);
    if ds.len() > 0 && (forall|i: int| 0 <= i < ds.len() ==> is_digit(#[trigger] ds[i]))
        && digits_value(ds) <= u32::MAX {
        Some(digits_value(ds) as u32)
    } else {
        None
    }
}

/// Reads a candidate count from text.
pub fn parse_candidate_count(s: &str) -> (r: Option<u32>)
    ensures
        r == parse_u32(s@),
{
    let cs = chars_of(s);
    let n = cs.len();
    let start: usize = if n > 0 && cs[0] == '+' {
        1
    } else {
        0
    };
    let ghost ds = unsigned_digits(s@);
    assert(ds =~= cs@.subrange(start as int, n as int));
    if start == n {
        return None;
    }
    let limit: u64 = 0x1_0000_0000;
    let mut acc: u64 = 0;
    let mut i: usize = start;
    while i < n
        invariant
            start <= i <= n == cs.len(),
            cs@ == s@,
            ds == cs@.subrange(start as int, n as int),
            ds == unsigned_digits(s@),
            limit == 0x1_0000_0000,
            forall|j: int| start <= j < i ==> is_digit(#[trigger] cs@[j]),
            acc == if digits_value(cs@.subrange(start as int, i as int)) < limit {
                digits_value(cs@.subrange(start as int, i as int))
            } else {
                limit as nat
            },
        decreases n - i,
    {
        let c = cs[i];
        if !('0' <= c && c <= '9') {
            assert(!is_digit(ds[i - start]));
            assert(!(forall|j: int| 0 <= j < ds.len() ==> is_digit(#[trigger] ds[j])));
            return None;
        }
        let d = ((c as u32) - ('0' as u32)) as u64;
        let ghost prev = digits_value(cs@.subrange(start as int, i as int));
        assert(cs@.subrange(start as int, i + 1).drop_last() =~= cs@.subrange(
            start as int,
            i as int,
        ));
        let ghost next = digits_value(cs@.subrange(start as int, i + 1));
        assert(next == prev * 10 + d);
        if acc >= limit {
            assert(next >= limit) by (nonlinear_arith)
                requires
                    next == prev * 10 + d,
                    prev >= limit,
            ;
        } else {
            acc = acc * 10 + d;
            if acc >= limit {
                acc = limit;
            }
        }
        i = i + 1;
    }
    assert(cs@.subrange(start as int, n as int) == ds);
    if acc >= limit {
        None
    } else {
        Some(acc as u32)
    }
}

/// The settings after setting `key` to `value`, or `None` where the key is
/// unknown or the candidate count does not parse.
pub open spec fn set_config(c: ConfigView, key: Seq<char>, value: Seq<char>) -> Option<ConfigView> {
    if key == API_KEY_CONFIG@ {
        Some(ConfigView { api_key: Some(value), ..c })
    } else if key == CANDIDATE_COUNT_CONFIG@ {
        match parse_u32(value) {
            Some(n) => Some(ConfigView { candidate_count: Some(n), ..c }),
            None => None,
        }
    } else if key == LLM_PROVIDER_CONFIG@ {
        Some(ConfigView { llm_provider: Some(value), ..c })
    } else if key == LLM_MODEL_CONFIG@ {
        Some(ConfigView { llm_model: Some(value), ..c })
    } else {
        None
    }
}

/// The refusal that setting `key` gives where `set_config` has no result.
pub open spec fn set_refusal(err: ConfigError, key: Seq<char>) -> bool {
    if key == CANDIDATE_COUNT_CONFIG@ {
        err is InvalidCount
    } else {
        &&& err is InvalidKey
        &&& err->InvalidKey_0@ == key
    }
}

/// The value stored under `key`, as text; `None` for an unset or unknown key.
pub open spec fn config_value(c: ConfigView, key: Seq<char>) -> Option<Seq<char>> {
    if key == API_KEY_CONFIG@ {
        c.api_key
    } else if key == CANDIDATE_COUNT_CONFIG@ {
        match c.candidate_count {
            Some(n) => Some(decimal(n as nat)),
            None => None,
        }
    } else if key == LLM_PROVIDER_CONFIG@ {
        c.llm_provider
    } else if key == LLM_MODEL_CONFIG@ {
        c.llm_model
    } else {
        None
    }
}

/// `n` asterisks.
pub open spec fn stars(n: nat) -> Seq<char> {
    Seq::new(n, |i: int| '*')
}

/// A credential for display: its first five characters and an asterisk for
/// each further one; all asterisks when it is shorter than five.
pub open spec fn masked(key: Seq<char>) -> Seq<char> {
    if key.len() >= 5 {
        key.take(5) + stars((key.len() - 5) as nat)
    } else {
        stars(key.len())
    }
}

pub const CONFIG_HEADER: &'static str = "--- Configuration ---\n";

pub const API_KEY_LABEL: &'static str = "Api Key : \"";

pub const MASKED_TAIL: &'static str = "\" (masked)\n";

pub const COUNT_LABEL: &'static str = "Candidate Count : ";

pub const PROVIDER_LABEL: &'static str = "LLM Provider : \"";

pub const MODEL_LABEL: &'static str = "LLM Model : \"";

pub const QUOTED_TAIL: &'static str = "\"\n";

pub open spec fn newline() -> Seq<char> {
    seq!['\n']
}

/// The settings display: a header, then one line for each field that is set,
/// with the credential masked.
pub open spec fn masking_config_text(c: ConfigView) -> Seq<char> {
    CONFIG_HEADER@ + match c.api_key {
        Some(k) => API_KEY_LABEL@ + masked(k) + MASKED_TAIL@,
        None => Seq::empty(),
    } + match c.candidate_count {
        Some(n) => COUNT_LABEL@ + decimal(n as nat) + newline(),
        None => Seq::empty(),
    } + match c.llm_provider {
        Some(p) => PROVIDER_LABEL@ + p + QUOTED_TAIL@,
        None => Seq::empty(),
    } + match c.llm_model {
        Some(m) => MODEL_LABEL@ + m + QUOTED_TAIL@,
        None => Seq::empty(),
    }
}

fn append_stars(out: &mut String, n: usize)
    ensures
        final(out)@ == old(out)@ + stars(n as nat),
{
    let ghost start = out@;
    let mut i: usize = 0;
    while i < n
        invariant
            i <= n,
            out@ == start + stars(i as nat),
        decreases n - i,
    {
        proof {
            reveal_strlit("*");
        }
        out.append("*");
        assert(start + stars(i as nat) + seq!['*'] =~= start + stars((i + 1) as nat));
        i = i + 1;
    }
}

impl Config {
    /// Sets `key` to `value`. A candidate count must parse as a `u32`; an
    /// unknown key is refused. A refused change leaves the settings as they were.
    pub fn set_value(&mut self, key: &str, value: &str) -> (r: Result<(), ConfigError>)
        ensures
            match set_config(old(self)@, key@, value@) {
                Some(v) => r is Ok && final(self)@ == v,
                None => r is Err && set_refusal(r->Err_0, key@) && *final(self) == *old(self),
            },
    {
        if same_text(key, API_KEY_CONFIG) {
            self.api_key = Some(String::from_str(value));
        } else if same_text(key, CANDIDATE_COUNT_CONFIG) {
            match parse_candidate_count(value) {
                Some(n) => {
                    self.candidate_count = Some(n);
                },
                None => {
                    return Err(ConfigError::InvalidCount);
                },
            }
        } else if same_text(key, LLM_PROVIDER_CONFIG) {
            self.llm_provider = Some(String::from_str(value));
        } else if same_text(key, LLM_MODEL_CONFIG) {
            self.llm_model = Some(String::from_str(value));
        } else {
            return Err(ConfigError::InvalidKey(String::from_str(key)));
        }
        Ok(())
    }

    /// Applies a `set` command to the settings read from disk, or to empty
    /// settings when there was no file.
    pub fn handle_set_command(loaded: Option<Config>, key: &str, value: &str) -> (r: Result<
        Config,
        ConfigError,
    >)
        ensures
            ({
                let base = match loaded {
                    Some(c) => c@,
                    None => empty_config(),
                };
                match set_config(base, key@, value@) {
                    Some(v) => r is Ok && r->Ok_0@ == v,
                    None => r is Err && set_refusal(r->Err_0, key@),
                }
            }),
    {
        let mut config = match loaded {
            Some(c) => c,
            None => Config::default(),
        };
        match config.set_value(key, value) {
            Ok(()) => Ok(config),
            Err(e) => Err(e),
        }
    }

    /// The credential masked for display.
    pub fn mask_api_key(&self, api_key: &str) -> (r: String)
        ensures
            r@ == masked(api_key@),
    {
        let cs = chars_of(api_key);
        let n = cs.len();
        if n >= 5 {
            let mut out = string_of_range(api_key, 0, 5);
            append_stars(&mut out, n - 5);
            out
        } else {
            let mut out = String::new();
            append_stars(&mut out, n);
            assert(out@ =~= stars(n as nat));
            out
        }
    }

    /// The settings display used by `show` and by dry runs.
    pub fn show_masking_config(&self) -> (r: String)
        ensures
            r@ == masking_config_text(self@),
    {
        proof {
            reveal_strlit("\n");
        }
        let mut out = String::from_str(CONFIG_HEADER);
        let ghost s0 = out@;
        if let Some(k) = &self.api_key {
            out.append(API_KEY_LABEL);
            let m = self.mask_api_key(k.as_str());
            out.append(m.as_str());
            out.append(MASKED_TAIL);
        }
        let ghost s1 = out@;
        if let Some(n) = self.candidate_count {
            out.append(COUNT_LABEL);
            let d = decimal_string(n as u64);
            out.append(d.as_str());
            out.append("\n");
        }
        let ghost s2 = out@;
        if let Some(p) = &self.llm_provider {
            out.append(PROVIDER_LABEL);
            out.append(p.as_str());
            out.append(QUOTED_TAIL);
        }
        let ghost s3 = out@;
        if let Some(m) = &self.llm_model {
            out.append(MODEL_LABEL);
            out.append(m.as_str());
            out.append(QUOTED_TAIL);
        }
        let ghost c = self@;
        let ghost a = match c.api_key {
            Some(k) => API_KEY_LABEL@ + masked(k) + MASKED_TAIL@,
            None => Seq::empty(),
        };
        let ghost b = match c.candidate_count {
            Some(n) => COUNT_LABEL@ + decimal(n as nat) + newline(),
            None => Seq::empty(),
        };
        let ghost p = match c.llm_provider {
            Some(p) => PROVIDER_LABEL@ + p + QUOTED_TAIL@,
            None => Seq::empty(),
        };
        let ghost m = match c.llm_model {
            Some(m) => MODEL_LABEL@ + m + QUOTED_TAIL@,
            None => Seq::empty(),
        };
        assert(s1 =~= s0 + a);
        assert(s2 =~= s1 + b);
        assert(s3 =~= s2 + p);
        assert(out@ =~= s3 + m);
        out
    }
}

/// The value stored under `key` in `config`, as text.
pub fn get_config_value(config: &Config, key: &str) -> (r: Option<String>)
    ensures
        opt_view(r) == config_value(config@, key@),
{
    if same_text(key, API_KEY_CONFIG) {
        config.api_key.clone()
    } else if same_text(key, CANDIDATE_COUNT_CONFIG) {
        match config.candidate_count {
            Some(n) => Some(decimal_string(n as u64)),
            None => None,
        }
    } else if same_text(key, LLM_PROVIDER_CONFIG) {
        config.llm_provider.clone()
    } else if same_text(key, LLM_MODEL_CONFIG) {
        config.llm_model.clone()
    } else {
        None
    }
}

} // verus!
