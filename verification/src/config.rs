use vstd::prelude::*;

use crate::text::{all_ascii, ascii_lowercase, same_text, trim, trimmed};

verus! {

/// Settings of the chat-completions endpoint that classifies items.
///
/// The two floating-point settings are held as their IEEE-754 bit patterns
/// (`f32::to_bits`), which keeps every value exactly.
#[derive(Debug, Clone)]
pub struct OpenAiConfig {
    pub api_key: String,
    pub api_base: String,
    pub model: String,
    /// Sampling temperature, as the bit pattern of an `f32`.
    pub temperature_bits: Option<u32>,
    pub max_tokens: Option<u32>,
    pub system_prompt: String,
    /// Confidence from which a filtered item is acted on, as the bit pattern of an `f32`.
    pub threshold_bits: u32,
}

/// Where FreshRSS runs and what to do with items classified as unwanted.
#[derive(Debug, Clone)]
pub struct FreshRssConfig {
    pub base_url: String,
    /// Fever API key (MD5 of username:password or token from FreshRSS settings)
    pub fever_api_key: String,
    pub user_agent: String,
    /// Action when classifying as ad: mark_read | label | delete (delete marks read)
    pub delete_mode: String,
    /// Optional GReader credentials for labeling
    pub greader_username: Option<String>,
    pub greader_password: Option<String>,
    /// Optional GoogleLogin token for GReader auth (used as Authorization header)
    pub greader_googlelogin_auth: Option<String>,
    /// Label name to tag ads (auto-created by GReader API)
    pub spam_label: String,
}

/// When the periodic run happens.
#[derive(Debug, Clone)]
pub struct SchedulerConfig {
    /// Cron string, e.g. "0 */10 * * * *" (every 10 minutes)
    pub cron: String,
}

/// Where the review records are kept.
#[derive(Debug, Clone)]
pub struct DatabaseConfig {
    pub path: String,
}

/// The whole configuration.
#[derive(Debug, Clone)]
pub struct Config {
    pub openai: OpenAiConfig,
    pub freshrss: FreshRssConfig,
    pub scheduler: SchedulerConfig,
    pub database: DatabaseConfig,
    pub dry_run: bool,
}

/// The view of an optional text.
pub open spec fn opt_view(o: Option<String>) -> Option<Seq<char>> {
    match o {
        Some(s) => Some(s@),
        None => None,
    }
}

pub struct OpenAiConfigView {
    pub api_key: Seq<char>,
    pub api_base: Seq<char>,
    pub model: Seq<char>,
    pub temperature_bits: Option<u32>,
    pub max_tokens: Option<u32>,
    pub system_prompt: Seq<char>,
    pub threshold_bits: u32,
}

pub struct FreshRssConfigView {
    pub base_url: Seq<char>,
    pub fever_api_key: Seq<char>,
    pub user_agent: Seq<char>,
    pub delete_mode: Seq<char>,
    pub greader_username: Option<Seq<char>>,
    pub greader_password: Option<Seq<char>>,
    pub greader_googlelogin_auth: Option<Seq<char>>,
    pub spam_label: Seq<char>,
}

pub struct ConfigView {
    pub openai: OpenAiConfigView,
    pub freshrss: FreshRssConfigView,
    pub cron: Seq<char>,
    pub database_path: Seq<char>,
    pub dry_run: bool,
}

impl View for OpenAiConfig {
    type V = OpenAiConfigView;

    open spec fn view(&self) -> OpenAiConfigView {
        OpenAiConfigView {
            api_key: self.api_key@,
            api_base: self.api_base@,
            model: self.model@,
            temperature_bits: self.temperature_bits,
            max_tokens: self.max_tokens,
            system_prompt: self.system_prompt@,
            threshold_bits: self.threshold_bits,
        }
    }
}

impl View for FreshRssConfig {
    type V = FreshRssConfigView;

    open spec fn view(&self) -> FreshRssConfigView {
        FreshRssConfigView {
            base_url: self.base_url@,
            fever_api_key: self.fever_api_key@,
            user_agent: self.user_agent@,
            delete_mode: self.delete_mode@,
            greader_username: opt_view(self.greader_username),
            greader_password: opt_view(self.greader_password),
            greader_googlelogin_auth: opt_view(self.greader_googlelogin_auth),
            spam_label: self.spam_label@,
        }
    }
}

impl View for Config {
    type V = ConfigView;

    open spec fn view(&self) -> ConfigView {
        ConfigView {
            openai: self.openai@,
            freshrss: self.freshrss@,
            cron: self.scheduler.cron@,
            database_path: self.database.path@,
            dry_run: self.dry_run,
        }
    }
}

pub open spec fn default_api_base_text() -> Seq<char> {
    "https://api.openai.com/v1"@
}

pub open spec fn default_model_text() -> Seq<char> {
    "gpt-4o-mini"@
}

pub open spec fn default_system_prompt_text() -> Seq<char> {
    "You are a strict classifier. Decide if an RSS item is an advertisement or sponsored content. Reply JSON: {\"is_ad\": boolean, \"confidence\": 0..1, \"reason\": string}."@
}

pub open spec fn default_user_agent_text() -> Seq<char> {
    "freshrss-filter/0.1"@
}

pub open spec fn default_delete_mode_text() -> Seq<char> {
    "mark_read"@
}

pub open spec fn default_spam_label_text() -> Seq<char> {
    "Ads"@
}

pub open spec fn default_cron_text() -> Seq<char> {
    "0 */10 * * * *"@
}

pub open spec fn default_db_path_text() -> Seq<char> {
    "freshrss-filter.db"@
}

/// The bit pattern of `0.5f32`, the default threshold.
pub open spec fn default_threshold_bits() -> u32 {
    0x3F00_0000
}

pub fn default_api_base() -> (r: String)
    ensures
        r@ == default_api_base_text(),
{
    "https://api.openai.com/v1".to_owned()
}

pub fn default_model() -> (r: String)
    ensures
        r@ == default_model_text(),
{
    "gpt-4o-mini".to_owned()
}

pub fn default_system_prompt() -> (r: String)
    ensures
        r@ == default_system_prompt_text(),
{
    "You are a strict classifier. Decide if an RSS item is an advertisement or sponsored content. Reply JSON: {\"is_ad\": boolean, \"confidence\": 0..1, \"reason\": string}.".to_owned()
}

/// The default threshold, 0.5, as the bit pattern of an `f32`.
pub fn default_threshold() -> (r: u32)
    ensures
        r == default_threshold_bits(),
{
    0x3F00_0000
}

pub fn default_user_agent() -> (r: String)
    ensures
        r@ == default_user_agent_text(),
{
    "freshrss-filter/0.1".to_owned()
}

pub fn default_delete_mode() -> (r: String)
    ensures
        r@ == default_delete_mode_text(),
{
    "mark_read".to_owned()
}

pub fn default_spam_label() -> (r: String)
    ensures
        r@ == default_spam_label_text(),
{
    "Ads".to_owned()
}

pub fn default_cron() -> (r: String)
    ensures
        r@ == default_cron_text(),
{
    "0 */10 * * * *".to_owned()
}

pub fn default_db_path() -> (r: String)
    ensures
        r@ == default_db_path_text(),
{
    "freshrss-filter.db".to_owned()
}

/// What `str::to_lowercase` returns for a text: its lower case as the Unicode
/// `Lowercase` mapping gives it.
pub uninterp spec fn unicode_lowercase(s: Seq<char>) -> Seq<char>;

/// Calls `str::to_lowercase`; its result is named `unicode_lowercase` of the input.
/// On ASCII text the Unicode lower case is the ASCII one: capital letters become
/// small letters and every other character stays.
#[verifier::external_body]
fn lowercase(s: &str) -> (r: String)
    ensures
        r@ == unicode_lowercase(s@),
        all_ascii(s@) ==> r@ == ascii_lowercase(s@),
{
    s.to_lowercase()
}

/// The text, or the default when the text is empty.
pub open spec fn or_default(s: Seq<char>, default: Seq<char>) -> Seq<char> {
    if s.len() == 0 {
        default
    } else {
        s
    }
}

/// The delete mode as it is used: trimmed, lower-cased, `mark_read` when empty.
pub open spec fn normalized_mode(mode: Seq<char>) -> Seq<char> {
    or_default(unicode_lowercase(trim(mode)), default_delete_mode_text())
}

/// The delete modes that are accepted.
pub open spec fn is_known_mode(mode: Seq<char>) -> bool {
    mode == "mark_read"@ || mode == "label"@ || mode == "delete"@
}

/// The configuration once loading has filled in empty settings and normalised the mode.
pub open spec fn completed(c: ConfigView) -> ConfigView {
    ConfigView {
        openai: OpenAiConfigView {
            api_base: or_default(c.openai.api_base, default_api_base_text()),
            model: or_default(c.openai.model, default_model_text()),
            ..c.openai
        },
        freshrss: FreshRssConfigView {
            user_agent: or_default(c.freshrss.user_agent, default_user_agent_text()),
            delete_mode: normalized_mode(c.freshrss.delete_mode),
            ..c.freshrss
        },
        cron: or_default(c.cron, default_cron_text()),
        database_path: or_default(c.database_path, default_db_path_text()),
        ..c
    }
}

/// Completing a loaded configuration changes only what it fills in or normalises:
/// dry running, the threshold, the temperature, the token limit, the key, the prompt,
/// the FreshRSS address and key, the GReader credentials and the spam label all stay
/// as they were loaded, and a setting that was given (not empty) keeps its value.
pub proof fn completion_keeps_given_settings(c: ConfigView)
    ensures
        completed(c).dry_run == c.dry_run,
        completed(c).openai.threshold_bits == c.openai.threshold_bits,
        completed(c).openai.temperature_bits == c.openai.temperature_bits,
        completed(c).openai.max_tokens == c.openai.max_tokens,
        completed(c).openai.api_key == c.openai.api_key,
        completed(c).openai.system_prompt == c.openai.system_prompt,
        completed(c).freshrss.base_url == c.freshrss.base_url,
        completed(c).freshrss.fever_api_key == c.freshrss.fever_api_key,
        completed(c).freshrss.greader_username == c.freshrss.greader_username,
        completed(c).freshrss.greader_password == c.freshrss.greader_password,
        completed(c).freshrss.greader_googlelogin_auth == c.freshrss.greader_googlelogin_auth,
        completed(c).freshrss.spam_label == c.freshrss.spam_label,
        c.openai.api_base.len() > 0 ==> completed(c).openai.api_base == c.openai.api_base,
        c.openai.model.len() > 0 ==> completed(c).openai.model == c.openai.model,
        c.freshrss.user_agent.len() > 0 ==> completed(c).freshrss.user_agent
            == c.freshrss.user_agent,
        c.cron.len() > 0 ==> completed(c).cron == c.cron,
        c.database_path.len() > 0 ==> completed(c).database_path == c.database_path,
        completed(c).openai.api_base.len() > 0,
        completed(c).openai.model.len() > 0,
        completed(c).freshrss.user_agent.len() > 0,
        completed(c).cron.len() > 0,
        completed(c).database_path.len() > 0,
{
    reveal_strlit("https://api.openai.com/v1");
    reveal_strlit("gpt-4o-mini");
    reveal_strlit("freshrss-filter/0.1");
    reveal_strlit("0 */10 * * * *");
    reveal_strlit("freshrss-filter.db");
}

/// Why a loaded configuration was refused.
#[derive(Debug, Clone)]
pub enum ConfigError {
    /// The delete mode, normalised, is none of the accepted ones.
    InvalidDeleteMode { mode: String },
}

impl ConfigError {
    /// The message that reports the error.
    pub fn message(&self) -> (r: String)
        ensures
            match self {
                ConfigError::InvalidDeleteMode { mode } => r@ == "invalid freshrss.delete_mode: "@
                    + mode@ + " (allowed: mark_read | label | delete)"@,
            },
    {
        match self {
            ConfigError::InvalidDeleteMode { mode } => {
                let mut r = "invalid freshrss.delete_mode: ".to_owned();
                r.append(mode.as_str());
                r.append(" (allowed: mark_read | label | delete)");
                r
            },
        }
    }
}

/// Whether the (normalised) mode is one of `mark_read`, `label`, `delete`.
pub fn known_mode(mode: &str) -> (r: bool)
    ensures
        r == is_known_mode(mode@),
{
    same_text(mode, "mark_read") || same_text(mode, "label") || same_text(mode, "delete")
}

fn filled(s: String, default: String) -> (r: String)
    ensures
        r@ == or_default(s@, default@),
{
    if s.as_str().is_empty() {
        default
    } else {
        s
    }
}

/// Completes a configuration as it came from the configuration sources: empty
/// settings get their defaults and the delete mode is trimmed and lower-cased.
/// Refused, with the normalised mode, when the delete mode is not one of
/// `mark_read`, `label`, `delete`.
pub fn complete_loaded(cfg: Config) -> (r: Result<Config, ConfigError>)
    ensures
        match r {
            Ok(c) => is_known_mode(normalized_mode(cfg@.freshrss.delete_mode)) && c@ == completed(
                cfg@,
            ) && is_known_mode(c.freshrss.delete_mode@),
            Err(ConfigError::InvalidDeleteMode { mode }) => !is_known_mode(
                normalized_mode(cfg@.freshrss.delete_mode),
            ) && mode@ == normalized_mode(cfg@.freshrss.delete_mode),
        },
        all_ascii(trim(cfg@.freshrss.delete_mode)) ==> normalized_mode(cfg@.freshrss.delete_mode)
            == or_default(
            ascii_lowercase(trim(cfg@.freshrss.delete_mode)),
            default_delete_mode_text(),
        ),
{
    let Config { openai, freshrss, scheduler, database, dry_run } = cfg;
    let OpenAiConfig {
        api_key,
        api_base,
        model,
        temperature_bits,
        max_tokens,
        system_prompt,
        threshold_bits,
    } = openai;
    let FreshRssConfig {
        base_url,
        fever_api_key,
        user_agent,
        delete_mode,
        greader_username,
        greader_password,
        greader_googlelogin_auth,
        spam_label,
    } = freshrss;
    let api_base = filled(api_base, default_api_base());
    let model = filled(model, default_model());
    let user_agent = filled(user_agent, default_user_agent());
    let trimmed_mode = trimmed(delete_mode.as_str());
    let delete_mode = filled(lowercase(trimmed_mode.as_str()), default_delete_mode());
    if !known_mode(delete_mode.as_str()) {
        return Err(ConfigError::InvalidDeleteMode { mode: delete_mode });
    }
    let cron = filled(scheduler.cron, default_cron());
    let path = filled(database.path, default_db_path());
    Ok(
        Config {
            openai: OpenAiConfig {
                api_key,
                api_base,
                model,
                temperature_bits,
                max_tokens,
                system_prompt,
                threshold_bits,
            },
            freshrss: FreshRssConfig {
                base_url,
                fever_api_key,
                user_agent,
                delete_mode,
                greader_username,
                greader_password,
                greader_googlelogin_auth,
                spam_label,
            },
            scheduler: SchedulerConfig { cron },
            database: DatabaseConfig { path },
            dry_run,
        },
    )
}

impl Config {
    /// Applies the command-line switches: `--dry-run` turns dry running on and never off.
    pub fn with_overrides(self, dry_run: bool) -> (r: Self)
        ensures
            r@ == (ConfigView { dry_run: self.dry_run || dry_run, ..self@ }),
    {
        let mut c = self;
        if dry_run {
            c.dry_run = true;
        }
        c
    }
}

} // verus!
