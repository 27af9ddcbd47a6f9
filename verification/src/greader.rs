use vstd::prelude::*;

use crate::config::{opt_view, FreshRssConfig, FreshRssConfigView};
use crate::fences::starts_with;
use crate::text::{
    ascii_lowercase, is_blank, lemma_trim_empty_iff_blank, chars_of, i64_decimal, lower_ascii_char, signed_decimal, str_is_blank,
    string_of, trim, trimmed,
};

verus! {

/// `url::Url` (also `reqwest::Url`), carried through opaquely.
#[verifier::external_type_specification]
#[verifier::external_body]
pub struct ExUrl(url::Url);

/// `url::ParseError`, the error of `Url::parse`, carried through opaquely.
#[verifier::external_type_specification]
#[verifier::external_body]
pub struct ExUrlParseError(url::ParseError);

/// `reqwest::Client`, carried through opaquely.
#[verifier::external_type_specification]
#[verifier::external_body]
pub struct ExHttpClient(reqwest::Client);

/// `reqwest::Error`, the error of building a client, carried through opaquely.
#[verifier::external_type_specification]
#[verifier::external_body]
pub struct ExHttpError(reqwest::Error);

/// Whether an optional setting is given and holds more than white space.
pub open spec fn filled_in(o: Option<Seq<char>>) -> bool {
    o matches Some(s) && trim(s).len() > 0
}

/// Whether the settings hold GReader credentials: a GoogleLogin token, or both a
/// user name and a password.
pub open spec fn spec_has_auth_config(cfg: FreshRssConfigView) -> bool {
    filled_in(cfg.greader_googlelogin_auth) || (filled_in(cfg.greader_username) && filled_in(
        cfg.greader_password,
    ))
}

fn is_filled_in(o: &Option<String>) -> (r: bool)
    ensures
        r == filled_in(opt_view(*o)),
{
    match o {
        Some(s) => !str_is_blank(s.as_str()),
        None => false,
    }
}

/// Tells whether the settings hold GReader credentials, so that labelling can be used.
pub fn has_auth_config(cfg: &FreshRssConfig) -> (r: bool)
    ensures
        r == spec_has_auth_config(cfg@),
{
    is_filled_in(&cfg.greader_googlelogin_auth) || (is_filled_in(&cfg.greader_username)
        && is_filled_in(&cfg.greader_password))
}

/// How requests to the GReader API authenticate.
#[derive(Debug, Clone)]
pub enum GReaderAuth {
    Basic { username: String, password: String },
    GoogleLogin { authorization: String },
}

pub enum GReaderAuthView {
    Basic { username: Seq<char>, password: Seq<char> },
    GoogleLogin { authorization: Seq<char> },
}

impl View for GReaderAuth {
    type V = GReaderAuthView;

    open spec fn view(&self) -> GReaderAuthView {
        match self {
            GReaderAuth::Basic { username, password } => GReaderAuthView::Basic {
                username: username@,
                password: password@,
            },
            GReaderAuth::GoogleLogin { authorization } => GReaderAuthView::GoogleLogin {
                authorization: authorization@,
            },
        }
    }
}

/// The prefix that marks a GoogleLogin authorization value, compared without regard
/// to ASCII case.
pub open spec fn google_login_prefix() -> Seq<char> {
    "googlelogin auth="@
}

/// The Authorization value for a (trimmed) token: the token itself when it already
/// starts with `GoogleLogin auth=` in any ASCII case, otherwise that prefix and the token.
pub open spec fn authorization_for(token: Seq<char>) -> Seq<char> {
    if starts_with(ascii_lowercase(token), google_login_prefix()) {
        token
    } else {
        "GoogleLogin auth="@ + token
    }
}

/// The credentials that GReader requests use, or `None` when the settings hold
/// none: a non-blank GoogleLogin token wins; otherwise a user name and a password,
/// both given and both non-blank after trimming.
pub open spec fn spec_select_auth(cfg: FreshRssConfigView) -> Option<GReaderAuthView> {
    if filled_in(cfg.greader_googlelogin_auth) {
        Some(
            GReaderAuthView::GoogleLogin {
                authorization: authorization_for(trim(cfg.greader_googlelogin_auth->0)),
            },
        )
    } else if filled_in(cfg.greader_username) && filled_in(cfg.greader_password) {
        Some(
            GReaderAuthView::Basic {
                username: trim(cfg.greader_username->0),
                password: trim(cfg.greader_password->0),
            },
        )
    } else {
        None
    }
}

/// Whether `token`, ASCII lower-cased, starts with `googlelogin auth=`.
fn has_google_login_prefix(token: &str) -> (r: bool)
    ensures
        r == starts_with(ascii_lowercase(token@), google_login_prefix()),
{
    let t = chars_of(token);
    let p = chars_of("googlelogin auth=");
    let ghost lower = ascii_lowercase(token@);
    if t.len() < p.len() {
        return false;
    }
    let mut k: usize = 0;
    while k < p.len()
        invariant
            t@ == token@,
            p@ == google_login_prefix(),
            lower == ascii_lowercase(token@),
            p.len() <= t.len(),
            k <= p.len(),
            forall|j: int| 0 <= j < k ==> lower[j] == p@[j],
        decreases p.len() - k,
    {
        if lower_ascii_char(t[k]) != p[k] {
            assert(lower.subrange(0, p.len() as int)[k as int] == lower[k as int]);
            return false;
        }
        k += 1;
    }
    assert(lower.subrange(0, p.len() as int) =~= p@);
    true
}

/// Chooses how GReader requests authenticate, as `spec_select_auth` says.
pub fn select_auth(cfg: &FreshRssConfig) -> (r: Option<GReaderAuth>)
    ensures
        match r {
            Some(a) => spec_select_auth(cfg@) == Some(a@),
            None => spec_select_auth(cfg@) is None,
        },
{
    if is_filled_in(&cfg.greader_googlelogin_auth) {
        let token = match &cfg.greader_googlelogin_auth {
            Some(s) => trimmed(s.as_str()),
            None => {
                return None;
            },
        };
        let authorization = if has_google_login_prefix(token.as_str()) {
            token
        } else {
            let mut a = "GoogleLogin auth=".to_owned();
            a.append(token.as_str());
            a
        };
        return Some(GReaderAuth::GoogleLogin { authorization });
    }
    match (&cfg.greader_username, &cfg.greader_password) {
        (Some(u), Some(p)) => {
            if str_is_blank(u.as_str()) || str_is_blank(p.as_str()) {
                None
            } else {
                Some(GReaderAuth::Basic { username: trimmed(u.as_str()), password: trimmed(p.as_str()) })
            }
        },
        _ => None,
    }
}

/// Credentials are configured exactly when the GoogleLogin token holds a character
/// that is not white space, or the user name and the password both do.
pub proof fn auth_config_needs_non_blank_settings(cfg: FreshRssConfigView)
    ensures
        spec_has_auth_config(cfg) == ((cfg.greader_googlelogin_auth matches Some(t)
            && !is_blank(t)) || ((cfg.greader_username matches Some(u) && !is_blank(u)) && (
        cfg.greader_password matches Some(p) && !is_blank(p)))),
{
    if let Some(t) = cfg.greader_googlelogin_auth {
        lemma_trim_empty_iff_blank(t);
    }
    if let Some(u) = cfg.greader_username {
        lemma_trim_empty_iff_blank(u);
    }
    if let Some(p) = cfg.greader_password {
        lemma_trim_empty_iff_blank(p);
    }
}

/// Credentials are found exactly when the settings hold some: `has_auth_config`
/// and the credential choice of `build_client` agree on every configuration.
pub proof fn has_auth_config_iff_credentials(cfg: FreshRssConfigView)
    ensures
        spec_has_auth_config(cfg) <==> spec_select_auth(cfg) is Some,
{
}

/// Whether `url::Url::parse` accepts a text as an absolute URL.
pub uninterp spec fn url_parse_accepts(s: Seq<char>) -> bool;

/// The URL that `url::Url::parse` returns for a text it accepts.
pub uninterp spec fn parsed_url(s: Seq<char>) -> url::Url;

/// Calls `url::Url::parse`. It returns `Ok` exactly when the name `url_parse_accepts`
/// holds of the text, and then the URL named `parsed_url` of the text.
#[verifier::external_body]
fn parse_url(s: &str) -> (r: Result<url::Url, url::ParseError>)
    ensures
        r.is_ok() == url_parse_accepts(s@),
        r matches Ok(u) ==> u == parsed_url(s@),
{
    url::Url::parse(s)
}

/// Whether `url::Url::join` accepts a (relative or absolute) URL text against a base.
pub uninterp spec fn url_join_accepts(base: url::Url, input: Seq<char>) -> bool;

/// The URL that `url::Url::join` returns for a base and a text it accepts.
pub uninterp spec fn joined_url(base: url::Url, input: Seq<char>) -> url::Url;

/// Calls `url::Url::join`. It returns `Ok` exactly when the name `url_join_accepts`
/// holds of the base and the text, and then the URL named `joined_url` of them.
#[verifier::external_body]
fn join_url(base: &url::Url, input: &str) -> (r: Result<url::Url, url::ParseError>)
    ensures
        r.is_ok() == url_join_accepts(*base, input@),
        r matches Ok(u) ==> u == joined_url(*base, input@),
{
    base.join(input)
}

/// An HTTP client together with the User-Agent it was built to send.
pub struct AgentClient {
    client: reqwest::Client,
    agent: Ghost<Seq<char>>,
}

impl AgentClient {
    /// The User-Agent the client sends with every request.
    pub closed spec fn spec_agent(&self) -> Seq<char> {
        self.agent@
    }

    /// The HTTP client.
    pub closed spec fn spec_client(&self) -> reqwest::Client {
        self.client
    }
}

/// The error of building an HTTP client, together with the User-Agent it was to send.
pub struct AgentError {
    error: reqwest::Error,
    agent: Ghost<Seq<char>>,
}

impl AgentError {
    /// The User-Agent the failed client was to send.
    pub closed spec fn spec_agent(&self) -> Seq<char> {
        self.agent@
    }

    /// The error that `reqwest` reported.
    pub fn into_error(self) -> reqwest::Error {
        self.error
    }
}

/// Calls `reqwest::Client::builder().user_agent(..).build()`. The client it returns
/// sends the given User-Agent with every request, and a failure is recorded with
/// the User-Agent it was built for. Whether the build succeeds depends on the
/// value (it must be a valid header value) and on the TLS backend and resolver of
/// the machine; that is not stated.
#[verifier::external_body]
fn http_client_with_agent(user_agent: &str) -> (r: Result<AgentClient, AgentError>)
    ensures
        r matches Ok(c) ==> c.spec_agent() == user_agent@,
        r matches Err(e) ==> e.spec_agent() == user_agent@,
{
    match reqwest::Client::builder().user_agent(user_agent).build() {
        Ok(client) => Ok(AgentClient { client, agent: Ghost(user_agent@) }),
        Err(error) => Err(AgentError { error, agent: Ghost(user_agent@) }),
    }
}

/// The message that reports missing GReader credentials.
pub open spec fn credentials_missing_text() -> Seq<char> {
    "greader_credentials_missing: set greader_googlelogin_auth or both greader_username and greader_password"@
}

/// Why a GReader client could not be set up.
pub enum GReaderSetupError {
    /// The FreshRSS base URL does not parse.
    InvalidBaseUrl(url::ParseError),
    /// The HTTP client could not be built.
    HttpClient(AgentError),
    /// Neither a GoogleLogin token nor a user name and password are set.
    CredentialsMissing,
}

impl GReaderSetupError {
    /// The library's own message for the error; the two others are reported by the
    /// outside error they carry.
    pub fn message(&self) -> (r: Option<String>)
        ensures
            (self is CredentialsMissing) <==> r is Some,
            r matches Some(m) ==> m@ == credentials_missing_text(),
    {
        match self {
            GReaderSetupError::CredentialsMissing => Some(
                "greader_credentials_missing: set greader_googlelogin_auth or both greader_username and greader_password".to_owned(),
            ),
            _ => None,
        }
    }
}

/// A client of the GReader API of FreshRSS.
pub struct GReaderClient {
    client: AgentClient,
    base: url::Url,
    auth: GReaderAuth,
}

impl GReaderClient {
    pub closed spec fn spec_auth(&self) -> GReaderAuthView {
        self.auth@
    }

    /// The HTTP client this GReader client was built with.
    pub closed spec fn spec_http(&self) -> reqwest::Client {
        self.client.spec_client()
    }

    /// The User-Agent that the HTTP client sends.
    pub closed spec fn spec_user_agent(&self) -> Seq<char> {
        self.client.spec_agent()
    }

    /// The base URL this GReader client was built with.
    pub closed spec fn spec_base(&self) -> url::Url {
        self.base
    }

    /// The HTTP client that sends the requests.
    pub fn http(&self) -> (r: &reqwest::Client)
        ensures
            *r == self.spec_http(),
    {
        &self.client.client
    }

    /// The FreshRSS base URL.
    pub fn base(&self) -> (r: &url::Url)
        ensures
            *r == self.spec_base(),
    {
        &self.base
    }

    /// The edit-tag endpoint on this client's server: the edit-tag path joined to
    /// the base URL.
    pub fn edit_tag_url(&self) -> (r: Result<url::Url, url::ParseError>)
        ensures
            r.is_ok() == url_join_accepts(self.spec_base(), edit_tag_path_text()),
            r matches Ok(u) ==> u == joined_url(self.spec_base(), edit_tag_path_text()),
    {
        let path = edit_tag_path();
        join_url(&self.base, path.as_str())
    }

    /// How the requests authenticate.
    pub fn auth(&self) -> (r: &GReaderAuth)
        ensures
            r@ == self.spec_auth(),
    {
        &self.auth
    }
}

/// Sets up a GReader client aimed at the configured base URL: the URL is parsed
/// first, then the HTTP client is built, then the credentials are chosen as
/// `spec_select_auth` says.
pub fn build_client(cfg: &FreshRssConfig) -> (r: Result<GReaderClient, GReaderSetupError>)
    ensures
        match r {
            Ok(c) => url_parse_accepts(cfg.base_url@) && c.spec_base() == parsed_url(
                cfg.base_url@,
            ) && c.spec_user_agent() == cfg.user_agent@ && spec_select_auth(cfg@) == Some(
                c.spec_auth(),
            ),
            Err(GReaderSetupError::InvalidBaseUrl(_)) => !url_parse_accepts(cfg.base_url@),
            Err(GReaderSetupError::HttpClient(e)) => url_parse_accepts(cfg.base_url@)
                && e.spec_agent() == cfg.user_agent@,
            Err(GReaderSetupError::CredentialsMissing) => url_parse_accepts(cfg.base_url@)
                && spec_select_auth(cfg@) is None,
        },
{
    let base = match parse_url(cfg.base_url.as_str()) {
        Ok(u) => u,
        Err(e) => {
            return Err(GReaderSetupError::InvalidBaseUrl(e));
        },
    };
    let client = match http_client_with_agent(cfg.user_agent.as_str()) {
        Ok(c) => c,
        Err(e) => {
            return Err(GReaderSetupError::HttpClient(e));
        },
    };
    match select_auth(cfg) {
        Some(auth) => Ok(GReaderClient { client, base, auth }),
        None => Err(GReaderSetupError::CredentialsMissing),
    }
}

/// The path of the GReader endpoint that adds a tag to an item.
pub open spec fn edit_tag_path_text() -> Seq<char> {
    "/api/greader.php/reader/api/0/edit-tag"@
}

/// The path of the GReader endpoint that adds a tag to an item.
pub fn edit_tag_path() -> (r: String)
    ensures
        r@ == edit_tag_path_text(),
{
    "/api/greader.php/reader/api/0/edit-tag".to_owned()
}

/// The form fields of an edit-tag request that puts `label` on an item: `i` is the
/// item id in decimal and `a` is `user/-/label/` followed by the label.
pub fn edit_tag_form(item_id: i64, label: &str) -> (r: (String, String))
    ensures
        r.0@ == signed_decimal(item_id as int),
        r.1@ == "user/-/label/"@ + label@,
{
    let id = i64_decimal(item_id);
    let mut tag = "user/-/label/".to_owned();
    tag.append(label);
    (string_of(id.as_slice()), tag)
}

/// The outcome of an edit-tag request answered with `status`: success for a 2xx
/// status, otherwise an error saying `greader_edit_tag_error: ` and the status as
/// it is displayed (`status_text`).
pub fn edit_tag_outcome(status: u16, status_text: &str) -> (r: Result<(), String>)
    ensures
        r.is_ok() == crate::spec_is_success(status),
        r matches Err(m) ==> m@ == "greader_edit_tag_error: "@ + status_text@,
{
    if crate::is_success(status) {
        Ok(())
    } else {
        let mut m = "greader_edit_tag_error: ".to_owned();
        m.append(status_text);
        Err(m)
    }
}

} // verus!
