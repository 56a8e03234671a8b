//! What the Gitea admin API says and how it is asked.
use crate::config::{AuthView, Config, GiteaAuth};
use crate::outside::{
    base64_standard, encode_base64, fits_base64, header_value, http_status_text, is_base64_char,
    is_header_byte, is_header_text, status_text,
};
use crate::text::{decimal, numbers_read_back, push_decimal, trim_end, trimmed_end};
use vstd::prelude::*;
use vstd::utf8::{encode_utf8, is_ascii_chars, is_ascii_chars_encode_utf8};

verus! {

/// The most jobs that one page of the job list holds.
pub const PAGE_LIMIT: u64 = 50;

/// The media type that requests accept.
pub const ACCEPTED_TYPE: &'static str = "application/json";

/// The seconds after which a request is given up.
pub const REQUEST_TIMEOUT_SECS: u64 = 15;

/// One page of the job list.
#[derive(Debug)]
pub struct JobsResponse {
    /// The jobs on this page.
    pub jobs: Vec<Job>,
    /// The number of jobs on all pages.
    pub total_count: u64,
}

/// A job that is queued or in progress.
#[derive(Debug)]
pub struct Job {
    pub id: u64,
    pub status: String,
    /// The runner that works on the job; empty where there is none.
    pub runner_name: String,
    pub name: String,
}

/// A runner that is registered with Gitea.
#[derive(Debug, Clone, PartialEq, Eq)]
pub struct Runner {
    pub busy: bool,
    pub id: u64,
    pub name: String,
    pub status: String,
}

/// The list of runners.
#[derive(Debug)]
pub struct RunnersResponse {
    pub runners: Vec<Runner>,
}

/// Why a configuration makes no client.
#[derive(Debug, Clone, Copy, PartialEq, Eq, Structural)]
pub enum ClientError {
    /// The token cannot stand in an HTTP header.
    InvalidToken,
    /// User name and password cannot stand in an HTTP header.
    InvalidCredentials,
}

/// The message for a client error.
pub open spec fn client_error_text(e: ClientError) -> Seq<char> {
    match e {
        ClientError::InvalidToken => "invalid GITEA_TOKEN value"@,
        ClientError::InvalidCredentials => "invalid basic-auth credentials"@,
    }
}

impl ClientError {
    /// The message for this error.
    pub fn message(&self) -> (r: String)
        ensures
            r@ == client_error_text(*self),
    {
        match self {
            ClientError::InvalidToken => "invalid GITEA_TOKEN value".to_string(),
            ClientError::InvalidCredentials => "invalid basic-auth credentials".to_string(),
        }
    }
}

/// User name and password as they are encoded.
pub open spec fn credentials_text(username: Seq<char>, password: Seq<char>) -> Seq<char> {
    username + ":"@ + password
}

/// Whether the credentials are short enough to be encoded.
pub open spec fn credentials_fit(auth: AuthView) -> bool {
    match auth {
        AuthView::Basic { username, password } => fits_base64(
            encode_utf8(credentials_text(username, password)).len(),
        ),
        AuthView::Token(_) => true,
    }
}

/// The value of the `Authorization` header for some credentials.
pub open spec fn authorization_text(auth: AuthView) -> Seq<char> {
    match auth {
        AuthView::Basic { username, password } => "Basic "@ + base64_standard(
            encode_utf8(credentials_text(username, password)),
        ),
        AuthView::Token(token) => "token "@ + token,
    }
}

/// The error for credentials that cannot stand in a header.
pub open spec fn rejected(auth: AuthView) -> ClientError {
    match auth {
        AuthView::Basic { .. } => ClientError::InvalidCredentials,
        AuthView::Token(_) => ClientError::InvalidToken,
    }
}

impl GiteaAuth {
    /// Whether the credentials are short enough to be encoded.
    pub fn fits(&self) -> (r: bool)
        ensures
            r == credentials_fit(self@),
    {
        match self {
            GiteaAuth::Basic { username, password } => {
                let credentials: String = join_credentials(username.as_str(), password.as_str());
                credentials.as_str().as_bytes().len() <= isize::MAX as usize / 4 * 3
            },
            GiteaAuth::Token(_) => true,
        }
    }
}

fn join_credentials(username: &str, password: &str) -> (r: String)
    ensures
        r@ == credentials_text(username@, password@),
{
    username.to_string().concat(":").concat(password)
}

/// The value of the `Authorization` header for credentials that are encoded already.
pub fn basic_authorization(encoded: &str) -> (r: String)
    ensures
        r@ == "Basic "@ + encoded@,
{
    "Basic ".to_string().concat(encoded)
}

/// The value of the `Authorization` header for a token.
pub fn token_authorization(token: &str) -> (r: String)
    ensures
        r@ == "token "@ + token@,
{
    "token ".to_string().concat(token)
}

/// Encoded credentials can always stand in a header.
proof fn lemma_basic_is_header_text(encoded: Seq<char>)
    requires
        forall|i: int| 0 <= i < encoded.len() ==> is_base64_char(#[trigger] encoded[i]),
    ensures
        is_header_text("Basic "@ + encoded),
{
    reveal_strlit("Basic ");
    let text = "Basic "@ + encoded;
    assert forall|i: int| 0 <= i < text.len() implies ' ' <= #[trigger] text[i] <= 'z' by {
        if i >= 6 {
            assert(is_base64_char(encoded[i - 6]));
        }
    }
    assert(is_ascii_chars(text));
    is_ascii_chars_encode_utf8(text);
    assert forall|i: int| 0 <= i < encode_utf8(text).len() implies is_header_byte(
        #[trigger] encode_utf8(text)[i],
    ) by {
        assert(text[i] as u8 == encode_utf8(text)[i]);
    }
}

/// What a client needs to ask the Gitea admin API.
pub struct GiteaClient {
    base_url: String,
    authorization: Vec<u8>,
}

/// What a [`GiteaClient`] holds.
pub struct ClientView {
    /// The base URL, without a slash at its end.
    pub base_url: Seq<char>,
    /// The bytes of the `Authorization` header.
    pub authorization: Seq<u8>,
}

impl View for GiteaClient {
    type V = ClientView;

    closed spec fn view(&self) -> ClientView {
        ClientView { base_url: self.base_url@, authorization: self.authorization@ }
    }
}

impl GiteaClient {
    /// Builds a client from the application configuration.
    pub fn new(config: &Config) -> (r: Result<GiteaClient, ClientError>)
        requires
            credentials_fit(config@.gitea_auth),
        ensures
            r is Ok <==> is_header_text(authorization_text(config@.gitea_auth)),
            config@.gitea_auth is Basic ==> r is Ok,
            match r {
                Ok(client) => client@ == (ClientView {
                    base_url: trimmed_end(config@.gitea_url, '/'),
                    authorization: encode_utf8(authorization_text(config@.gitea_auth)),
                }),
                Err(e) => e == rejected(config@.gitea_auth),
            },
    {
        match &config.gitea_auth {
            GiteaAuth::Token(token) => GiteaClient::with_authorization(
                config.gitea_url.as_str(),
                token_authorization(token.as_str()).as_str(),
                ClientError::InvalidToken,
            ),
            GiteaAuth::Basic { username, password } => {
                let credentials: String = join_credentials(username.as_str(), password.as_str());
                let encoded: String = encode_base64(credentials.as_str().as_bytes());
                proof {
                    lemma_basic_is_header_text(encoded@);
                }
                GiteaClient::with_authorization(
                    config.gitea_url.as_str(),
                    basic_authorization(encoded.as_str()).as_str(),
                    ClientError::InvalidCredentials,
                )
            },
        }
    }

    /// Builds a client that sends the given `Authorization` header, or fails with `invalid` where
    /// the text cannot stand in a header.
    pub fn with_authorization(gitea_url: &str, authorization: &str, invalid: ClientError) -> (r:
        Result<GiteaClient, ClientError>)
        ensures
            r is Ok <==> is_header_text(authorization@),
            match r {
                Ok(client) => client@ == (ClientView {
                    base_url: trimmed_end(gitea_url@, '/'),
                    authorization: encode_utf8(authorization@),
                }),
                Err(e) => e == invalid,
            },
    {
        match header_value(authorization) {
            Ok(value) => Ok(
                GiteaClient { base_url: trim_end(gitea_url, '/'), authorization: value },
            ),
            Err(_) => Err(invalid),
        }
    }

    /// The base URL, without a slash at its end.
    pub fn base_url(&self) -> (r: &str)
        ensures
            r@ == self@.base_url,
    {
        self.base_url.as_str()
    }

    /// The value of the `Authorization` header.
    pub fn authorization(&self) -> (r: &[u8])
        ensures
            r@ == self@.authorization,
    {
        self.authorization.as_slice()
    }

    /// The URL of one page of the list of queued and running jobs.
    pub fn jobs_url(&self, page: u64) -> (r: String)
        ensures
            r@ == jobs_url_text(self@.base_url, page as nat),
    {
        let mut url: String = self.base_url.clone();
        url.append("/api/v1/admin/actions/jobs?status=queued&status=in_progress&limit=");
        push_decimal(&mut url, PAGE_LIMIT);
        url.append("&page=");
        push_decimal(&mut url, page);
        url
    }

    /// The URL of the list of runners.
    pub fn runners_url(&self) -> (r: String)
        ensures
            r@ == runners_url_text(self@.base_url),
    {
        self.base_url.clone().concat("/api/v1/admin/actions/runners")
    }

    /// The URL of one runner.
    pub fn runner_url(&self, runner_id: u64) -> (r: String)
        ensures
            r@ == runner_url_text(self@.base_url, runner_id as nat),
    {
        let mut url: String = self.base_url.clone();
        url.append("/api/v1/admin/actions/runners/");
        push_decimal(&mut url, runner_id);
        url
    }
}

/// The URL of one page of the list of queued and running jobs.
pub open spec fn jobs_url_text(base_url: Seq<char>, page: nat) -> Seq<char> {
    base_url + "/api/v1/admin/actions/jobs?status=queued&status=in_progress&limit="@ + decimal(
        PAGE_LIMIT as nat,
    ) + "&page="@ + decimal(page)
}

/// The URL of the list of runners.
pub open spec fn runners_url_text(base_url: Seq<char>) -> Seq<char> {
    base_url + "/api/v1/admin/actions/runners"@
}

/// The URL of one runner.
pub open spec fn runner_url_text(base_url: Seq<char>, runner_id: nat) -> Seq<char> {
    base_url + "/api/v1/admin/actions/runners/"@ + decimal(runner_id)
}

/// A request to the Gitea admin API.
#[derive(Debug, Clone, Copy, PartialEq, Eq, Structural)]
pub enum Endpoint {
    /// Get a page of the job list.
    Jobs,
    /// Get the list of runners.
    Runners,
    /// Delete a runner.
    DeleteRunner,
}

/// Whether a reply with this HTTP status answers the request.
pub open spec fn is_accepted(endpoint: Endpoint, status: u16) -> bool {
    match endpoint {
        Endpoint::Jobs | Endpoint::Runners => 200 <= status < 300,
        Endpoint::DeleteRunner => status == 204,
    }
}

/// How error messages name the API of a request.
pub open spec fn api_name(endpoint: Endpoint) -> Seq<char> {
    match endpoint {
        Endpoint::Jobs => "Gitea API"@,
        Endpoint::Runners => "Gitea runners API"@,
        Endpoint::DeleteRunner => "Gitea delete runner API"@,
    }
}

/// The message for a reply that is not accepted.
pub open spec fn rejection_text(
    endpoint: Endpoint,
    status: Seq<char>,
    body: Seq<char>,
) -> Seq<char> {
    api_name(endpoint) + " returned "@ + status + ": "@ + body
}

impl Endpoint {
    /// Whether a reply with this HTTP status answers the request.
    pub fn accepts(&self, status: u16) -> (r: bool)
        ensures
            r == is_accepted(*self, status),
    {
        match self {
            Endpoint::Jobs | Endpoint::Runners => 200 <= status && status < 300,
            Endpoint::DeleteRunner => status == 204,
        }
    }

    /// The message for a reply that is not accepted.
    pub fn rejection(&self, status: u16, body: &str) -> (r: String)
        requires
            100 <= status <= 999,
        ensures
            r@ == rejection_text(*self, http_status_text(status), body@),
    {
        self.rejection_with(status_text(status).as_str(), body)
    }

    /// The message for a reply that is not accepted, where the status is printed already.
    pub fn rejection_with(&self, status: &str, body: &str) -> (r: String)
        ensures
            r@ == rejection_text(*self, status@, body@),
    {
        self.name().concat(" returned ").concat(status).concat(": ").concat(body)
    }

    fn name(&self) -> (r: String)
        ensures
            r@ == api_name(*self),
    {
        match self {
            Endpoint::Jobs => "Gitea API".to_string(),
            Endpoint::Runners => "Gitea runners API".to_string(),
            Endpoint::DeleteRunner => "Gitea delete runner API".to_string(),
        }
    }
}

/// Slashes at the end of the configured URL change nothing, and none of them is doubled in the
/// URL of a request.
pub proof fn trailing_slashes_do_not_matter(gitea_url: Seq<char>)
    ensures
        trimmed_end(gitea_url.push('/'), '/') == trimmed_end(gitea_url, '/'),
        trimmed_end(gitea_url, '/').len() > 0 ==> trimmed_end(gitea_url, '/').last() != '/',
        trimmed_end(gitea_url, '/').is_prefix_of(gitea_url),
    decreases gitea_url.len(),
{
    assert(gitea_url.push('/').drop_last() =~= gitea_url);
    if gitea_url.len() > 0 && gitea_url.last() == '/' {
        trailing_slashes_do_not_matter(gitea_url.drop_last());
    }
}

/// Lists are accepted with any status of success, a deletion only with "no content".
pub proof fn accepted_statuses_are_those_of_success(status: u16)
    ensures
        is_accepted(Endpoint::Jobs, status) <==> status / 100 == 2,
        is_accepted(Endpoint::Runners, status) <==> status / 100 == 2,
        is_accepted(Endpoint::DeleteRunner, status) <==> status == 204,
{
}

/// A page of the job list is asked for by its number, and a runner by its identifier under the URL
/// of the list of runners. No two pages, and no two runners, have the same URL.
pub proof fn requests_name_what_is_asked_for(base_url: Seq<char>, n: u64, other: u64)
    ensures
        jobs_url_text(base_url, n as nat) == base_url
            + "/api/v1/admin/actions/jobs?status=queued&status=in_progress&limit=50&page="@
            + decimal(n as nat),
        runners_url_text(base_url) == base_url + "/api/v1/admin/actions/runners"@,
        runner_url_text(base_url, n as nat) == runners_url_text(base_url) + seq!['/'] + decimal(
            n as nat,
        ),
        jobs_url_text(base_url, n as nat) == jobs_url_text(base_url, other as nat) ==> n == other,
        runner_url_text(base_url, n as nat) == runner_url_text(base_url, other as nat) ==> n
            == other,
{
    reveal_strlit("/api/v1/admin/actions/jobs?status=queued&status=in_progress&limit=");
    reveal_strlit("/api/v1/admin/actions/jobs?status=queued&status=in_progress&limit=50&page=");
    reveal_strlit("&page=");
    reveal_strlit("/api/v1/admin/actions/runners");
    reveal_strlit("/api/v1/admin/actions/runners/");
    reveal_with_fuel(decimal, 3);
    let list = "/api/v1/admin/actions/jobs?status=queued&status=in_progress&limit=50&page="@;
    assert(list =~= "/api/v1/admin/actions/jobs?status=queued&status=in_progress&limit="@
        + decimal(50) + "&page="@);
    let one = "/api/v1/admin/actions/runners/"@;
    assert(one =~= "/api/v1/admin/actions/runners"@ + seq!['/']);
    assert forall|k: u64| #[trigger]
        jobs_url_text(base_url, k as nat) =~= base_url + list + decimal(k as nat) by {}
    assert(runner_url_text(base_url, n as nat) =~= runners_url_text(base_url) + seq!['/'] + decimal(
        n as nat,
    ));
    numbers_read_back(n, 0);
    numbers_read_back(other, 0);
    if jobs_url_text(base_url, n as nat) == jobs_url_text(base_url, other as nat) {
        let start = (base_url + list).len() as int;
        assert(jobs_url_text(base_url, n as nat) =~= base_url + list + decimal(n as nat));
        assert(jobs_url_text(base_url, other as nat) =~= base_url + list + decimal(other as nat));
        assert((base_url + list + decimal(n as nat)).skip(start) =~= decimal(n as nat));
        assert((base_url + list + decimal(other as nat)).skip(start) =~= decimal(other as nat));
    }
    if runner_url_text(base_url, n as nat) == runner_url_text(base_url, other as nat) {
        let start = (base_url + one).len() as int;
        assert((base_url + one + decimal(n as nat)).skip(start) =~= decimal(n as nat));
        assert((base_url + one + decimal(other as nat)).skip(start) =~= decimal(other as nat));
    }
}

/// A token is sent as it is. A user name and a password, of any length, are joined by a colon and
/// sent encoded. What cannot stand in a header is refused by its kind.
pub proof fn credentials_are_sent_in_full(token: Seq<char>, username: Seq<char>, password: Seq<char>)
    ensures
        authorization_text(AuthView::Token(token)) == "token "@ + token,
        authorization_text(AuthView::Basic { username, password }) == "Basic "@ + base64_standard(
            encode_utf8(username + seq![':'] + password),
        ),
        credentials_fit(AuthView::Token(token)),
        credentials_fit(AuthView::Basic { username, password }) <==> fits_base64(
            encode_utf8(username + seq![':'] + password).len(),
        ),
        rejected(AuthView::Token(token)) == ClientError::InvalidToken,
        rejected(AuthView::Basic { username, password }) == ClientError::InvalidCredentials,
{
    reveal_strlit(":");
    assert(":"@ =~= seq![':']);
}

/// A refused reply is reported by the API that was asked, its status and its whole body.
pub proof fn rejections_quote_the_reply(status: Seq<char>, body: Seq<char>)
    ensures
        rejection_text(Endpoint::Jobs, status, body) == "Gitea API returned "@ + status + ": "@
            + body,
        rejection_text(Endpoint::Runners, status, body) == "Gitea runners API returned "@ + status
            + ": "@ + body,
        rejection_text(Endpoint::DeleteRunner, status, body)
            == "Gitea delete runner API returned "@ + status + ": "@ + body,
{
    reveal_strlit("Gitea API");
    reveal_strlit("Gitea runners API");
    reveal_strlit("Gitea delete runner API");
    reveal_strlit(" returned ");
    reveal_strlit("Gitea API returned ");
    reveal_strlit("Gitea runners API returned ");
    reveal_strlit("Gitea delete runner API returned ");
    assert("Gitea API returned "@ =~= "Gitea API"@ + " returned "@);
    assert("Gitea runners API returned "@ =~= "Gitea runners API"@ + " returned "@);
    assert("Gitea delete runner API returned "@ =~= "Gitea delete runner API"@ + " returned "@);
}

/// A text can stand in a header exactly where none of its bytes is a control character other than
/// the tab, however long it is. Credentials can be encoded as long as four characters for each
/// three bytes begun fit in one allocation.
pub proof fn headers_take_all_but_control_characters(text: Seq<char>, len: nat)
    ensures
        is_header_text(text) <==> !exists|i: int|
            {
                &&& 0 <= i < encode_utf8(text).len()
                &&& (#[trigger] encode_utf8(text)[i] < 32 || encode_utf8(text)[i] == 127)
                &&& encode_utf8(text)[i] != 9
            },
        fits_base64(len) <==> 4 * ((len + 2) / 3) <= isize::MAX,
{
    assert forall|i: int| 0 <= i < encode_utf8(text).len() implies (is_header_byte(
        #[trigger] encode_utf8(text)[i],
    ) <==> !((encode_utf8(text)[i] < 32 || encode_utf8(text)[i] == 127) && encode_utf8(text)[i]
        != 9)) by {}
}

/// What every request keeps to: a page has up to 50 jobs, the reply is to be JSON, and it is given
/// up after 15 seconds.
pub proof fn requests_keep_to_limits()
    ensures
        PAGE_LIMIT == 50,
        REQUEST_TIMEOUT_SECS == 15,
        ACCEPTED_TYPE@ == "application/json"@,
{
}

} // verus!
