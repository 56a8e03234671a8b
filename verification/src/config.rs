//! Configuration from environment variables.
use crate::text::{
    decimal, digits_are_read_as_their_number, digits_value, i32_of, parse_i32, parse_u64, push_decimal, push_signed_decimal, signed_decimal,
    u64_of,
};
use vstd::prelude::*;

verus! {

/// Authentication method for the Gitea API.
#[derive(Debug, Clone)]
pub enum GiteaAuth {
    /// A user name and its password.
    Basic { username: String, password: String },
    /// An API token.
    Token(String),
}

/// What a [`GiteaAuth`] holds.
pub enum AuthView {
    Basic { username: Seq<char>, password: Seq<char> },
    Token(Seq<char>),
}

impl View for GiteaAuth {
    type V = AuthView;

    open spec fn view(&self) -> AuthView {
        match self {
            GiteaAuth::Basic { username, password } => AuthView::Basic {
                username: username@,
                password: password@,
            },
            GiteaAuth::Token(token) => AuthView::Token(token@),
        }
    }
}

/// Application configuration.
#[derive(Debug, Clone)]
pub struct Config {
    /// Base URL of the Gitea instance (e.g. `http://gitea-http.gitea.svc.cluster.local:3000`).
    pub gitea_url: String,
    /// Authentication credentials for the Gitea admin API.
    pub gitea_auth: GiteaAuth,
    /// Name of the runner Deployment to scale.
    pub runner_deployment: String,
    /// Kubernetes namespace of the runner Deployment.
    pub runner_namespace: String,
    /// Minimum replica count (floor).
    pub min_replicas: i32,
    /// Maximum replica count (ceiling).
    pub max_replicas: i32,
    /// Seconds between polling cycles.
    pub poll_interval: u64,
    /// Seconds to wait after last activity before scaling down.
    pub scale_down_delay: u64,
}

/// What a [`Config`] holds.
pub struct ConfigView {
    pub gitea_url: Seq<char>,
    pub gitea_auth: AuthView,
    pub runner_deployment: Seq<char>,
    pub runner_namespace: Seq<char>,
    pub min_replicas: int,
    pub max_replicas: int,
    pub poll_interval: nat,
    pub scale_down_delay: nat,
}

impl View for Config {
    type V = ConfigView;

    open spec fn view(&self) -> ConfigView {
        ConfigView {
            gitea_url: self.gitea_url@,
            gitea_auth: self.gitea_auth@,
            runner_deployment: self.runner_deployment@,
            runner_namespace: self.runner_namespace@,
            min_replicas: self.min_replicas as int,
            max_replicas: self.max_replicas as int,
            poll_interval: self.poll_interval as nat,
            scale_down_delay: self.scale_down_delay as nat,
        }
    }
}

/// The values of the environment variables; `None` where a variable is not set.
#[derive(Debug, Clone)]
pub struct EnvVars {
    /// `GITEA_URL`
    pub gitea_url: Option<String>,
    /// `GITEA_TOKEN`
    pub gitea_token: Option<String>,
    /// `GITEA_USERNAME`
    pub gitea_username: Option<String>,
    /// `GITEA_PASSWORD`
    pub gitea_password: Option<String>,
    /// `RUNNER_DEPLOYMENT`
    pub runner_deployment: Option<String>,
    /// `RUNNER_NAMESPACE`
    pub runner_namespace: Option<String>,
    /// `MIN_REPLICAS`
    pub min_replicas: Option<String>,
    /// `MAX_REPLICAS`
    pub max_replicas: Option<String>,
    /// `POLL_INTERVAL`
    pub poll_interval: Option<String>,
    /// `SCALE_DOWN_DELAY`
    pub scale_down_delay: Option<String>,
}

/// Why the environment variables make no configuration.
#[derive(Debug, Clone, Copy, PartialEq, Eq, Structural)]
pub enum ConfigError {
    /// `GITEA_URL` is not set.
    MissingUrl,
    /// Neither `GITEA_TOKEN` nor `GITEA_USERNAME` is set.
    MissingCredentials,
    /// `GITEA_USERNAME` is set without `GITEA_PASSWORD`.
    MissingPassword,
    /// `MIN_REPLICAS` is no `i32`.
    InvalidMinReplicas,
    /// `MAX_REPLICAS` is no `i32`.
    InvalidMaxReplicas,
    /// `MIN_REPLICAS` is negative.
    NegativeMinReplicas { min: i32 },
    /// `MAX_REPLICAS` is below `MIN_REPLICAS`.
    MaxBelowMin { max: i32, min: i32 },
    /// `POLL_INTERVAL` is no `u64`.
    InvalidPollInterval,
    /// `SCALE_DOWN_DELAY` is no `u64`.
    InvalidScaleDownDelay,
}

/// The message for a configuration error.
pub open spec fn config_error_text(e: ConfigError) -> Seq<char> {
    match e {
        ConfigError::MissingUrl => "GITEA_URL environment variable is required"@,
        ConfigError::MissingCredentials =>
            "Either GITEA_TOKEN or GITEA_USERNAME+GITEA_PASSWORD must be set"@,
        ConfigError::MissingPassword =>
            "GITEA_PASSWORD is required when using GITEA_USERNAME"@,
        ConfigError::InvalidMinReplicas => "MIN_REPLICAS must be a valid integer"@,
        ConfigError::InvalidMaxReplicas => "MAX_REPLICAS must be a valid integer"@,
        ConfigError::NegativeMinReplicas { min } => "MIN_REPLICAS must be >= 0, got "@
            + signed_decimal(min as int),
        ConfigError::MaxBelowMin { max, min } => "MAX_REPLICAS ("@ + signed_decimal(max as int)
            + ") must be >= MIN_REPLICAS ("@ + signed_decimal(min as int) + ")"@,
        ConfigError::InvalidPollInterval => "POLL_INTERVAL must be a valid integer"@,
        ConfigError::InvalidScaleDownDelay => "SCALE_DOWN_DELAY must be a valid integer"@,
    }
}

impl ConfigError {
    /// The message for this error.
    pub fn message(&self) -> (r: String)
        ensures
            r@ == config_error_text(*self),
    {
        match self {
            ConfigError::MissingUrl => "GITEA_URL environment variable is required".to_string(),
            ConfigError::MissingCredentials =>
                "Either GITEA_TOKEN or GITEA_USERNAME+GITEA_PASSWORD must be set".to_string(),
            ConfigError::MissingPassword =>
                "GITEA_PASSWORD is required when using GITEA_USERNAME".to_string(),
            ConfigError::InvalidMinReplicas => "MIN_REPLICAS must be a valid integer".to_string(),
            ConfigError::InvalidMaxReplicas => "MAX_REPLICAS must be a valid integer".to_string(),
            ConfigError::NegativeMinReplicas { min } => {
                let mut out: String = "MIN_REPLICAS must be >= 0, got ".to_string();
                push_signed_decimal(&mut out, *min);
                out
            },
            ConfigError::MaxBelowMin { max, min } => {
                let mut out: String = "MAX_REPLICAS (".to_string();
                push_signed_decimal(&mut out, *max);
                out.append(") must be >= MIN_REPLICAS (");
                push_signed_decimal(&mut out, *min);
                out.append(")");
                out
            },
            ConfigError::InvalidPollInterval => "POLL_INTERVAL must be a valid integer".to_string(),
            ConfigError::InvalidScaleDownDelay =>
                "SCALE_DOWN_DELAY must be a valid integer".to_string(),
        }
    }
}

/// The value of a variable, or `default` where it is not set.
pub open spec fn var_or(var: Option<String>, default: Seq<char>) -> Seq<char> {
    match var {
        Some(value) => value@,
        None => default,
    }
}

/// The credentials that the variables give: the token where there is one, else user name and
/// password.
pub open spec fn auth_of(vars: EnvVars) -> Result<AuthView, ConfigError> {
    match (vars.gitea_token, vars.gitea_username, vars.gitea_password) {
        (Some(token), _, _) => Ok(AuthView::Token(token@)),
        (None, None, _) => Err(ConfigError::MissingCredentials),
        (None, Some(_), None) => Err(ConfigError::MissingPassword),
        (None, Some(username), Some(password)) => Ok(
            AuthView::Basic { username: username@, password: password@ },
        ),
    }
}

/// The replica bounds that the variables give, floor first.
pub open spec fn bounds_of(vars: EnvVars) -> Result<(i32, i32), ConfigError> {
    match (i32_of(var_or(vars.min_replicas, "1"@)), i32_of(var_or(vars.max_replicas, "3"@))) {
        (None, _) => Err(ConfigError::InvalidMinReplicas),
        (Some(_), None) => Err(ConfigError::InvalidMaxReplicas),
        (Some(min), Some(max)) => if min < 0 {
            Err(ConfigError::NegativeMinReplicas { min })
        } else if max < min {
            Err(ConfigError::MaxBelowMin { max, min })
        } else {
            Ok((min, max))
        },
    }
}

/// The poll interval and the cooldown, in seconds, that the variables give.
pub open spec fn delays_of(vars: EnvVars) -> Result<(u64, u64), ConfigError> {
    match (
        u64_of(var_or(vars.poll_interval, "10"@)),
        u64_of(var_or(vars.scale_down_delay, "1000"@)),
    ) {
        (None, _) => Err(ConfigError::InvalidPollInterval),
        (Some(_), None) => Err(ConfigError::InvalidScaleDownDelay),
        (Some(poll), Some(delay)) => Ok((poll, delay)),
    }
}

/// The configuration that the variables give, or the first thing that is wrong with them.
pub open spec fn config_of(vars: EnvVars) -> Result<ConfigView, ConfigError> {
    if vars.gitea_url is None {
        Err(ConfigError::MissingUrl)
    } else {
        match (auth_of(vars), bounds_of(vars), delays_of(vars)) {
            (Err(e), _, _) => Err(e),
            (Ok(_), Err(e), _) => Err(e),
            (Ok(_), Ok(_), Err(e)) => Err(e),
            (Ok(auth), Ok((min, max)), Ok((poll, delay))) => Ok(
                ConfigView {
                    gitea_url: vars.gitea_url->0@,
                    gitea_auth: auth,
                    runner_deployment: var_or(vars.runner_deployment, "gitea-actions-runner"@),
                    runner_namespace: var_or(vars.runner_namespace, "gitea"@),
                    min_replicas: min as int,
                    max_replicas: max as int,
                    poll_interval: poll as nat,
                    scale_down_delay: delay as nat,
                },
            ),
        }
    }
}

fn text_or(var: &Option<String>, default: &str) -> (r: String)
    ensures
        r@ == var_or(*var, default@),
{
    match var {
        Some(value) => value.clone(),
        None => default.to_string(),
    }
}

fn auth_from(vars: &EnvVars) -> (r: Result<GiteaAuth, ConfigError>)
    ensures
        match r {
            Ok(auth) => auth_of(*vars) == Ok::<AuthView, ConfigError>(auth@),
            Err(e) => auth_of(*vars) == Err::<AuthView, ConfigError>(e),
        },
{
    if let Some(token) = &vars.gitea_token {
        return Ok(GiteaAuth::Token(token.clone()));
    }
    match (&vars.gitea_username, &vars.gitea_password) {
        (None, _) => Err(ConfigError::MissingCredentials),
        (Some(_), None) => Err(ConfigError::MissingPassword),
        (Some(username), Some(password)) => Ok(
            GiteaAuth::Basic { username: username.clone(), password: password.clone() },
        ),
    }
}

fn bounds_from(vars: &EnvVars) -> (r: Result<(i32, i32), ConfigError>)
    ensures
        r == bounds_of(*vars),
{
    let min: i32 = match parse_i32(text_or(&vars.min_replicas, "1").as_str()) {
        Some(min) => min,
        None => return Err(ConfigError::InvalidMinReplicas),
    };
    let max: i32 = match parse_i32(text_or(&vars.max_replicas, "3").as_str()) {
        Some(max) => max,
        None => return Err(ConfigError::InvalidMaxReplicas),
    };
    if min < 0 {
        return Err(ConfigError::NegativeMinReplicas { min });
    }
    if max < min {
        return Err(ConfigError::MaxBelowMin { max, min });
    }
    Ok((min, max))
}

fn delays_from(vars: &EnvVars) -> (r: Result<(u64, u64), ConfigError>)
    ensures
        r == delays_of(*vars),
{
    let poll: u64 = match parse_u64(text_or(&vars.poll_interval, "10").as_str()) {
        Some(poll) => poll,
        None => return Err(ConfigError::InvalidPollInterval),
    };
    let delay: u64 = match parse_u64(text_or(&vars.scale_down_delay, "1000").as_str()) {
        Some(delay) => delay,
        None => return Err(ConfigError::InvalidScaleDownDelay),
    };
    Ok((poll, delay))
}

impl ConfigView {
    /// The replica bounds are in order and not negative.
    pub open spec fn well_formed(self) -> bool {
        0 <= self.min_replicas <= self.max_replicas
    }
}

/// How the summary names the credentials.
pub open spec fn auth_kind(auth: AuthView) -> Seq<char> {
    match auth {
        AuthView::Basic { username, .. } => "basic (user="@ + username + ")"@,
        AuthView::Token(_) => "token"@,
    }
}

/// The line that describes a configuration.
pub open spec fn summary_text(config: ConfigView) -> Seq<char> {
    "gitea="@ + config.gitea_url + " auth="@ + auth_kind(config.gitea_auth) + " deployment="@
        + config.runner_namespace + "/"@ + config.runner_deployment + " replicas=["@
        + signed_decimal(config.min_replicas) + ","@ + signed_decimal(config.max_replicas)
        + "] poll="@ + decimal(config.poll_interval) + "s cooldown="@ + decimal(
        config.scale_down_delay,
    ) + "s"@
}

impl Config {
    /// Loads the configuration from the values of the environment variables.
    ///
    /// Required:
    ///   - `GITEA_URL`
    ///   - One of: `GITEA_TOKEN` **or** (`GITEA_USERNAME` + `GITEA_PASSWORD`)
    ///
    /// Optional (with defaults):
    ///   - `RUNNER_DEPLOYMENT`  (default: `gitea-actions-runner`)
    ///   - `RUNNER_NAMESPACE`   (default: `gitea`)
    ///   - `MIN_REPLICAS`       (default: `1`)
    ///   - `MAX_REPLICAS`       (default: `3`)
    ///   - `POLL_INTERVAL`      (default: `10`)
    ///   - `SCALE_DOWN_DELAY`   (default: `1000`)
    pub fn from_env(vars: &EnvVars) -> (r: Result<Config, ConfigError>)
        ensures
            match r {
                Ok(config) => config_of(*vars) == Ok::<ConfigView, ConfigError>(config@)
                    && config@.well_formed(),
                Err(e) => config_of(*vars) == Err::<ConfigView, ConfigError>(e),
            },
    {
        let gitea_url: String = match &vars.gitea_url {
            Some(url) => url.clone(),
            None => return Err(ConfigError::MissingUrl),
        };
        let gitea_auth: GiteaAuth = match auth_from(vars) {
            Ok(auth) => auth,
            Err(e) => return Err(e),
        };
        let (min_replicas, max_replicas): (i32, i32) = match bounds_from(vars) {
            Ok(bounds) => bounds,
            Err(e) => return Err(e),
        };
        let (poll_interval, scale_down_delay): (u64, u64) = match delays_from(vars) {
            Ok(delays) => delays,
            Err(e) => return Err(e),
        };
        Ok(
            Config {
                gitea_url,
                gitea_auth,
                runner_deployment: text_or(&vars.runner_deployment, "gitea-actions-runner"),
                runner_namespace: text_or(&vars.runner_namespace, "gitea"),
                min_replicas,
                max_replicas,
                poll_interval,
                scale_down_delay,
            },
        )
    }

    /// Redacted summary suitable for logging at startup.
    pub fn summary(&self) -> (r: String)
        ensures
            r@ == summary_text(self@),
    {
        let mut out: String = "gitea=".to_string();
        out.append(self.gitea_url.as_str());
        out.append(" auth=");
        out.append(self.auth_kind().as_str());
        out.append(" deployment=");
        out.append(self.runner_namespace.as_str());
        out.append("/");
        out.append(self.runner_deployment.as_str());
        out.append(" replicas=[");
        push_signed_decimal(&mut out, self.min_replicas);
        out.append(",");
        push_signed_decimal(&mut out, self.max_replicas);
        out.append("] poll=");
        push_decimal(&mut out, self.poll_interval);
        out.append("s cooldown=");
        push_decimal(&mut out, self.scale_down_delay);
        out.append("s");
        out
    }

    fn auth_kind(&self) -> (r: String)
        ensures
            r@ == auth_kind(self@.gitea_auth),
    {
        match &self.gitea_auth {
            GiteaAuth::Basic { username, .. } => "basic (user=".to_string().concat(
                username.as_str(),
            ).concat(")"),
            GiteaAuth::Token(_) => "token".to_string(),
        }
    }
}

/// The configuration with another secret: another password, or another token.
pub open spec fn with_secret(config: ConfigView, secret: Seq<char>) -> ConfigView {
    ConfigView {
        gitea_auth: match config.gitea_auth {
            AuthView::Basic { username, .. } => AuthView::Basic { username, password: secret },
            AuthView::Token(_) => AuthView::Token(secret),
        },
        ..config
    }
}

/// The summary says nothing of the password or the token: with another one it reads the same.
pub proof fn summary_is_redacted(config: ConfigView, secret: Seq<char>)
    ensures
        summary_text(with_secret(config, secret)) == summary_text(config),
{
}

/// Where a token is set, user name and password play no part.
pub proof fn token_takes_precedence(
    vars: EnvVars,
    username: Option<String>,
    password: Option<String>,
)
    requires
        vars.gitea_token is Some,
    ensures
        config_of(EnvVars { gitea_username: username, gitea_password: password, ..vars })
            == config_of(vars),
        config_of(vars) matches Ok(config) ==> config.gitea_auth == AuthView::Token(
            vars.gitea_token->0@,
        ),
{
}

/// A configuration that loads has a floor that is not negative and a ceiling that is not below it.
pub proof fn loaded_bounds_are_ordered(vars: EnvVars)
    ensures
        config_of(vars) matches Ok(config) ==> config.well_formed(),
{
}

/// The number that a variable states, or `default` where it is not set; `None` where it states no
/// `i32`.
pub open spec fn i32_var(var: Option<String>, default: i32) -> Option<i32> {
    if var is Some {
        i32_of(var->0@)
    } else {
        Some(default)
    }
}

/// The number that a variable states, or `default` where it is not set; `None` where it states no
/// `u64`.
pub open spec fn u64_var(var: Option<String>, default: u64) -> Option<u64> {
    if var is Some {
        u64_of(var->0@)
    } else {
        Some(default)
    }
}

/// Whether the variables say how to reach Gitea: a URL, and a token or a user name and password.
pub open spec fn can_log_in(vars: EnvVars) -> bool {
    &&& vars.gitea_url is Some
    &&& vars.gitea_token is Some || (vars.gitea_username is Some && vars.gitea_password is Some)
}

proof fn lemma_defaults_are_numbers()
    ensures
        i32_of("1"@) == Some(1i32),
        i32_of("3"@) == Some(3i32),
        u64_of("10"@) == Some(10u64),
        u64_of("1000"@) == Some(1000u64),
{
    reveal_strlit("1");
    reveal_strlit("3");
    reveal_strlit("10");
    reveal_strlit("1000");
    reveal_with_fuel(digits_value, 5);
    digits_are_read_as_their_number("1"@);
    digits_are_read_as_their_number("3"@);
    digits_are_read_as_their_number("10"@);
    digits_are_read_as_their_number("1000"@);
}

/// The variables make a configuration exactly where they say how to reach Gitea, every number can
/// be read, and the floor is neither negative nor above the ceiling. A floor that is not stated is
/// 1, a ceiling 3, a poll interval 10 and a cooldown 1000.
pub proof fn sound_variables_are_loaded(vars: EnvVars)
    ensures
        config_of(vars) is Ok <==> can_log_in(vars) && u64_var(
            vars.poll_interval,
            10,
        ) is Some && u64_var(vars.scale_down_delay, 1000) is Some && (match (
            i32_var(vars.min_replicas, 1),
            i32_var(vars.max_replicas, 3),
        ) {
            (Some(min), Some(max)) => 0 <= min && min <= max,
            _ => false,
        }),
{
    lemma_defaults_are_numbers();
}

/// A configuration holds what the variables say: each value where it is stated, and its default
/// where it is not.
pub proof fn configuration_holds_the_variables(vars: EnvVars, config: ConfigView)
    requires
        config_of(vars) == Ok::<ConfigView, ConfigError>(config),
    ensures
        vars.gitea_url is Some && config.gitea_url == vars.gitea_url->0@,
        vars.gitea_token is Some ==> config.gitea_auth == AuthView::Token(vars.gitea_token->0@),
        vars.gitea_token is None ==> vars.gitea_username is Some && vars.gitea_password is Some
            && config.gitea_auth == (AuthView::Basic {
            username: vars.gitea_username->0@,
            password: vars.gitea_password->0@,
        }),
        vars.runner_deployment is Some ==> config.runner_deployment == vars.runner_deployment->0@,
        vars.runner_deployment is None ==> config.runner_deployment == "gitea-actions-runner"@,
        vars.runner_namespace is Some ==> config.runner_namespace == vars.runner_namespace->0@,
        vars.runner_namespace is None ==> config.runner_namespace == "gitea"@,
        i32_var(vars.min_replicas, 1) is Some && config.min_replicas == i32_var(
            vars.min_replicas,
            1,
        )->0,
        i32_var(vars.max_replicas, 3) is Some && config.max_replicas == i32_var(
            vars.max_replicas,
            3,
        )->0,
        u64_var(vars.poll_interval, 10) is Some && config.poll_interval == u64_var(
            vars.poll_interval,
            10,
        )->0,
        u64_var(vars.scale_down_delay, 1000) is Some && config.scale_down_delay == u64_var(
            vars.scale_down_delay,
            1000,
        )->0,
        0 <= config.min_replicas <= config.max_replicas,
{
    lemma_defaults_are_numbers();
}

/// Where the variables make no configuration, the error names the first thing that is wrong: the
/// URL, then the credentials, then the numbers of the bounds, then the bounds, then the delays.
pub proof fn first_fault_is_named(vars: EnvVars, e: ConfigError)
    ensures
        config_of(vars) == Err::<ConfigView, ConfigError>(e) ==> match e {
            ConfigError::MissingUrl => vars.gitea_url is None,
            ConfigError::MissingCredentials => vars.gitea_url is Some && vars.gitea_token is None
                && vars.gitea_username is None,
            ConfigError::MissingPassword => vars.gitea_url is Some && vars.gitea_token is None
                && vars.gitea_username is Some && vars.gitea_password is None,
            ConfigError::InvalidMinReplicas => can_log_in(vars) && i32_var(
                vars.min_replicas,
                1,
            ) is None,
            ConfigError::InvalidMaxReplicas => can_log_in(vars) && i32_var(
                vars.min_replicas,
                1,
            ) is Some && i32_var(vars.max_replicas, 3) is None,
            ConfigError::NegativeMinReplicas { min } => can_log_in(vars) && i32_var(
                vars.min_replicas,
                1,
            ) == Some(min) && i32_var(vars.max_replicas, 3) is Some && min < 0,
            ConfigError::MaxBelowMin { max, min } => can_log_in(vars) && i32_var(
                vars.min_replicas,
                1,
            ) == Some(min) && i32_var(vars.max_replicas, 3) == Some(max) && 0 <= min && max < min,
            ConfigError::InvalidPollInterval => can_log_in(vars) && u64_var(
                vars.poll_interval,
                10,
            ) is None && i32_var(vars.min_replicas, 1) is Some && i32_var(
                vars.max_replicas,
                3,
            ) is Some && 0 <= i32_var(vars.min_replicas, 1)->0 <= i32_var(vars.max_replicas, 3)->0,
            ConfigError::InvalidScaleDownDelay => can_log_in(vars) && u64_var(
                vars.poll_interval,
                10,
            ) is Some && u64_var(vars.scale_down_delay, 1000) is None && i32_var(
                vars.min_replicas,
                1,
            ) is Some && i32_var(vars.max_replicas, 3) is Some && 0 <= i32_var(
                vars.min_replicas,
                1,
            )->0 <= i32_var(vars.max_replicas, 3)->0,
        },
{
    lemma_defaults_are_numbers();
}

/// What a configuration or credentials say is what they hold.
pub proof fn configurations_say_what_they_hold(config: Config, username: String, password: String)
    ensures
        config@.gitea_url == config.gitea_url@,
        config@.gitea_auth == config.gitea_auth@,
        config@.runner_deployment == config.runner_deployment@,
        config@.runner_namespace == config.runner_namespace@,
        config@.min_replicas == config.min_replicas,
        config@.max_replicas == config.max_replicas,
        config@.poll_interval == config.poll_interval,
        config@.scale_down_delay == config.scale_down_delay,
        config@.well_formed() <==> 0 <= config.min_replicas && config.min_replicas
            <= config.max_replicas,
        (GiteaAuth::Basic { username, password })@ == (AuthView::Basic {
            username: username@,
            password: password@,
        }),
        GiteaAuth::Token(password)@ == AuthView::Token(password@),
{
}

/// The summary has each setting once, in full, whatever it is, with the numbers in decimal
/// notation. Of the credentials it has their kind and the user name.
pub proof fn summary_has_every_setting(config: ConfigView)
    ensures
        ({
            let rest = seq![' '] + "deployment="@ + config.runner_namespace + seq!['/']
                + config.runner_deployment + " replicas=["@ + signed_decimal(config.min_replicas)
                + seq![','] + signed_decimal(config.max_replicas) + "] poll="@ + decimal(
                config.poll_interval,
            ) + "s cooldown="@ + decimal(config.scale_down_delay) + seq!['s'];
            summary_text(config) == "gitea="@ + config.gitea_url + match config.gitea_auth {
                AuthView::Token(_) => " auth=token"@,
                AuthView::Basic { username, .. } => " auth=basic (user="@ + username + seq![')'],
            } + rest
        }),
{
    reveal_strlit(" deployment=");
    reveal_strlit("deployment=");
    reveal_strlit("/");
    reveal_strlit(",");
    reveal_strlit("s");
    reveal_strlit(")");
    reveal_strlit(" auth=");
    reveal_strlit("token");
    reveal_strlit(" auth=token");
    reveal_strlit("basic (user=");
    reveal_strlit(" auth=basic (user=");
    assert(" deployment="@ =~= seq![' '] + "deployment="@);
    assert("/"@ =~= seq!['/']);
    assert(","@ =~= seq![',']);
    assert("s"@ =~= seq!['s']);
    assert(")"@ =~= seq![')']);
    assert(" auth=token"@ =~= " auth="@ + "token"@);
    assert(" auth=basic (user="@ =~= " auth="@ + "basic (user="@);
    let rest = seq![' '] + "deployment="@ + config.runner_namespace + seq!['/']
        + config.runner_deployment + " replicas=["@ + signed_decimal(config.min_replicas) + seq![',']
        + signed_decimal(config.max_replicas) + "] poll="@ + decimal(config.poll_interval)
        + "s cooldown="@ + decimal(config.scale_down_delay) + seq!['s'];
    match config.gitea_auth {
        AuthView::Token(_) => {
            assert(summary_text(config) =~= "gitea="@ + config.gitea_url + " auth=token"@ + rest);
        },
        AuthView::Basic { username, .. } => {
            assert(summary_text(config) =~= "gitea="@ + config.gitea_url + (
            " auth=basic (user="@ + username + seq![')']) + rest);
        },
    }
}

/// An error about the bounds names the bounds, whatever they are.
pub proof fn bound_errors_name_the_bounds(min: i32, max: i32)
    ensures
        config_error_text(ConfigError::NegativeMinReplicas { min })
            == "MIN_REPLICAS must be >= 0, got "@ + signed_decimal(min as int),
        config_error_text(ConfigError::MaxBelowMin { max, min }) == "MAX_REPLICAS ("@
            + signed_decimal(max as int) + ") must be >= MIN_REPLICAS ("@ + signed_decimal(
            min as int,
        ) + seq![')'],
{
    reveal_strlit(")");
    assert(")"@ =~= seq![')']);
}

} // verus!
