use gitea_autoscaler::config::{Config, ConfigError, EnvVars, GiteaAuth};

fn vars() -> EnvVars {
    EnvVars {
        gitea_url: Some("http://gitea:3000".to_string()),
        gitea_token: Some("abc".to_string()),
        gitea_username: None,
        gitea_password: None,
        runner_deployment: None,
        runner_namespace: None,
        min_replicas: None,
        max_replicas: None,
        poll_interval: None,
        scale_down_delay: None,
    }
}

fn text(s: &str) -> Option<String> {
    Some(s.to_string())
}

fn error(vars: &EnvVars) -> ConfigError {
    match Config::from_env(vars) {
        Ok(config) => panic!("unexpected configuration: {:?}", config),
        Err(e) => e,
    }
}

#[test]
fn defaults_are_used() {
    let config = Config::from_env(&vars()).unwrap();
    assert_eq!(config.gitea_url, "http://gitea:3000");
    assert!(matches!(&config.gitea_auth, GiteaAuth::Token(token) if token == "abc"));
    assert_eq!(config.runner_deployment, "gitea-actions-runner");
    assert_eq!(config.runner_namespace, "gitea");
    assert_eq!(config.min_replicas, 1);
    assert_eq!(config.max_replicas, 3);
    assert_eq!(config.poll_interval, 10);
    assert_eq!(config.scale_down_delay, 1000);
}

#[test]
fn all_variables_are_read() {
    let config = Config::from_env(&EnvVars {
        gitea_url: text("https://git.example/"),
        gitea_token: None,
        gitea_username: text("bot"),
        gitea_password: text("pw"),
        runner_deployment: text("runner"),
        runner_namespace: text("ci"),
        min_replicas: text("0"),
        max_replicas: text("+12"),
        poll_interval: text("5"),
        scale_down_delay: text("0060"),
    })
    .unwrap();
    assert_eq!(config.gitea_url, "https://git.example/");
    assert!(matches!(
        &config.gitea_auth,
        GiteaAuth::Basic { username, password } if username == "bot" && password == "pw"
    ));
    assert_eq!(config.runner_deployment, "runner");
    assert_eq!(config.runner_namespace, "ci");
    assert_eq!(config.min_replicas, 0);
    assert_eq!(config.max_replicas, 12);
    assert_eq!(config.poll_interval, 5);
    assert_eq!(config.scale_down_delay, 60);
}

#[test]
fn token_wins_over_basic_auth() {
    let config = Config::from_env(&EnvVars {
        gitea_username: text("bot"),
        gitea_password: text("pw"),
        ..vars()
    })
    .unwrap();
    assert!(matches!(&config.gitea_auth, GiteaAuth::Token(token) if token == "abc"));
}

#[test]
fn each_error_has_its_input_and_message() {
    let cases: Vec<(EnvVars, ConfigError, &str)> = vec![
        (
            EnvVars { gitea_url: None, gitea_token: None, ..vars() },
            ConfigError::MissingUrl,
            "GITEA_URL environment variable is required",
        ),
        (
            EnvVars { gitea_token: None, gitea_password: text("pw"), ..vars() },
            ConfigError::MissingCredentials,
            "Either GITEA_TOKEN or GITEA_USERNAME+GITEA_PASSWORD must be set",
        ),
        (
            EnvVars { gitea_token: None, gitea_username: text("bot"), ..vars() },
            ConfigError::MissingPassword,
            "GITEA_PASSWORD is required when using GITEA_USERNAME",
        ),
        (
            EnvVars { min_replicas: text("x"), max_replicas: text("y"), ..vars() },
            ConfigError::InvalidMinReplicas,
            "MIN_REPLICAS must be a valid integer",
        ),
        (
            EnvVars { min_replicas: text("-1"), max_replicas: text(" 3"), ..vars() },
            ConfigError::InvalidMaxReplicas,
            "MAX_REPLICAS must be a valid integer",
        ),
        (
            EnvVars { min_replicas: text("-1"), ..vars() },
            ConfigError::NegativeMinReplicas { min: -1 },
            "MIN_REPLICAS must be >= 0, got -1",
        ),
        (
            EnvVars { min_replicas: text("5"), max_replicas: text("-4"), ..vars() },
            ConfigError::MaxBelowMin { max: -4, min: 5 },
            "MAX_REPLICAS (-4) must be >= MIN_REPLICAS (5)",
        ),
        (
            EnvVars { poll_interval: text("-1"), scale_down_delay: text(""), ..vars() },
            ConfigError::InvalidPollInterval,
            "POLL_INTERVAL must be a valid integer",
        ),
        (
            EnvVars { scale_down_delay: text("18446744073709551616"), ..vars() },
            ConfigError::InvalidScaleDownDelay,
            "SCALE_DOWN_DELAY must be a valid integer",
        ),
    ];
    for (vars, expected, message) in cases {
        let e = error(&vars);
        assert_eq!(e, expected);
        assert_eq!(e.message(), message);
    }
}

#[test]
fn summary_of_a_token_configuration() {
    let config = Config::from_env(&vars()).unwrap();
    assert_eq!(
        config.summary(),
        "gitea=http://gitea:3000 auth=token deployment=gitea/gitea-actions-runner \
         replicas=[1,3] poll=10s cooldown=1000s"
    );
}

#[test]
fn summary_of_a_basic_configuration_hides_the_password() {
    let with_password = |password: &str| {
        Config::from_env(&EnvVars {
            gitea_token: None,
            gitea_username: text("bot"),
            gitea_password: text(password),
            max_replicas: text("2147483647"),
            poll_interval: text("18446744073709551615"),
            ..vars()
        })
        .unwrap()
        .summary()
    };
    assert_eq!(
        with_password("pw"),
        "gitea=http://gitea:3000 auth=basic (user=bot) deployment=gitea/gitea-actions-runner \
         replicas=[1,2147483647] poll=18446744073709551615s cooldown=1000s"
    );
    assert_eq!(with_password("pw"), with_password("another"));
}
