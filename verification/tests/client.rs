use gitea_autoscaler::config::{Config, GiteaAuth};
use gitea_autoscaler::gitea::{
    basic_authorization, token_authorization, ClientError, Endpoint, GiteaClient,
};

fn config(url: &str, auth: GiteaAuth) -> Config {
    Config {
        gitea_url: url.to_string(),
        gitea_auth: auth,
        runner_deployment: "runner".to_string(),
        runner_namespace: "gitea".to_string(),
        min_replicas: 1,
        max_replicas: 3,
        poll_interval: 10,
        scale_down_delay: 1000,
    }
}

fn token(token: &str) -> GiteaAuth {
    GiteaAuth::Token(token.to_string())
}

fn basic(username: &str, password: &str) -> GiteaAuth {
    GiteaAuth::Basic { username: username.to_string(), password: password.to_string() }
}

fn client(url: &str, auth: GiteaAuth) -> Result<GiteaClient, ClientError> {
    let config = config(url, auth);
    assert!(config.gitea_auth.fits());
    GiteaClient::new(&config)
}

#[test]
fn token_header() {
    let client = client("http://gitea", token("abc123")).ok().unwrap();
    assert_eq!(client.authorization(), b"token abc123");
}

#[test]
fn basic_header_is_encoded() {
    let client = client("http://gitea", basic("Aladdin", "open sesame")).ok().unwrap();
    assert_eq!(client.authorization(), b"Basic QWxhZGRpbjpvcGVuIHNlc2FtZQ==");
}

#[test]
fn basic_header_takes_any_credentials() {
    let client = client("http://gitea", basic("a\n", "\u{7f}\u{e9}")).ok().unwrap();
    assert_eq!(client.authorization(), b"Basic YQo6f8Op");
}

#[test]
fn token_that_is_no_header_is_rejected() {
    for bad in ["a\nb", "a\rb", "\u{0}", "\u{7f}"] {
        let e = client("http://gitea", token(bad)).err().unwrap();
        assert_eq!(e, ClientError::InvalidToken);
        assert_eq!(e.message(), "invalid GITEA_TOKEN value");
    }
    for good in ["", "a\tb", "a b~", "\u{e9}"] {
        assert!(client("http://gitea", token(good)).is_ok());
    }
}

#[test]
fn given_header_that_is_no_header_is_rejected() {
    let e = GiteaClient::with_authorization("http://gitea", "Basic \n", ClientError::InvalidCredentials)
        .err()
        .unwrap();
    assert_eq!(e, ClientError::InvalidCredentials);
    assert_eq!(e.message(), "invalid basic-auth credentials");
}

#[test]
fn authorization_texts() {
    assert_eq!(basic_authorization("YTpi"), "Basic YTpi");
    assert_eq!(token_authorization("t"), "token t");
}

#[test]
fn slashes_at_the_end_of_the_url_do_not_matter() {
    for url in ["http://gitea:3000", "http://gitea:3000/", "http://gitea:3000///"] {
        let client = client(url, token("t")).ok().unwrap();
        assert_eq!(client.base_url(), "http://gitea:3000");
        assert_eq!(
            client.jobs_url(12),
            "http://gitea:3000/api/v1/admin/actions/jobs?status=queued&status=in_progress&limit=50&page=12"
        );
        assert_eq!(client.runners_url(), "http://gitea:3000/api/v1/admin/actions/runners");
        assert_eq!(client.runner_url(7), "http://gitea:3000/api/v1/admin/actions/runners/7");
    }
}

#[test]
fn accepted_statuses() {
    for endpoint in [Endpoint::Jobs, Endpoint::Runners] {
        assert!(endpoint.accepts(200));
        assert!(endpoint.accepts(299));
        assert!(!endpoint.accepts(199));
        assert!(!endpoint.accepts(300));
    }
    assert!(Endpoint::DeleteRunner.accepts(204));
    assert!(!Endpoint::DeleteRunner.accepts(200));
    assert!(!Endpoint::DeleteRunner.accepts(404));
}

#[test]
fn rejections_name_status_and_body() {
    assert_eq!(Endpoint::Jobs.rejection(404, "gone"), "Gitea API returned 404 Not Found: gone");
    assert_eq!(
        Endpoint::Runners.rejection(500, ""),
        "Gitea runners API returned 500 Internal Server Error: "
    );
    assert_eq!(
        Endpoint::DeleteRunner.rejection(200, "{}"),
        "Gitea delete runner API returned 200 OK: {}"
    );
    assert_eq!(
        Endpoint::Jobs.rejection(599, "x"),
        "Gitea API returned 599 <unknown status code>: x"
    );
    assert_eq!(Endpoint::Jobs.rejection_with("418 tea", "x"), "Gitea API returned 418 tea: x");
}
