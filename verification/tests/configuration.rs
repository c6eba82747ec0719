use gitlab_provider::provider::{
    default_env_var, default_max, default_use_ssh, listing_url, public_gitlab_url, ProviderError,
    SelfGitlabProvider,
};
use gitlab_provider::fetch::Provider;
use gitlab_provider::text::{decimal_text, has_trailing_separator, join_path};

fn acme(name: &str) -> SelfGitlabProvider {
    SelfGitlabProvider::new(
        name.to_string(),
        "https://gitlab.example.com".to_string(),
        "/tmp/repos".to_string(),
        "ACME_TOKEN".to_string(),
        3,
        true,
    )
}

fn token() -> Option<String> {
    Some("s3cr3t".to_string())
}

#[test]
fn defaults_are_the_documented_ones() {
    assert_eq!(public_gitlab_url(), "https://gitlab.com");
    assert_eq!(default_env_var(), "SELF_GITLAB_TOKEN");
    assert_eq!(default_max(), 20);
    assert!(default_use_ssh());
}

#[test]
fn with_defaults_fills_variable_limit_and_transport() {
    let p = SelfGitlabProvider::with_defaults(
        "Acme".to_string(),
        public_gitlab_url(),
        "/srv".to_string(),
    );
    assert_eq!(p.name, "Acme");
    assert_eq!(p.url, "https://gitlab.com");
    assert_eq!(p.path, "/srv");
    assert_eq!(p.env_var, "SELF_GITLAB_TOKEN");
    assert_eq!(p.max, 20);
    assert!(p.use_ssh);
}

#[test]
fn new_keeps_every_part() {
    let p = acme("Acme/Org");
    assert_eq!(p.name, "Acme/Org");
    assert_eq!(p.url, "https://gitlab.example.com");
    assert_eq!(p.path, "/tmp/repos");
    assert_eq!(p.env_var, "ACME_TOKEN");
    assert_eq!(p.max, 3);
    assert!(p.use_ssh);
}

#[test]
fn configuration_with_token_and_plain_name_is_accepted() {
    let p = acme("Acme/Org");
    assert!(p.correctly_configured(&token()));
    assert_eq!(p.check_configuration(&token()), Ok(()));
    assert!(p.diagnostics(&token()).is_empty());
}

#[test]
fn configuration_without_token_is_refused() {
    let p = acme("Acme/Org");
    assert!(!p.correctly_configured(&None));
    assert_eq!(p.check_configuration(&None), Err(ProviderError::MissingCredential));
    assert_eq!(
        p.diagnostics(&None),
        vec![
            "Error: ACME_TOKEN environment variable is not defined".to_string(),
            "Create a personal access token here:".to_string(),
            "https://gitlab.example.com/profile/personal_access_tokens".to_string(),
            "Set an environment variable called ACME_TOKEN with the value".to_string(),
        ]
    );
}

#[test]
fn name_with_trailing_separator_is_refused_with_a_token() {
    let p = acme("acme/");
    assert!(!p.correctly_configured(&token()));
    assert_eq!(p.check_configuration(&token()), Err(ProviderError::InvalidConfiguration));
    assert_eq!(
        p.diagnostics(&token()),
        vec![
            "Error: Ensure that names do not end in forward slashes".to_string(),
            "You specified: acme/".to_string(),
        ]
    );
}

#[test]
fn name_with_trailing_separator_is_refused_without_a_token() {
    let p = acme("acme/");
    assert!(!p.correctly_configured(&None));
    assert_eq!(p.check_configuration(&None), Err(ProviderError::MissingCredential));
    assert_eq!(p.diagnostics(&None).len(), 4);
}

#[test]
fn separator_inside_a_name_is_accepted() {
    assert!(acme("a/b/c").correctly_configured(&token()));
    assert!(!acme("/").correctly_configured(&token()));
    assert!(acme("").correctly_configured(&token()));
}

#[test]
fn trailing_separator_is_found_at_the_end_only() {
    assert!(has_trailing_separator("a/"));
    assert!(has_trailing_separator("/"));
    assert!(has_trailing_separator("a//"));
    assert!(!has_trailing_separator(""));
    assert!(!has_trailing_separator("/a"));
    assert!(!has_trailing_separator("a/b"));
    assert!(!has_trailing_separator("caf\u{e9}"));
    assert!(has_trailing_separator("caf\u{e9}/"));
}

#[test]
fn missing_credential_message_names_the_variable() {
    assert_eq!(
        acme("acme").missing_credential_message(),
        "Missing ACME_TOKEN environment variable"
    );
}

#[test]
fn description_shows_the_name_in_lower_case() {
    assert_eq!(
        acme("Acme/Org").describe(),
        "SelfGitlab user/group acme/org at https://gitlab.example.com in directory /tmp/repos, \
         using the token stored in ACME_TOKEN"
    );
}

#[test]
fn description_takes_the_namespace_as_given() {
    assert_eq!(
        acme("Acme/Org").describe_as("Other"),
        "SelfGitlab user/group Other at https://gitlab.example.com in directory /tmp/repos, \
         using the token stored in ACME_TOKEN"
    );
}

#[test]
fn namespace_is_the_name_in_lower_case() {
    assert_eq!(acme("Acme/Org").namespace(), "acme/org");
    assert_eq!(acme("already-lower").namespace(), "already-lower");
    assert_eq!(acme("\u{c9}COLE").namespace(), "\u{e9}cole");
}

#[test]
fn listing_url_has_group_and_page() {
    assert_eq!(
        listing_url("https://gitlab.example.com", "acme/org", 1),
        "https://gitlab.example.com/api/v4/groups/acme/org/projects?page=1"
    );
    assert_eq!(
        listing_url("http://h", "g", 120),
        "http://h/api/v4/groups/g/projects?page=120"
    );
}

#[test]
fn decimal_text_of_small_and_large_numbers() {
    assert_eq!(decimal_text(0), "0");
    assert_eq!(decimal_text(7), "7");
    assert_eq!(decimal_text(10), "10");
    assert_eq!(decimal_text(109), "109");
    assert_eq!(decimal_text(1234567890), "1234567890");
    assert_eq!(decimal_text(u64::MAX), "18446744073709551615");
}

#[test]
fn join_path_puts_one_separator_between() {
    assert_eq!(join_path("/tmp/repos", "acme/org/tool"), "/tmp/repos/acme/org/tool");
    assert_eq!(join_path("", "a"), "/a");
    assert_eq!(join_path("a", ""), "a/");
}

#[test]
fn join_path_keeps_the_separators_it_is_given() {
    assert_eq!(join_path("/tmp/", "a"), "/tmp//a");
    assert_eq!(join_path("/tmp", "/a"), "/tmp//a");
}
