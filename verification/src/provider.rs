//! The configuration of the provider, its checks and the texts it produces.

use crate::text::{decimal, decimal_text, ends_with_separator, has_trailing_separator, lowercase, lowercase_of};
use vstd::prelude::*;
use vstd::string::*;

verus! {

/// Why a check or a fetch did not succeed.
#[derive(Debug, Clone, Copy, PartialEq, Eq, Structural)]
pub enum ProviderError {
    /// No credential was supplied.
    MissingCredential,
    /// The name of the group ends with a path separator.
    InvalidConfiguration,
    /// The remote did not answer, or answered with a failure status.
    RemoteRequestFailed,
    /// The remote's answer is not a list of entries.
    RemoteDecodeFailed,
}

/// What a [`SelfGitlabProvider`] holds, as plain values.
pub ghost struct ProviderView {
    pub name: Seq<char>,
    pub url: Seq<char>,
    pub path: Seq<char>,
    pub env_var: Seq<char>,
    pub max: nat,
    pub use_ssh: bool,
}

/// A GitLab group on some instance, the directory to clone it into, and how
/// to reach it.
#[derive(Debug)]
pub struct SelfGitlabProvider {
    /// The name of the group or namespace. It can include slashes.
    pub name: String,
    /// The root URL of the instance.
    pub url: String,
    /// The directory below which the repositories are cloned.
    pub path: String,
    /// The name of the environment variable that holds the credential.
    pub env_var: String,
    /// The number of repositories returned at most.
    pub max: usize,
    /// Whether repositories are cloned over SSH rather than HTTP.
    pub use_ssh: bool,
}

impl View for SelfGitlabProvider {
    type V = ProviderView;

    open spec fn view(&self) -> ProviderView {
        ProviderView {
            name: self.name@,
            url: self.url@,
            path: self.path@,
            env_var: self.env_var@,
            max: self.max as nat,
            use_ssh: self.use_ssh,
        }
    }
}

/// The views of a sequence of strings, in order.
pub open spec fn texts(lines: Seq<String>) -> Seq<Seq<char>> {
    lines.map_values(|s: String| s@)
}

/// The root URL of the public instance.
pub fn public_gitlab_url() -> (url: String)
    ensures
        url@ == "https://gitlab.com"@,
{
    String::from_str("https://gitlab.com")
}

/// The environment variable that holds the credential unless another is named.
pub fn default_env_var() -> (name: String)
    ensures
        name@ == "SELF_GITLAB_TOKEN"@,
{
    String::from_str("SELF_GITLAB_TOKEN")
}

/// The number of repositories returned at most unless another is given.
pub fn default_max() -> (max: usize)
    ensures
        max == 20,
{
    20
}

/// The transport chosen unless the configuration says otherwise: SSH.
pub fn default_use_ssh() -> (use_ssh: bool)
    ensures
        use_ssh,
{
    true
}

/// The line that names the missing variable.
pub open spec fn undefined_line(env_var: Seq<char>) -> Seq<char> {
    "Error: "@ + env_var + " environment variable is not defined"@
}

/// The line that says where a credential is made.
pub open spec fn token_page_line(url: Seq<char>) -> Seq<char> {
    url + "/profile/personal_access_tokens"@
}

/// The line that says which variable to set.
pub open spec fn set_variable_line(env_var: Seq<char>) -> Seq<char> {
    "Set an environment variable called "@ + env_var + " with the value"@
}

/// The line that repeats the name as it was given.
pub open spec fn specified_line(name: Seq<char>) -> Seq<char> {
    "You specified: "@ + name
}

/// The lines that tell a user what is wrong with a configuration and how to
/// mend it: none for one that is in order. A missing credential is reported
/// before a name that ends with a separator.
pub open spec fn diagnostic_lines(config: ProviderView, has_token: bool) -> Seq<Seq<char>> {
    if !has_token {
        seq![
            undefined_line(config.env_var),
            "Create a personal access token here:"@,
            token_page_line(config.url),
            set_variable_line(config.env_var),
        ]
    } else if ends_with_separator(config.name) {
        seq![
            "Error: Ensure that names do not end in forward slashes"@,
            specified_line(config.name),
        ]
    } else {
        Seq::empty()
    }
}

/// The message of a fetch that found no credential.
pub open spec fn missing_message(env_var: Seq<char>) -> Seq<char> {
    "Missing "@ + env_var + " environment variable"@
}

/// The sentence that describes a provider whose group is `namespace`.
pub open spec fn description(config: ProviderView, namespace: Seq<char>) -> Seq<char> {
    "SelfGitlab user/group "@ + namespace + " at "@ + config.url + " in directory "@ + config.path
        + ", using the token stored in "@ + config.env_var
}

/// The URL of page `page` of the projects of the group `namespace` on the
/// instance at `base`.
pub open spec fn listing(base: Seq<char>, namespace: Seq<char>, page: nat) -> Seq<char> {
    base + "/api/v4/groups/"@ + namespace + "/projects?page="@ + decimal(page)
}

/// Builds the URL of one page of a group's projects.
pub fn listing_url(base: &str, namespace: &str, page: u64) -> (url: String)
    ensures
        url@ == listing(base@, namespace@, page as nat),
{
    let mut url: String = String::from_str(base);
    url.append("/api/v4/groups/");
    url.append(namespace);
    url.append("/projects?page=");
    let number: String = decimal_text(page);
    url.append(number.as_str());
    url
}

impl SelfGitlabProvider {
    /// Makes a configuration from all of its parts.
    pub fn new(
        name: String,
        url: String,
        path: String,
        env_var: String,
        max: usize,
        use_ssh: bool,
    ) -> (p: SelfGitlabProvider)
        ensures
            p@ == (ProviderView {
                name: name@,
                url: url@,
                path: path@,
                env_var: env_var@,
                max: max as nat,
                use_ssh,
            }),
    {
        SelfGitlabProvider { name, url, path, env_var, max, use_ssh }
    }

    /// Makes a configuration with the default variable, limit and transport.
    pub fn with_defaults(name: String, url: String, path: String) -> (p: SelfGitlabProvider)
        ensures
            p@ == (ProviderView {
                name: name@,
                url: url@,
                path: path@,
                env_var: "SELF_GITLAB_TOKEN"@,
                max: 20,
                use_ssh: true,
            }),
    {
        SelfGitlabProvider {
            name,
            url,
            path,
            env_var: default_env_var(),
            max: default_max(),
            use_ssh: default_use_ssh(),
        }
    }

    /// The check of the configuration as a result: the first thing that is
    /// wrong with it, if anything is.
    pub fn check_configuration(&self, token: &Option<String>) -> (r: Result<(), ProviderError>)
        ensures
            token is None ==> r == Err::<(), ProviderError>(ProviderError::MissingCredential),
            token is Some && ends_with_separator(self@.name) ==> r == Err::<(), ProviderError>(
                ProviderError::InvalidConfiguration,
            ),
            token is Some && !ends_with_separator(self@.name) ==> r is Ok,
    {
        if token.is_none() {
            Err(ProviderError::MissingCredential)
        } else if has_trailing_separator(self.name.as_str()) {
            Err(ProviderError::InvalidConfiguration)
        } else {
            Ok(())
        }
    }

    /// The lines to show a user whose configuration cannot be used; none
    /// where it can. The first line names the fault.
    pub fn diagnostics(&self, token: &Option<String>) -> (lines: Vec<String>)
        ensures
            texts(lines@) == diagnostic_lines(self@, token is Some),
    {
        let mut lines: Vec<String> = Vec::new();
        if token.is_none() {
            let mut first: String = String::from_str("Error: ");
            first.append(self.env_var.as_str());
            first.append(" environment variable is not defined");
            let second: String = String::from_str("Create a personal access token here:");
            let mut third: String = self.url.clone();
            third.append("/profile/personal_access_tokens");
            let mut fourth: String = String::from_str("Set an environment variable called ");
            fourth.append(self.env_var.as_str());
            fourth.append(" with the value");
            lines.push(first);
            lines.push(second);
            lines.push(third);
            lines.push(fourth);
        } else if has_trailing_separator(self.name.as_str()) {
            let first: String = String::from_str(
                "Error: Ensure that names do not end in forward slashes",
            );
            let mut second: String = String::from_str("You specified: ");
            second.append(self.name.as_str());
            lines.push(first);
            lines.push(second);
        }
        lines
    }

    /// The message of a fetch that found no credential.
    pub fn missing_credential_message(&self) -> (message: String)
        ensures
            message@ == missing_message(self@.env_var),
    {
        let mut message: String = String::from_str("Missing ");
        message.append(self.env_var.as_str());
        message.append(" environment variable");
        message
    }

    /// Describes the provider, with `namespace` as the name of its group.
    pub fn describe_as(&self, namespace: &str) -> (sentence: String)
        ensures
            sentence@ == description(self@, namespace@),
    {
        let mut sentence: String = String::from_str("SelfGitlab user/group ");
        sentence.append(namespace);
        sentence.append(" at ");
        sentence.append(self.url.as_str());
        sentence.append(" in directory ");
        sentence.append(self.path.as_str());
        sentence.append(", using the token stored in ");
        sentence.append(self.env_var.as_str());
        sentence
    }

    /// Describes the provider in one sentence, the name of its group in
    /// lower case.
    pub fn describe(&self) -> (sentence: String)
        ensures
            sentence@ == description(self@, lowercase_of(self@.name)),
    {
        let namespace: String = lowercase(self.name.as_str());
        self.describe_as(namespace.as_str())
    }

    /// The name of the group as it stands in a request: in lower case.
    pub fn namespace(&self) -> (namespace: String)
        ensures
            namespace@ == lowercase_of(self@.name),
    {
        lowercase(self.name.as_str())
    }
}

} // verus!
