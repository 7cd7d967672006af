//! The configuration that lists workspaces, and how each workspace's
//! settings are resolved.
//!
//! A configuration file (`mapper.toml`) reads, for example:
//! ```toml
//! [defaults]
//! token     = "..."
//! api_url   = "https://app.terraform.io"
//! output_dir = "output"
//!
//! [[workspaces]]
//! org       = "my-org"
//! workspace = "production"
//!
//! [[workspaces]]
//! org       = "other-org"
//! workspace = "shared-infra"
//! token     = "different-token"          # per-workspace override
//! api_url   = "https://tfe.mycompany.com" # different TFE instance
//! ```

use vstd::prelude::*;
use vstd::string::*;

use crate::text::{
    lemma_trim_idempotent, lemma_trimmed_has_no_trailing, opt_view, trim_end_char,
    trim_end_char_matches,
};

verus! {

/// Top-level configuration.
#[derive(Debug)]
pub struct Config {
    pub defaults: Defaults,
    pub workspaces: Vec<WorkspaceTarget>,
}

/// Settings that apply to every workspace that does not override them.
#[derive(Debug)]
pub struct Defaults {
    pub token: Option<String>,
    pub api_url: Option<String>,
    pub output_dir: Option<String>,
}

impl Default for Defaults {
    fn default() -> (res: Self)
        ensures
            res.token is None,
            res.api_url is None,
            res.output_dir is None,
    {
        Defaults { token: None, api_url: None, output_dir: None }
    }
}

/// One workspace to read.
#[derive(Debug, Clone)]
pub struct WorkspaceTarget {
    pub org: String,
    pub workspace: String,
    /// Per-workspace token override.
    pub token: Option<String>,
    /// Per-workspace API base URL (e.g. a private TFE instance).
    pub api_url: Option<String>,
    /// Custom output filename. Defaults to `<org>__<workspace>.tf`.
    pub output_file: Option<String>,
}

/// `o` with its string slice taken by its characters.
pub open spec fn opt_str_view(o: Option<&str>) -> Option<Seq<char>> {
    match o {
        Some(s) => Some(s@),
        None => None,
    }
}

/// The first of three optional values that is present.
pub open spec fn first_present(
    a: Option<Seq<char>>,
    b: Option<Seq<char>>,
    c: Option<Seq<char>>,
) -> Option<Seq<char>> {
    match a {
        Some(x) => Some(x),
        None => match b {
            Some(y) => Some(y),
            None => c,
        },
    }
}

/// The Terraform Cloud URL used when nothing else names one.
pub open spec fn default_api_url() -> Seq<char> {
    "https://app.terraform.io"@
}

/// The API URL chosen from a workspace override and a configured default,
/// with its trailing slashes taken off.
pub open spec fn api_url_of(own: Option<Seq<char>>, config_default: Option<Seq<char>>) -> Seq<char> {
    let chosen = match own {
        Some(u) => u,
        None => match config_default {
            Some(u) => u,
            None => default_api_url(),
        },
    };
    trim_end_char(chosen, '/')
}

/// A resolved API URL never ends with a slash, and a client built on it keeps
/// it as it is.
pub proof fn lemma_api_url_is_trimmed(own: Option<Seq<char>>, config_default: Option<Seq<char>>)
    ensures
        api_url_of(own, config_default).len() == 0 || api_url_of(own, config_default).last() != '/',
        trim_end_char(api_url_of(own, config_default), '/') == api_url_of(own, config_default),
{
    let chosen = match own {
        Some(u) => u,
        None => match config_default {
            Some(u) => u,
            None => default_api_url(),
        },
    };
    lemma_trimmed_has_no_trailing(chosen, '/');
    lemma_trim_idempotent(chosen, '/');
}

/// A workspace's own token and API URL win over every default.
pub proof fn lemma_workspace_override_wins(
    token: Seq<char>,
    url: Seq<char>,
    config_token: Option<Seq<char>>,
    cli_token: Option<Seq<char>>,
    config_url: Option<Seq<char>>,
)
    ensures
        first_present(Some(token), config_token, cli_token) == Some(token),
        api_url_of(Some(url), config_url) == trim_end_char(url, '/'),
{
}

/// Without a workspace override, the configured default wins over the
/// command line.
pub proof fn lemma_config_default_before_cli(config_token: Seq<char>, cli_token: Option<Seq<char>>)
    ensures
        first_present(None, Some(config_token), cli_token) == Some(config_token),
{
}

/// A custom output file name is used exactly as configured; without one the
/// name is `<org>__<workspace>.tf`.
pub proof fn lemma_output_filename(t: WorkspaceTarget)
    ensures
        t.output_file matches Some(f) ==> t.spec_output_filename() == f@,
        t.output_file is None ==> t.spec_output_filename() == t.org@ + "__"@ + t.workspace@ + ".tf"@,
{
}

impl WorkspaceTarget {
    /// Stable identifier used in checkpoint files: `<org>/<workspace>`.
    pub open spec fn spec_key(self) -> Seq<char> {
        self.org@ + "/"@ + self.workspace@
    }

    /// The output file name: the custom one, else `<org>__<workspace>.tf`.
    pub open spec fn spec_output_filename(self) -> Seq<char> {
        match self.output_file {
            Some(f) => f@,
            None => self.org@ + "__"@ + self.workspace@ + ".tf"@,
        }
    }

    /// Stable identifier used in checkpoint files.
    pub fn key(&self) -> (res: String)
        ensures
            res@ == self.spec_key(),
    {
        let mut k = self.org.clone();
        k.append("/");
        k.append(self.workspace.as_str());
        k
    }

    /// Resolve token: workspace override → config default → CLI flag (which
    /// itself falls back to the `TF_TOKEN` environment variable).
    pub fn effective_token(&self, cli_token: Option<&str>, config_default: Option<&str>) -> (res:
        Option<String>)
        ensures
            opt_view(res) == first_present(
                opt_view(self.token),
                opt_str_view(config_default),
                opt_str_view(cli_token),
            ),
    {
        match &self.token {
            Some(t) => Some(t.clone()),
            None => match config_default {
                Some(d) => Some(d.to_owned()),
                None => match cli_token {
                    Some(c) => Some(c.to_owned()),
                    None => None,
                },
            },
        }
    }

    /// Resolve API URL: workspace override → config default → hard-coded TFC
    /// URL, without trailing slashes.
    pub fn effective_api_url(&self, config_default: Option<&str>) -> (res: String)
        ensures
            res@ == api_url_of(opt_view(self.api_url), opt_str_view(config_default)),
    {
        let fallback = "https://app.terraform.io";
        let chosen: &str = match &self.api_url {
            Some(u) => u.as_str(),
            None => match config_default {
                Some(d) => d,
                None => fallback,
            },
        };
        trim_end_char_matches(chosen, '/').to_owned()
    }

    /// Output file name within the output directory.
    pub fn output_filename(&self) -> (res: String)
        ensures
            res@ == self.spec_output_filename(),
    {
        match &self.output_file {
            Some(f) => f.clone(),
            None => {
                let mut name = self.org.clone();
                name.append("__");
                name.append(self.workspace.as_str());
                name.append(".tf");
                name
            },
        }
    }
}

} // verus!
