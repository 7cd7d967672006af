//! The decisions of a run over several workspaces: whether a workspace is
//! skipped, fails before any request, or is fetched (and with which token
//! and API URL); where its output goes; and how its outcome is recorded in
//! the checkpoint, so that a later run resumes where this one stopped.

use vstd::prelude::*;
use vstd::string::*;

use crate::config::{api_url_of, first_present, opt_str_view, Defaults, WorkspaceTarget};
use crate::progress::{CheckpointView, Progress};
use crate::text::opt_view;

verus! {

/// What to do with one workspace of a run.
#[derive(Debug)]
pub enum TargetStep {
    /// It completed in an earlier run.
    Skip,
    /// No token is available for it.
    Fail,
    /// Fetch its state with this token from this API URL.
    Fetch { token: String, api_url: String },
}

/// The token the configuration's defaults name, if any.
pub open spec fn default_token(defaults: Option<&Defaults>) -> Option<Seq<char>> {
    match defaults {
        Some(d) => opt_view(d.token),
        None => None,
    }
}

/// The API URL the configuration's defaults name, if any.
pub open spec fn default_api_url_of(defaults: Option<&Defaults>) -> Option<Seq<char>> {
    match defaults {
        Some(d) => opt_view(d.api_url),
        None => None,
    }
}

/// The output directory the configuration's defaults name, if any.
pub open spec fn default_output_dir(defaults: Option<&Defaults>) -> Option<Seq<char>> {
    match defaults {
        Some(d) => opt_view(d.output_dir),
        None => None,
    }
}

/// Output goes to the configured output directory exactly as configured, and
/// to the command line's directory when none is configured.
pub proof fn lemma_configured_output_dir(defaults: Option<&Defaults>)
    ensures
        defaults matches Some(d) ==> (d.output_dir matches Some(o) ==> default_output_dir(defaults)
            == Some(o@)),
        defaults matches Some(d) ==> (d.output_dir is None ==> default_output_dir(defaults) is None),
        defaults is None ==> default_output_dir(defaults) is None,
{
}

/// The string of an optional string, as a string slice.
fn opt_as_str(o: &Option<String>) -> (res: Option<&str>)
    ensures
        opt_str_view(res) == opt_view(*o),
{
    match o {
        Some(s) => Some(s.as_str()),
        None => None,
    }
}

/// What to do with `target`: skip it when it is done; otherwise fail it when
/// no token resolves (its own, the configured default, the command line's),
/// else fetch it with that token from its resolved API URL.
pub fn plan_target(
    progress: &Progress,
    target: &WorkspaceTarget,
    cli_token: Option<&str>,
    defaults: Option<&Defaults>,
) -> (res: TargetStep)
    ensures
        res is Skip <==> progress@.completed.contains(target.spec_key()),
        !progress@.completed.contains(target.spec_key()) ==> match first_present(
            opt_view(target.token),
            default_token(defaults),
            opt_str_view(cli_token),
        ) {
            None => res is Fail,
            Some(t) => res matches TargetStep::Fetch { token, api_url } && token@ == t && api_url@
                == api_url_of(opt_view(target.api_url), default_api_url_of(defaults)),
        },
{
    let key = target.key();
    if progress.is_done(key.as_str()) {
        return TargetStep::Skip;
    }
    let (config_token, config_url) = match defaults {
        Some(d) => (opt_as_str(&d.token), opt_as_str(&d.api_url)),
        None => (None, None),
    };
    match target.effective_token(cli_token, config_token) {
        None => TargetStep::Fail,
        Some(token) => TargetStep::Fetch { token, api_url: target.effective_api_url(config_url) },
    }
}

/// Where output files go: the configured output directory, else `cli_dir`.
pub fn output_dir(defaults: Option<&Defaults>, cli_dir: &str) -> (res: String)
    ensures
        res@ == match default_output_dir(defaults) {
            Some(d) => d,
            None => cli_dir@,
        },
{
    match defaults {
        Some(d) => match &d.output_dir {
            Some(o) => o.clone(),
            None => cli_dir.to_owned(),
        },
        None => cli_dir.to_owned(),
    }
}

/// Record how a workspace that was not skipped ended: completed when its
/// file was written, failed otherwise.
pub fn record_outcome(progress: &mut Progress, key: &str, written: bool)
    ensures
        final(progress)@ == if written {
            old(progress)@.after_completed(key@)
        } else {
            old(progress)@.after_failed(key@)
        },
{
    if written {
        progress.mark_completed(key);
    } else {
        progress.mark_failed(key);
    }
}

/// How one workspace of a run ended.
pub ghost enum TargetOutcome {
    Skipped,
    Failed,
    Written,
}

/// The checkpoint after one workspace, named `key`, ended with `outcome`.
pub open spec fn after_target(p: CheckpointView, key: Seq<char>, outcome: TargetOutcome) -> CheckpointView {
    match outcome {
        TargetOutcome::Skipped => p,
        TargetOutcome::Failed => p.after_failed(key),
        TargetOutcome::Written => p.after_completed(key),
    }
}

/// The checkpoint after a run whose workspaces ended as `steps` says, in order.
pub open spec fn after_run(p: CheckpointView, steps: Seq<(Seq<char>, TargetOutcome)>) -> CheckpointView
    decreases steps.len(),
{
    if steps.len() == 0 {
        p
    } else {
        after_target(after_run(p, steps.drop_last()), steps.last().0, steps.last().1)
    }
}

/// After a run, a workspace is done exactly when it was done before the run
/// or its file was written during it.
pub proof fn lemma_run_resumes(p: CheckpointView, steps: Seq<(Seq<char>, TargetOutcome)>, key: Seq<char>)
    ensures
        after_run(p, steps).completed.contains(key) <==> p.completed.contains(key) || exists|i: int|
            0 <= i < steps.len() && #[trigger] steps[i] == (key, TargetOutcome::Written),
    decreases steps.len(),
{
    if steps.len() > 0 {
        let init = steps.drop_last();
        lemma_run_resumes(p, init, key);
        let n = steps.len() - 1;
        if exists|i: int| 0 <= i < init.len() && #[trigger] init[i] == (key, TargetOutcome::Written) {
            let i = choose|i: int| 0 <= i < init.len() && #[trigger] init[i] == (key, TargetOutcome::Written);
            assert(steps[i] == init[i]);
        }
        if exists|i: int| 0 <= i < steps.len() && #[trigger] steps[i] == (key, TargetOutcome::Written) {
            let i = choose|i: int| 0 <= i < steps.len() && #[trigger] steps[i] == (key, TargetOutcome::Written);
            if i < n {
                assert(init[i] == steps[i]);
            }
        }
        if steps.last() == (key, TargetOutcome::Written) {
            assert(steps[n] == (key, TargetOutcome::Written));
        }
    }
}

/// A workspace that fails during a run and had not completed before it, nor
/// is written later in the run, is not done afterwards: the next run
/// retries it.
pub proof fn lemma_failed_is_retried(p: CheckpointView, steps: Seq<(Seq<char>, TargetOutcome)>, key: Seq<char>)
    requires
        !p.completed.contains(key),
        forall|i: int| 0 <= i < steps.len() ==> #[trigger] steps[i] != (key, TargetOutcome::Written),
    ensures
        !after_run(p, steps).completed.contains(key),
{
    lemma_run_resumes(p, steps, key);
}

} // verus!
