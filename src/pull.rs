//! Decisions around `pull`: whether it rebases with autostash, when to
//! capture the uncommitted attribution before it runs, and how to restore
//! that attribution onto the new head afterwards.
use vstd::prelude::*;
use crate::attribution::{file_views, prompt_views, parts_wf, AttributionError, AttributionsView, VirtualAttributions, PromptRecord, FileAttribution};
use crate::merge::{final_paths_distinct, final_views, merge_favoring_first, merged_files, merged_prompts};

verus! {

/// What `str::to_lowercase` returns for the given characters.
pub uninterp spec fn lower_of(s: Seq<char>) -> Seq<char>;

/// Relies on `str::to_lowercase`: the result depends on the characters alone.
#[verifier::external_body]
fn lowercase(s: &str) -> (r: String)
    ensures
        r@ == lower_of(s@),
{
    s.to_lowercase()
}

/// Whether `pull` rebases, and whether that rebase stashes uncommitted changes.
#[derive(Clone, Copy, Debug, PartialEq, Eq, Structural)]
pub struct PullRebaseAutostashConfig {
    pub is_rebase: bool,
    pub is_autostash: bool,
}

/// Some argument is exactly `flag`.
pub open spec fn has_flag(args: Seq<String>, flag: Seq<char>) -> bool {
    exists|i: int| 0 <= i < args.len() && #[trigger] args[i]@ == flag
}

/// Whether some argument is exactly `flag`.
pub fn has_command_flag(args: &Vec<String>, flag: &str) -> (r: bool)
    ensures
        r == has_flag(args@, flag@),
{
    let f = flag.to_owned();
    for i in 0..args.len()
        invariant
            f@ == flag@,
            forall|k: int| 0 <= k < i ==> #[trigger] args@[k]@ != flag@,
    {
        if args[i] == f {
            return true;
        }
    }
    false
}

/// The rebase mode fixed on the command line, if any; `--no-rebase` wins.
pub open spec fn rebase_from_cli(args: Seq<String>) -> Option<bool> {
    if has_flag(args, "--no-rebase"@) {
        Some(false)
    } else if has_flag(args, "--rebase"@) || has_flag(args, "-r"@) {
        Some(true)
    } else {
        None
    }
}

/// The autostash mode fixed on the command line, if any; `--no-autostash` wins.
pub open spec fn autostash_from_cli(args: Seq<String>) -> Option<bool> {
    if has_flag(args, "--no-autostash"@) {
        Some(false)
    } else if has_flag(args, "--autostash"@) {
        Some(true)
    } else {
        None
    }
}

/// Rebase is on when the command line says so, else when `pull.rebase`
/// (lowercased) is set to anything but `false`.
pub open spec fn rebase_setting(cli: Option<bool>, lowered: Option<Seq<char>>) -> bool {
    match cli {
        Some(b) => b,
        None => match lowered {
            Some(v) => v != "false"@,
            None => false,
        },
    }
}

/// Autostash is on when the command line says so, else when
/// `rebase.autoStash` (lowercased) is `true`.
pub open spec fn autostash_setting(cli: Option<bool>, lowered: Option<Seq<char>>) -> bool {
    match cli {
        Some(b) => b,
        None => match lowered {
            Some(v) => v == "true"@,
            None => false,
        },
    }
}

pub open spec fn lowered_view(v: Option<String>) -> Option<Seq<char>> {
    match v {
        Some(s) => Some(lower_of(s@)),
        None => None,
    }
}

pub open spec fn plain_view(v: Option<String>) -> Option<Seq<char>> {
    match v {
        Some(s) => Some(s@),
        None => None,
    }
}

/// The rebase mode that the arguments fix.
pub fn rebase_flag_from_args(args: &Vec<String>) -> (r: Option<bool>)
    ensures
        r == rebase_from_cli(args@),
{
    if has_command_flag(args, "--no-rebase") {
        Some(false)
    } else if has_command_flag(args, "--rebase") || has_command_flag(args, "-r") {
        Some(true)
    } else {
        None
    }
}

/// The autostash mode that the arguments fix.
pub fn autostash_flag_from_args(args: &Vec<String>) -> (r: Option<bool>)
    ensures
        r == autostash_from_cli(args@),
{
    if has_command_flag(args, "--no-autostash") {
        Some(false)
    } else if has_command_flag(args, "--autostash") {
        Some(true)
    } else {
        None
    }
}

/// Whether the configuration has to be read: the command line leaves the
/// rebase mode or the autostash mode open.
pub fn needs_config_lookup(args: &Vec<String>) -> (r: bool)
    ensures
        r == (rebase_from_cli(args@) is None || autostash_from_cli(args@) is None),
{
    rebase_flag_from_args(args).is_none() || autostash_flag_from_args(args).is_none()
}

fn str_equals(s: &String, lit: &str) -> (r: bool)
    ensures
        r == (s@ == lit@),
{
    *s == lit.to_owned()
}

/// Combines the command-line modes with the configuration values, given
/// already lowercased.
pub fn resolve_pull_config(
    rebase_cli: Option<bool>,
    autostash_cli: Option<bool>,
    pull_rebase_lowered: &Option<String>,
    autostash_lowered: &Option<String>,
) -> (r: PullRebaseAutostashConfig)
    ensures
        r.is_rebase == rebase_setting(rebase_cli, plain_view(*pull_rebase_lowered)),
        r.is_autostash == autostash_setting(autostash_cli, plain_view(*autostash_lowered)),
{
    let is_rebase = match rebase_cli {
        Some(b) => b,
        None => match pull_rebase_lowered {
            Some(v) => !str_equals(v, "false"),
            None => false,
        },
    };
    let is_autostash = match autostash_cli {
        Some(b) => b,
        None => match autostash_lowered {
            Some(v) => str_equals(v, "true"),
            None => false,
        },
    };
    PullRebaseAutostashConfig { is_rebase, is_autostash }
}

fn lowered_opt(v: &Option<String>) -> (r: Option<String>)
    ensures
        plain_view(r) == lowered_view(*v),
{
    match v {
        Some(s) => Some(lowercase(s.as_str())),
        None => None,
    }
}

/// Whether `pull` will rebase and autostash. Command-line flags win over the
/// configuration values `pull.rebase` and `rebase.autoStash`, which are
/// compared without regard to case.
pub fn get_pull_rebase_autostash_config(
    command_args: &Vec<String>,
    pull_rebase: &Option<String>,
    rebase_autostash: &Option<String>,
) -> (r: PullRebaseAutostashConfig)
    ensures
        r.is_rebase == rebase_setting(rebase_from_cli(command_args@), lowered_view(*pull_rebase)),
        r.is_autostash == autostash_setting(
            autostash_from_cli(command_args@),
            lowered_view(*rebase_autostash),
        ),
{
    let rebase_cli = rebase_flag_from_args(command_args);
    let autostash_cli = autostash_flag_from_args(command_args);
    let pr = lowered_opt(pull_rebase);
    let ra = lowered_opt(rebase_autostash);
    resolve_pull_config(rebase_cli, autostash_cli, &pr, &ra)
}

/// Whether the arguments ask for a dry run.
pub fn is_dry_run(args: &Vec<String>) -> (r: bool)
    ensures
        r == has_flag(args@, "--dry-run"@),
{
    has_command_flag(args, "--dry-run")
}

/// Whether there are staged or unstaged changes; a listing that could not be
/// made (`None`) counts as none.
pub fn has_uncommitted_changes(changed_files: &Option<Vec<String>>) -> (r: bool)
    ensures
        r == (changed_files matches Some(v) && v.len() > 0),
{
    match changed_files {
        Some(v) => v.len() > 0,
        None => false,
    }
}

/// State carried from the pre-command hook to the post-command hook.
pub struct CommandHooksContext {
    pub stashed_va: Option<VirtualAttributions>,
}

/// Attribution is captured before `pull` only when it rebases with autostash
/// over uncommitted changes.
pub open spec fn capture_wanted(config: PullRebaseAutostashConfig, has_changes: bool) -> bool {
    config.is_rebase && config.is_autostash && has_changes
}

/// Whether the uncommitted attribution has to be captured before `pull`.
pub fn should_capture_attributions(config: &PullRebaseAutostashConfig, has_changes: bool) -> (r: bool)
    ensures
        r == capture_wanted(*config, has_changes),
{
    config.is_rebase && config.is_autostash && has_changes
}

/// The attribution loaded for HEAD is kept: capture is wanted, loading
/// succeeded, and it names at least one file.
pub open spec fn captures(
    config: PullRebaseAutostashConfig,
    has_changes: bool,
    head_attributions: Option<Result<VirtualAttributions, AttributionError>>,
) -> bool {
    &&& capture_wanted(config, has_changes)
    &&& head_attributions matches Some(Ok(va))
    &&& head_attributions->Some_0->Ok_0.files.len() > 0
}

/// The pre-command hook of `pull`. A dry run leaves the context alone. Else,
/// when it rebases with autostash over uncommitted changes, the attribution
/// loaded from the working log of HEAD (`None` when HEAD could not be read) is
/// kept in the context, unless loading failed or it has no files; otherwise
/// the context is left alone.
pub fn pull_pre_command_hook(
    dry_run: bool,
    config: &PullRebaseAutostashConfig,
    has_changes: bool,
    head_attributions: Option<Result<VirtualAttributions, AttributionError>>,
    context: &mut CommandHooksContext,
)
    ensures
        !dry_run && captures(*config, has_changes, head_attributions) ==> final(context).stashed_va
            == Some(head_attributions->Some_0->Ok_0),
        dry_run || !captures(*config, has_changes, head_attributions) ==> final(context).stashed_va
            == old(context).stashed_va,
{
    if dry_run {
        return;
    }
    if should_capture_attributions(config, has_changes) {
        if let Some(Ok(va)) = head_attributions {
            if !va.is_empty() {
                context.stashed_va = Some(va);
            }
        }
    }
}

/// What the post-command hook of `pull` asks to restore: the attribution
/// captured before it ran, the new head, and the files to read.
pub struct RestorePlan {
    pub stashed: VirtualAttributions,
    pub new_head: String,
    pub files: Vec<String>,
}

/// The restoration is owed: `pull` succeeded and moved HEAD.
pub open spec fn head_moved(succeeded: bool, old_head: Option<String>, new_head: Option<String>) -> bool {
    succeeded && old_head is Some && new_head is Some && old_head->Some_0@ != new_head->Some_0@
}

/// `r` plans to restore `va` onto `new_head`, reading each of its files.
pub open spec fn plans_restore(r: Option<RestorePlan>, va: VirtualAttributions, new_head: String) -> bool {
    &&& r is Some
    &&& r->Some_0.stashed == va
    &&& r->Some_0.new_head@ == new_head@
    &&& r->Some_0.files@.len() == va.files.len()
    &&& forall|i: int|
        0 <= i < va.files.len() ==> #[trigger] r->Some_0.files@[i]@ == va.files@[i].path@
}

/// The post-command hook of `pull`. When `pull` succeeded and moved HEAD, the
/// captured attribution is taken out of the context, and a plan to restore it
/// is returned when it names at least one file.
pub fn pull_post_command_hook(
    context: &mut CommandHooksContext,
    succeeded: bool,
    old_head: &Option<String>,
    new_head: &Option<String>,
) -> (r: Option<RestorePlan>)
    ensures
        !head_moved(succeeded, *old_head, *new_head) ==> r is None && final(context).stashed_va
            == old(context).stashed_va,
        head_moved(succeeded, *old_head, *new_head) ==> final(context).stashed_va is None,
        head_moved(succeeded, *old_head, *new_head) ==> match old(context).stashed_va {
            Some(va) => if va.files.len() > 0 {
                plans_restore(r, va, new_head->Some_0)
            } else {
                r is None
            },
            None => r is None,
        },
{
    if !succeeded {
        return None;
    }
    let old = match old_head {
        Some(h) => h,
        None => return None,
    };
    let new = match new_head {
        Some(h) => h,
        None => return None,
    };
    if *old == *new {
        return None;
    }
    let stashed = match context.stashed_va.take() {
        Some(va) => va,
        None => return None,
    };
    let files = stashed.files();
    if files.len() == 0 {
        return None;
    }
    Some(RestorePlan { stashed, new_head: new.clone(), files })
}

/// Attribution to write into the INITIAL slot of the working log.
pub struct InitialAttributions {
    pub files: Vec<FileAttribution>,
    pub prompts: Vec<PromptRecord>,
}

/// Restores the captured attribution onto the new head once the stash has
/// been reapplied. `working_files` holds the final content of the captured
/// files that could be read; `new_attributions` is the working log of the new
/// head, an empty set standing in where it failed to load. Only the captured
/// files may be restored: each working file must be one of the plan's. Returns what to
/// write into the INITIAL slot of the new head, or `None` when there is
/// nothing to write.
pub fn restore_after_autostash(
    plan: &RestorePlan,
    working_files: &Vec<(String, String)>,
    new_attributions: Result<VirtualAttributions, AttributionError>,
) -> (r: Option<InitialAttributions>)
    requires
        plan.stashed.wf(),
        new_attributions matches Ok(va) ==> va.wf(),
        final_paths_distinct(working_files@),
        forall|i: int|
            #![trigger working_files@[i]]
            0 <= i < working_files.len() ==> exists|j: int|
                0 <= j < plan.files.len() && #[trigger] plan.files@[j]@ == working_files@[i].0@,
    ensures
        working_files.len() == 0 ==> r is None,
        working_files.len() > 0 ==> {
            let secondary: AttributionsView = match new_attributions {
                Ok(va) => va@,
                Err(_) => AttributionsView {
                    base_commit: plan.new_head@,
                    head: plan.new_head@,
                    files: Seq::empty(),
                    prompts: Seq::empty(),
                    human_author_fallback: None,
                },
            };
            let files = merged_files(plan.stashed@, secondary, final_views(working_files@));
            let prompts = merged_prompts(plan.stashed@.prompts, secondary.prompts, files);
            if files.len() == 0 && prompts.len() == 0 {
                r is None
            } else {
                &&& r is Some
                &&& file_views(r->Some_0.files@) == files
                &&& prompt_views(r->Some_0.prompts@) == prompts
                &&& parts_wf(r->Some_0.files@, r->Some_0.prompts@)
            }
        },
{
    if working_files.len() == 0 {
        return None;
    }
    let secondary = match new_attributions {
        Ok(va) => va,
        Err(_) => {
            let e = VirtualAttributions::empty(plan.new_head.clone(), plan.new_head.clone());
            assert(e@.files =~= Seq::empty());
            assert(e@.prompts =~= Seq::empty());
            e
        },
    };
    let merged = merge_favoring_first(&plan.stashed, &secondary, working_files, &plan.new_head);
    if merged.files.len() == 0 && merged.prompts.len() == 0 {
        return None;
    }
    Some(InitialAttributions { files: merged.files, prompts: merged.prompts })
}

} // verus!
