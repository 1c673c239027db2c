use vstd::prelude::*;
use vstd::string::*;

use crate::text::{ascii_lowercase, eq_ignore_case_spec, lowercase_spec, str_eq_ignore_ascii_case};
use crate::tools::{Ecosystem, InstallMethod, Tool};

verus! {

/// Why an action was not carried out: no catalog entry has the requested
/// name; the tool is already in the state the action would bring about; its
/// install method does not support the action; an external process,
/// download or filesystem step failed; or the operator declined a
/// confirmation.
#[derive(Debug, Clone)]
pub enum ActionError {
    NotFound(String),
    AlreadyInNoopState(String),
    UnsupportedAction(String),
    ExternalFailure(String),
    UserDeclined,
}

/// An external command to run: a program and its arguments.
#[derive(Debug, Clone)]
pub struct CommandSpec {
    pub program: String,
    pub args: Vec<String>,
}

/// What carrying out an install or upgrade amounts to: running one external
/// command, or downloading a script to a temporary file and executing it.
#[derive(Debug, Clone)]
pub enum ActionPlan {
    RunCommand(CommandSpec),
    RunScript { url: String, temp_filename: String, description: String },
}

/// Decides what installing `tool` amounts to. An already-installed tool is
/// a no-op; a package-manager tool runs the manager's install subcommand; a
/// bootstrap tool downloads and runs its script; a vendor-updater tool
/// cannot be installed this way; a manual-only tool always refuses with its
/// descriptor's message.
pub fn install_decision(tool: &Tool, installed: bool) -> (r: Result<ActionPlan, ActionError>)
    ensures
        installed ==> (r matches Err(ActionError::AlreadyInNoopState(m)) && m@ == tool.name@),
        !installed ==> ({
            match tool.install_method {
                InstallMethod::PackageManager(eco, pkg) => r matches Ok(ActionPlan::RunCommand(c))
                    && c.program@ == (if eco == Ecosystem::Npm {
                    "npm"@
                } else {
                    "brew"@
                }) && c.args.deep_view() == (if eco == Ecosystem::Npm {
                    seq!["install"@, "-g"@, pkg@]
                } else {
                    seq!["install"@, pkg@]
                }),
                InstallMethod::Bootstrap(url) => r matches Ok(
                    ActionPlan::RunScript { url: u, temp_filename: f, description: d },
                ) && u@ == url@ && f@ == "bootstrap.sh"@ && d@ == "bootstrap script"@,
                InstallMethod::VendorUpdater(_) => r matches Err(ActionError::UnsupportedAction(m))
                    && m@ == "this tool is upgraded by its own updater; install it manually"@,
                InstallMethod::ManualOnly(msg) => r matches Err(ActionError::UnsupportedAction(m))
                    && m@ == msg@,
            }
        }),
{
    if installed {
        return Err(ActionError::AlreadyInNoopState(tool.name.clone()));
    }
    match &tool.install_method {
        InstallMethod::PackageManager(eco, pkg) => {
            let mut args: Vec<String> = Vec::new();
            args.push(String::from_str("install"));
            let program = match eco {
                Ecosystem::Npm => {
                    args.push(String::from_str("-g"));
                    String::from_str("npm")
                },
                Ecosystem::Brew => String::from_str("brew"),
            };
            args.push(pkg.clone());
            proof {
                if tool.install_method->PackageManager_0 == Ecosystem::Npm {
                    assert(args.deep_view() =~= seq!["install"@, "-g"@, pkg@]);
                } else {
                    assert(args.deep_view() =~= seq!["install"@, pkg@]);
                }
            }
            Ok(ActionPlan::RunCommand(CommandSpec { program, args }))
        },
        InstallMethod::Bootstrap(url) => Ok(
            ActionPlan::RunScript {
                url: url.clone(),
                temp_filename: String::from_str("bootstrap.sh"),
                description: String::from_str("bootstrap script"),
            },
        ),
        InstallMethod::VendorUpdater(_) => Err(
            ActionError::UnsupportedAction(
                String::from_str("this tool is upgraded by its own updater; install it manually"),
            ),
        ),
        InstallMethod::ManualOnly(msg) => Err(ActionError::UnsupportedAction(msg.clone())),
    }
}

/// Decides what upgrading `tool` amounts to. A tool that is not installed
/// is refused before any dispatch; a package-manager tool re-runs the
/// manager's install or upgrade subcommand; a bootstrap tool downloads and
/// runs its script again; a vendor-updater tool runs its own `update`
/// subcommand; a manual-only tool refuses with its descriptor's message.
pub fn upgrade_decision(tool: &Tool, installed: bool) -> (r: Result<ActionPlan, ActionError>)
    ensures
        !installed ==> (r matches Err(ActionError::AlreadyInNoopState(m)) && m@ == tool.name@),
        installed ==> ({
            match tool.install_method {
                InstallMethod::PackageManager(eco, pkg) => r matches Ok(ActionPlan::RunCommand(c))
                    && c.program@ == (if eco == Ecosystem::Npm {
                    "npm"@
                } else {
                    "brew"@
                }) && c.args.deep_view() == (if eco == Ecosystem::Npm {
                    seq!["install"@, "-g"@, pkg@]
                } else {
                    seq!["upgrade"@, pkg@]
                }),
                InstallMethod::Bootstrap(url) => r matches Ok(
                    ActionPlan::RunScript { url: u, temp_filename: f, description: d },
                ) && u@ == url@ && f@ == "bootstrap_upgrade.sh"@ && d@ == "bootstrap script"@,
                InstallMethod::VendorUpdater(id) => r matches Ok(ActionPlan::RunCommand(c))
                    && c.program@ == id@ && c.args.deep_view() == seq!["update"@],
                InstallMethod::ManualOnly(msg) => r matches Err(ActionError::UnsupportedAction(m))
                    && m@ == msg@,
            }
        }),
{
    if !installed {
        return Err(ActionError::AlreadyInNoopState(tool.name.clone()));
    }
    match &tool.install_method {
        InstallMethod::PackageManager(eco, pkg) => {
            let mut args: Vec<String> = Vec::new();
            let program = match eco {
                Ecosystem::Npm => {
                    args.push(String::from_str("install"));
                    args.push(String::from_str("-g"));
                    String::from_str("npm")
                },
                Ecosystem::Brew => {
                    args.push(String::from_str("upgrade"));
                    String::from_str("brew")
                },
            };
            args.push(pkg.clone());
            proof {
                if tool.install_method->PackageManager_0 == Ecosystem::Npm {
                    assert(args.deep_view() =~= seq!["install"@, "-g"@, pkg@]);
                } else {
                    assert(args.deep_view() =~= seq!["upgrade"@, pkg@]);
                }
            }
            Ok(ActionPlan::RunCommand(CommandSpec { program, args }))
        },
        InstallMethod::Bootstrap(url) => Ok(
            ActionPlan::RunScript {
                url: url.clone(),
                temp_filename: String::from_str("bootstrap_upgrade.sh"),
                description: String::from_str("bootstrap script"),
            },
        ),
        InstallMethod::VendorUpdater(id) => {
            let mut args: Vec<String> = Vec::new();
            args.push(String::from_str("update"));
            proof {
                assert(args.deep_view() =~= seq!["update"@]);
            }
            Ok(ActionPlan::RunCommand(CommandSpec { program: id.clone(), args }))
        },
        InstallMethod::ManualOnly(msg) => Err(ActionError::UnsupportedAction(msg.clone())),
    }
}

/// What carrying out an uninstall amounts to: running the package manager's
/// uninstall subcommand, or removing the tool's files and directories one
/// by one.
#[derive(Debug, Clone)]
pub enum UninstallAction {
    RunCommand(CommandSpec),
    RemoveFiles,
}

/// Decides what uninstalling `tool` amounts to. A tool that is not
/// installed is a no-op; a package-manager tool runs the manager's
/// uninstall subcommand; a bootstrap tool has its binaries, version store
/// and (when asked) config directories removed; a vendor-updater or
/// manual-only tool cannot be uninstalled here.
pub fn uninstall_decision(tool: &Tool, installed: bool) -> (r: Result<
    UninstallAction,
    ActionError,
>)
    ensures
        !installed ==> (r matches Err(ActionError::AlreadyInNoopState(m)) && m@ == tool.name@),
        installed ==> ({
            match tool.install_method {
                InstallMethod::PackageManager(eco, pkg) => r matches Ok(
                    UninstallAction::RunCommand(c),
                ) && c.program@ == (if eco == Ecosystem::Npm {
                    "npm"@
                } else {
                    "brew"@
                }) && c.args.deep_view() == (if eco == Ecosystem::Npm {
                    seq!["uninstall"@, "-g"@, pkg@]
                } else {
                    seq!["uninstall"@, pkg@]
                }),
                InstallMethod::Bootstrap(_) => r matches Ok(UninstallAction::RemoveFiles),
                InstallMethod::VendorUpdater(_) => r matches Err(
                    ActionError::UnsupportedAction(m),
                ) && m@ == "this tool was not installed by this manager; remove it manually"@,
                InstallMethod::ManualOnly(msg) => r matches Err(ActionError::UnsupportedAction(m))
                    && m@ == msg@,
            }
        }),
{
    if !installed {
        return Err(ActionError::AlreadyInNoopState(tool.name.clone()));
    }
    match &tool.install_method {
        InstallMethod::PackageManager(eco, pkg) => {
            let mut args: Vec<String> = Vec::new();
            args.push(String::from_str("uninstall"));
            let program = match eco {
                Ecosystem::Npm => {
                    args.push(String::from_str("-g"));
                    String::from_str("npm")
                },
                Ecosystem::Brew => String::from_str("brew"),
            };
            args.push(pkg.clone());
            proof {
                if tool.install_method->PackageManager_0 == Ecosystem::Npm {
                    assert(args.deep_view() =~= seq!["uninstall"@, "-g"@, pkg@]);
                } else {
                    assert(args.deep_view() =~= seq!["uninstall"@, pkg@]);
                }
            }
            Ok(UninstallAction::RunCommand(CommandSpec { program, args }))
        },
        InstallMethod::Bootstrap(_) => Ok(UninstallAction::RemoveFiles),
        InstallMethod::VendorUpdater(_) => Err(
            ActionError::UnsupportedAction(
                String::from_str("this tool was not installed by this manager; remove it manually"),
            ),
        ),
        InstallMethod::ManualOnly(msg) => Err(ActionError::UnsupportedAction(msg.clone())),
    }
}

/// Whether `name` names this tool: it equals the display name or the
/// executable name, ASCII-case-insensitively.
pub open spec fn tool_matches_name(t: Tool, name: Seq<char>) -> bool {
    eq_ignore_case_spec(t.name@, name) || (t.binary_name matches Some(b) && eq_ignore_case_spec(
        b@,
        name,
    ))
}

/// The first catalog entry `name` names, if any.
pub fn find_tool(tools: &Vec<Tool>, name: &str) -> (r: Option<usize>)
    ensures
        match r {
            Some(i) => 0 <= i < tools@.len() && tool_matches_name(tools@[i as int], name@)
                && forall|k: int| 0 <= k < i ==> !tool_matches_name(#[trigger] tools@[k], name@),
            None => forall|k: int|
                0 <= k < tools@.len() ==> !tool_matches_name(#[trigger] tools@[k], name@),
        },
{
    let n = tools.len();
    let mut i: usize = 0;
    while i < n
        invariant
            n == tools@.len(),
            0 <= i <= n,
            forall|k: int| 0 <= k < i ==> !tool_matches_name(#[trigger] tools@[k], name@),
        decreases n - i,
    {
        let t = &tools[i];
        if str_eq_ignore_ascii_case(t.name.as_str(), name) {
            return Some(i);
        }
        match &t.binary_name {
            Some(b) => {
                if str_eq_ignore_ascii_case(b.as_str(), name) {
                    return Some(i);
                }
            },
            None => {},
        }
        proof {
            assert(!tool_matches_name(tools@[i as int], name@));
        }
        i = i + 1;
    }
    None
}

/// The executable name used for filesystem paths: the declared binary name,
/// or the display name lower-cased when none is declared.
pub open spec fn effective_binary_name(t: Tool) -> Seq<char> {
    match t.binary_name {
        Some(b) => b@,
        None => lowercase_spec(t.name@),
    }
}

/// The executable name of `tool`, as `effective_binary_name` defines it.
pub fn binary_name_of(tool: &Tool) -> (r: String)
    ensures
        r@ == effective_binary_name(*tool),
{
    match &tool.binary_name {
        Some(b) => b.clone(),
        None => ascii_lowercase(tool.name.as_str()),
    }
}

/// `base` and `rel` joined with one separator.
pub fn join_path(base: &str, rel: &str) -> (r: String)
    ensures
        r@ == base@ + "/"@ + rel@,
{
    let mut s = String::from_str(base);
    s.append("/");
    s.append(rel);
    s
}

/// Every filesystem location an uninstall of a bootstrap-installed tool
/// considers: the primary symlink and the extra binaries, the version-store
/// directory (probed at its `versions` subdirectory, removed at its
/// parent), and the config directories.
pub struct UninstallCandidates {
    pub binary_paths: Vec<String>,
    pub versions_probe: String,
    pub versions_parent: String,
    pub config_dirs: Vec<String>,
}

/// All candidate paths are laid out under `home` from the tool's
/// descriptor: the primary binary under `.local/bin`, each extra binary
/// path as given, the version store under `.local/share`, and the config
/// directories as given — or, when none is given, the single default
/// dot-directory named after the binary.
pub open spec fn candidates_of(c: UninstallCandidates, t: Tool, home: Seq<char>) -> bool {
    let bin = effective_binary_name(t);
    &&& c.binary_paths@.len() == 1 + t.extra_binary_paths@.len()
    &&& c.binary_paths.deep_view()[0] == home + "/.local/bin/"@ + bin
    &&& forall|i: int|
        0 <= i < t.extra_binary_paths@.len() ==> c.binary_paths.deep_view()[i + 1] == home + "/"@
            + #[trigger] t.extra_binary_paths.deep_view()[i]
    &&& c.versions_parent@ == home + "/.local/share/"@ + bin
    &&& c.versions_probe@ == home + "/.local/share/"@ + bin + "/versions"@
    &&& (t.config_dirs@.len() == 0 ==> c.config_dirs.deep_view() == seq![home + "/."@ + bin])
    &&& (t.config_dirs@.len() > 0 ==> c.config_dirs@.len() == t.config_dirs@.len() && forall|i: int|
        0 <= i < t.config_dirs@.len() ==> c.config_dirs.deep_view()[i] == home + "/"@
            + #[trigger] t.config_dirs.deep_view()[i])
}

/// Computes the candidate locations for uninstalling `tool`, laid out
/// under `home`.
pub fn uninstall_candidates(tool: &Tool, home: &str) -> (c: UninstallCandidates)
    ensures
        candidates_of(c, *tool, home@),
{
    let bin = binary_name_of(tool);
    let mut binary_paths: Vec<String> = Vec::new();
    let mut primary = String::from_str(home);
    primary.append("/.local/bin/");
    primary.append(bin.as_str());
    binary_paths.push(primary);
    proof {
        assert(binary_paths.deep_view() =~= seq![
            home@ + "/.local/bin/"@ + effective_binary_name(*tool),
        ]);
    }
    let extras = tool.extra_binary_paths.len();
    let mut i: usize = 0;
    while i < extras
        invariant
            extras == tool.extra_binary_paths@.len(),
            0 <= i <= extras,
            binary_paths@.len() == 1 + i,
            binary_paths.deep_view()[0] == home@ + "/.local/bin/"@ + effective_binary_name(*tool),
            forall|k: int|
                0 <= k < i ==> binary_paths.deep_view()[k + 1] == home@ + "/"@
                    + #[trigger] tool.extra_binary_paths.deep_view()[k],
        decreases extras - i,
    {
        binary_paths.push(join_path(home, tool.extra_binary_paths[i].as_str()));
        i = i + 1;
    }
    let mut versions_parent = String::from_str(home);
    versions_parent.append("/.local/share/");
    versions_parent.append(bin.as_str());
    let mut versions_probe = versions_parent.clone();
    versions_probe.append("/versions");
    let mut config_dirs: Vec<String> = Vec::new();
    if tool.config_dirs.len() == 0 {
        let mut dot = String::from_str(home);
        dot.append("/.");
        dot.append(bin.as_str());
        config_dirs.push(dot);
        proof {
            assert(config_dirs.deep_view() =~= seq![home@ + "/."@ + effective_binary_name(*tool)]);
        }
    } else {
        let n = tool.config_dirs.len();
        let mut j: usize = 0;
        while j < n
            invariant
                n == tool.config_dirs@.len(),
                0 <= j <= n,
                config_dirs@.len() == j,
                forall|k: int|
                    0 <= k < j ==> config_dirs.deep_view()[k] == home@ + "/"@
                        + #[trigger] tool.config_dirs.deep_view()[k],
            decreases n - j,
        {
            config_dirs.push(join_path(home, tool.config_dirs[j].as_str()));
            j = j + 1;
        }
    }
    UninstallCandidates { binary_paths, versions_probe, versions_parent, config_dirs }
}

/// The members of `paths` whose flag in `exist` is set, in order.
pub open spec fn kept_paths(paths: Seq<Seq<char>>, exist: Seq<bool>) -> Seq<Seq<char>>
    decreases paths.len(),
{
    if paths.len() == 0 {
        Seq::empty()
    } else {
        let rest = kept_paths(paths.drop_first(), exist.drop_first());
        if exist[0] {
            seq![paths[0]] + rest
        } else {
            rest
        }
    }
}

/// The paths among `paths` that exist on disk, in order; `exist[i]` reports
/// whether `paths[i]` does.
fn filter_existing(paths: &Vec<String>, exist: &Vec<bool>) -> (r: Vec<String>)
    requires
        exist@.len() == paths@.len(),
    ensures
        r.deep_view() == kept_paths(paths.deep_view(), exist@),
{
    let n = paths.len();
    let mut r: Vec<String> = Vec::new();
    let mut i: usize = 0;
    proof {
        assert(paths.deep_view().skip(0) =~= paths.deep_view());
        assert(exist@.skip(0) =~= exist@);
        assert(r.deep_view() =~= Seq::<Seq<char>>::empty());
        assert(r.deep_view() + kept_paths(paths.deep_view(), exist@) =~= kept_paths(
            paths.deep_view(),
            exist@,
        ));
    }
    while i < n
        invariant
            n == paths@.len(),
            exist@.len() == n,
            0 <= i <= n,
            kept_paths(paths.deep_view(), exist@) == r.deep_view() + kept_paths(
                paths.deep_view().skip(i as int),
                exist@.skip(i as int),
            ),
        decreases n - i,
    {
        proof {
            let pv = paths.deep_view().skip(i as int);
            let ev = exist@.skip(i as int);
            assert(pv[0] == paths.deep_view()[i as int]);
            assert(ev[0] == exist@[i as int]);
            assert(pv.drop_first() =~= paths.deep_view().skip(i + 1));
            assert(ev.drop_first() =~= exist@.skip(i + 1));
        }
        if exist[i] {
            let ghost old_r = r.deep_view();
            r.push(paths[i].clone());
            proof {
                assert(r.deep_view() =~= old_r + seq![paths.deep_view()[i as int]]);
                assert(old_r + (seq![paths.deep_view()[i as int]] + kept_paths(
                    paths.deep_view().skip(i + 1),
                    exist@.skip(i + 1),
                )) =~= r.deep_view() + kept_paths(
                    paths.deep_view().skip(i + 1),
                    exist@.skip(i + 1),
                ));
            }
        }
        i = i + 1;
    }
    proof {
        assert(paths.deep_view().skip(n as int) =~= Seq::<Seq<char>>::empty());
        assert(exist@.skip(n as int) =~= Seq::<bool>::empty());
        assert(r.deep_view() + Seq::<Seq<char>>::empty() =~= r.deep_view());
    }
    r
}

/// Whether one line of operator input affirms a yes/no question: only a
/// trimmed, case-insensitive `y` does; anything else, including an empty
/// answer, declines.
pub fn affirmative(answer: &str) -> (r: bool)
    ensures
        r == eq_ignore_case_spec(crate::text::trim_spec(answer@), "y"@),
{
    str_eq_ignore_ascii_case(crate::text::str_trim(answer), "y")
}

/// Whether the operator must be asked before config directories are
/// removed: only when their removal was requested, no force flag bypasses
/// the prompt, and there is something to remove.
pub fn config_prompt_needed(remove_config: bool, force: bool, any_config_exists: bool) -> (r:
    bool)
    ensures
        r == (remove_config && !force && any_config_exists),
{
    remove_config && !force && any_config_exists
}

/// Exactly what an uninstall will delete: existing binaries, the version
/// store when present, and the config directories cleared for removal.
#[derive(Debug, Clone)]
pub struct RemovalPlan {
    pub binaries: Vec<String>,
    pub versions_dir: Option<String>,
    pub configs: Vec<String>,
}

impl RemovalPlan {
    /// Whether there is nothing to remove: such an uninstall is reported as
    /// a no-op, not a failure.
    pub fn is_noop(&self) -> (r: bool)
        ensures
            r == (self.binaries@.len() == 0 && self.versions_dir is None && self.configs@.len()
                == 0),
    {
        self.binaries.len() == 0 && matches!(self.versions_dir, None) && self.configs.len() == 0
    }
}

/// Decides exactly which candidate paths an uninstall removes. `exist`
/// flags report what is on disk. Existing binaries are always removed; the
/// version store is removed when its probe path exists; an existing config
/// directory is removed only when `remove_config` was requested and either
/// `force` bypasses the prompt or the operator confirmed. With
/// `remove_config` false no config path is ever in the plan, whatever
/// `force` says; with `remove_config` and `force` set every existing config
/// path is, with no prompt needed.
pub fn removal_plan(
    c: &UninstallCandidates,
    binaries_exist: &Vec<bool>,
    versions_exists: bool,
    configs_exist: &Vec<bool>,
    remove_config: bool,
    force: bool,
    confirmed: bool,
) -> (p: RemovalPlan)
    requires
        binaries_exist@.len() == c.binary_paths@.len(),
        configs_exist@.len() == c.config_dirs@.len(),
    ensures
        p.binaries.deep_view() == kept_paths(c.binary_paths.deep_view(), binaries_exist@),
        p.versions_dir.deep_view() == (if versions_exists {
            Some(c.versions_parent@)
        } else {
            None::<Seq<char>>
        }),
        remove_config && (force || confirmed) ==> p.configs.deep_view() == kept_paths(
            c.config_dirs.deep_view(),
            configs_exist@,
        ),
        !(remove_config && (force || confirmed)) ==> p.configs@.len() == 0,
        !remove_config ==> p.configs@.len() == 0,
{
    let binaries = filter_existing(&c.binary_paths, binaries_exist);
    let versions_dir = if versions_exists {
        Some(c.versions_parent.clone())
    } else {
        None
    };
    let configs = if remove_config && (force || confirmed) {
        filter_existing(&c.config_dirs, configs_exist)
    } else {
        Vec::new()
    };
    RemovalPlan { binaries, versions_dir, configs }
}

/// The label a tool is listed under: its display name, with the executable
/// name in parentheses when one is declared.
pub open spec fn tool_label(t: Tool) -> Seq<char> {
    match t.binary_name {
        Some(b) => t.name@ + " ("@ + b@ + ")"@,
        None => t.name@,
    }
}

/// The labels of `tools`, joined with commas.
pub open spec fn joined_labels(tools: Seq<Tool>) -> Seq<char>
    decreases tools.len(),
{
    if tools.len() == 0 {
        Seq::empty()
    } else if tools.len() == 1 {
        tool_label(tools[0])
    } else {
        joined_labels(tools.drop_last()) + ", "@ + tool_label(tools.last())
    }
}

/// The comma-separated list of every tool's label, as shown beside a
/// name that matched nothing.
pub fn format_available_tools(tools: &Vec<Tool>) -> (r: String)
    ensures
        r@ == joined_labels(tools@),
{
    let mut s = String::new();
    let n = tools.len();
    let mut i: usize = 0;
    proof {
        assert(tools@.take(0) =~= Seq::<Tool>::empty());
    }
    while i < n
        invariant
            n == tools@.len(),
            0 <= i <= n,
            s@ == joined_labels(tools@.take(i as int)),
        decreases n - i,
    {
        if i > 0 {
            s.append(", ");
        }
        let t = &tools[i];
        s.append(t.name.as_str());
        match &t.binary_name {
            Some(b) => {
                s.append(" (");
                s.append(b.as_str());
                s.append(")");
            },
            None => {},
        }
        proof {
            assert(tools@.take(i + 1).drop_last() =~= tools@.take(i as int));
            assert(tools@.take(i + 1).last() == tools@[i as int]);
            assert(s@ =~= joined_labels(tools@.take(i + 1)));
        }
        i = i + 1;
    }
    proof {
        assert(tools@.take(n as int) =~= tools@);
    }
    s
}

/// The error reported when a requested name matches no catalog entry: it
/// carries the list of valid names.
pub fn not_found_error(tools: &Vec<Tool>) -> (e: ActionError)
    ensures
        e matches ActionError::NotFound(m) && m@ == joined_labels(tools@),
{
    ActionError::NotFound(format_available_tools(tools))
}

/// The first tool whose display name starts the selection label, the rule
/// the interactive install flow maps a chosen label back to its tool by.
pub fn find_tool_by_selection(tools: &Vec<Tool>, selection: &str) -> (r: Option<usize>)
    ensures
        match r {
            Some(i) => 0 <= i < tools@.len() && crate::text::strip_prefix_spec(
                selection@,
                tools@[i as int].name@,
            ) is Some && forall|k: int|
                0 <= k < i ==> crate::text::strip_prefix_spec(
                    selection@,
                    (#[trigger] tools@[k]).name@,
                ) is None,
            None => forall|k: int|
                0 <= k < tools@.len() ==> crate::text::strip_prefix_spec(
                    selection@,
                    (#[trigger] tools@[k]).name@,
                ) is None,
        },
{
    let n = tools.len();
    let mut i: usize = 0;
    while i < n
        invariant
            n == tools@.len(),
            0 <= i <= n,
            forall|k: int|
                0 <= k < i ==> crate::text::strip_prefix_spec(
                    selection@,
                    (#[trigger] tools@[k]).name@,
                ) is None,
        decreases n - i,
    {
        if crate::text::str_starts_with(selection, tools[i].name.as_str()) {
            return Some(i);
        }
        i = i + 1;
    }
    None
}

/// The first tool whose display name equals the selection exactly, the
/// rule the interactive uninstall flow maps a chosen name back to its tool
/// by.
pub fn find_tool_by_name(tools: &Vec<Tool>, selection: &str) -> (r: Option<usize>)
    ensures
        match r {
            Some(i) => 0 <= i < tools@.len() && tools@[i as int].name@ == selection@ && forall|
                k: int,
            |
                0 <= k < i ==> (#[trigger] tools@[k]).name@ != selection@,
            None => forall|k: int| 0 <= k < tools@.len() ==> (#[trigger] tools@[k]).name@
                != selection@,
        },
{
    let n = tools.len();
    let mut i: usize = 0;
    while i < n
        invariant
            n == tools@.len(),
            0 <= i <= n,
            forall|k: int| 0 <= k < i ==> (#[trigger] tools@[k]).name@ != selection@,
        decreases n - i,
    {
        if crate::text::str_eq(tools[i].name.as_str(), selection) {
            return Some(i);
        }
        i = i + 1;
    }
    None
}

/// The order the selection lists present tools in: by display name.
pub open spec fn tool_name_le(a: Tool, b: Tool) -> bool {
    crate::text::lex_le(a.name@, b.name@)
}

/// Sorts the tools by display name: the result is ordered and holds
/// exactly the descriptors that were handed in.
pub fn sort_tools_by_name(tools: &mut Vec<Tool>)
    ensures
        final(tools)@.len() == old(tools)@.len(),
        vstd::relations::sorted_by(final(tools)@, |a: Tool, b: Tool| tool_name_le(a, b)),
        final(tools)@.to_multiset() == old(tools)@.to_multiset(),
{
    let ghost orig = tools@;
    let ghost leq = |a: Tool, b: Tool| tool_name_le(a, b);
    let n = tools.len();
    if n <= 1 {
        return;
    }
    let mut i: usize = 1;
    while i < n
        invariant
            tools@.len() == n,
            n == orig.len(),
            1 <= i <= n,
            leq == (|a: Tool, b: Tool| tool_name_le(a, b)),
            vstd::relations::sorted_by(tools@.take(i as int), leq),
            tools@.to_multiset() == orig.to_multiset(),
        decreases n - i,
    {
        let ghost prev = tools@;
        let x = tools.remove(i);
        let ghost rem = tools@;
        proof {
            assert(rem.take(i as int) =~= prev.take(i as int));
            assert(prev.contains(x)) by {
                assert(prev[i as int] == x);
            }
            assert(rem == prev.remove(i as int));
            vstd::seq_lib::to_multiset_remove(prev, i as int);
            vstd::seq_lib::to_multiset_contains(prev, x);
            assert(prev.to_multiset().count(x) > 0);
        }
        let mut j: usize = 0;
        while j < i && crate::text::str_le(tools[j].name.as_str(), x.name.as_str())
            invariant
                tools@ == rem,
                rem.len() == n - 1,
                i < n,
                0 <= j <= i,
                forall|k: int|
                    0 <= k < j ==> crate::text::lex_le((#[trigger] rem[k]).name@, x.name@),
            decreases i - j,
        {
            j = j + 1;
        }
        proof {
            if j < i {
                assert(!crate::text::lex_le(rem[j as int].name@, x.name@));
                crate::text::lemma_lex_le_total(rem[j as int].name@, x.name@);
                assert(crate::text::lex_le(x.name@, rem[j as int].name@));
            }
        }
        let ghost jj = j as int;
        let ghost ii = i as int;
        tools.insert(j, x);
        proof {
            let merged = rem.insert(jj, x);
            assert(tools@ == merged);
            vstd::seq_lib::to_multiset_insert(rem, jj, x);
            assert(merged.to_multiset() =~= prev.to_multiset().remove(x).insert(x));
            assert(prev.to_multiset().remove(x).insert(x) =~= prev.to_multiset());
            assert forall|p: int, q: int| 0 <= p < q < ii + 1 implies #[trigger] leq(
                merged.take(ii + 1)[p],
                merged.take(ii + 1)[q],
            ) by {
                let sp = merged.take(ii + 1);
                assert(forall|k: int| 0 <= k < ii + 1 ==> sp[k] == merged[k]);
                if q < jj {
                    assert(merged[p] == rem[p] && merged[q] == rem[q]);
                    assert(leq(rem.take(ii)[p], rem.take(ii)[q]));
                } else if q == jj {
                    assert(merged[q] == x);
                    assert(merged[p] == rem[p]);
                    assert(crate::text::lex_le(rem[p].name@, x.name@));
                } else {
                    assert(merged[q] == rem[q - 1]);
                    if p < jj {
                        assert(merged[p] == rem[p]);
                        if p < q - 1 {
                            assert(leq(rem.take(ii)[p], rem.take(ii)[q - 1]));
                        } else {
                            assert(p == jj - 1 && q - 1 == jj);
                            assert(false);
                        }
                    } else if p == jj {
                        assert(merged[p] == x);
                        if q - 1 == jj {
                            assert(crate::text::lex_le(x.name@, rem[jj].name@));
                        } else {
                            assert(crate::text::lex_le(x.name@, rem[jj].name@));
                            assert(leq(rem.take(ii)[jj], rem.take(ii)[q - 1]));
                            crate::text::lemma_lex_le_trans(
                                x.name@,
                                rem[jj].name@,
                                rem[q - 1].name@,
                            );
                        }
                    } else {
                        assert(merged[p] == rem[p - 1]);
                        assert(leq(rem.take(ii)[p - 1], rem.take(ii)[q - 1]));
                    }
                }
            }
        }
        i = i + 1;
    }
    proof {
        assert(tools@.take(n as int) =~= tools@);
    }
}

} // verus!
