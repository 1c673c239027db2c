use vstd::prelude::*;
use vstd::string::*;

pub mod factory;
pub mod opencode;

verus! {

/// The distribution ecosystem a package-manager-installed tool comes from.
#[derive(Debug, Clone, Copy, PartialEq, Eq, Structural)]
pub enum Ecosystem {
    Npm,
    Brew,
}

/// How a tool is installed and upgraded: through a package manager, through a
/// one-shot bootstrap script fetched from a URL, through the vendor's own
/// self-updater binary, or only by hand.
#[derive(Debug, Clone)]
pub enum InstallMethod {
    PackageManager(Ecosystem, String),
    Bootstrap(String),
    VendorUpdater(String),
    ManualOnly(String),
}

/// One tool of the fixed catalog: its display name, how it is installed, the
/// command that probes for it, and the filesystem locations it owns.
#[derive(Debug, Clone)]
pub struct Tool {
    pub name: String,
    pub install_method: InstallMethod,
    pub check_command: Vec<String>,
    pub binary_name: Option<String>,
    pub config_dirs: Vec<String>,
    pub extra_binary_paths: Vec<String>,
}

impl Tool {
    /// A descriptor with the given name, install method and probe command,
    /// and no binary name, config directories or extra binary paths yet.
    pub fn new(name: &str, install_method: InstallMethod, check_command: Vec<String>) -> (t: Self)
        ensures
            t.name@ == name@,
            t.install_method == install_method,
            t.check_command == check_command,
            t.binary_name is None,
            t.config_dirs@ == Seq::<String>::empty(),
            t.extra_binary_paths@ == Seq::<String>::empty(),
    {
        Self {
            name: String::from_str(name),
            install_method,
            check_command,
            binary_name: None,
            config_dirs: Vec::new(),
            extra_binary_paths: Vec::new(),
        }
    }

    /// The same descriptor with its executable name set.
    pub fn with_binary_name(self, binary_name: &str) -> (t: Self)
        ensures
            t.name == self.name,
            t.install_method == self.install_method,
            t.check_command == self.check_command,
            t.binary_name matches Some(b) && b@ == binary_name@,
            t.config_dirs == self.config_dirs,
            t.extra_binary_paths == self.extra_binary_paths,
    {
        Self { binary_name: Some(String::from_str(binary_name)), ..self }
    }

    /// The same descriptor with one more config directory recorded.
    pub fn with_config_dir(self, config_dir: &str) -> (t: Self)
        ensures
            t.name == self.name,
            t.install_method == self.install_method,
            t.check_command == self.check_command,
            t.binary_name == self.binary_name,
            t.config_dirs.deep_view() == self.config_dirs.deep_view().push(config_dir@),
            t.extra_binary_paths == self.extra_binary_paths,
    {
        let mut config_dirs = self.config_dirs;
        let ghost old_dirs = config_dirs.deep_view();
        config_dirs.push(String::from_str(config_dir));
        proof {
            assert(config_dirs.deep_view() =~= old_dirs.push(config_dir@));
        }
        Self { config_dirs, ..self }
    }

    /// The same descriptor with one more extra binary path recorded.
    pub fn with_extra_binary_path(self, path: &str) -> (t: Self)
        ensures
            t.name == self.name,
            t.install_method == self.install_method,
            t.check_command == self.check_command,
            t.binary_name == self.binary_name,
            t.config_dirs == self.config_dirs,
            t.extra_binary_paths.deep_view() == self.extra_binary_paths.deep_view().push(path@),
    {
        let mut extra_binary_paths = self.extra_binary_paths;
        let ghost old_paths = extra_binary_paths.deep_view();
        extra_binary_paths.push(String::from_str(path));
        proof {
            assert(extra_binary_paths.deep_view() =~= old_paths.push(path@));
        }
        Self { extra_binary_paths, ..self }
    }

    /// Whether a probe outcome reports the tool as installed. `probe` is what
    /// running the check command yielded: `None` when the process could not
    /// be launched at all, `Some(success)` when it ran and exited. A tool
    /// counts as installed exactly when it has a check command and that
    /// command ran and exited successfully; a launch failure is
    /// indistinguishable from absence and reports "not installed".
    pub fn is_installed(&self, probe: Option<bool>) -> (r: bool)
        ensures
            r == (self.check_command@.len() > 0 && probe == Some(true)),
            probe is None ==> r == false,
    {
        if self.check_command.len() == 0 {
            return false;
        }
        match probe {
            Some(success) => success,
            None => false,
        }
    }
}

/// The per-invocation record of one tool: what the local probe and the
/// remote resolution learned about its versions.
#[derive(Debug, Clone)]
pub struct ToolVersion {
    pub name: String,
    pub installed: Option<String>,
    pub latest: Option<String>,
}

impl ToolVersion {
    /// A record with no version detected and no lookup performed yet.
    pub fn new(name: &str) -> (tv: Self)
        ensures
            tv.name@ == name@,
            tv.installed is None,
            tv.latest is None,
    {
        Self { name: String::from_str(name), installed: None, latest: None }
    }

    /// The same record with the locally detected version filled in.
    pub fn with_installed(self, version: Option<String>) -> (tv: Self)
        ensures
            tv.name == self.name,
            tv.installed == version,
            tv.latest == self.latest,
    {
        Self { installed: version, ..self }
    }
}

/// The fixed contents of the catalog: one descriptor per supported tool, in
/// a stable order.
pub open spec fn is_catalog(tools: Seq<Tool>) -> bool {
    &&& tools.len() == 2
    &&& opencode::is_opencode_definition(tools[0])
    &&& factory::is_factory_definition(tools[1])
}

/// The fixed, ordered catalog of supported tools. Pure data: no probing, no
/// I/O.
pub fn catalog() -> (r: Vec<Tool>)
    ensures
        is_catalog(r@),
{
    let mut r: Vec<Tool> = Vec::new();
    r.push(opencode::definition());
    r.push(factory::definition());
    r
}

/// Catalog entries never share a name: the records merged by name are
/// partitioned one per tool.
pub proof fn lemma_catalog_names_distinct(tools: Seq<Tool>)
    requires
        is_catalog(tools),
    ensures
        forall|i: int, j: int|
            0 <= i < j < tools.len() ==> tools[i].name@ != tools[j].name@,
{
    reveal_strlit("OpenCode");
    reveal_strlit("Factory CLI");
    assert(tools[0].name@.len() != tools[1].name@.len());
}

/// One version record per catalog tool, from the probe outputs handed in:
/// each argument is the captured standard output of that tool's version
/// command, or `None` when the command could not be run successfully.
pub fn installed_versions(opencode_probe: Option<&str>, factory_probe: Option<&str>) -> (r: Vec<
    ToolVersion,
>)
    ensures
        r@.len() == 2,
        opencode::is_opencode_record(r@[0], opencode_probe.deep_view()),
        factory::is_factory_record(r@[1], factory_probe.deep_view()),
{
    let mut r: Vec<ToolVersion> = Vec::new();
    r.push(opencode::installed_version(opencode_probe));
    r.push(factory::installed_version(factory_probe));
    r
}

} // verus!
