use vstd::prelude::*;
use vstd::string::*;

use crate::text::{str_trim, trim_spec};
use crate::tools::{InstallMethod, Tool, ToolVersion};

verus! {

/// The catalog entry for OpenCode: installed through its bootstrap script,
/// probed with `opencode --version`, configured under `.opencode`.
pub open spec fn is_opencode_definition(t: Tool) -> bool {
    &&& t.name@ == "OpenCode"@
    &&& t.install_method matches InstallMethod::Bootstrap(u) && u@ == "https://opencode.ai/install"@
    &&& t.check_command.deep_view() == seq!["opencode"@, "--version"@]
    &&& t.binary_name matches Some(b) && b@ == "opencode"@
    &&& t.config_dirs.deep_view() == seq![".opencode"@]
    &&& t.extra_binary_paths.deep_view() == seq![".opencode/bin/opencode"@]
}

/// The OpenCode tool descriptor.
pub fn definition() -> (t: Tool)
    ensures
        is_opencode_definition(t),
{
    let mut check_command: Vec<String> = Vec::new();
    check_command.push(String::from_str("opencode"));
    check_command.push(String::from_str("--version"));
    proof {
        assert(check_command.deep_view() =~= seq!["opencode"@, "--version"@]);
    }
    let t = Tool::new(
        "OpenCode",
        InstallMethod::Bootstrap(String::from_str("https://opencode.ai/install")),
        check_command,
    ).with_binary_name("opencode").with_config_dir(".opencode").with_extra_binary_path(
        ".opencode/bin/opencode",
    );
    proof {
        assert(t.config_dirs.deep_view() =~= seq![".opencode"@]);
        assert(t.extra_binary_paths.deep_view() =~= seq![".opencode/bin/opencode"@]);
    }
    t
}

/// The version record OpenCode's probe yields: the captured output of
/// `opencode --version`, trimmed, when the command ran successfully.
pub open spec fn is_opencode_record(tv: ToolVersion, probe: Option<Seq<char>>) -> bool {
    &&& tv.name@ == "OpenCode"@
    &&& tv.latest is None
    &&& tv.installed.deep_view() == match probe {
        Some(o) => Some(trim_spec(o)),
        None => None::<Seq<char>>,
    }
}

/// OpenCode's version record from the probe output: the trimmed output is
/// the installed version as the tool reports it.
pub fn installed_version(probe: Option<&str>) -> (tv: ToolVersion)
    ensures
        is_opencode_record(tv, probe.deep_view()),
{
    let installed = match probe {
        Some(o) => Some(String::from_str(str_trim(o))),
        None => None,
    };
    ToolVersion::new("OpenCode").with_installed(installed)
}

} // verus!
