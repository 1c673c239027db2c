use vstd::prelude::*;
use vstd::string::*;

use crate::text::{
    all_version_chars, lines_spec, split_lines, str_all_version_chars, str_trim, trim_leading_v,
    trim_leading_v_spec, trim_spec,
};
use crate::tools::{InstallMethod, Tool, ToolVersion};

verus! {

/// The catalog entry for the Factory CLI: installed through the vendor's
/// bootstrap script, probed with `droid --version`, configured under
/// `.factory`.
pub open spec fn is_factory_definition(t: Tool) -> bool {
    &&& t.name@ == "Factory CLI"@
    &&& t.install_method matches InstallMethod::Bootstrap(u) && u@
        == "https://app.factory.ai/cli"@
    &&& t.check_command.deep_view() == seq!["droid"@, "--version"@]
    &&& t.binary_name matches Some(b) && b@ == "droid"@
    &&& t.config_dirs.deep_view() == seq![".factory"@]
    &&& t.extra_binary_paths.deep_view() == Seq::<Seq<char>>::empty()
}

/// The Factory CLI tool descriptor.
pub fn definition() -> (t: Tool)
    ensures
        is_factory_definition(t),
{
    let mut check_command: Vec<String> = Vec::new();
    check_command.push(String::from_str("droid"));
    check_command.push(String::from_str("--version"));
    proof {
        assert(check_command.deep_view() =~= seq!["droid"@, "--version"@]);
    }
    let t = Tool::new(
        "Factory CLI",
        InstallMethod::Bootstrap(String::from_str("https://app.factory.ai/cli")),
        check_command,
    ).with_binary_name("droid").with_config_dir(".factory");
    proof {
        assert(t.config_dirs.deep_view() =~= seq![".factory"@]);
        assert(t.extra_binary_paths.deep_view() =~= Seq::<Seq<char>>::empty());
    }
    t
}

/// What one line of `droid --version` output contributes: the line is
/// trimmed; if what is left is non-empty after also dropping leading `v`
/// characters and consists only of digits and dots, it is a version
/// candidate.
pub open spec fn version_candidate(line: Seq<char>) -> Option<Seq<char>> {
    let t = trim_spec(line);
    if t.len() == 0 {
        None
    } else {
        let v = trim_leading_v_spec(t);
        if v.len() > 0 && all_version_chars(v) {
            Some(v)
        } else {
            None
        }
    }
}

/// The last version candidate among `lines`, if any line yields one.
pub open spec fn last_version_candidate(lines: Seq<Seq<char>>) -> Option<Seq<char>>
    decreases lines.len(),
{
    if lines.len() == 0 {
        None
    } else {
        match version_candidate(lines.last()) {
            Some(v) => Some(v),
            None => last_version_candidate(lines.drop_last()),
        }
    }
}

/// The version the Factory CLI reports: its output is trimmed, split into
/// lines, and the last line that looks like a bare version number wins.
pub open spec fn parse_factory_version(output: Seq<char>) -> Option<Seq<char>> {
    last_version_candidate(lines_spec(trim_spec(output)))
}

/// When every line from `idx` on yields no candidate, the last candidate of
/// the whole sequence is the last candidate of the first `idx` lines.
proof fn lemma_last_candidate_take(lines: Seq<Seq<char>>, idx: int)
    requires
        0 <= idx <= lines.len(),
        forall|k: int| idx <= k < lines.len() ==> version_candidate(#[trigger] lines[k]) is None,
    ensures
        last_version_candidate(lines) == last_version_candidate(lines.take(idx)),
    decreases lines.len() - idx,
{
    if idx == lines.len() {
        assert(lines.take(idx) =~= lines);
    } else {
        assert(version_candidate(lines.last()) is None);
        lemma_last_candidate_take(lines.drop_last(), idx);
        assert(lines.drop_last().take(idx) =~= lines.take(idx));
    }
}

/// The trimmed line's version candidate, if it has one.
fn line_candidate(line: &str) -> (r: Option<String>)
    ensures
        r.deep_view() == version_candidate(line@),
{
    let t = str_trim(line);
    if t.unicode_len() == 0 {
        return None;
    }
    let v = trim_leading_v(t);
    if v.unicode_len() > 0 && str_all_version_chars(v) {
        Some(String::from_str(v))
    } else {
        None
    }
}

/// Extracts the installed version from captured `droid --version` output.
pub fn extract_factory_version(output: &str) -> (r: Option<String>)
    ensures
        r.deep_view() == parse_factory_version(output@),
{
    let trimmed = str_trim(output);
    let lines = split_lines(trimmed);
    let ghost all = lines.deep_view();
    let mut idx = lines.len();
    while idx > 0
        invariant
            idx <= lines.len(),
            all == lines.deep_view(),
            all == lines_spec(trim_spec(output@)),
            forall|k: int| idx <= k < all.len() ==> version_candidate(#[trigger] all[k]) is None,
        decreases idx,
    {
        idx = idx - 1;
        let cand = line_candidate(&lines[idx]);
        match cand {
            Some(v) => {
                proof {
                    assert(all[idx as int] == lines@[idx as int]@);
                    lemma_last_candidate_take(all, idx + 1);
                    assert(all.take(idx + 1).last() == all[idx as int]);
                    assert(all.take(idx + 1).len() > 0);
                    assert(version_candidate(all.take(idx + 1).last()) == Some(v@));
                    assert(last_version_candidate(all.take(idx + 1)) == Some(v@));
                }
                return Some(v);
            },
            None => {},
        }
    }
    proof {
        lemma_last_candidate_take(all, 0);
        assert(all.take(0) =~= Seq::<Seq<char>>::empty());
    }
    None
}

/// The version record the Factory CLI's probe yields: `probe` is the
/// captured output of `droid --version` when the command ran successfully.
pub open spec fn is_factory_record(tv: ToolVersion, probe: Option<Seq<char>>) -> bool {
    &&& tv.name@ == "Factory CLI"@
    &&& tv.latest is None
    &&& tv.installed.deep_view() == match probe {
        Some(o) => parse_factory_version(o),
        None => None::<Seq<char>>,
    }
}

/// The Factory CLI's version record from the probe output.
pub fn installed_version(probe: Option<&str>) -> (tv: ToolVersion)
    ensures
        is_factory_record(tv, probe.deep_view()),
{
    let installed = match probe {
        Some(o) => extract_factory_version(o),
        None => None,
    };
    ToolVersion::new("Factory CLI").with_installed(installed)
}

} // verus!
