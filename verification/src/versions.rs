use vstd::prelude::*;
use vstd::string::*;

use crate::text::{
    lines_spec, split_lines, str_strip_prefix, str_trim, strip_prefix_spec, trim_quotes,
    trim_quotes_spec, trim_spec,
};
use crate::tools::ToolVersion;

verus! {

/// The string at `"dist-tags" -> "latest"` of a package-registry JSON
/// document, when the document parses and carries one.
pub uninterp spec fn npm_latest_of(body: Seq<char>) -> Option<Seq<char>>;

/// Relies on serde_json (`from_str`, `Value::get`, `Value::as_str`): reads
/// the string at `"dist-tags" -> "latest"` of a JSON document. The result is
/// a function of the document text alone.
#[verifier::external_body]
fn npm_latest_in_json(body: &str) -> (r: Option<String>)
    ensures
        r.deep_view() == npm_latest_of(body@),
{
    let v: serde_json::Value = serde_json::from_str(body).ok()?;
    Some(v.get("dist-tags")?.get("latest")?.as_str()?.to_string())
}

/// The latest published version named by a package-registry response body.
pub fn npm_latest(body: &str) -> (r: Option<String>)
    ensures
        r.deep_view() == npm_latest_of(body@),
{
    npm_latest_in_json(body)
}

/// The string at `"tag_name"` of a release-feed JSON document, when the
/// document parses and carries one.
pub uninterp spec fn github_tag_of(body: Seq<char>) -> Option<Seq<char>>;

/// Relies on serde_json (`from_str`, `Value::get`, `Value::as_str`): reads
/// the string at `"tag_name"` of a JSON document. The result is a function
/// of the document text alone.
#[verifier::external_body]
fn github_tag_in_json(body: &str) -> (r: Option<String>)
    ensures
        r.deep_view() == github_tag_of(body@),
{
    let v: serde_json::Value = serde_json::from_str(body).ok()?;
    Some(v.get("tag_name")?.as_str()?.to_string())
}

/// The tag of the latest release named by a release-feed response body.
pub fn github_latest(body: &str) -> (r: Option<String>)
    ensures
        r.deep_view() == github_tag_of(body@),
{
    github_tag_in_json(body)
}

/// The string at `formulae[0].versions.stable` of the package manager's
/// info JSON, when the document parses and carries one.
pub uninterp spec fn brew_formula_stable_of(body: Seq<char>) -> Option<Seq<char>>;

/// Relies on serde_json (`from_str`, `Value::get`, `Value::as_str`): reads
/// the string at `formulae[0].versions.stable` of a JSON document. The
/// result is a function of the document text alone.
#[verifier::external_body]
fn brew_formula_stable_in_json(body: &str) -> (r: Option<String>)
    ensures
        r.deep_view() == brew_formula_stable_of(body@),
{
    let v: serde_json::Value = serde_json::from_str(body).ok()?;
    Some(v.get("formulae")?.get(0)?.get("versions")?.get("stable")?.as_str()?.to_string())
}

/// The string at `casks[0].version` of the package manager's info JSON,
/// when the document parses and carries one.
pub uninterp spec fn brew_cask_version_of(body: Seq<char>) -> Option<Seq<char>>;

/// Relies on serde_json (`from_str`, `Value::get`, `Value::as_str`): reads
/// the string at `casks[0].version` of a JSON document. The result is a
/// function of the document text alone.
#[verifier::external_body]
fn brew_cask_version_in_json(body: &str) -> (r: Option<String>)
    ensures
        r.deep_view() == brew_cask_version_of(body@),
{
    let v: serde_json::Value = serde_json::from_str(body).ok()?;
    Some(v.get("casks")?.get(0)?.get("version")?.as_str()?.to_string())
}

/// The latest stable version in the package manager's info output: the
/// first formula's stable version when one is available, the first cask's
/// version otherwise.
pub fn brew_latest(body: &str) -> (r: Option<String>)
    ensures
        r.deep_view() == match brew_formula_stable_of(body@) {
            Some(v) => Some(v),
            None => brew_cask_version_of(body@),
        },
{
    match brew_formula_stable_in_json(body) {
        Some(v) => Some(v),
        None => brew_cask_version_in_json(body),
    }
}

/// The URL of a package's registry document.
pub fn npm_registry_url(package: &str) -> (r: String)
    ensures
        r@ == "https://registry.npmjs.org/"@ + package@,
{
    let mut s = String::from_str("https://registry.npmjs.org/");
    s.append(package);
    s
}

/// The URL of a repository's latest-release document.
pub fn github_release_url(repo: &str) -> (r: String)
    ensures
        r@ == "https://api.github.com/repos/"@ + repo@ + "/releases/latest"@,
{
    let mut s = String::from_str("https://api.github.com/repos/");
    s.append(repo);
    s.append("/releases/latest");
    s
}

/// What one line of the vendor's installer script contributes: the trimmed
/// line without its `VER=` prefix, trimmed again, when it carries that
/// assignment.
pub open spec fn ver_assignment(line: Seq<char>) -> Option<Seq<char>> {
    match strip_prefix_spec(trim_spec(line), "VER="@) {
        Some(rest) => Some(trim_spec(rest)),
        None => None,
    }
}

/// The first `VER=` assignment among `lines`.
pub open spec fn first_ver_assignment(lines: Seq<Seq<char>>) -> Option<Seq<char>>
    decreases lines.len(),
{
    if lines.len() == 0 {
        None
    } else {
        match ver_assignment(lines[0]) {
            Some(v) => Some(v),
            None => first_ver_assignment(lines.drop_first()),
        }
    }
}

/// The version the vendor's installer script pins: the value of its first
/// `VER=` assignment, with surrounding quotes stripped.
pub open spec fn parse_factory_script(script: Seq<char>) -> Option<Seq<char>> {
    match first_ver_assignment(lines_spec(script)) {
        Some(v) => Some(trim_quotes_spec(v)),
        None => None,
    }
}

/// When no line before `idx` carries a `VER=` assignment, the first
/// assignment of the whole sequence is the first one from `idx` on.
proof fn lemma_first_ver_skip(lines: Seq<Seq<char>>, idx: int)
    requires
        0 <= idx <= lines.len(),
        forall|k: int| 0 <= k < idx ==> ver_assignment(#[trigger] lines[k]) is None,
    ensures
        first_ver_assignment(lines) == first_ver_assignment(lines.skip(idx)),
    decreases idx,
{
    if idx == 0 {
        assert(lines.skip(0) =~= lines);
    } else {
        assert(ver_assignment(lines[0]) is None);
        assert(lines.drop_first() =~= lines.skip(1));
        lemma_first_ver_skip(lines.skip(1), idx - 1);
        assert(lines.skip(1).skip(idx - 1) =~= lines.skip(idx));
    }
}

/// Extracts the pinned version from the vendor's installer script text.
pub fn factory_latest_from_script(script: &str) -> (r: Option<String>)
    ensures
        r.deep_view() == parse_factory_script(script@),
{
    let lines = split_lines(script);
    let ghost all = lines.deep_view();
    let n = lines.len();
    let mut i: usize = 0;
    while i < n
        invariant
            n == lines.len(),
            0 <= i <= n,
            all == lines.deep_view(),
            all == lines_spec(script@),
            forall|k: int| 0 <= k < i ==> ver_assignment(#[trigger] all[k]) is None,
        decreases n - i,
    {
        let trimmed = str_trim(&lines[i]);
        match str_strip_prefix(trimmed, "VER=") {
            Some(rest) => {
                let value = str_trim(rest);
                let unquoted = trim_quotes(value);
                proof {
                    assert(all[i as int] == lines@[i as int]@);
                    lemma_first_ver_skip(all, i as int);
                    assert(all.skip(i as int)[0] == all[i as int]);
                    assert(all.skip(i as int).len() > 0);
                    assert(ver_assignment(all[i as int]) == Some(value@));
                    assert(first_ver_assignment(all.skip(i as int)) == Some(value@));
                }
                return Some(String::from_str(unquoted));
            },
            None => {
                proof {
                    assert(all[i as int] == lines@[i as int]@);
                }
            },
        }
        i = i + 1;
    }
    proof {
        lemma_first_ver_skip(all, n as int);
        assert(all.skip(n as int) =~= Seq::<Seq<char>>::empty());
    }
    None
}

/// One remote lookup's outcome, keyed by the tool name it was made for.
pub struct LookupResult {
    pub name: String,
    pub latest: Option<String>,
}

/// The latest-version value the results carry for `name`: the payload of
/// the first result keyed by it, or nothing when no result is.
pub open spec fn first_result_for(results: Seq<LookupResult>, name: Seq<char>) -> Option<
    Option<Seq<char>>,
>
    decreases results.len(),
{
    if results.len() == 0 {
        None
    } else if results[0].name@ == name {
        Some(results[0].latest.deep_view())
    } else {
        first_result_for(results.drop_first(), name)
    }
}

/// A name no result is keyed by is never found: merging leaves such a
/// record's `latest` untouched.
pub proof fn lemma_unknown_name_has_no_result(results: Seq<LookupResult>, name: Seq<char>)
    requires
        forall|k: int| 0 <= k < results.len() ==> (#[trigger] results[k].name@) != name,
    ensures
        first_result_for(results, name) is None,
    decreases results.len(),
{
    if results.len() > 0 {
        assert(results[0].name@ != name);
        lemma_unknown_name_has_no_result(results.drop_first(), name);
    }
}

/// An `Option<String>` with the same contents.
fn clone_opt_string(o: &Option<String>) -> (r: Option<String>)
    ensures
        r == *o,
{
    match o {
        Some(s) => Some(s.clone()),
        None => None,
    }
}

/// The first result keyed by `name`, if the lookups produced one.
fn find_result(results: &Vec<LookupResult>, name: &String) -> (r: Option<Option<String>>)
    ensures
        r.deep_view() == first_result_for(results@, name@),
{
    let n = results.len();
    let mut j: usize = 0;
    proof {
        assert(results@.skip(0) =~= results@);
    }
    while j < n
        invariant
            n == results@.len(),
            0 <= j <= n,
            first_result_for(results@, name@) == first_result_for(results@.skip(j as int), name@),
        decreases n - j,
    {
        proof {
            assert(results@.skip(j as int)[0] == results@[j as int]);
            assert(results@.skip(j as int).drop_first() =~= results@.skip(j + 1));
        }
        let hit = results[j].name == *name;
        if hit {
            proof {
                assert(results@[j as int].name@ == name@);
                assert(first_result_for(results@.skip(j as int), name@) == Some(
                    results@[j as int].latest.deep_view(),
                ));
            }
            return Some(clone_opt_string(&results[j].latest));
        }
        proof {
            assert(results@[j as int].name@ != name@);
        }
        j = j + 1;
    }
    proof {
        assert(results@.skip(n as int) =~= Seq::<LookupResult>::empty());
    }
    None
}

/// Joins the lookup results back onto the records, strictly by name: a
/// record whose name some result is keyed by takes that result's value as
/// its `latest`; every other record, and every other field, is unchanged. A
/// result keyed by a name no record carries is discarded.
pub fn merge_latest(records: &mut Vec<ToolVersion>, results: &Vec<LookupResult>)
    ensures
        final(records)@.len() == old(records)@.len(),
        forall|i: int|
            0 <= i < old(records)@.len() ==> {
                &&& (#[trigger] final(records)@[i]).name == old(records)@[i].name
                &&& final(records)@[i].installed == old(records)@[i].installed
                &&& final(records)@[i].latest.deep_view() == match first_result_for(
                    results@,
                    old(records)@[i].name@,
                ) {
                    Some(l) => l,
                    None => old(records)@[i].latest.deep_view(),
                }
            },
{
    let n = records.len();
    let mut out: Vec<ToolVersion> = Vec::new();
    let mut i: usize = 0;
    while i < n
        invariant
            n == records@.len(),
            0 <= i <= n,
            out@.len() == i,
            forall|k: int|
                0 <= k < i ==> {
                    &&& (#[trigger] out@[k]).name == records@[k].name
                    &&& out@[k].installed == records@[k].installed
                    &&& out@[k].latest.deep_view() == match first_result_for(
                        results@,
                        records@[k].name@,
                    ) {
                        Some(l) => l,
                        None => records@[k].latest.deep_view(),
                    }
                },
        decreases n - i,
    {
        let rec = &records[i];
        let latest = match find_result(results, &rec.name) {
            Some(l) => l,
            None => clone_opt_string(&rec.latest),
        };
        out.push(ToolVersion { name: rec.name.clone(), installed: clone_opt_string(&rec.installed), latest });
        i = i + 1;
    }
    *records = out;
}

/// A tool's remote distribution channel: a package-registry document, a
/// release feed, the local package manager's metadata, or the vendor's
/// installer-script scrape.
#[derive(Debug, Clone)]
pub enum Channel {
    PackageRegistry(String),
    ReleaseFeed(String),
    PackageManagerMeta(String),
    VendorScript(String),
}

/// One remote lookup to perform: the record name it is keyed to and the
/// channel to ask.
pub struct LookupSource {
    pub name: String,
    pub channel: Channel,
}

/// The fixed lookup plan: one source per catalog tool, keyed by the tool's
/// record name. Pure data; the concurrent execution of the plan is the
/// caller's business.
pub fn lookup_plan() -> (r: Vec<LookupSource>)
    ensures
        r@.len() == 2,
        r@[0].name@ == "OpenCode"@,
        r@[0].channel matches Channel::PackageManagerMeta(f) && f@ == "opencode"@,
        r@[1].name@ == "Factory CLI"@,
        r@[1].channel matches Channel::VendorScript(u) && u@ == "https://app.factory.ai/cli"@,
{
    let mut r: Vec<LookupSource> = Vec::new();
    r.push(
        LookupSource {
            name: String::from_str("OpenCode"),
            channel: Channel::PackageManagerMeta(String::from_str("opencode")),
        },
    );
    r.push(
        LookupSource {
            name: String::from_str("Factory CLI"),
            channel: Channel::VendorScript(String::from_str("https://app.factory.ai/cli")),
        },
    );
    r
}

/// What a record's status line reports: the installed version is current,
/// an update to a newer published version is available, or the tool is not
/// installed (with the published version, when one is known and wanted).
#[derive(Debug, Clone)]
pub enum VersionStatus {
    Current(String),
    UpdateAvailable(String, String),
    NotInstalled(Option<String>),
}

/// The status of one record. An installed tool is current unless a latest
/// version is known, wanted, and matches the installed one in neither
/// containment direction; a missing remote result never reports an update.
pub fn version_status(tool: &ToolVersion, check_latest: bool) -> (st: VersionStatus)
    ensures
        ({
            match tool.installed {
                Some(v) => {
                    let report_update = check_latest && tool.latest is Some
                        && !crate::text::version_match(v@, tool.latest->0@);
                    if report_update {
                        st matches VersionStatus::UpdateAvailable(a, b) && a@ == v@ && b@
                            == tool.latest->0@
                    } else {
                        st matches VersionStatus::Current(a) && a@ == v@
                    }
                },
                None => st matches VersionStatus::NotInstalled(l) && l.deep_view() == (
                if check_latest {
                    tool.latest.deep_view()
                } else {
                    None
                }),
            }
        }),
{
    match &tool.installed {
        Some(v) => {
            if check_latest {
                match &tool.latest {
                    Some(l) => {
                        if crate::text::contains_or_contained(v.as_str(), l.as_str()) {
                            VersionStatus::Current(v.clone())
                        } else {
                            VersionStatus::UpdateAvailable(v.clone(), l.clone())
                        }
                    },
                    None => VersionStatus::Current(v.clone()),
                }
            } else {
                VersionStatus::Current(v.clone())
            }
        },
        None => {
            if check_latest {
                VersionStatus::NotInstalled(clone_opt_string(&tool.latest))
            } else {
                VersionStatus::NotInstalled(None)
            }
        },
    }
}

/// Whether every installed record with a known latest version matches it
/// under the loose containment check.
pub fn all_up_to_date(tools: &Vec<ToolVersion>) -> (r: bool)
    ensures
        r == forall|i: int|
            0 <= i < tools@.len() ==> (((#[trigger] tools@[i]).installed is Some
                && tools@[i].latest is Some) ==> crate::text::version_match(
                tools@[i].installed->0@,
                tools@[i].latest->0@,
            )),
{
    let n = tools.len();
    let mut i: usize = 0;
    while i < n
        invariant
            n == tools@.len(),
            0 <= i <= n,
            forall|k: int|
                0 <= k < i ==> (((#[trigger] tools@[k]).installed is Some
                    && tools@[k].latest is Some) ==> crate::text::version_match(
                    tools@[k].installed->0@,
                    tools@[k].latest->0@,
                )),
        decreases n - i,
    {
        let t = &tools[i];
        match &t.installed {
            Some(v) => {
                match &t.latest {
                    Some(l) => {
                        if !crate::text::contains_or_contained(v.as_str(), l.as_str()) {
                            return false;
                        }
                        proof {
                            assert(tools@[i as int].installed == Some(*v));
                            assert(tools@[i as int].latest == Some(*l));
                        }
                    },
                    None => {},
                }
            },
            None => {},
        }
        i = i + 1;
    }
    true
}

/// The length in characters of the longest record name, the width the
/// status table aligns to.
pub fn label_width(tools: &Vec<ToolVersion>) -> (r: usize)
    ensures
        forall|i: int| 0 <= i < tools@.len() ==> (#[trigger] tools@[i]).name@.len() <= r,
        tools@.len() == 0 ==> r == 0,
        tools@.len() > 0 ==> exists|i: int|
            0 <= i < tools@.len() && (#[trigger] tools@[i]).name@.len() == r,
{
    let n = tools.len();
    let mut r: usize = 0;
    let mut i: usize = 0;
    while i < n
        invariant
            n == tools@.len(),
            0 <= i <= n,
            forall|k: int| 0 <= k < i ==> (#[trigger] tools@[k]).name@.len() <= r,
            i == 0 ==> r == 0,
            i > 0 ==> exists|k: int| 0 <= k < i && (#[trigger] tools@[k]).name@.len() == r,
        decreases n - i,
    {
        let len = tools[i].name.as_str().unicode_len();
        if len > r {
            r = len;
        }
        i = i + 1;
    }
    r
}

} // verus!

verus! {

/// The records whose tool was detected locally, in order.
pub open spec fn installed_of(records: Seq<ToolVersion>) -> Seq<ToolVersion>
    decreases records.len(),
{
    if records.len() == 0 {
        Seq::empty()
    } else {
        let rest = installed_of(records.drop_first());
        if records[0].installed is Some {
            seq![records[0]] + rest
        } else {
            rest
        }
    }
}

/// The records whose tool was not detected locally, in order.
pub open spec fn not_installed_of(records: Seq<ToolVersion>) -> Seq<ToolVersion>
    decreases records.len(),
{
    if records.len() == 0 {
        Seq::empty()
    } else {
        let rest = not_installed_of(records.drop_first());
        if records[0].installed is None {
            seq![records[0]] + rest
        } else {
            rest
        }
    }
}

/// A record with the same contents.
fn clone_record(t: &ToolVersion) -> (r: ToolVersion)
    ensures
        r == *t,
{
    ToolVersion {
        name: t.name.clone(),
        installed: clone_opt_string(&t.installed),
        latest: clone_opt_string(&t.latest),
    }
}

/// Splits the records into those of installed tools and those of tools not
/// detected, each keeping its original order.
pub fn partition_by_installed(records: &Vec<ToolVersion>) -> (r: (
    Vec<ToolVersion>,
    Vec<ToolVersion>,
))
    ensures
        r.0@ == installed_of(records@),
        r.1@ == not_installed_of(records@),
{
    let n = records.len();
    let mut yes: Vec<ToolVersion> = Vec::new();
    let mut no: Vec<ToolVersion> = Vec::new();
    let mut i: usize = 0;
    proof {
        assert(records@.skip(0) =~= records@);
        assert(yes@ + installed_of(records@) =~= installed_of(records@));
        assert(no@ + not_installed_of(records@) =~= not_installed_of(records@));
    }
    while i < n
        invariant
            n == records@.len(),
            0 <= i <= n,
            installed_of(records@) == yes@ + installed_of(records@.skip(i as int)),
            not_installed_of(records@) == no@ + not_installed_of(records@.skip(i as int)),
        decreases n - i,
    {
        proof {
            let rest = records@.skip(i as int);
            assert(rest[0] == records@[i as int]);
            assert(rest.drop_first() =~= records@.skip(i + 1));
        }
        let rec = clone_record(&records[i]);
        let ghost old_yes = yes@;
        let ghost old_no = no@;
        if rec.installed.is_some() {
            yes.push(rec);
            proof {
                assert(yes@ =~= old_yes + seq![records@[i as int]]);
                assert(old_yes + (seq![records@[i as int]] + installed_of(records@.skip(i + 1)))
                    =~= yes@ + installed_of(records@.skip(i + 1)));
            }
        } else {
            no.push(rec);
            proof {
                assert(no@ =~= old_no + seq![records@[i as int]]);
                assert(old_no + (seq![records@[i as int]] + not_installed_of(
                    records@.skip(i + 1),
                )) =~= no@ + not_installed_of(records@.skip(i + 1)));
            }
        }
        i = i + 1;
    }
    proof {
        assert(records@.skip(n as int) =~= Seq::<ToolVersion>::empty());
        assert(yes@ + installed_of(records@.skip(n as int)) =~= yes@);
        assert(no@ + not_installed_of(records@.skip(n as int)) =~= no@);
    }
    (yes, no)
}

} // verus!
