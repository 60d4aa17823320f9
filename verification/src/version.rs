//! Version helpers aligned with Go's util/version package.

use vstd::prelude::*;
use vstd::string::StringExecFns;

use crate::json;
use crate::text;
use crate::text::{
    chars_of, decimal, find_char, find_text, parse_u32, split_lines, starts_with, trim,
    two_digits,
};

verus! {

/// What was known when the server was built. A variable of the build that was not set is `None`.
#[derive(Debug)]
pub struct BuildInfo {
    /// Built with five-byte offsets.
    pub five_bytes: bool,
    /// Built with RDMA.
    pub rdma: bool,
    /// Built with debug assertions.
    pub debug_assertions: bool,
    /// The version of the crate.
    pub crate_version: String,
    /// The text of the Go file that holds the version constants.
    pub go_constants: String,
    /// `SEAWEEDFS_COMMIT`.
    pub seaweedfs_commit: Option<String>,
    /// `GIT_COMMIT`.
    pub git_commit: Option<String>,
    /// `GIT_SHA`.
    pub git_sha: Option<String>,
    /// `WEED_VOLUME_BUILD_GIT_SHA`.
    pub build_git_sha: Option<String>,
    /// `WEED_VOLUME_BUILD_GIT_DIRTY`.
    pub build_git_dirty: Option<String>,
    /// `WEED_VOLUME_BUILD_UNIX_SECONDS`.
    pub build_unix_seconds: Option<String>,
}

/// The text of a variable, or `otherwise` where it was not set.
pub open spec fn set_or(variable: Option<String>, otherwise: Seq<char>) -> Seq<char> {
    match variable {
        Some(value) => value@,
        None => otherwise,
    }
}

fn value_or<'a>(variable: &'a Option<String>, otherwise: &'a str) -> (value: &'a str)
    ensures
        value@ == set_or(*variable, otherwise@),
{
    match variable {
        Some(value) => value.as_str(),
        None => otherwise,
    }
}

impl BuildInfo {
    /// The largest volume that the offsets allow.
    pub open spec fn size_limit(self) -> Seq<char> {
        if self.five_bytes {
            "8000GB"@
        } else {
            "30GB"@
        }
    }

    /// The commit: the first of three variables that was set, or `otherwise`.
    pub open spec fn commit_or(self, otherwise: Seq<char>) -> Seq<char> {
        set_or(self.seaweedfs_commit, set_or(self.git_commit, set_or(self.git_sha, otherwise)))
    }

    /// The version number of the Go constants or, where they hold none, of the crate.
    pub open spec fn version_number(self) -> Seq<char> {
        match go_version_number(self.go_constants@) {
            Some(number) => number,
            None => self.crate_version@,
        }
    }

    /// The size limit and the version number.
    pub open spec fn version(self) -> Seq<char> {
        self.size_limit() + " "@ + self.version_number()
    }

    /// The commit that the build recorded, or `unknown` where it recorded none.
    pub open spec fn git_sha(self) -> Seq<char> {
        let sha = set_or(self.build_git_sha, self.commit_or("unknown"@));
        if sha.len() == 0 {
            "unknown"@
        } else {
            sha
        }
    }

    /// The build recorded uncommitted changes.
    pub open spec fn git_dirty(self) -> bool {
        self.build_git_dirty matches Some(value) && value@ == "true"@
    }

    /// The features that were built in.
    pub open spec fn features(self) -> Seq<Seq<char>> {
        let five_bytes = if self.five_bytes {
            seq!["5bytes"@]
        } else {
            Seq::empty()
        };
        let rdma = if self.rdma {
            seq!["rdma"@]
        } else {
            Seq::empty()
        };
        five_bytes + rdma
    }

    /// The transports that were built in.
    pub open spec fn transports(self) -> Seq<Seq<char>> {
        if self.rdma {
            seq!["tcp"@, "rc"@]
        } else {
            seq!["tcp"@]
        }
    }
}

/// The number that a line of Go code converts to an `int32`: what stands, with or without white
/// space around it, between the first `int32(` and the first closing bracket after it.
pub open spec fn int32_of(line: Seq<char>) -> Option<nat> {
    match text::first_match(line, "int32("@) {
        None => None,
        Some(i) => {
            let rest = line.skip(i + "int32("@.len());
            if rest.contains(')') {
                let end = choose|end: int| text::is_first(rest, ')', end);
                text::u32_of(text::trimmed(rest.take(end)))
            } else {
                None
            }
        },
    }
}

/// The major and the minor version that lines of Go code set, read from the top until both are
/// known. A later line overrules an earlier one until then.
pub open spec fn scan_versions(
    lines: Seq<Seq<char>>,
    major: Option<nat>,
    minor: Option<nat>,
) -> Option<(nat, nat)>
    decreases lines.len(),
{
    if major is Some && minor is Some {
        Some((major->0, minor->0))
    } else if lines.len() == 0 {
        None
    } else {
        let line = text::trimmed(lines[0]);
        if text::stands_at(line, "MAJOR_VERSION"@, 0) {
            scan_versions(lines.drop_first(), int32_of(line), minor)
        } else if text::stands_at(line, "MINOR_VERSION"@, 0) {
            scan_versions(lines.drop_first(), major, int32_of(line))
        } else {
            scan_versions(lines.drop_first(), major, minor)
        }
    }
}

/// The version number that Go code sets: major, a dot, and minor with at least two digits.
pub open spec fn go_version_number(source: Seq<char>) -> Option<Seq<char>> {
    match scan_versions(text::lines(source), None, None) {
        None => None,
        Some((major, minor)) => Some(
            text::decimal_text(major) + "."@ + text::two_digit_text(minor),
        ),
    }
}

/// `n` as a mathematical number.
pub open spec fn as_nat(n: Option<u32>) -> Option<nat> {
    match n {
        Some(v) => Some(v as nat),
        None => None,
    }
}

/// Reads the number that a line of Go code converts to an `int32`.
pub fn parse_int32_line(line: &[char]) -> (n: Option<u32>)
    ensures
        as_nat(n) == int32_of(line@),
{
    proof {
        reveal_strlit("int32(");
    }
    let len: usize = line.len();
    let start: usize = match find_text(line, "int32(") {
        None => {
            return None;
        },
        Some(i) => i + 6,
    };
    let rest: &[char] = vstd::slice::slice_subrange(line, start, len);
    assert(rest@ =~= line@.skip(start as int));
    match find_char(rest, ')') {
        None => None,
        Some(end) => {
            proof {
                assert(rest@.contains(rest@[end as int]));
                let e = choose|e: int| text::is_first(rest@, ')', e);
                assert(text::is_first(rest@, ')', e));
                assert(e == end);
            }
            let inner: &[char] = vstd::slice::slice_subrange(rest, 0, end);
            assert(inner@ =~= rest@.take(end as int));
            parse_u32(trim(inner))
        },
    }
}

/// Reads the version number that Go code sets.
pub fn parse_go_version_number(source: &str) -> (number: Option<String>)
    ensures
        match number {
            Some(number) => go_version_number(source@) == Some(number@),
            None => go_version_number(source@) is None,
        },
{
    let chars: Vec<char> = chars_of(source);
    let found: Vec<Vec<char>> = split_lines(chars.as_slice());
    let ghost views = text::line_views(found@);
    let mut major: Option<u32> = None;
    let mut minor: Option<u32> = None;
    let mut i: usize = 0;
    assert(views.skip(0) =~= views);
    while i < found.len() && (major.is_none() || minor.is_none())
        invariant
            i <= found@.len(),
            views == text::line_views(found@),
            scan_versions(views, None, None) == scan_versions(
                views.skip(i as int),
                as_nat(major),
                as_nat(minor),
            ),
        decreases found@.len() - i,
    {
        assert(views.skip(i as int)[0] == found@[i as int]@);
        assert(views.skip(i as int).drop_first() =~= views.skip(i + 1));
        let line: &[char] = trim(found[i].as_slice());
        if starts_with(line, "MAJOR_VERSION") {
            major = parse_int32_line(line);
        } else if starts_with(line, "MINOR_VERSION") {
            minor = parse_int32_line(line);
        }
        i = i + 1;
    }
    match (major, minor) {
        (Some(major), Some(minor)) => {
            let mut number: String = decimal(major as u64);
            number.append(".");
            number.append(two_digits(minor as u64).as_str());
            Some(number)
        },
        _ => None,
    }
}

/// The largest volume that the offsets allow.
pub fn size_limit(build: &BuildInfo) -> (limit: &'static str)
    ensures
        limit@ == build.size_limit(),
{
    if build.five_bytes {
        "8000GB"
    } else {
        "30GB"
    }
}

fn commit_otherwise<'a>(build: &'a BuildInfo, otherwise: &'a str) -> (commit: &'a str)
    ensures
        commit@ == build.commit_or(otherwise@),
{
    value_or(
        &build.seaweedfs_commit,
        value_or(&build.git_commit, value_or(&build.git_sha, otherwise)),
    )
}

/// The commit that the server was built from, or nothing where it is not known.
pub fn commit(build: &BuildInfo) -> (commit: &str)
    ensures
        commit@ == build.commit_or(""@),
{
    commit_otherwise(build, "")
}

/// The version number of the Go constants or, where they hold none, of the crate.
pub fn version_number(build: &BuildInfo) -> (number: String)
    ensures
        number@ == build.version_number(),
{
    match parse_go_version_number(build.go_constants.as_str()) {
        Some(number) => number,
        None => build.crate_version.clone(),
    }
}

/// The size limit and the version number.
pub fn version(build: &BuildInfo) -> (version: String)
    ensures
        version@ == build.version(),
{
    let mut version: String = size_limit(build).to_owned();
    version.append(" ");
    version.append(version_number(build).as_str());
    version
}

/// The version and the commit.
pub fn full_version(build: &BuildInfo) -> (full: String)
    ensures
        full@ == build.version() + " "@ + build.commit_or(""@),
{
    let mut full: String = version(build);
    full.append(" ");
    full.append(commit(build));
    full
}

/// How the server names itself to its clients.
pub fn server_header(build: &BuildInfo) -> (header: String)
    ensures
        header@ == "SeaweedFS Volume "@ + build.version(),
{
    let mut header: String = "SeaweedFS Volume ".to_owned();
    header.append(version(build).as_str());
    header
}

/// The commit that the build recorded, or `unknown` where it recorded none.
pub fn build_git_sha(build: &BuildInfo) -> (sha: &str)
    ensures
        sha@ == build.git_sha(),
{
    let sha: &str = value_or(&build.build_git_sha, commit_otherwise(build, "unknown"));
    if sha.is_empty() {
        "unknown"
    } else {
        sha
    }
}

/// Whether the build recorded uncommitted changes.
pub fn build_git_dirty(build: &BuildInfo) -> (dirty: bool)
    ensures
        dirty == build.git_dirty(),
{
    match &build.build_git_dirty {
        Some(value) => *value == "true".to_owned(),
        None => false,
    }
}

/// When the server was built, in seconds since 1970, or `unknown`.
pub fn build_unix_seconds(build: &BuildInfo) -> (seconds: &str)
    ensures
        seconds@ == set_or(build.build_unix_seconds, "unknown"@),
{
    value_or(&build.build_unix_seconds, "unknown")
}

/// Texts as their characters.
pub open spec fn text_views(texts: Seq<&str>) -> Seq<Seq<char>> {
    Seq::new(texts.len(), |i: int| texts[i]@)
}

/// The features that were built in.
pub fn enabled_features(build: &BuildInfo) -> (features: Vec<&'static str>)
    ensures
        text_views(features@) == build.features(),
{
    let mut features: Vec<&'static str> = Vec::new();
    if build.five_bytes {
        features.push("5bytes");
    }
    if build.rdma {
        features.push("rdma");
    }
    assert(text_views(features@) =~= build.features());
    features
}

/// The transports that were built in.
pub fn rdma_transports(build: &BuildInfo) -> (transports: Vec<&'static str>)
    ensures
        text_views(transports@) == build.transports(),
{
    let mut transports: Vec<&'static str> = Vec::new();
    transports.push("tcp");
    if build.rdma {
        transports.push("rc");
    }
    assert(text_views(transports@) =~= build.transports());
    transports
}

/// Texts as JSON strings.
pub open spec fn json_texts(texts: Seq<Seq<char>>) -> json::Json {
    json::Json::Array(texts.map_values(|text: Seq<char>| json::Json::Text(text)))
}

fn texts_json(texts: &Vec<&'static str>) -> (value: serde_json::Value)
    ensures
        json::json_of(value) == json_texts(text_views(texts@)),
{
    let mut items: Vec<serde_json::Value> = Vec::new();
    let mut i: usize = 0;
    while i < texts.len()
        invariant
            i <= texts@.len(),
            items@.len() == i,
            forall|j: int|
                0 <= j < i ==> json::json_of(#[trigger] items@[j]) == json::Json::Text(texts@[j]@),
        decreases texts@.len() - i,
    {
        items.push(json::text(texts[i]));
        i = i + 1;
    }
    assert(items@.map_values(|item: serde_json::Value| json::json_of(item)) =~= text_views(
        texts@,
    ).map_values(|text: Seq<char>| json::Json::Text(text)));
    json::array(items)
}

/// What the server tells of its build.
pub open spec fn sra_version(
    build: BuildInfo,
    wire_protocol_version: u64,
    policy_fingerprint: Seq<char>,
) -> json::Json {
    json::Json::Object(
        map![
            "service"@ => json::Json::Text("weed-volume"@),
            "git_sha"@ => json::Json::Text(build.git_sha()),
            "git_dirty"@ => json::Json::Bool(build.git_dirty()),
            "build_unix_seconds"@ => json::Json::Text(
                set_or(build.build_unix_seconds, "unknown"@),
            ),
            "build_profile"@ => json::Json::Text(
                if build.debug_assertions {
                    "debug"@
                } else {
                    "release"@
                },
            ),
            "crate_version"@ => json::Json::Text(build.crate_version@),
            "seaweedfs_version"@ => json::Json::Text(build.version_number()),
            "features"@ => json_texts(build.features()),
            "rdma_transports"@ => json_texts(build.transports()),
            "wire_protocol_version"@ => json::Json::Number(wire_protocol_version as nat),
            "policy_fingerprint"@ => json::Json::Text(policy_fingerprint),
        ],
    )
}

/// What the server tells of its build, of the wire protocol it speaks and of its read policy.
pub fn sra_version_json(
    build: &BuildInfo,
    wire_protocol_version: u64,
    policy_fingerprint: &str,
) -> (value: serde_json::Value)
    ensures
        json::json_of(value) == sra_version(*build, wire_protocol_version, policy_fingerprint@),
{
    let profile: &str = if build.debug_assertions {
        "debug"
    } else {
        "release"
    };
    let mut members = json::no_members();
    json::put(&mut members, "service", json::text("weed-volume"));
    json::put(&mut members, "git_sha", json::text(build_git_sha(build)));
    json::put(&mut members, "git_dirty", json::truth(build_git_dirty(build)));
    json::put(&mut members, "build_unix_seconds", json::text(build_unix_seconds(build)));
    json::put(&mut members, "build_profile", json::text(profile));
    json::put(&mut members, "crate_version", json::text(build.crate_version.as_str()));
    json::put(&mut members, "seaweedfs_version", json::text(version_number(build).as_str()));
    json::put(&mut members, "features", texts_json(&enabled_features(build)));
    json::put(&mut members, "rdma_transports", texts_json(&rdma_transports(build)));
    json::put(&mut members, "wire_protocol_version", json::number(wire_protocol_version));
    json::put(&mut members, "policy_fingerprint", json::text(policy_fingerprint));
    json::object(members)
}

/// Lines that set neither version do not matter, wherever they stand.
pub proof fn law_other_lines_do_not_matter(
    before: Seq<Seq<char>>,
    line: Seq<char>,
    after: Seq<Seq<char>>,
    major: Option<nat>,
    minor: Option<nat>,
)
    requires
        !text::stands_at(text::trimmed(line), "MAJOR_VERSION"@, 0),
        !text::stands_at(text::trimmed(line), "MINOR_VERSION"@, 0),
    ensures
        scan_versions(before + seq![line] + after, major, minor) == scan_versions(
            before + after,
            major,
            minor,
        ),
    decreases before.len(),
{
    let with = before + seq![line] + after;
    let without = before + after;
    if major is Some && minor is Some {
    } else if before.len() == 0 {
        assert(with[0] == line);
        assert(with.drop_first() =~= without);
    } else {
        let rest = before.drop_first();
        assert(with[0] == before[0] && without[0] == before[0]);
        assert(with.drop_first() =~= rest + seq![line] + after);
        assert(without.drop_first() =~= rest + after);
        let first = text::trimmed(before[0]);
        if text::stands_at(first, "MAJOR_VERSION"@, 0) {
            law_other_lines_do_not_matter(rest, line, after, int32_of(first), minor);
        } else if text::stands_at(first, "MINOR_VERSION"@, 0) {
            law_other_lines_do_not_matter(rest, line, after, major, int32_of(first));
        } else {
            law_other_lines_do_not_matter(rest, line, after, major, minor);
        }
    }
}

/// Once both versions are known, nothing that follows matters.
pub proof fn law_nothing_matters_once_both_are_known(
    lines: Seq<Seq<char>>,
    more: Seq<Seq<char>>,
    major: Option<nat>,
    minor: Option<nat>,
)
    requires
        scan_versions(lines, major, minor) is Some,
    ensures
        scan_versions(lines + more, major, minor) == scan_versions(lines, major, minor),
    decreases lines.len(),
{
    if major is Some && minor is Some {
    } else {
        let line = text::trimmed(lines[0]);
        assert((lines + more)[0] == lines[0]);
        assert((lines + more).drop_first() =~= lines.drop_first() + more);
        if text::stands_at(line, "MAJOR_VERSION"@, 0) {
            law_nothing_matters_once_both_are_known(
                lines.drop_first(),
                more,
                int32_of(line),
                minor,
            );
        } else if text::stands_at(line, "MINOR_VERSION"@, 0) {
            law_nothing_matters_once_both_are_known(
                lines.drop_first(),
                more,
                major,
                int32_of(line),
            );
        } else {
            law_nothing_matters_once_both_are_known(lines.drop_first(), more, major, minor);
        }
    }
}

/// The commit is never reported as empty text.
pub proof fn law_git_sha_is_never_empty(build: BuildInfo)
    ensures
        build.git_sha().len() > 0,
{
    reveal_strlit("unknown");
}

} // verus!
