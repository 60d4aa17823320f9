//! What the server tells of itself, and what its build records.

use vstd::prelude::*;

use crate::json;
use crate::laws::text;
use crate::provenance::{choose_sha, decide_dirty, head_reference};
use crate::rdma::parse_fid;
use crate::rdma_stats;
use crate::rdma_stats::{buffer_pool_stats_json, rdma_stats_json, BufferPoolStats};
use crate::version;
use crate::version::{
    build_git_dirty, build_git_sha, build_unix_seconds, commit, enabled_features, full_version,
    parse_go_version_number, parse_int32_line, rdma_transports, server_header, size_limit,
    sra_version_json, version_number, BuildInfo,
};

verus! {

/// The object `value` has a member called `name`, and it is `member`.
pub open spec fn has(value: json::Json, name: Seq<char>, member: json::Json) -> bool {
    value matches json::Json::Object(members) && members.contains_key(name) && members[name]
        == member
}

/// The members of the object `value` have these names.
pub open spec fn named(value: json::Json, names: Set<Seq<char>>) -> bool {
    value matches json::Json::Object(members) && members.dom() == names
}

/// Every counter of a pool is told under its own name, with its own value, and nothing else is.
pub proof fn law_pool_counters_are_told(stats: BufferPoolStats, value: serde_json::Value)
    requires
        call_ensures(buffer_pool_stats_json, (stats,), value),
    ensures
        ({
            let told = json::json_of(value);
            &&& has(told, "total_slots"@, json::Json::Number(stats.total_slots as nat))
            &&& has(told, "free_slots"@, json::Json::Number(stats.free_slots as nat))
            &&& has(told, "allocated_slots"@, json::Json::Number(stats.allocated_slots as nat))
            &&& has(told, "total_allocations"@, json::Json::Number(stats.total_allocations as nat))
            &&& has(told, "exhausted_events"@, json::Json::Number(stats.exhausted_events as nat))
            &&& has(told, "wait_events"@, json::Json::Number(stats.wait_events as nat))
            &&& has(
                told,
                "wait_timeout_events"@,
                json::Json::Number(stats.wait_timeout_events as nat),
            )
            &&& has(told, "wait_total_micros"@, json::Json::Number(stats.wait_total_micros as nat))
            &&& has(
                told,
                "request_slot_observations"@,
                json::Json::Number(stats.request_slot_observations as nat),
            )
            &&& has(
                told,
                "request_slots_total"@,
                json::Json::Number(stats.request_slots_total as nat),
            )
            &&& has(told, "request_slots_max"@, json::Json::Number(stats.request_slots_max as nat))
            &&& has(
                told,
                "quarantined_slots_total"@,
                json::Json::Number(stats.quarantined_slots_total as nat),
            )
            &&& named(
                told,
                set!["total_slots"@, "free_slots"@, "allocated_slots"@, "total_allocations"@,
                    "exhausted_events"@, "wait_events"@, "wait_timeout_events"@,
                    "wait_total_micros"@, "request_slot_observations"@, "request_slots_total"@,
                    "request_slots_max"@, "quarantined_slots_total"@],
            )
        }),
{
    reveal_strlit("total_slots");
    reveal_strlit("free_slots");
    reveal_strlit("allocated_slots");
    reveal_strlit("total_allocations");
    reveal_strlit("exhausted_events");
    reveal_strlit("wait_events");
    reveal_strlit("wait_timeout_events");
    reveal_strlit("wait_total_micros");
    reveal_strlit("request_slot_observations");
    reveal_strlit("request_slots_total");
    reveal_strlit("request_slots_max");
    reveal_strlit("quarantined_slots_total");
    assert("total_slots"@.len() == 11);
    assert("free_slots"@.len() == 10);
    assert("allocated_slots"@.len() == 15);
    assert("total_allocations"@.len() == 17);
    assert("exhausted_events"@.len() == 16);
    assert("wait_events"@.len() == 11);
    assert("wait_timeout_events"@.len() == 19);
    assert("wait_total_micros"@.len() == 17);
    assert("request_slot_observations"@.len() == 25);
    assert("request_slots_total"@.len() == 19);
    assert("request_slots_max"@.len() == 17);
    assert("quarantined_slots_total"@.len() == 23);
    assert("total_slots"@[0] == 't' && "wait_events"@[0] == 'w');
    assert("total_allocations"@[0] == 't' && "wait_total_micros"@[0] == 'w'
        && "request_slots_max"@[0] == 'r');
    assert("wait_timeout_events"@[0] == 'w' && "request_slots_total"@[0] == 'r');
    let members = rdma_stats::buffer_pool_stats(stats)->Object_0;
    assert(members.dom() =~= set![
        "total_slots"@,
        "free_slots"@,
        "allocated_slots"@,
        "total_allocations"@,
        "exhausted_events"@,
        "wait_events"@,
        "wait_timeout_events"@,
        "wait_total_micros"@,
        "request_slot_observations"@,
        "request_slots_total"@,
        "request_slots_max"@,
        "quarantined_slots_total"@,
    ]);
}

/// The report tells whether there is a pool and, if so, the pool's own counters.
pub proof fn law_pool_report(
    pool: Option<BufferPoolStats>,
    counters: serde_json::Value,
    value: serde_json::Value,
)
    requires
        call_ensures(rdma_stats_json, (pool,), value),
        pool matches Some(stats) ==> call_ensures(buffer_pool_stats_json, (stats,), counters),
    ensures
        ({
            let told = json::json_of(value);
            &&& has(told, "schema_version"@, json::Json::Number(1))
            &&& has(told, "service"@, json::Json::Text("weed-volume"@))
            &&& has(told, "kind"@, json::Json::Text("rdma_listener"@))
            &&& has(told, "available"@, json::Json::Bool(pool is Some))
            &&& pool is Some ==> has(told, "transport"@, json::Json::Text("rc"@)) && has(
                told,
                "buffer_pool"@,
                json::json_of(counters),
            )
            &&& pool is None ==> has(told, "transport"@, json::Json::Null) && has(
                told,
                "buffer_pool"@,
                json::Json::Null,
            )
            &&& named(
                told,
                set!["schema_version"@, "service"@, "kind"@, "available"@, "transport"@,
                    "buffer_pool"@],
            )
        }),
{
    reveal_strlit("schema_version");
    reveal_strlit("service");
    reveal_strlit("kind");
    reveal_strlit("available");
    reveal_strlit("transport");
    reveal_strlit("buffer_pool");
    assert("schema_version"@.len() == 14);
    assert("service"@.len() == 7);
    assert("kind"@.len() == 4);
    assert("available"@.len() == 9);
    assert("transport"@.len() == 9);
    assert("buffer_pool"@.len() == 11);
    assert("available"@[0] == 'a' && "transport"@[0] == 't');
    let members = rdma_stats::rdma_stats(pool)->Object_0;
    assert(members.dom() =~= set![
        "schema_version"@,
        "service"@,
        "kind"@,
        "available"@,
        "transport"@,
        "buffer_pool"@,
    ]);
}

/// `shown` is the first of these that is set, or `otherwise`.
pub open spec fn first_set(
    shown: Seq<char>,
    a: Option<String>,
    b: Option<String>,
    c: Option<String>,
    otherwise: Seq<char>,
) -> bool {
    &&& a matches Some(set) ==> shown == set@
    &&& a is None ==> (b matches Some(set) ==> shown == set@)
    &&& a is None && b is None ==> (c matches Some(set) ==> shown == set@)
    &&& a is None && b is None && c is None ==> shown == otherwise
}

/// The commit is the first of its three variables that is set, or nothing.
pub proof fn law_commit_is_the_first_set(build: &BuildInfo, shown: &str)
    requires
        call_ensures(commit, (build,), shown),
    ensures
        first_set(shown@, build.seaweedfs_commit, build.git_commit, build.git_sha, ""@),
{
}

/// The recorded commit is the build's own variable or, where that is not set, the commit; what is
/// empty or not set is told as unknown.
pub proof fn law_git_sha_is_what_was_recorded(build: &BuildInfo, shown: &str)
    requires
        call_ensures(build_git_sha, (build,), shown),
    ensures
        build.build_git_sha matches Some(set) ==> shown@ == if set@.len() == 0 {
            "unknown"@
        } else {
            set@
        },
        build.build_git_sha is None ==> exists|sha: Seq<char>| #[trigger]
            first_set(sha, build.seaweedfs_commit, build.git_commit, build.git_sha, "unknown"@)
                && shown@ == if sha.len() == 0 {
                "unknown"@
            } else {
                sha
            },
{
    if build.build_git_sha is None {
        let sha = build.commit_or("unknown"@);
        assert(first_set(sha, build.seaweedfs_commit, build.git_commit, build.git_sha, "unknown"@));
    }
}

/// Changes are told if and only if the build's variable reads `true`, and the time as recorded.
pub proof fn law_build_marks_are_told(build: &BuildInfo, dirty: bool, seconds: &str)
    requires
        call_ensures(build_git_dirty, (build,), dirty),
        call_ensures(build_unix_seconds, (build,), seconds),
    ensures
        dirty <==> (build.build_git_dirty matches Some(set) && set@ == "true"@),
        seconds@ == match build.build_unix_seconds {
            Some(set) => set@,
            None => "unknown"@,
        },
{
}

/// What was built in is told, each thing once and in a fixed order.
pub proof fn law_features_are_told(
    build: &BuildInfo,
    features: Vec<&'static str>,
    transports: Vec<&'static str>,
)
    requires
        call_ensures(enabled_features, (build,), features),
        call_ensures(rdma_transports, (build,), transports),
    ensures
        build.five_bytes && build.rdma ==> features@.len() == 2 && features@[0]@ == "5bytes"@
            && features@[1]@ == "rdma"@,
        build.five_bytes && !build.rdma ==> features@.len() == 1 && features@[0]@ == "5bytes"@,
        !build.five_bytes && build.rdma ==> features@.len() == 1 && features@[0]@ == "rdma"@,
        !build.five_bytes && !build.rdma ==> features@.len() == 0,
        build.rdma ==> transports@.len() == 2 && transports@[0]@ == "tcp"@ && transports@[1]@
            == "rc"@,
        !build.rdma ==> transports@.len() == 1 && transports@[0]@ == "tcp"@,
{
    let shown = version::text_views(features@);
    let named = version::text_views(transports@);
    assert(shown.len() == features@.len() && named.len() == transports@.len());
    if features@.len() > 0 {
        assert(shown[0] == features@[0]@);
    }
    if features@.len() > 1 {
        assert(shown[1] == features@[1]@);
    }
    assert(named[0] == transports@[0]@);
    if transports@.len() > 1 {
        assert(named[1] == transports@[1]@);
    }
}

/// Versions are put together from the size limit, the version number and the commit.
pub proof fn law_versions_are_put_together(
    build: &BuildInfo,
    limit: &'static str,
    number: String,
    shown_commit: &str,
    shown: String,
    full: String,
    header: String,
)
    requires
        call_ensures(size_limit, (build,), limit),
        call_ensures(version_number, (build,), number),
        call_ensures(commit, (build,), shown_commit),
        call_ensures(version::version, (build,), shown),
        call_ensures(full_version, (build,), full),
        call_ensures(server_header, (build,), header),
    ensures
        limit@ == if build.five_bytes {
            "8000GB"@
        } else {
            "30GB"@
        },
        shown@ == limit@ + " "@ + number@,
        full@ == shown@ + " "@ + shown_commit@,
        header@ == "SeaweedFS Volume "@ + shown@,
{
}

/// The version number is that of the Go constants or, where they hold none, the crate's.
pub proof fn law_version_number_is_read_or_the_crates(
    build: &BuildInfo,
    source: &str,
    read: Option<String>,
    number: String,
)
    requires
        call_ensures(version_number, (build,), number),
        call_ensures(parse_go_version_number, (source,), read),
        source@ == build.go_constants@,
    ensures
        read matches Some(found) ==> number@ == found@,
        read is None ==> number@ == build.crate_version@,
{
}

/// The text at `i` of `line` opens a conversion to `int32`, and is the first to do so.
pub open spec fn converts_at(line: Seq<char>, i: int) -> bool {
    &&& text::occurs(line, "int32("@, i)
    &&& forall|j: int| 0 <= j < i ==> !#[trigger] text::occurs(line, "int32("@, j)
}

/// `line` converts what stands in `from..to`: `from` follows on the first `int32(`, and `to` is
/// the first closing bracket from there on.
pub open spec fn converts(line: Seq<char>, from: int, to: int) -> bool {
    &&& converts_at(line, from - 6)
    &&& from <= to < line.len()
    &&& line[to] as int == 41
    &&& forall|j: int| from <= j < to ==> (#[trigger] line[j]) as int != 41
}

/// `digits` with at most one plus sign before them are what is left of `s[from..to]` without the
/// white space around it.
pub open spec fn holds_u32(s: Seq<char>, from: int, to: int, n: int) -> bool {
    let inner = s.subrange(from, to);
    exists|a: int, b: int| #[trigger]
        text::stripped(inner, a, b) && {
            let kept = inner.subrange(a, b);
            let unsigned = if kept.len() > 0 && kept[0] as int == 43 {
                kept.subrange(1, kept.len() as int)
            } else {
                kept
            };
            text::digits(unsigned, 10) && text::number(unsigned, 10) == n && n <= 4294967295
        }
}

proof fn lemma_u32_of(s: Seq<char>)
    ensures
        ({
            let unsigned = if s.len() > 0 && s[0] as int == 43 {
                s.subrange(1, s.len() as int)
            } else {
                s
            };
            &&& crate::text::u32_of(s) is Some <==> text::digits(unsigned, 10) && text::number(
                unsigned,
                10,
            ) <= 4294967295
            &&& crate::text::u32_of(s) matches Some(n) ==> n == text::number(unsigned, 10)
        }),
{
    if s.len() > 0 {
        assert(s.subrange(1, s.len() as int) =~= s.drop_first());
        text::lemma_numeral(s.drop_first(), 10);
    }
    text::lemma_numeral(s, 10);
}

proof fn lemma_int32_of(line: Seq<char>, from: int, to: int)
    requires
        converts(line, from, to),
    ensures
        match version::int32_of(line) {
            Some(n) => holds_u32(line, from, to, n as int),
            None => forall|n: int| !#[trigger] holds_u32(line, from, to, n),
        },
{
    reveal_strlit("int32(");
    text::lemma_first_occurrence(line, "int32("@);
    let i = from - 6;
    assert(crate::text::first_match(line, "int32("@) == Some(i)) by {
        match crate::text::first_match(line, "int32("@) {
            Some(k) => {
                if k < i {
                    assert(!text::occurs(line, "int32("@, k));
                }
                if i < k {
                    assert(!text::occurs(line, "int32("@, i));
                }
            },
            None => {
                assert(!text::occurs(line, "int32("@, i));
            },
        }
    }
    let rest = line.skip(from);
    assert(rest[to - from] == line[to]);
    assert(rest.contains(rest[to - from]));
    let end = to - from;
    assert(crate::text::is_first(rest, ')', end)) by {
        assert forall|j: int| 0 <= j < end implies rest[j] != ')' by {
            assert(rest[j] == line[from + j]);
        }
    }
    let e = choose|e: int| crate::text::is_first(rest, ')', e);
    assert(e == end);
    let inner = line.subrange(from, to);
    assert(rest.take(end) =~= inner);
    let (a, b) = text::lemma_trimmed(inner);
    lemma_u32_of(inner.subrange(a, b));
    match version::int32_of(line) {
        Some(n) => {
            assert(text::stripped(inner, a, b));
            assert(holds_u32(line, from, to, n as int));
        },
        None => {
            assert forall|n: int| !#[trigger] holds_u32(line, from, to, n) by {
                if holds_u32(line, from, to, n) {
                    let (c, d) = choose|c: int, d: int| #[trigger]
                        text::stripped(inner, c, d) && {
                            let kept = inner.subrange(c, d);
                            let unsigned = if kept.len() > 0 && kept[0] as int == 43 {
                                kept.subrange(1, kept.len() as int)
                            } else {
                                kept
                            };
                            text::digits(unsigned, 10) && text::number(unsigned, 10) == n && n
                                <= 4294967295
                        };
                    text::lemma_stripped_is_unique(inner, c, d);
                    assert(false);
                }
            }
        },
    }
}

/// A line gives the number between its first `int32(` and the next closing bracket, with or
/// without white space around it, if it is a decimal `u32`; a line that lacks either gives none.
pub proof fn law_line_gives_its_number(line: &[char], from: int, to: int, n: Option<u32>)
    requires
        call_ensures(parse_int32_line, (line,), n),
    ensures
        converts(line@, from, to) ==> match n {
            Some(v) => holds_u32(line@, from, to, v as int),
            None => forall|v: int| !#[trigger] holds_u32(line@, from, to, v),
        },
        (forall|i: int| !#[trigger] text::occurs(line@, "int32("@, i)) ==> n is None,
        converts_at(line@, from - 6) && (forall|j: int|
            from <= j < line@.len() ==> (#[trigger] line@[j]) as int != 41) ==> n is None,
{
    if converts(line@, from, to) {
        lemma_int32_of(line@, from, to);
    }
    text::lemma_first_occurrence(line@, "int32("@);
    if converts_at(line@, from - 6) && (forall|j: int|
        from <= j < line@.len() ==> (#[trigger] line@[j]) as int != 41) {
        reveal_strlit("int32(");
        let i = crate::text::first_match(line@, "int32("@)->0;
        assert(i == from - 6) by {
            if i < from - 6 {
                assert(!text::occurs(line@, "int32("@, i));
            }
            if from - 6 < i {
                assert(!text::occurs(line@, "int32("@, from - 6));
            }
        }
        let rest = line@.skip(from);
        assert forall|j: int| 0 <= j < rest.len() implies rest[j] != ')' by {
            assert(rest[j] == line@[from + j]);
        }
        assert(!rest.contains(')'));
    }
}

/// `line`, without the white space around it, starts with `name`.
pub open spec fn sets(line: Seq<char>, name: Seq<char>) -> bool {
    exists|a: int, b: int| #[trigger]
        text::stripped(line, a, b) && text::occurs(line.subrange(a, b), name, 0)
}

proof fn lemma_sets(line: Seq<char>, name: Seq<char>)
    ensures
        sets(line, name) == crate::text::stands_at(crate::text::trimmed(line), name, 0),
{
    let (a, b) = text::lemma_trimmed(line);
    text::lemma_occurs(line.subrange(a, b), name, 0);
    if sets(line, name) {
        let (c, d) = choose|c: int, d: int| #[trigger]
            text::stripped(line, c, d) && text::occurs(line.subrange(c, d), name, 0);
        text::lemma_stripped_is_unique(line, c, d);
    }
}

/// `line`, without the white space around it, converts the number `n` to `int32`.
pub open spec fn gives(line: Seq<char>, n: int) -> bool {
    exists|a: int, b: int, from: int, to: int|
        #![trigger text::stripped(line, a, b), converts(line.subrange(a, b), from, to)]
        text::stripped(line, a, b) && converts(line.subrange(a, b), from, to) && holds_u32(
            line.subrange(a, b),
            from,
            to,
            n,
        )
}

/// The number that `line` gives, if it gives one.
pub open spec fn number_on(line: Seq<char>) -> Option<int> {
    if exists|n: int| gives(line, n) {
        Some(choose|n: int| gives(line, n))
    } else {
        None
    }
}

/// A conversion that gives a number is found.
proof fn lemma_converts_somewhere(line: Seq<char>)
    requires
        version::int32_of(line) is Some,
    ensures
        exists|from: int, to: int| #[trigger] converts(line, from, to),
{
    reveal_strlit("int32(");
    text::lemma_first_occurrence(line, "int32("@);
    let i = crate::text::first_match(line, "int32("@)->0;
    let from = i + 6;
    let rest = line.skip(from);
    parse_fid::lemma_first_exists(rest, ')');
    let end = choose|end: int| crate::text::is_first(rest, ')', end);
    assert forall|j: int| from <= j < from + end implies (#[trigger] line[j]) as int != 41 by {
        assert(rest[j - from] == line[j]);
        assert(rest[j - from] != ')');
    }
    assert(line[from + end] == rest[end]);
    assert(converts(line, from, from + end));
}

proof fn lemma_holds_one_number(s: Seq<char>, from: int, to: int, m: int, n: int)
    requires
        holds_u32(s, from, to, m),
        holds_u32(s, from, to, n),
    ensures
        m == n,
{
    let inner = s.subrange(from, to);
    let (a, b) = choose|a: int, b: int| #[trigger]
        text::stripped(inner, a, b) && {
            let kept = inner.subrange(a, b);
            let unsigned = if kept.len() > 0 && kept[0] as int == 43 {
                kept.subrange(1, kept.len() as int)
            } else {
                kept
            };
            text::digits(unsigned, 10) && text::number(unsigned, 10) == m && m <= 4294967295
        };
    let (c, d) = choose|c: int, d: int| #[trigger]
        text::stripped(inner, c, d) && {
            let kept = inner.subrange(c, d);
            let unsigned = if kept.len() > 0 && kept[0] as int == 43 {
                kept.subrange(1, kept.len() as int)
            } else {
                kept
            };
            text::digits(unsigned, 10) && text::number(unsigned, 10) == n && n <= 4294967295
        };
    text::lemma_stripped_is_unique(inner, a, b);
    text::lemma_stripped_is_unique(inner, c, d);
}

/// The contracts read off a line the number that it gives.
proof fn lemma_number_on(line: Seq<char>)
    ensures
        match version::int32_of(crate::text::trimmed(line)) {
            Some(n) => number_on(line) == Some(n as int),
            None => number_on(line) is None,
        },
{
    let inner = crate::text::trimmed(line);
    let (a, b) = text::lemma_trimmed(line);
    match version::int32_of(inner) {
        Some(n) => {
            lemma_converts_somewhere(inner);
            let (from, to) = choose|from: int, to: int| #[trigger] converts(inner, from, to);
            lemma_int32_of(inner, from, to);
            assert(text::stripped(line, a, b) && converts(line.subrange(a, b), from, to));
            assert(gives(line, n as int));
            let m = choose|m: int| gives(line, m);
            assert(gives(line, m));
            lemma_gives_one_number(line, m, n as int);
        },
        None => {
            assert forall|n: int| !gives(line, n) by {
                if gives(line, n) {
                    let (c, d, from, to) = choose|c: int, d: int, from: int, to: int|
                        #![trigger text::stripped(line, c, d), converts(line.subrange(c, d), from, to)]
                        text::stripped(line, c, d) && converts(line.subrange(c, d), from, to)
                            && holds_u32(line.subrange(c, d), from, to, n);
                    text::lemma_stripped_is_unique(line, c, d);
                    lemma_int32_of(inner, from, to);
                    assert(!holds_u32(inner, from, to, n));
                }
            }
        },
    }
}

proof fn lemma_gives_one_number(line: Seq<char>, m: int, n: int)
    requires
        gives(line, m),
        gives(line, n),
    ensures
        m == n,
{
    let (a, b, from, to) = choose|a: int, b: int, from: int, to: int|
        #![trigger text::stripped(line, a, b), converts(line.subrange(a, b), from, to)]
        text::stripped(line, a, b) && converts(line.subrange(a, b), from, to) && holds_u32(
            line.subrange(a, b),
            from,
            to,
            m,
        );
    let (c, d, start, end) = choose|c: int, d: int, start: int, end: int|
        #![trigger text::stripped(line, c, d), converts(line.subrange(c, d), start, end)]
        text::stripped(line, c, d) && converts(line.subrange(c, d), start, end) && holds_u32(
            line.subrange(c, d),
            start,
            end,
            n,
        );
    text::lemma_stripped_is_unique(line, a, b);
    text::lemma_stripped_is_unique(line, c, d);
    let inner = line.subrange(a, b);
    assert(from == start) by {
        if from < start {
            assert(!text::occurs(inner, "int32("@, from - 6));
        }
        if start < from {
            assert(!text::occurs(inner, "int32("@, start - 6));
        }
    }
    assert(to == end) by {
        if to < end {
            assert(inner[to] as int != 41);
        }
        if end < to {
            assert(inner[end] as int != 41);
        }
    }
    lemma_holds_one_number(inner, from, to, m, n);
}

/// What is known of a version after the first `k` lines: the number on the last of them that sets
/// it, if that line gives one.
pub open spec fn known(lines: Seq<Seq<char>>, name: Seq<char>, k: int) -> Option<int>
    decreases k,
{
    if k <= 0 {
        None
    } else if sets(lines[k - 1], name) {
        number_on(lines[k - 1])
    } else {
        known(lines, name, k - 1)
    }
}

/// Both versions are known after the first `k` lines.
pub open spec fn both_known(lines: Seq<Seq<char>>, k: int) -> bool {
    known(lines, "MAJOR_VERSION"@, k) is Some && known(lines, "MINOR_VERSION"@, k) is Some
}

/// `shown` is this version number: major, a dot, and minor with at least two digits.
pub open spec fn shows(shown: Seq<char>, major: int, minor: int) -> bool {
    exists|a: Seq<char>, b: Seq<char>|
        #![trigger text::writes(a, major, 1), text::writes(b, minor, 2)]
        text::writes(a, major, 1) && text::writes(b, minor, 2) && shown == a + "."@ + b
}

proof fn lemma_versions_differ(line: Seq<char>)
    ensures
        !(sets(line, "MAJOR_VERSION"@) && sets(line, "MINOR_VERSION"@)),
{
    reveal_strlit("MAJOR_VERSION");
    reveal_strlit("MINOR_VERSION");
    lemma_sets(line, "MAJOR_VERSION"@);
    lemma_sets(line, "MINOR_VERSION"@);
    let inner = crate::text::trimmed(line);
    text::lemma_occurs(inner, "MAJOR_VERSION"@, 0);
    text::lemma_occurs(inner, "MINOR_VERSION"@, 0);
    if sets(line, "MAJOR_VERSION"@) && sets(line, "MINOR_VERSION"@) {
        assert("MAJOR_VERSION"@[1] == inner[1]);
        assert("MINOR_VERSION"@[1] == inner[1]);
    }
}

/// A known number as the contracts have it.
spec fn as_known(n: Option<int>) -> Option<nat> {
    match n {
        Some(v) => Some(v as nat),
        None => None,
    }
}

proof fn lemma_scan(lines: Seq<Seq<char>>, k: int)
    requires
        0 <= k <= lines.len(),
        forall|j: int| 0 <= j < k ==> !#[trigger] both_known(lines, j),
    ensures
        ({
            let found = version::scan_versions(
                lines.skip(k),
                as_known(known(lines, "MAJOR_VERSION"@, k)),
                as_known(known(lines, "MINOR_VERSION"@, k)),
            );
            match found {
                Some((major, minor)) => exists|j: int|
                    k <= j <= lines.len() && #[trigger] both_known(lines, j) && known(
                        lines,
                        "MAJOR_VERSION"@,
                        j,
                    ) == Some(major as int) && known(lines, "MINOR_VERSION"@, j) == Some(
                        minor as int,
                    ) && forall|i: int| 0 <= i < j ==> !#[trigger] both_known(lines, i),
                None => forall|j: int| 0 <= j <= lines.len() ==> !#[trigger] both_known(lines, j),
            }
        }),
    decreases lines.len() - k,
{
    lemma_known_is_natural(lines, "MAJOR_VERSION"@, k);
    lemma_known_is_natural(lines, "MINOR_VERSION"@, k);
    let rest = lines.skip(k);
    if both_known(lines, k) {
    } else if k == lines.len() {
        assert(rest.len() == 0);
    } else {
        let line = lines[k];
        assert(rest[0] == line);
        assert(rest.drop_first() =~= lines.skip(k + 1));
        lemma_sets(line, "MAJOR_VERSION"@);
        lemma_sets(line, "MINOR_VERSION"@);
        lemma_versions_differ(line);
        lemma_number_on(line);
        lemma_scan(lines, k + 1);
    }
}

proof fn lemma_known_is_natural(lines: Seq<Seq<char>>, name: Seq<char>, k: int)
    requires
        k <= lines.len(),
    ensures
        known(lines, name, k) matches Some(n) ==> n >= 0,
    decreases k,
{
    if k > 0 {
        lemma_number_on(lines[k - 1]);
        lemma_known_is_natural(lines, name, k - 1);
    }
}

/// The version number of Go code is shown as soon as both of its parts are known, reading line by
/// line from the top: each part is the number on the last line that sets it by then. Where both
/// are never known there is none.
pub proof fn law_version_number_is_that_of_the_lines(source: &str, shown: Option<String>)
    requires
        call_ensures(parse_go_version_number, (source,), shown),
    ensures
        exists|lines: Seq<Seq<char>>| #[trigger]
            text::are_lines_of(lines, source@) && match shown {
                Some(number) => exists|k: int|
                    0 <= k <= lines.len() && #[trigger] both_known(lines, k) && (forall|i: int|
                        0 <= i < k ==> !#[trigger] both_known(lines, i)) && shows(
                        number@,
                        known(lines, "MAJOR_VERSION"@, k)->0,
                        known(lines, "MINOR_VERSION"@, k)->0,
                    ),
                None => forall|k: int| 0 <= k <= lines.len() ==> !#[trigger] both_known(lines, k),
            },
{
    let lines = crate::text::lines(source@);
    text::lemma_lines(source@);
    assert(lines.skip(0) =~= lines);
    lemma_scan(lines, 0);
    if let Some((major, minor)) = version::scan_versions(lines, None, None) {
        text::lemma_decimal(major);
        text::lemma_two_digits(minor);
        assert(text::writes(crate::text::decimal_text(major), major as int, 1)
            && text::writes(crate::text::two_digit_text(minor), minor as int, 2));
        assert(shows(shown->0@, major as int, minor as int));
    }
    assert(text::are_lines_of(lines, source@));
}

/// The report on the build tells each thing under its own name, as the functions for it tell it.
pub proof fn law_build_report(
    build: &BuildInfo,
    wire_protocol_version: u64,
    policy_fingerprint: &str,
    sha: &str,
    dirty: bool,
    seconds: &str,
    number: String,
    value: serde_json::Value,
)
    requires
        call_ensures(sra_version_json, (build, wire_protocol_version, policy_fingerprint), value),
        call_ensures(build_git_sha, (build,), sha),
        call_ensures(build_git_dirty, (build,), dirty),
        call_ensures(build_unix_seconds, (build,), seconds),
        call_ensures(version_number, (build,), number),
    ensures
        ({
            let told = json::json_of(value);
            let five_bytes = json::Json::Text("5bytes"@);
            let rdma = json::Json::Text("rdma"@);
            let tcp = json::Json::Text("tcp"@);
            let rc = json::Json::Text("rc"@);
            &&& has(told, "service"@, json::Json::Text("weed-volume"@))
            &&& has(told, "git_sha"@, json::Json::Text(sha@))
            &&& has(told, "git_dirty"@, json::Json::Bool(dirty))
            &&& has(told, "build_unix_seconds"@, json::Json::Text(seconds@))
            &&& build.debug_assertions ==> has(
                told,
                "build_profile"@,
                json::Json::Text("debug"@),
            )
            &&& !build.debug_assertions ==> has(
                told,
                "build_profile"@,
                json::Json::Text("release"@),
            )
            &&& has(told, "crate_version"@, json::Json::Text(build.crate_version@))
            &&& has(told, "seaweedfs_version"@, json::Json::Text(number@))
            &&& build.five_bytes && build.rdma ==> has(
                told,
                "features"@,
                json::Json::Array(seq![five_bytes, rdma]),
            )
            &&& build.five_bytes && !build.rdma ==> has(
                told,
                "features"@,
                json::Json::Array(seq![five_bytes]),
            )
            &&& !build.five_bytes && build.rdma ==> has(
                told,
                "features"@,
                json::Json::Array(seq![rdma]),
            )
            &&& !build.five_bytes && !build.rdma ==> has(
                told,
                "features"@,
                json::Json::Array(Seq::empty()),
            )
            &&& build.rdma ==> has(told, "rdma_transports"@, json::Json::Array(seq![tcp, rc]))
            &&& !build.rdma ==> has(told, "rdma_transports"@, json::Json::Array(seq![tcp]))
            &&& has(
                told,
                "wire_protocol_version"@,
                json::Json::Number(wire_protocol_version as nat),
            )
            &&& has(told, "policy_fingerprint"@, json::Json::Text(policy_fingerprint@))
            &&& named(
                told,
                set!["service"@, "git_sha"@, "git_dirty"@, "build_unix_seconds"@, "build_profile"@,
                    "crate_version"@, "seaweedfs_version"@, "features"@, "rdma_transports"@,
                    "wire_protocol_version"@, "policy_fingerprint"@],
            )
        }),
{
    reveal_strlit("service");
    reveal_strlit("git_sha");
    reveal_strlit("git_dirty");
    reveal_strlit("build_unix_seconds");
    reveal_strlit("build_profile");
    reveal_strlit("crate_version");
    reveal_strlit("seaweedfs_version");
    reveal_strlit("features");
    reveal_strlit("rdma_transports");
    reveal_strlit("wire_protocol_version");
    reveal_strlit("policy_fingerprint");
    assert("service"@.len() == 7);
    assert("git_sha"@.len() == 7);
    assert("git_dirty"@.len() == 9);
    assert("build_unix_seconds"@.len() == 18);
    assert("build_profile"@.len() == 13);
    assert("crate_version"@.len() == 13);
    assert("seaweedfs_version"@.len() == 17);
    assert("features"@.len() == 8);
    assert("rdma_transports"@.len() == 15);
    assert("wire_protocol_version"@.len() == 21);
    assert("policy_fingerprint"@.len() == 18);
    assert("service"@[0] == 's' && "git_sha"@[0] == 'g');
    assert("build_profile"@[0] == 'b' && "crate_version"@[0] == 'c');
    assert("build_unix_seconds"@[0] == 'b' && "policy_fingerprint"@[0] == 'p');
    let members = version::sra_version(
        *build,
        wire_protocol_version,
        policy_fingerprint@,
    )->Object_0;
    assert(members.dom() =~= set![
        "service"@,
        "git_sha"@,
        "git_dirty"@,
        "build_unix_seconds"@,
        "build_profile"@,
        "crate_version"@,
        "seaweedfs_version"@,
        "features"@,
        "rdma_transports"@,
        "wire_protocol_version"@,
        "policy_fingerprint"@,
    ]);
    let features = version::json_texts(build.features())->Array_0;
    let transports = version::json_texts(build.transports())->Array_0;
    assert(features =~= if build.five_bytes && build.rdma {
        seq![json::Json::Text("5bytes"@), json::Json::Text("rdma"@)]
    } else if build.five_bytes {
        seq![json::Json::Text("5bytes"@)]
    } else if build.rdma {
        seq![json::Json::Text("rdma"@)]
    } else {
        Seq::empty()
    });
    assert(transports =~= if build.rdma {
        seq![json::Json::Text("tcp"@), json::Json::Text("rc"@)]
    } else {
        seq![json::Json::Text("tcp"@)]
    });
}

/// `s` is nothing but white space.
pub open spec fn blank(s: Seq<char>) -> bool {
    forall|i: int| 0 <= i < s.len() ==> text::blank_code((#[trigger] s[i]) as int)
}

proof fn lemma_blank(s: Seq<char>)
    ensures
        blank(s) == (crate::text::trimmed(s).len() == 0),
{
    let (a, b) = text::lemma_trimmed(s);
    if a < b {
        assert(!text::blank_code(s[a] as int));
    }
}

/// What git says, or nothing.
pub open spec fn said(head: Option<String>) -> Seq<char> {
    match head {
        Some(words) => words@,
        None => ""@,
    }
}

/// The commit that is recorded is the first of its three variables that is set or, where none is,
/// what git says; what is blank is recorded as unknown.
pub proof fn law_recorded_commit_is_the_first_set(
    seaweedfs_commit: Option<String>,
    git_commit: Option<String>,
    git_sha: Option<String>,
    head: Option<String>,
    sha: String,
)
    requires
        call_ensures(choose_sha, (seaweedfs_commit, git_commit, git_sha, head), sha),
    ensures
        exists|chosen: Seq<char>| #[trigger]
            first_set(chosen, seaweedfs_commit, git_commit, git_sha, said(head)) && sha@ == if blank(chosen) {
                "unknown"@
            } else {
                chosen
            },
{
    let chosen = match seaweedfs_commit {
        Some(set) => set@,
        None => match git_commit {
            Some(set) => set@,
            None => match git_sha {
                Some(set) => set@,
                None => said(head),
            },
        },
    };
    lemma_blank(chosen);
    assert(first_set(chosen, seaweedfs_commit, git_commit, git_sha, said(head)));
}

/// Changes are recorded as the variable says where it is set: only `true` and `1` say yes. Else
/// they are recorded if and only if git lists any.
pub proof fn law_changes_are_recorded(flag: &Option<String>, status: &Option<String>, dirty: bool)
    requires
        call_ensures(decide_dirty, (flag, status), dirty),
    ensures
        *flag matches Some(set) ==> (dirty <==> set@ == "true"@ || set@ == "1"@),
        *flag is None ==> (*status matches Some(listed) ==> (dirty <==> !blank(listed@))),
        *flag is None && *status is None ==> !dirty,
{
    if let Some(listed) = *status {
        lemma_blank(listed@);
    }
}

/// A `HEAD` file points to what follows on `ref: `, without the white space around it; one that
/// does not start so points to nothing.
pub proof fn law_head_points_to_its_reference(
    head: &str,
    from: int,
    to: int,
    target: Option<&str>,
)
    requires
        call_ensures(head_reference, (head,), target),
        text::stripped(head@, from, to),
    ensures
        text::occurs(head@.subrange(from, to), "ref: "@, 0) ==> (target matches Some(reference)
            && reference@ == head@.subrange(from + 5, to)),
        !text::occurs(head@.subrange(from, to), "ref: "@, 0) ==> target is None,
{
    reveal_strlit("ref: ");
    text::lemma_stripped_is_unique(head@, from, to);
    let line = head@.subrange(from, to);
    text::lemma_occurs(line, "ref: "@, 0);
    if text::occurs(line, "ref: "@, 0) {
        assert(line.skip(5) =~= head@.subrange(from + 5, to));
    }
}

} // verus!
