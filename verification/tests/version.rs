use seaweed_volume::provenance::{choose_sha, decide_dirty, head_reference};
use seaweed_volume::version::{
    build_git_dirty, build_git_sha, build_unix_seconds, commit, enabled_features, full_version,
    parse_go_version_number, parse_int32_line, rdma_transports, server_header, size_limit,
    sra_version_json, version, version_number, BuildInfo,
};

const CONSTANTS: &str = "package version\r\n\r\nvar (\r\n\tMAJOR_VERSION  = int32(4)\r\n\t\
                         MINOR_VERSION  = int32( 7 )\r\n)\r\n";

fn text(s: &str) -> Option<String> {
    Some(s.to_string())
}

fn build() -> BuildInfo {
    BuildInfo {
        five_bytes: true,
        rdma: true,
        debug_assertions: false,
        crate_version: "0.1.0".to_string(),
        go_constants: CONSTANTS.to_string(),
        seaweedfs_commit: text("89b26a98"),
        git_commit: None,
        git_sha: None,
        build_git_sha: text("01cafeba"),
        build_git_dirty: text("false"),
        build_unix_seconds: text("1700000000"),
    }
}

fn bare() -> BuildInfo {
    BuildInfo {
        five_bytes: false,
        rdma: false,
        debug_assertions: true,
        crate_version: "0.1.0".to_string(),
        go_constants: String::new(),
        seaweedfs_commit: None,
        git_commit: None,
        git_sha: None,
        build_git_sha: None,
        build_git_dirty: None,
        build_unix_seconds: None,
    }
}

#[test]
fn sra_version_json_contains_release_gate_fields() {
    let value = sra_version_json(&build(), 2, "fnv64:0123456789abcdef");
    assert_eq!(value["service"], "weed-volume");
    assert!(value["git_sha"].as_str().is_some());
    assert!(value["git_dirty"].as_bool().is_some());
    assert!(value["build_profile"].as_str().is_some());
    assert!(value["crate_version"].as_str().is_some());
    assert!(value["features"].as_array().is_some());
    assert!(value["rdma_transports"].as_array().is_some());
    assert!(value["wire_protocol_version"].as_u64().unwrap() > 0);
    assert!(value["policy_fingerprint"]
        .as_str()
        .unwrap()
        .starts_with("fnv64:"));
}

#[test]
fn sra_version_json_holds_what_was_built() {
    assert_eq!(
        sra_version_json(&build(), 2, "fnv64:00").to_string(),
        "{\"build_profile\":\"release\",\"build_unix_seconds\":\"1700000000\",\
         \"crate_version\":\"0.1.0\",\"features\":[\"5bytes\",\"rdma\"],\"git_dirty\":false,\
         \"git_sha\":\"01cafeba\",\"policy_fingerprint\":\"fnv64:00\",\
         \"rdma_transports\":[\"tcp\",\"rc\"],\"seaweedfs_version\":\"4.07\",\
         \"service\":\"weed-volume\",\"wire_protocol_version\":2}"
    );
    let value = sra_version_json(&bare(), 1, "");
    assert_eq!(value["build_profile"], "debug");
    assert_eq!(value["features"].as_array().unwrap().len(), 0);
    assert_eq!(value["seaweedfs_version"], "0.1.0");
}

#[test]
fn versions_are_put_together() {
    let info = build();
    assert_eq!(size_limit(&info), "8000GB");
    assert_eq!(version_number(&info), "4.07");
    assert_eq!(version(&info), "8000GB 4.07");
    assert_eq!(full_version(&info), "8000GB 4.07 89b26a98");
    assert_eq!(server_header(&info), "SeaweedFS Volume 8000GB 4.07");
    let info = bare();
    assert_eq!(size_limit(&info), "30GB");
    assert_eq!(version(&info), "30GB 0.1.0");
    assert_eq!(full_version(&info), "30GB 0.1.0 ");
}

#[test]
fn commits_are_taken_in_order() {
    let mut info = bare();
    assert_eq!(commit(&info), "");
    assert_eq!(build_git_sha(&info), "unknown");
    info.git_sha = text("c");
    assert_eq!(commit(&info), "c");
    info.git_commit = text("b");
    assert_eq!(commit(&info), "b");
    info.seaweedfs_commit = text("a");
    assert_eq!(commit(&info), "a");
    assert_eq!(build_git_sha(&info), "a");
    info.build_git_sha = text("z");
    assert_eq!(build_git_sha(&info), "z");
    info.build_git_sha = text("");
    assert_eq!(build_git_sha(&info), "unknown");
}

#[test]
fn build_marks_are_read() {
    let mut info = bare();
    assert!(!build_git_dirty(&info));
    assert_eq!(build_unix_seconds(&info), "unknown");
    assert!(enabled_features(&info).is_empty());
    assert_eq!(rdma_transports(&info), vec!["tcp"]);
    info.build_git_dirty = text("true");
    assert!(build_git_dirty(&info));
    info.build_git_dirty = text("1");
    assert!(!build_git_dirty(&info));
    info.build_unix_seconds = text("12");
    assert_eq!(build_unix_seconds(&info), "12");
    info.five_bytes = true;
    assert_eq!(enabled_features(&info), vec!["5bytes"]);
    info.rdma = true;
    assert_eq!(enabled_features(&info), vec!["5bytes", "rdma"]);
    assert_eq!(rdma_transports(&info), vec!["tcp", "rc"]);
}

fn chars(s: &str) -> Vec<char> {
    s.chars().collect()
}

#[test]
fn int32_lines_are_read() {
    assert_eq!(parse_int32_line(&chars("X = int32(30)")), Some(30));
    assert_eq!(parse_int32_line(&chars("X = int32( +30\u{3000})) int32(4)")), Some(30));
    assert_eq!(parse_int32_line(&chars("X = int32(4294967295)")), Some(u32::MAX));
    assert_eq!(parse_int32_line(&chars("X = int32(4294967296)")), None);
    assert_eq!(parse_int32_line(&chars("X = int32(-1)")), None);
    assert_eq!(parse_int32_line(&chars("X = int32()")), None);
    assert_eq!(parse_int32_line(&chars("X = int32(+)")), None);
    assert_eq!(parse_int32_line(&chars("X = int32(3")), None);
    assert_eq!(parse_int32_line(&chars("X = int64(3)")), None);
    assert_eq!(parse_int32_line(&chars("")), None);
}

fn go(s: &str) -> Option<String> {
    parse_go_version_number(s)
}

#[test]
fn go_versions_are_read() {
    assert_eq!(go(CONSTANTS), text("4.07"));
    assert_eq!(
        go("MINOR_VERSION = int32(123)\n// a comment\nMAJOR_VERSION = int32(30)"),
        text("30.123")
    );
    assert_eq!(go("MAJOR_VERSION = int32(3)\n"), None);
    assert_eq!(go("MAJOR_VERSION = int32(x)\nMINOR_VERSION = int32(1)"), None);
    assert_eq!(go(""), None);
    assert_eq!(
        go("MAJOR_VERSION = int32(1)\nMAJOR_VERSION = int32(2)\nMINOR_VERSION = int32(3)\n\
            MAJOR_VERSION = int32(4)"),
        text("2.03")
    );
    assert_eq!(
        go("var MAJOR_VERSION = int32(1)\nMINOR_VERSION = int32(3)"),
        None
    );
}

#[test]
fn a_recorded_commit_is_never_blank() {
    assert_eq!(choose_sha(text("a"), text("b"), None, None), "a");
    assert_eq!(choose_sha(None, text("b"), text("c"), None), "b");
    assert_eq!(choose_sha(None, None, text("c"), text("d")), "c");
    assert_eq!(choose_sha(None, None, None, text("d")), "d");
    assert_eq!(choose_sha(None, None, None, None), "unknown");
    assert_eq!(choose_sha(text(" \t\n"), text("b"), None, None), "unknown");
    assert_eq!(choose_sha(text(" a "), None, None, None), " a ");
}

#[test]
fn changes_are_recorded() {
    assert!(decide_dirty(&text("true"), &None));
    assert!(decide_dirty(&text("1"), &text("")));
    assert!(!decide_dirty(&text("yes"), &text(" M src/lib.rs")));
    assert!(decide_dirty(&None, &text(" M src/lib.rs")));
    assert!(!decide_dirty(&None, &text(" \n")));
    assert!(!decide_dirty(&None, &None));
}

#[test]
fn head_files_are_read() {
    assert_eq!(head_reference("ref: refs/heads/master\n"), Some("refs/heads/master"));
    assert_eq!(head_reference("  ref: \n"), None);
    assert_eq!(head_reference("ref: é\n"), Some("é"));
    assert_eq!(head_reference("89b26a98\n"), None);
    assert_eq!(head_reference(""), None);
}
