//! The upward search through ancestor manifests, the component locator,
//! the project-root choice, and the terminal diagnostics.

use crate_settings::encode::encode;
use crate_settings::encode::EncodedLiteral;
use crate_settings::locator::find_component_root;
use crate_settings::locator::find_root;
use crate_settings::locator::Candidate;
use crate_settings::manifest::parse_manifest;
use crate_settings::manifest::Segment;
use crate_settings::resolver::resolve;
use crate_settings::resolver::LoadOutcome;
use crate_settings::resolver::ParsedStation;
use crate_settings::resolver::ReadOutcome;
use crate_settings::resolver::ResolveError;
use crate_settings::resolver::TextStation;

fn workspace_manifests() -> Vec<(String, String)> {
    let root = [
        "[workspace]",
        "members = [\"inner_a\"]",
        "",
        "[package]",
        "name = \"workspace_root\"",
        "",
        "[package.metadata.settings.inner_c]",
        "only_outer = true",
    ]
    .join("\n");
    let inner_a = [
        "[package]",
        "name = \"inner_a\"",
        "",
        "[package.metadata.settings.inner_c]",
        "something_further_out = 44",
    ]
    .join("\n");
    let inner_b = [
        "[package]",
        "name = \"inner_b\"",
        "",
        "[package.metadata.settings.inner_c]",
        "some_bool = true",
        "some_int = 37",
    ]
    .join("\n");
    let inner_c = [
        "[package]",
        "name = \"inner_c\"",
        "",
        "[package.metadata.settings.inner_c]",
        "some_inner_int = 34",
    ]
    .join("\n");
    let inner_d = ["[package]", "name = \"inner_d\""].join("\n");
    vec![
        (String::from("/ws"), root),
        (String::from("/ws/inner_a"), inner_a),
        (String::from("/ws/inner_a/inner_b"), inner_b),
        (String::from("/ws/inner_a/inner_b/inner_c"), inner_c),
        (String::from("/ws/inner_a/inner_d"), inner_d),
    ]
}

/// The chain of directories from `start` up to the filesystem root, each
/// with the outcome of reading its manifest file.
fn chain_from(all: &[(String, String)], start: &str) -> Vec<TextStation> {
    let mut chain = Vec::new();
    let mut dir = String::from(start);
    loop {
        let read = match all.iter().find(|(d, _)| *d == dir) {
            Some((_, text)) => ReadOutcome::Content(text.clone()),
            None => ReadOutcome::NoManifest,
        };
        chain.push(TextStation { path: format!("{}/Cargo.toml", dir), read });
        match dir.rfind('/') {
            Some(pos) => dir.truncate(pos),
            None => break,
        }
    }
    chain
}

/// The whole pipeline as an invocation runs it: locate the component's
/// directory by its declared name, then resolve upward from there.
fn workspace_lookup(ns: &str, key: &str) -> Result<EncodedLiteral, ResolveError> {
    let all = workspace_manifests();
    let candidates: Vec<Candidate> = all
        .iter()
        .map(|(d, t)| Candidate { dir: d.clone(), text: t.clone() })
        .collect();
    let start = match find_component_root(&candidates, ns) {
        Some(i) => candidates[i].dir.clone(),
        None => String::from("/ws/inner_a/inner_b/inner_c"),
    };
    let chain = chain_from(&all, &start);
    resolve(ns, key, &chain).map(|v| encode(&v))
}

#[test]
fn test_c_access_c() {
    assert_eq!(workspace_lookup("inner_c", "some_inner_int"), Ok(EncodedLiteral::Integer(34)));
}

#[test]
fn test_c_access_b() {
    assert_eq!(workspace_lookup("inner_c", "some_bool"), Ok(EncodedLiteral::Boolean(true)));
}

#[test]
fn test_c_access_a() {
    assert_eq!(
        workspace_lookup("inner_c", "something_further_out"),
        Ok(EncodedLiteral::Integer(44))
    );
}

#[test]
fn test_c_access_root() {
    assert_eq!(workspace_lookup("inner_c", "only_outer"), Ok(EncodedLiteral::Boolean(true)));
}

#[test]
fn test_b_access_c_() {
    assert_eq!(workspace_lookup("inner_c", "some_inner_int"), Ok(EncodedLiteral::Integer(34)));
}

#[test]
fn test_b_access_b() {
    assert_eq!(workspace_lookup("inner_c", "some_bool"), Ok(EncodedLiteral::Boolean(true)));
    assert_eq!(workspace_lookup("inner_c", "some_int"), Ok(EncodedLiteral::Integer(37)));
}

#[test]
fn test_b_access_a() {
    assert_eq!(
        workspace_lookup("inner_c", "something_further_out"),
        Ok(EncodedLiteral::Integer(44))
    );
}

#[test]
fn test_b_access_root() {
    assert_eq!(workspace_lookup("inner_c", "only_outer"), Ok(EncodedLiteral::Boolean(true)));
}

#[test]
fn test_sibling_branch_not_visible() {
    // a key declared only under inner_b is not reachable from its sibling
    // inner_d, which shares only inner_a and the root as ancestors
    let all = workspace_manifests();
    let chain = chain_from(&all, "/ws/inner_a/inner_d");
    let err = resolve("inner_c", "some_bool", &chain).unwrap_err();
    assert_eq!(err.segment, Segment::Key);
    assert_eq!(err.path, "/ws/Cargo.toml");
    assert_eq!(
        err.message(),
        "Failed to find table 'package.metadata.settings.inner_c.some_bool' in '/ws/Cargo.toml'."
    );
}

#[test]
fn test_nearest_manifest_wins() {
    let all = workspace_manifests();
    let chain = chain_from(&all, "/ws/inner_a/inner_b/inner_c");
    // some_int is absent from inner_c's manifest and found in inner_b's
    let v = resolve("inner_c", "some_int", &chain).unwrap();
    assert_eq!(encode(&v), EncodedLiteral::Integer(37));
}

#[test]
fn test_unreadable_manifest_retries_parent() {
    let chain = vec![
        TextStation {
            path: String::from("/p/child/Cargo.toml"),
            read: ReadOutcome::Unreadable,
        },
        TextStation {
            path: String::from("/p/Cargo.toml"),
            read: ReadOutcome::Content(String::from(
                "[package]\nname = \"p\"\n[package.metadata.settings.ns1]\nk = 5",
            )),
        },
        TextStation { path: String::from("/Cargo.toml"), read: ReadOutcome::NoManifest },
    ];
    let v = resolve("ns1", "k", &chain).unwrap();
    assert_eq!(encode(&v), EncodedLiteral::Integer(5));
}

#[test]
fn test_unparseable_manifest_retries_parent() {
    let chain = vec![
        TextStation {
            path: String::from("/p/child/Cargo.toml"),
            read: ReadOutcome::Content(String::from("this = = is not toml")),
        },
        TextStation {
            path: String::from("/p/Cargo.toml"),
            read: ReadOutcome::Content(String::from(
                "[package]\nname = \"p\"\n[package.metadata.settings.ns1]\nk = \"v\"",
            )),
        },
        TextStation { path: String::from("/Cargo.toml"), read: ReadOutcome::NoManifest },
    ];
    let v = resolve("ns1", "k", &chain).unwrap();
    assert_eq!(encode(&v), EncodedLiteral::Text(String::from("v")));
}

#[test]
fn test_missing_file_is_terminal_without_parent_manifest() {
    let chain = vec![
        TextStation { path: String::from("/p/Cargo.toml"), read: ReadOutcome::NoManifest },
        TextStation { path: String::from("/Cargo.toml"), read: ReadOutcome::NoManifest },
    ];
    let err = resolve("ns1", "k", &chain).unwrap_err();
    assert_eq!(err.segment, Segment::FileRead);
    assert_eq!(err.message(), "Failed to read '/p/Cargo.toml'");
}

#[test]
fn test_unparseable_is_terminal_without_parent_manifest() {
    let chain = vec![
        TextStation {
            path: String::from("/p/Cargo.toml"),
            read: ReadOutcome::Content(String::from("not ==== toml")),
        },
        TextStation { path: String::from("/Cargo.toml"), read: ReadOutcome::NoManifest },
    ];
    let err = resolve("ns1", "k", &chain).unwrap_err();
    assert_eq!(err.segment, Segment::Parse);
    assert_eq!(err.message(), "Failed to parse '/p/Cargo.toml' as valid TOML.");
}

fn one_station_error(text: &str, ns: &str, key: &str) -> ResolveError {
    let chain = vec![
        TextStation {
            path: String::from("/p/Cargo.toml"),
            read: ReadOutcome::Content(String::from(text)),
        },
        TextStation { path: String::from("/Cargo.toml"), read: ReadOutcome::NoManifest },
    ];
    resolve(ns, key, &chain).unwrap_err()
}

#[test]
fn test_each_missing_segment_is_named() {
    let e = one_station_error("", "ns1", "k");
    assert_eq!(e.segment, Segment::Package);
    assert_eq!(e.message(), "Failed to find table 'package' in '/p/Cargo.toml'.");

    let e = one_station_error("[package]\nname = \"p\"", "ns1", "k");
    assert_eq!(e.segment, Segment::Metadata);
    assert_eq!(e.message(), "Failed to find table 'package.metadata' in '/p/Cargo.toml'.");

    let e = one_station_error("[package.metadata]\nx = 1", "ns1", "k");
    assert_eq!(e.segment, Segment::Settings);
    assert_eq!(
        e.message(),
        "Failed to find table 'package.metadata.settings' in '/p/Cargo.toml'."
    );

    let e = one_station_error("[package.metadata.settings]\nx = 1", "ns1", "k");
    assert_eq!(e.segment, Segment::Namespace);
    assert_eq!(
        e.message(),
        "Failed to find table 'package.metadata.settings.ns1' in '/p/Cargo.toml'."
    );

    let e = one_station_error("[package.metadata.settings.ns1]\nx = 1", "ns1", "k");
    assert_eq!(e.segment, Segment::Key);
    assert_eq!(
        e.message(),
        "Failed to find table 'package.metadata.settings.ns1.k' in '/p/Cargo.toml'."
    );
}

#[test]
fn test_local_key_wins_over_ancestors() {
    // both the starting manifest and its parent declare the key: the
    // starting manifest's value is returned without consulting the parent
    let chain = vec![
        TextStation {
            path: String::from("/p/child/Cargo.toml"),
            read: ReadOutcome::Content(String::from(
                "[package]\nname = \"c\"\n[package.metadata.settings.ns1]\nk = \"near\"",
            )),
        },
        TextStation {
            path: String::from("/p/Cargo.toml"),
            read: ReadOutcome::Content(String::from(
                "[package]\nname = \"p\"\n[package.metadata.settings.ns1]\nk = \"far\"",
            )),
        },
        TextStation { path: String::from("/Cargo.toml"), read: ReadOutcome::NoManifest },
    ];
    let v = resolve("ns1", "k", &chain).unwrap();
    assert_eq!(encode(&v), EncodedLiteral::Text(String::from("near")));
}

fn parsed_station(path: &str, text: Option<&str>) -> ParsedStation {
    let load = match text {
        Some(t) => match parse_manifest(t) {
            Some(doc) => LoadOutcome::Parsed(doc),
            None => LoadOutcome::Unparseable,
        },
        None => LoadOutcome::NoManifest,
    };
    ParsedStation { path: String::from(path), load }
}

#[test]
fn test_find_root_prefers_workspace_marker() {
    let chain = vec![
        parsed_station("/a/b/c", Some("[package]\nname = \"c\"")),
        parsed_station("/a/b", Some("[workspace]\nmembers = []")),
        parsed_station("/a", Some("[package]\nname = \"a\"")),
    ];
    assert_eq!(find_root(&chain), 1);
}

#[test]
fn test_find_root_falls_back_to_outermost_package() {
    let chain = vec![
        parsed_station("/a/b/c", Some("[package]\nname = \"c\"")),
        parsed_station("/a/b", None),
        parsed_station("/a", Some("[package]\nname = \"a\"")),
        parsed_station("/", None),
    ];
    assert_eq!(find_root(&chain), 2);
}

#[test]
fn test_find_root_falls_back_to_current_directory() {
    let chain = vec![
        parsed_station("/a/b/c", None),
        parsed_station("/a/b", Some("just text, not a manifest = ")),
        parsed_station("/a", None),
    ];
    assert_eq!(find_root(&chain), 0);
}

#[test]
fn test_find_component_root_first_declared_match() {
    let candidates = vec![
        Candidate {
            dir: String::from("/ws"),
            text: String::from("[package]\nname = \"root\""),
        },
        Candidate {
            dir: String::from("/ws/x"),
            text: String::from("[package]\nname = \"wanted\""),
        },
        Candidate {
            dir: String::from("/ws/y"),
            text: String::from("[package]\nname = \"wanted\""),
        },
    ];
    assert_eq!(find_component_root(&candidates, "wanted"), Some(1));
}

#[test]
fn test_find_component_root_none_matches() {
    let candidates = vec![
        Candidate {
            dir: String::from("/ws"),
            text: String::from("[package]\nname = \"root\""),
        },
        Candidate { dir: String::from("/ws/x"), text: String::from("not toml = =") },
    ];
    assert_eq!(find_component_root(&candidates, "wanted"), None);
}
