//! The manifest locator: pick the project root out of the upward chain of
//! directories, and find the directory of a named component among the
//! manifests of the project subtree.

use vstd::prelude::*;

use crate::manifest::parse_manifest;
use crate::manifest::parsed_manifest_of;
use crate::manifest::value_get;
use crate::manifest::vget;
use crate::resolver::station_model;
use crate::resolver::stations_model;
use crate::resolver::LoadModel;
use crate::resolver::LoadOutcome;
use crate::resolver::ParsedStation;
use crate::resolver::StationModel;
use crate::value::ManifestValue;
use crate::value::ValModel;

verus! {

broadcast use vstd::std_specs::vec::group_vec_axioms;

/// The package name a parsed manifest declares, if any.
pub open spec fn doc_package_name(doc: ValModel) -> Option<Seq<char>> {
    match vget(doc, "package"@) {
        Option::Some(p) => match vget(p, "name"@) {
            Option::Some(n) => match n {
                ValModel::Text(s) => Some(s),
                _ => None,
            },
            Option::None => None,
        },
        Option::None => None,
    }
}

/// Whether a station's manifest parses and declares a package name.
pub open spec fn declares_package_name(s: StationModel) -> bool {
    match s.load {
        LoadModel::Parsed(doc) => doc_package_name(doc) is Some,
        _ => false,
    }
}

/// Whether a station's manifest parses and carries the workspace marker:
/// a top-level `workspace` entry, whose mere presence designates the
/// directory as the authoritative project root.
pub open spec fn has_workspace_marker(s: StationModel) -> bool {
    match s.load {
        LoadModel::Parsed(doc) => vget(doc, "workspace"@) is Some,
        _ => false,
    }
}

fn station_declares_name(s: &ParsedStation) -> (b: bool)
    ensures
        b == declares_package_name(station_model(*s)),
{
    match &s.load {
        LoadOutcome::Parsed(doc) => match value_get(doc, "package") {
            Option::Some(p) => match value_get(p, "name") {
                Option::Some(n) => match n {
                    ManifestValue::Text(_) => true,
                    _ => false,
                },
                Option::None => false,
            },
            Option::None => false,
        },
        _ => false,
    }
}

fn station_has_marker(s: &ParsedStation) -> (b: bool)
    ensures
        b == has_workspace_marker(station_model(*s)),
{
    match &s.load {
        LoadOutcome::Parsed(doc) => match value_get(doc, "workspace") {
            Option::Some(_) => true,
            Option::None => false,
        },
        _ => false,
    }
}

/// Pick the project root out of the chain of directories walked upward
/// from the current one: the nearest directory whose manifest carries the
/// workspace marker; failing that, the outermost directory whose manifest
/// declares a package name; failing that, the current directory itself.
#[verifier::loop_isolation(false)]
pub fn find_root(chain: &Vec<ParsedStation>) -> (r: usize)
    requires
        chain@.len() >= 1,
    ensures
        r < chain@.len(),
        ({
            let m = stations_model(chain@);
            if exists|i: int| 0 <= i < m.len() && has_workspace_marker(#[trigger] m[i]) {
                has_workspace_marker(m[r as int]) && forall|j: int|
                    0 <= j < r ==> !has_workspace_marker(#[trigger] m[j])
            } else if exists|i: int| 0 <= i < m.len() && declares_package_name(#[trigger] m[i]) {
                declares_package_name(m[r as int]) && forall|j: int|
                    r < j < m.len() ==> !declares_package_name(#[trigger] m[j])
            } else {
                r == 0
            }
        }),
{
    let ghost m = stations_model(chain@);
    let mut best: usize = 0;
    let mut best_declares = false;
    let mut i: usize = 0;
    while i < chain.len()
        invariant
            0 <= i <= chain@.len(),
            best < chain@.len(),
            forall|j: int| 0 <= j < i ==> !has_workspace_marker(#[trigger] m[j]),
            best_declares == (exists|j: int|
                0 <= j < i && declares_package_name(#[trigger] m[j])),
            best_declares ==> declares_package_name(m[best as int]) && best < i && forall|j: int|
                best < j < i ==> !declares_package_name(#[trigger] m[j]),
            !best_declares ==> best == 0,
        decreases chain@.len() - i,
    {
        proof {
            assert(m[i as int] == station_model(chain@[i as int]));
        }
        let declares = station_declares_name(&chain[i]);
        if declares {
            best = i;
            best_declares = true;
            assert(declares_package_name(m[i as int]));
        }
        if station_has_marker(&chain[i]) {
            return i;
        }
        i = i + 1;
    }
    best
}

/// One manifest found in the project subtree: its directory and the text
/// of its manifest file.
pub struct Candidate {
    pub dir: String,
    pub text: String,
}

/// Whether a candidate's manifest parses and declares the given name.
pub open spec fn candidate_matches(text: Seq<char>, name: Seq<char>) -> bool {
    match parsed_manifest_of(text) {
        Option::Some(doc) => doc_package_name(doc) == Some(name),
        Option::None => false,
    }
}

/// Find a component's directory: the first candidate of the subtree walk
/// whose manifest declares the given package name, or nothing when none
/// does (the caller then falls back to the current directory).
#[verifier::loop_isolation(false)]
pub fn find_component_root(candidates: &Vec<Candidate>, name: &str) -> (r: Option<usize>)
    ensures
        match r {
            Option::Some(i) => i < candidates@.len() && candidate_matches(
                candidates@[i as int].text@,
                name@,
            ) && forall|j: int|
                0 <= j < i ==> !candidate_matches((#[trigger] candidates@[j]).text@, name@),
            Option::None => forall|j: int|
                0 <= j < candidates@.len() ==> !candidate_matches(
                    (#[trigger] candidates@[j]).text@,
                    name@,
                ),
        },
{
    let owned = name.to_owned();
    let mut i: usize = 0;
    while i < candidates.len()
        invariant
            i <= candidates@.len(),
            owned@ == name@,
            forall|j: int|
                0 <= j < i ==> !candidate_matches((#[trigger] candidates@[j]).text@, name@),
        decreases candidates@.len() - i,
    {
        let matched = match parse_manifest(candidates[i].text.as_str()) {
            Option::Some(doc) => match value_get(&doc, "package") {
                Option::Some(p) => match value_get(p, "name") {
                    Option::Some(n) => match n {
                        ManifestValue::Text(s) => *s == owned,
                        _ => false,
                    },
                    Option::None => false,
                },
                Option::None => false,
            },
            Option::None => false,
        };
        if matched {
            return Some(i);
        }
        i = i + 1;
    }
    None
}

} // verus!
