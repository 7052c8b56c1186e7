//! The hierarchical resolver: look a namespace and key up in the manifest
//! of a starting directory, and on any failure retry in the parent
//! directory — as long as the parent holds a manifest file at all — until
//! a directory with no parent manifest ends the search with a diagnostic
//! naming the file examined and the first missing path segment.

use vstd::prelude::*;
use vstd::string::StringExecFns;

use crate::manifest::doc_lookup;
use crate::manifest::lookup_settings;
use crate::manifest::parse_manifest;
use crate::manifest::parsed_manifest_of;
use crate::manifest::Segment;
use crate::value::vm;
use crate::value::ManifestValue;
use crate::value::ValModel;

verus! {

broadcast use vstd::std_specs::vec::group_vec_axioms;

/// What reading a directory's manifest file gave: no file at all, a file
/// that could not be read, or its text.
pub enum ReadOutcome {
    NoManifest,
    Unreadable,
    Content(String),
}

/// One directory of the upward chain, with the raw outcome of reading its
/// manifest file.
pub struct TextStation {
    /// The absolute path of the directory's manifest file, for diagnostics.
    pub path: String,
    pub read: ReadOutcome,
}

/// What loading a directory's manifest gave, parsing included.
pub enum LoadOutcome {
    NoManifest,
    Unreadable,
    Unparseable,
    Parsed(ManifestValue),
}

/// One directory of the upward chain, with its manifest already parsed.
pub struct ParsedStation {
    /// The absolute path of the directory's manifest file, for diagnostics.
    pub path: String,
    pub load: LoadOutcome,
}

/// The model of a loaded station.
pub enum LoadModel {
    NoManifest,
    Unreadable,
    Unparseable,
    Parsed(ValModel),
}

/// The model of one directory of the chain.
pub struct StationModel {
    pub path: Seq<char>,
    pub load: LoadModel,
}

/// The model of a parsed station.
pub open spec fn station_model(s: ParsedStation) -> StationModel {
    StationModel {
        path: s.path@,
        load: match s.load {
            LoadOutcome::NoManifest => LoadModel::NoManifest,
            LoadOutcome::Unreadable => LoadModel::Unreadable,
            LoadOutcome::Unparseable => LoadModel::Unparseable,
            LoadOutcome::Parsed(doc) => LoadModel::Parsed(vm(doc)),
        },
    }
}

/// The models of a chain of parsed stations.
pub open spec fn stations_model(s: Seq<ParsedStation>) -> Seq<StationModel> {
    Seq::new(s.len(), |i: int| station_model(s[i]))
}

/// The model of a text station: reading relayed, the text parsed.
pub open spec fn text_station_model(s: TextStation) -> StationModel {
    StationModel {
        path: s.path@,
        load: match s.read {
            ReadOutcome::NoManifest => LoadModel::NoManifest,
            ReadOutcome::Unreadable => LoadModel::Unreadable,
            ReadOutcome::Content(t) => match parsed_manifest_of(t@) {
                Option::Some(doc) => LoadModel::Parsed(doc),
                Option::None => LoadModel::Unparseable,
            },
        },
    }
}

/// The models of a chain of text stations.
pub open spec fn text_stations_model(s: Seq<TextStation>) -> Seq<StationModel> {
    Seq::new(s.len(), |i: int| text_station_model(s[i]))
}

/// The lookup attempt at one station: a missing or unreadable file fails
/// at the read, an unparseable one at the parse, a parsed one at whatever
/// segment its lookup misses.
pub open spec fn station_attempt(s: StationModel, ns: Seq<char>, key: Seq<char>) -> Result<
    ValModel,
    Segment,
> {
    match s.load {
        LoadModel::NoManifest => Err(Segment::FileRead),
        LoadModel::Unreadable => Err(Segment::FileRead),
        LoadModel::Unparseable => Err(Segment::Parse),
        LoadModel::Parsed(doc) => doc_lookup(doc, ns, key),
    }
}

/// The model of a terminal resolution failure.
pub struct ErrModel {
    pub path: Seq<char>,
    pub segment: Segment,
    pub namespace: Seq<char>,
    pub key: Seq<char>,
}

/// A terminal resolution failure: the manifest file last examined, the
/// first path segment missing there, and what was looked up.
#[derive(Debug, Clone, PartialEq, Eq)]
pub struct ResolveError {
    pub path: String,
    pub segment: Segment,
    pub namespace: String,
    pub key: String,
}

/// The model of a resolution failure.
pub open spec fn err_model(e: ResolveError) -> ErrModel {
    ErrModel { path: e.path@, segment: e.segment, namespace: e.namespace@, key: e.key@ }
}

/// Resolution from station `i` on: the first station whose lookup succeeds
/// wins; a failed station retries at its parent exactly where the parent
/// holds a manifest file; otherwise its failure is terminal.
pub open spec fn resolve_from(
    chain: Seq<StationModel>,
    ns: Seq<char>,
    key: Seq<char>,
    i: int,
) -> Result<ValModel, ErrModel>
    recommends
        0 <= i < chain.len(),
    decreases chain.len() - i,
{
    match station_attempt(chain[i], ns, key) {
        Result::Ok(v) => Ok(v),
        Result::Err(seg) => {
            if i + 1 < chain.len() && !(chain[i + 1].load is NoManifest) {
                resolve_from(chain, ns, key, i + 1)
            } else {
                Err(ErrModel { path: chain[i].path, segment: seg, namespace: ns, key: key })
            }
        },
    }
}

/// Resolution over the whole chain, starting at its first station.
pub open spec fn resolve_model(chain: Seq<StationModel>, ns: Seq<char>, key: Seq<char>) -> Result<
    ValModel,
    ErrModel,
> {
    resolve_from(chain, ns, key, 0)
}

/// Resolve over a chain of already-parsed manifests.
#[verifier::loop_isolation(false)]
pub fn resolve_parsed(ns: &str, key: &str, chain: &Vec<ParsedStation>) -> (r: Result<
    ManifestValue,
    ResolveError,
>)
    requires
        chain@.len() >= 1,
    ensures
        match r {
            Result::Ok(v) => resolve_model(stations_model(chain@), ns@, key@) == Ok::<
                ValModel,
                ErrModel,
            >(v@),
            Result::Err(e) => resolve_model(stations_model(chain@), ns@, key@) == Err::<
                ValModel,
                ErrModel,
            >(err_model(e)),
        },
{
    let ghost model = stations_model(chain@);
    let mut i: usize = 0;
    loop
        invariant
            0 <= i < chain@.len(),
            resolve_model(model, ns@, key@) == resolve_from(model, ns@, key@, i as int),
        decreases chain@.len() - i,
    {
        let attempt: Result<&ManifestValue, Segment> = match &chain[i].load {
            LoadOutcome::NoManifest => Err(Segment::FileRead),
            LoadOutcome::Unreadable => Err(Segment::FileRead),
            LoadOutcome::Unparseable => Err(Segment::Parse),
            LoadOutcome::Parsed(doc) => lookup_settings(doc, ns, key),
        };
        match attempt {
            Result::Ok(v) => {
                return Ok(v.duplicate());
            },
            Result::Err(seg) => {
                let n: usize = chain.len();
                let parent_has_manifest = i < n - 1 && match &chain[i + 1].load {
                    LoadOutcome::NoManifest => false,
                    _ => true,
                };
                if parent_has_manifest {
                    i = i + 1;
                } else {
                    return Err(
                        ResolveError {
                            path: chain[i].path.clone(),
                            segment: seg,
                            namespace: ns.to_owned(),
                            key: key.to_owned(),
                        },
                    );
                }
            },
        }
    }
}

/// Resolve over a chain of directories whose manifest texts were read but
/// not yet parsed.
#[verifier::loop_isolation(false)]
pub fn resolve(ns: &str, key: &str, chain: &Vec<TextStation>) -> (r: Result<
    ManifestValue,
    ResolveError,
>)
    requires
        chain@.len() >= 1,
    ensures
        match r {
            Result::Ok(v) => resolve_model(text_stations_model(chain@), ns@, key@) == Ok::<
                ValModel,
                ErrModel,
            >(v@),
            Result::Err(e) => resolve_model(text_stations_model(chain@), ns@, key@) == Err::<
                ValModel,
                ErrModel,
            >(err_model(e)),
        },
{
    let mut parsed: Vec<ParsedStation> = Vec::new();
    let mut i: usize = 0;
    while i < chain.len()
        invariant
            i <= chain@.len(),
            parsed@.len() == i,
            forall|j: int|
                0 <= j < i ==> station_model(#[trigger] parsed@[j]) == text_station_model(
                    chain@[j],
                ),
        decreases chain@.len() - i,
    {
        let station = &chain[i];
        let load = match &station.read {
            ReadOutcome::NoManifest => LoadOutcome::NoManifest,
            ReadOutcome::Unreadable => LoadOutcome::Unreadable,
            ReadOutcome::Content(text) => match parse_manifest(text.as_str()) {
                Option::Some(doc) => LoadOutcome::Parsed(doc),
                Option::None => LoadOutcome::Unparseable,
            },
        };
        parsed.push(ParsedStation { path: station.path.clone(), load });
        i = i + 1;
    }
    proof {
        assert(stations_model(parsed@) =~= text_stations_model(chain@));
    }
    resolve_parsed(ns, key, &parsed)
}

impl ResolveError {
    /// The diagnostic text for this failure, naming the file examined and
    /// the missing segment.
    pub open spec fn message_model(self) -> Seq<char> {
        match self.segment {
            Segment::FileRead => "Failed to read '"@ + self.path@ + "'"@,
            Segment::Parse => "Failed to parse '"@ + self.path@ + "' as valid TOML."@,
            Segment::Package => "Failed to find table 'package' in '"@ + self.path@ + "'."@,
            Segment::Metadata => "Failed to find table 'package.metadata' in '"@ + self.path@
                + "'."@,
            Segment::Settings => "Failed to find table 'package.metadata.settings' in '"@
                + self.path@ + "'."@,
            Segment::Namespace => "Failed to find table 'package.metadata.settings."@
                + self.namespace@ + "' in '"@ + self.path@ + "'."@,
            Segment::Key => "Failed to find table 'package.metadata.settings."@ + self.namespace@
                + "."@ + self.key@ + "' in '"@ + self.path@ + "'."@,
        }
    }

    /// Render the diagnostic message.
    pub fn message(&self) -> (r: String)
        ensures
            r@ == self.message_model(),
    {
        let mut s = String::new();
        match self.segment {
            Segment::FileRead => {
                s.append("Failed to read '");
                s.append(self.path.as_str());
                s.append("'");
            },
            Segment::Parse => {
                s.append("Failed to parse '");
                s.append(self.path.as_str());
                s.append("' as valid TOML.");
            },
            Segment::Package => {
                s.append("Failed to find table 'package' in '");
                s.append(self.path.as_str());
                s.append("'.");
            },
            Segment::Metadata => {
                s.append("Failed to find table 'package.metadata' in '");
                s.append(self.path.as_str());
                s.append("'.");
            },
            Segment::Settings => {
                s.append("Failed to find table 'package.metadata.settings' in '");
                s.append(self.path.as_str());
                s.append("'.");
            },
            Segment::Namespace => {
                s.append("Failed to find table 'package.metadata.settings.");
                s.append(self.namespace.as_str());
                s.append("' in '");
                s.append(self.path.as_str());
                s.append("'.");
            },
            Segment::Key => {
                s.append("Failed to find table 'package.metadata.settings.");
                s.append(self.namespace.as_str());
                s.append(".");
                s.append(self.key.as_str());
                s.append("' in '");
                s.append(self.path.as_str());
                s.append("'.");
            },
        }
        proof {
            assert(s@ =~= self.message_model());
        }
        s
    }
}

/// A namespace and key present in the starting manifest resolve to that
/// manifest's value: no ancestor is consulted.
pub proof fn lemma_local_key_wins(
    chain: Seq<StationModel>,
    ns: Seq<char>,
    key: Seq<char>,
    v: ValModel,
)
    requires
        chain.len() >= 1,
        station_attempt(chain[0], ns, key) == Ok::<ValModel, Segment>(v),
    ensures
        resolve_model(chain, ns, key) == Ok::<ValModel, ErrModel>(v),
{
}

/// Resolution started at station `s` reaches the first station at or after
/// `s` whose lookup succeeds, provided every station on the way holds a
/// manifest file.
proof fn lemma_resolve_from_reaches(
    chain: Seq<StationModel>,
    ns: Seq<char>,
    key: Seq<char>,
    s: int,
    i: int,
    v: ValModel,
)
    requires
        0 <= s <= i < chain.len(),
        forall|j: int| s <= j < i ==> (#[trigger] station_attempt(chain[j], ns, key)) is Err,
        forall|j: int| s < j <= i ==> !((#[trigger] chain[j].load) is NoManifest),
        station_attempt(chain[i], ns, key) == Ok::<ValModel, Segment>(v),
    ensures
        resolve_from(chain, ns, key, s) == Ok::<ValModel, ErrModel>(v),
    decreases i - s,
{
    if s < i {
        lemma_resolve_from_reaches(chain, ns, key, s + 1, i, v);
    }
}

/// Nearest ancestor with a complete path wins: where every station before
/// `i` fails its lookup and every station up to `i` holds a manifest file,
/// resolution returns station `i`'s value.
pub proof fn lemma_nearest_ancestor_wins(
    chain: Seq<StationModel>,
    ns: Seq<char>,
    key: Seq<char>,
    i: int,
    v: ValModel,
)
    requires
        0 <= i < chain.len(),
        forall|j: int| 0 <= j < i ==> (#[trigger] station_attempt(chain[j], ns, key)) is Err,
        forall|j: int| 1 <= j <= i ==> !((#[trigger] chain[j].load) is NoManifest),
        station_attempt(chain[i], ns, key) == Ok::<ValModel, Segment>(v),
    ensures
        resolve_model(chain, ns, key) == Ok::<ValModel, ErrModel>(v),
{
    lemma_resolve_from_reaches(chain, ns, key, 0, i, v);
}

/// Resolution started at `s` over an everywhere-failing chain of manifests
/// ends at the last station, with its failure.
proof fn lemma_resolve_from_exhausts(
    chain: Seq<StationModel>,
    ns: Seq<char>,
    key: Seq<char>,
    s: int,
)
    requires
        0 <= s < chain.len(),
        forall|j: int|
            0 <= j < chain.len() ==> (#[trigger] station_attempt(chain[j], ns, key)) is Err,
        forall|j: int| 1 <= j < chain.len() ==> !((#[trigger] chain[j].load) is NoManifest),
    ensures
        resolve_from(chain, ns, key, s) == Err::<ValModel, ErrModel>(
            ErrModel {
                path: chain[chain.len() - 1].path,
                segment: station_attempt(chain[chain.len() - 1], ns, key)->Err_0,
                namespace: ns,
                key: key,
            },
        ),
    decreases chain.len() - s,
{
    if s + 1 < chain.len() {
        lemma_resolve_from_exhausts(chain, ns, key, s + 1);
    }
}

/// A key absent from every manifest of the chain fails, and the failure
/// names the last-checked file and the first segment missing there.
pub proof fn lemma_exhausted_chain_fails(chain: Seq<StationModel>, ns: Seq<char>, key: Seq<char>)
    requires
        chain.len() >= 1,
        forall|j: int|
            0 <= j < chain.len() ==> (#[trigger] station_attempt(chain[j], ns, key)) is Err,
        forall|j: int| 1 <= j < chain.len() ==> !((#[trigger] chain[j].load) is NoManifest),
    ensures
        resolve_model(chain, ns, key) == Err::<ValModel, ErrModel>(
            ErrModel {
                path: chain[chain.len() - 1].path,
                segment: station_attempt(chain[chain.len() - 1], ns, key)->Err_0,
                namespace: ns,
                key: key,
            },
        ),
{
    lemma_resolve_from_exhausts(chain, ns, key, 0);
}

} // verus!
