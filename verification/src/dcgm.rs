//! Rules of the runtime loader for the DCGM companion backend.
//!
//! A packaged `liball_smi_dcgm.so` is loaded through a versioned function
//! table, and every lookup, interface or sampling failure means that the
//! backend is unavailable. The functions here decide: where to look for the
//! plugin, which file to accept, which table and which metadata to trust, and
//! what a failure is called. Looking, opening and calling is up to the caller,
//! who reports what was found.
use crate::dcgm_plugin_api::{
    DcgmPluginApiV1, DcgmPluginBuffer, DCGM_PLUGIN_ABI_VERSION, DCGM_PLUGIN_WIRE_FORMAT,
};
use crate::path_text::{
    below, contents, directory, directory_of, distinct_paths, is_rooted, join, rooted,
    without_repetitions,
};
use crate::text::{decimal, i32_text, signed_decimal, u64_text};
use vstd::prelude::*;

verus! {

/// The environment variable that overrides the plugin lookup.
pub const DCGM_PLUGIN_ENV: &'static str = "ALL_SMI_DCGM_PLUGIN";

/// The file name of the plugin.
pub const DCGM_PLUGIN_FILENAME: &'static str = "liball_smi_dcgm.so";

/// The directory of a local installation.
pub const LOCAL_DIRECTORY: &'static str = "/usr/local/lib/all-smi";

/// The directory of a packaged installation.
pub const SYSTEM_DIRECTORY: &'static str = "/usr/lib/all-smi";

/// Metadata that the plugin reports of itself.
#[derive(Debug, PartialEq, Eq)]
pub struct PluginMetadata {
    pub plugin_version: String,
    pub wire_format: String,
}

/// A path with the text under which it is shown.
#[derive(Debug, PartialEq, Eq)]
pub struct ShownPath {
    pub bytes: Vec<u8>,
    pub text: String,
}

impl Clone for ShownPath {
    fn clone(&self) -> (copy: Self)
        ensures
            copy.bytes@ == self.bytes@,
            copy.text@ == self.text@,
    {
        let mut bytes: Vec<u8> = Vec::new();
        bytes.extend_from_slice(self.bytes.as_slice());
        assert(bytes@ =~= self.bytes@);
        ShownPath { bytes, text: self.text.clone() }
    }
}

/// The places of the plugin for an executable in `bin_dir`: beside it, in the
/// library directory beside its directory, and in the installation directories.
pub open spec fn default_places(bin_dir: Option<Seq<u8>>) -> Seq<Seq<u8>> {
    let file = vstd::utf8::encode_utf8(DCGM_PLUGIN_FILENAME@);
    let fixed = seq![
        below(vstd::utf8::encode_utf8(LOCAL_DIRECTORY@), file),
        below(vstd::utf8::encode_utf8(SYSTEM_DIRECTORY@), file),
    ];
    match bin_dir {
        Some(dir) => seq![
            below(dir, file),
            below(
                below(
                    below(
                        below(dir, vstd::utf8::encode_utf8(".."@)),
                        vstd::utf8::encode_utf8("lib"@),
                    ),
                    vstd::utf8::encode_utf8("all-smi"@),
                ),
                file,
            ),
        ] + fixed,
        None => fixed,
    }
}

/// The candidates for an executable, without repetitions.
pub fn default_candidates(executable: &[u8]) -> (candidates: Vec<Vec<u8>>)
    ensures
        contents(candidates@) == distinct_paths(default_places(directory_of(executable@))),
{
    let mut places: Vec<Vec<u8>> = Vec::new();
    if let Some(bin_dir) = directory(executable) {
        let dir = bin_dir.as_slice();
        places.push(join(dir, DCGM_PLUGIN_FILENAME));
        let up = join(dir, "..");
        let lib = join(up.as_slice(), "lib");
        let packaged = join(lib.as_slice(), "all-smi");
        places.push(join(packaged.as_slice(), DCGM_PLUGIN_FILENAME));
    }
    places.push(join(LOCAL_DIRECTORY.as_bytes(), DCGM_PLUGIN_FILENAME));
    places.push(join(SYSTEM_DIRECTORY.as_bytes(), DCGM_PLUGIN_FILENAME));
    assert(contents(places@) =~= default_places(directory_of(executable@)));
    without_repetitions(places)
}

/// Why the configured override is refused, if it is.
pub open spec fn override_problem(path: ShownPath) -> Option<Seq<char>> {
    if path.bytes@.len() == 0 {
        Some(DCGM_PLUGIN_ENV@ + " is set but empty"@)
    } else if !is_rooted(path.bytes@) {
        Some(DCGM_PLUGIN_ENV@ + " must be an absolute path, got "@ + path.text@)
    } else {
        None
    }
}

/// Where to look for the plugin. An override is the only candidate, and must be
/// an absolute path; without one the places go by the path of the executable,
/// unless that cannot be told.
pub fn configured_candidates(
    override_path: Option<&ShownPath>,
    executable: Result<&[u8], &str>,
) -> (candidates: Result<Vec<Vec<u8>>, String>)
    ensures
        match override_path {
            Some(path) => match override_problem(*path) {
                Some(problem) => candidates matches Err(reason) && reason@ == problem,
                None => candidates matches Ok(list) && contents(list@) == seq![path.bytes@],
            },
            None => match executable {
                Ok(executable) => candidates matches Ok(list) && contents(list@) == distinct_paths(
                    default_places(directory_of(executable@)),
                ),
                Err(error) => candidates matches Err(reason) && reason@
                    == "cannot resolve the current executable for DCGM plugin lookup: "@ + error@,
            },
        },
{
    if let Some(path) = override_path {
        if path.bytes.len() == 0 {
            let mut reason = DCGM_PLUGIN_ENV.to_owned();
            reason.append(" is set but empty");
            return Err(reason);
        }
        if !rooted(path.bytes.as_slice()) {
            let mut reason = DCGM_PLUGIN_ENV.to_owned();
            reason.append(" must be an absolute path, got ");
            reason.append(path.text.as_str());
            return Err(reason);
        }
        let mut list: Vec<Vec<u8>> = Vec::new();
        list.push(path.clone().bytes);
        assert(contents(list@) =~= seq![path.bytes@]);
        return Ok(list);
    }
    match executable {
        Ok(executable) => Ok(default_candidates(executable)),
        Err(error) => {
            let mut reason =
                "cannot resolve the current executable for DCGM plugin lookup: ".to_owned();
            reason.append(error);
            Err(reason)
        },
    }
}

/// A directory on the way to the plugin, or the plugin itself, with its
/// permission bits or the reason why they could not be read.
#[derive(Debug, PartialEq, Eq)]
pub struct Ancestor {
    pub text: String,
    pub mode: Result<u32, String>,
}

/// The permission bit that lets everybody write.
pub const WORLD_WRITABLE: u32 = 0o002;

/// What is wrong with an ancestor of the plugin.
pub open spec fn ancestor_problem(path: Seq<char>, ancestor: Ancestor) -> Option<Seq<char>> {
    match ancestor.mode {
        Err(error) => Some(ancestor.text@ + ": cannot inspect permissions: "@ + error@),
        Ok(mode) => if mode & WORLD_WRITABLE != 0 {
            Some(
                path + ": refusing DCGM plugin because "@ + ancestor.text@ + " is world-writable"@,
            )
        } else {
            None
        },
    }
}

/// The first problem with the ancestors of the plugin.
pub open spec fn path_problem(path: Seq<char>, ancestors: Seq<Ancestor>) -> Option<Seq<char>>
    decreases ancestors.len(),
{
    if ancestors.len() == 0 {
        None
    } else {
        match ancestor_problem(path, ancestors[0]) {
            Some(problem) => Some(problem),
            None => path_problem(path, ancestors.drop_first()),
        }
    }
}

/// Refuses a plugin that somebody else could have put there: neither the file
/// nor a directory above it may be writable for everybody.
pub fn reject_world_writable_path(path: &str, ancestors: &[Ancestor]) -> (verdict: Result<
    (),
    String,
>)
    ensures
        match path_problem(path@, ancestors@) {
            Some(problem) => verdict matches Err(reason) && reason@ == problem,
            None => verdict is Ok,
        },
{
    let mut i: usize = 0;
    assert(ancestors@.skip(0) =~= ancestors@);
    while i < ancestors.len()
        invariant
            i <= ancestors@.len(),
            path_problem(path@, ancestors@) == path_problem(path@, ancestors@.skip(i as int)),
        decreases ancestors@.len() - i,
    {
        let ancestor = &ancestors[i];
        assert(ancestors@.skip(i as int).drop_first() =~= ancestors@.skip(i + 1));
        match &ancestor.mode {
            Err(error) => {
                let mut reason = ancestor.text.clone();
                reason.append(": cannot inspect permissions: ");
                reason.append(error.as_str());
                return Err(reason);
            },
            Ok(mode) => {
                if *mode & WORLD_WRITABLE != 0 {
                    let mut reason = path.to_owned();
                    reason.append(": refusing DCGM plugin because ");
                    reason.append(ancestor.text.as_str());
                    reason.append(" is world-writable");
                    return Err(reason);
                }
            },
        }
        i += 1;
    }
    assert(ancestors@.skip(i as int) =~= seq![]);
    Ok(())
}

/// A path with all links resolved, and what was found there.
#[derive(Debug, PartialEq, Eq)]
pub struct CanonicalPath {
    pub path: ShownPath,
    pub is_file: bool,
    /// The path itself and every directory above it, up to the root.
    pub ancestors: Vec<Ancestor>,
}

/// Why a candidate is refused, if it is.
pub open spec fn candidate_problem(
    candidate: ShownPath,
    canonical: Result<CanonicalPath, String>,
) -> Option<Seq<char>> {
    if !is_rooted(candidate.bytes@) {
        Some(candidate.text@ + ": plugin path is not absolute"@)
    } else {
        match canonical {
            Err(error) => Some(
                candidate.text@ + ": cannot canonicalize plugin path: "@ + error@,
            ),
            Ok(canonical) => if !canonical.is_file {
                Some(canonical.path.text@ + ": plugin path is not a regular file"@)
            } else {
                path_problem(canonical.path.text@, canonical.ancestors@)
            },
        }
    }
}

/// The resolved path of a plugin file that was accepted.
pub struct AcceptedPath {
    path: ShownPath,
    candidate: Ghost<ShownPath>,
    canonical: Ghost<CanonicalPath>,
}

impl AcceptedPath {
    /// The resolved path.
    pub closed spec fn path(self) -> ShownPath {
        self.path
    }

    /// The candidate that was accepted.
    pub closed spec fn candidate(self) -> ShownPath {
        self.candidate@
    }

    /// What was found at the resolved path.
    pub closed spec fn canonical(self) -> CanonicalPath {
        self.canonical@
    }

    /// There is no problem with the candidate, and its resolved path is absolute.
    #[verifier::type_invariant]
    spec fn well_formed(self) -> bool {
        &&& candidate_problem(self.candidate@, Ok(self.canonical@)) is None
        &&& self.path == self.canonical@.path
        &&& is_rooted(self.path.bytes@)
    }

    /// The resolved path.
    pub fn shown(&self) -> (path: &ShownPath)
        ensures
            *path == self.path(),
            is_rooted(path.bytes@),
            *path == self.canonical().path,
            candidate_problem(self.candidate(), Ok(self.canonical())) is None,
    {
        proof {
            use_type_invariant(self);
        }
        &self.path
    }
}

/// Accepts an existing candidate only where it is an absolute path to a regular
/// file that not everybody can replace. A path with all links resolved is
/// absolute.
pub fn validate_candidate(candidate: &ShownPath, canonical: Result<CanonicalPath, String>) -> (
    verdict: Result<AcceptedPath, String>)
    requires
        canonical matches Ok(found) ==> is_rooted(found.path.bytes@),
    ensures
        match candidate_problem(*candidate, canonical) {
            Some(problem) => verdict matches Err(reason) && reason@ == problem,
            None => verdict matches Ok(accepted) && accepted.candidate() == *candidate
                && canonical == Ok::<CanonicalPath, String>(accepted.canonical())
                && accepted.path() == accepted.canonical().path,
        },
{
    if !rooted(candidate.bytes.as_slice()) {
        let mut reason = candidate.text.clone();
        reason.append(": plugin path is not absolute");
        return Err(reason);
    }
    match canonical {
        Err(error) => {
            let mut reason = candidate.text.clone();
            reason.append(": cannot canonicalize plugin path: ");
            reason.append(error.as_str());
            Err(reason)
        },
        Ok(found) => {
            if !found.is_file {
                let mut reason = found.path.text.clone();
                reason.append(": plugin path is not a regular file");
                return Err(reason);
            }
            match reject_world_writable_path(found.path.text.as_str(), found.ancestors.as_slice()) {
                Err(reason) => Err(reason),
                Ok(_) => Ok(
                    AcceptedPath {
                        candidate: Ghost(*candidate),
                        canonical: Ghost(found),
                        path: found.path,
                    },
                ),
            }
        },
    }
}

/// An accepted plugin is an absolute path to a regular file, and nothing on the
/// way to it is writable for everybody.
pub proof fn law_accepted_plugin_is_safe(
    candidate: ShownPath,
    canonical: Result<CanonicalPath, String>,
    i: int,
)
    requires
        candidate_problem(candidate, canonical) is None,
    ensures
        is_rooted(candidate.bytes@),
        canonical is Ok,
        canonical->Ok_0.is_file,
        0 <= i < canonical->Ok_0.ancestors@.len() ==> {
            let mode = canonical->Ok_0.ancestors@[i].mode;
            mode is Ok && mode->Ok_0 & WORLD_WRITABLE == 0
        },
{
    let path = canonical->Ok_0.path.text@;
    let ancestors = canonical->Ok_0.ancestors@;
    if 0 <= i < ancestors.len() {
        lemma_no_problem(path, ancestors, i);
    }
}

/// Without a problem on the path there is none with any ancestor.
proof fn lemma_no_problem(path: Seq<char>, ancestors: Seq<Ancestor>, i: int)
    requires
        path_problem(path, ancestors) is None,
        0 <= i < ancestors.len(),
    ensures
        ancestor_problem(path, ancestors[i]) is None,
    decreases ancestors.len(),
{
    if i > 0 {
        lemma_no_problem(path, ancestors.drop_first(), i - 1);
    }
}

/// What became of one candidate.
#[derive(Debug, PartialEq, Eq)]
pub enum Attempt {
    /// There is nothing at the path, shown as `candidate`.
    NotFound { candidate: String },
    /// The file was not accepted.
    Refused { reason: String },
    /// The file at the resolved path could not be loaded.
    Failed { path: String, error: String },
    /// The plugin was loaded.
    Loaded,
}

impl Attempt {
    /// What to say of a candidate that did not work.
    pub open spec fn complaint(self) -> Seq<char> {
        match self {
            Attempt::NotFound { candidate } => candidate@ + ": not found"@,
            Attempt::Refused { reason } => reason@,
            Attempt::Failed { path, error } => path@ + ": "@ + error@,
            Attempt::Loaded => ""@,
        }
    }
}

/// Texts joined by semicolons.
pub open spec fn listing(texts: Seq<Seq<char>>) -> Seq<char>
    decreases texts.len(),
{
    if texts.len() == 0 {
        seq![]
    } else if texts.len() == 1 {
        texts[0]
    } else {
        listing(texts.drop_last()) + "; "@ + texts.last()
    }
}

/// Why no candidate could be loaded.
pub open spec fn unavailable(complaints: Seq<Seq<char>>) -> Seq<char> {
    "DCGM plugin unavailable; "@ + listing(complaints) + ". Install "@ + DCGM_PLUGIN_FILENAME@
        + " beside the executable or in /usr/lib/all-smi, or set "@ + DCGM_PLUGIN_ENV@
        + " to a safe absolute path"@
}

/// What the attempts up to the first success complain of.
pub open spec fn complaints(attempts: Seq<Attempt>) -> Seq<Seq<char>> {
    Seq::new(attempts.len(), |i: int| attempts[i].complaint())
}

/// What to do next in the search for the plugin.
#[derive(Debug, PartialEq, Eq)]
pub enum SearchStep {
    /// Try the candidate at this place.
    Try(usize),
    /// The candidate at this place is the plugin.
    Done(usize),
    /// There is no plugin, for this reason.
    GiveUp(String),
}

/// The search for the plugin through the candidates, one after the other.
pub struct PluginSearch {
    count: usize,
    tried: usize,
    found: bool,
    listed: String,
    attempts: Ghost<Seq<Attempt>>,
}

impl PluginSearch {
    /// How many candidates there are.
    pub closed spec fn count(self) -> nat {
        self.count as nat
    }

    /// What became of the candidates that were tried.
    pub closed spec fn attempts(self) -> Seq<Attempt> {
        self.attempts@
    }

    /// The attempts are no more than the candidates, and only the last one can
    /// have succeeded.
    pub closed spec fn well_formed(self) -> bool {
        &&& self.tried <= self.count
        &&& self.attempts@.len() == self.tried
        &&& self.found ==> self.tried > 0
        &&& forall|i: int|
            0 <= i < self.tried ==> ((#[trigger] self.attempts@[i]) is Loaded <==> self.found && i
                == self.tried - 1)
        &&& !self.found ==> self.listed@ == listing(complaints(self.attempts@))
    }

    /// A search through `count` candidates.
    pub fn new(count: usize) -> (search: Self)
        ensures
            search.well_formed(),
            search.count() == count,
            search.attempts() == Seq::<Attempt>::empty(),
    {
        let search = PluginSearch {
            count,
            tried: 0,
            found: false,
            listed: String::new(),
            attempts: Ghost(Seq::empty()),
        };
        assert(search.listed@ =~= listing(complaints(search.attempts@)));
        search
    }

    /// What to do next: take the first candidate that could be loaded, otherwise
    /// try the next one, and give up after the last.
    pub fn step(&self) -> (step: SearchStep)
        requires
            self.well_formed(),
        ensures
            match step {
                SearchStep::Done(place) => self.attempts().len() == place + 1
                    && self.attempts()[place as int] is Loaded && forall|i: int|
                    0 <= i < place ==> !((#[trigger] self.attempts()[i]) is Loaded),
                SearchStep::Try(place) => place < self.count() && place == self.attempts().len()
                    && forall|i: int|
                    0 <= i < place ==> !((#[trigger] self.attempts()[i]) is Loaded),
                SearchStep::GiveUp(reason) => self.attempts().len() == self.count() && reason@
                    == unavailable(complaints(self.attempts())) && forall|i: int|
                    0 <= i < self.attempts().len() ==> !((#[trigger] self.attempts()[i])
                        is Loaded),
            },
    {
        if self.found {
            SearchStep::Done(self.tried - 1)
        } else if self.tried < self.count {
            SearchStep::Try(self.tried)
        } else {
            let mut reason = "DCGM plugin unavailable; ".to_owned();
            reason.append(self.listed.as_str());
            reason.append(". Install ");
            reason.append(DCGM_PLUGIN_FILENAME);
            reason.append(" beside the executable or in /usr/lib/all-smi, or set ");
            reason.append(DCGM_PLUGIN_ENV);
            reason.append(" to a safe absolute path");
            SearchStep::GiveUp(reason)
        }
    }

    /// Notes what became of the candidate that was to be tried.
    pub fn record(&mut self, attempt: Attempt)
        requires
            old(self).well_formed(),
            old(self).attempts().len() < old(self).count(),
            forall|i: int|
                0 <= i < old(self).attempts().len() ==> !((#[trigger] old(self).attempts()[i])
                    is Loaded),
        ensures
            final(self).well_formed(),
            final(self).count() == old(self).count(),
            final(self).attempts() == old(self).attempts().push(attempt),
    {
        let ghost earlier = self.attempts@;
        let ghost now = earlier.push(attempt);
        proof {
            if self.found {
                assert(earlier[self.tried - 1] is Loaded);
            }
            assert(complaints(now).drop_last() =~= complaints(earlier));
            assert(complaints(now).last() == attempt.complaint());
        }
        let complaint: String = match &attempt {
            Attempt::NotFound { candidate } => {
                let mut text = candidate.clone();
                text.append(": not found");
                text
            },
            Attempt::Refused { reason } => reason.clone(),
            Attempt::Failed { path, error } => {
                let mut text = path.clone();
                text.append(": ");
                text.append(error.as_str());
                text
            },
            Attempt::Loaded => String::new(),
        };
        if let Attempt::Loaded = attempt {
            self.found = true;
        } else {
            if self.tried > 0 {
                self.listed.append("; ");
            }
            self.listed.append(complaint.as_str());
            assert(self.listed@ =~= listing(complaints(now)));
        }
        self.tried += 1;
        self.attempts = Ghost(now);
    }
}

/// What is wrong with the header of a function table, given the size of the
/// table that the loader knows.
pub open spec fn header_problem(
    abi_version: u32,
    struct_size: usize,
    table_size: usize,
) -> Option<Seq<char>> {
    if abi_version != DCGM_PLUGIN_ABI_VERSION {
        Some(
            "unsupported DCGM plugin ABI version "@ + decimal(abi_version as nat) + " (want "@
                + decimal(DCGM_PLUGIN_ABI_VERSION as nat) + ")"@,
        )
    } else if struct_size < table_size {
        Some(
            "DCGM plugin table too small ("@ + decimal(struct_size as nat) + " < "@ + decimal(
                table_size as nat,
            ) + ")"@,
        )
    } else {
        None
    }
}

/// Accepts a table of the known version that is at least as large as the table
/// that the loader knows.
pub fn validate_api_header(abi_version: u32, struct_size: usize, table_size: usize) -> (verdict:
    Result<(), String>)
    ensures
        match header_problem(abi_version, struct_size, table_size) {
            Some(problem) => verdict matches Err(reason) && reason@ == problem,
            None => verdict is Ok,
        },
{
    if abi_version != DCGM_PLUGIN_ABI_VERSION {
        let mut reason = "unsupported DCGM plugin ABI version ".to_owned();
        reason.append(u64_text(abi_version as u64).as_str());
        reason.append(" (want ");
        reason.append(u64_text(DCGM_PLUGIN_ABI_VERSION as u64).as_str());
        reason.append(")");
        return Err(reason);
    }
    if struct_size < table_size {
        let mut reason = "DCGM plugin table too small (".to_owned();
        reason.append(u64_text(struct_size as u64).as_str());
        reason.append(" < ");
        reason.append(u64_text(table_size as u64).as_str());
        reason.append(")");
        return Err(reason);
    }
    Ok(())
}

/// Whether a table has all its functions.
pub open spec fn complete(api: DcgmPluginApiV1) -> bool {
    &&& api.create_session is Some
    &&& api.destroy_session is Some
    &&& api.sample_json is Some
    &&& api.read_metadata_json is Some
    &&& api.free_buffer is Some
}

/// What to say of a table that lacks a function.
pub const INCOMPLETE_TABLE: &'static str =
    "DCGM plugin table is missing one or more required function pointers";

/// Accepts a table that has all its functions.
pub fn validate_api(api: &DcgmPluginApiV1) -> (verdict: Result<(), String>)
    ensures
        verdict is Ok <==> complete(*api),
        verdict matches Err(reason) ==> reason@ == INCOMPLETE_TABLE@,
        verdict is Ok <==> api.create_session is Some && api.destroy_session is Some
            && api.sample_json is Some && api.read_metadata_json is Some && api.free_buffer is Some,
        verdict matches Err(reason) ==> reason@
            == "DCGM plugin table is missing one or more required function pointers"@,
{
    if api.create_session.is_none() || api.destroy_session.is_none() || api.sample_json.is_none()
        || api.read_metadata_json.is_none() || api.free_buffer.is_none() {
        return Err(INCOMPLETE_TABLE.to_owned());
    }
    Ok(())
}

/// The text in quotes, with the escapes of the `Debug` format of `str`.
pub uninterp spec fn quoted(text: Seq<char>) -> Seq<char>;

/// `<str as core::fmt::Debug>::fmt`: the text in quotes, its special characters
/// escaped. The result depends on the text alone, and is left to the name
/// [`quoted`].
#[verifier::external_body]
fn debug_text(text: &str) -> (shown: String)
    ensures
        shown@ == quoted(text@),
{
    format!("{:?}", text)
}

/// What is wrong with the metadata.
pub open spec fn metadata_problem(metadata: PluginMetadata) -> Option<Seq<char>> {
    if metadata.wire_format@ != DCGM_PLUGIN_WIRE_FORMAT@ {
        Some(
            "unexpected DCGM wire format "@ + quoted(metadata.wire_format@) + " (want "@
                + DCGM_PLUGIN_WIRE_FORMAT@ + ")"@,
        )
    } else {
        None
    }
}

/// Accepts a plugin that speaks the known wire format.
pub fn validate_metadata(metadata: &PluginMetadata) -> (verdict: Result<(), String>)
    ensures
        match metadata_problem(*metadata) {
            Some(problem) => verdict matches Err(reason) && reason@ == problem,
            None => verdict is Ok,
        },
{
    if metadata.wire_format != DCGM_PLUGIN_WIRE_FORMAT.to_owned() {
        let shown = debug_text(metadata.wire_format.as_str());
        return Err(wire_format_mismatch(shown.as_str()));
    }
    Ok(())
}

/// What to say of another wire format, shown in quotes.
pub fn wire_format_mismatch(shown: &str) -> (reason: String)
    ensures
        reason@ == "unexpected DCGM wire format "@ + shown@ + " (want "@ + DCGM_PLUGIN_WIRE_FORMAT@
            + ")"@,
{
    let mut reason = "unexpected DCGM wire format ".to_owned();
    reason.append(shown);
    reason.append(" (want ");
    reason.append(DCGM_PLUGIN_WIRE_FORMAT);
    reason.append(")");
    reason
}

/// What happened while an accepted file was loaded.
#[derive(Debug, PartialEq, Eq)]
pub enum LoadEvent {
    /// The library could not be opened.
    NotOpened { error: String },
    /// The library is open.
    Opened,
    /// The library has no entry point.
    NoEntry { error: String },
    /// The entry point returned null.
    NullTable,
    /// The entry point returned a table with this header.
    Header { abi_version: u32, struct_size: usize, table_size: usize },
    /// The whole table was read.
    Table { api: DcgmPluginApiV1 },
    /// The metadata could not be read.
    NoMetadata { error: String },
    /// The plugin reported its metadata.
    Metadata { metadata: PluginMetadata },
}

/// How far the loading of a file is, with what was accepted on the way.
#[derive(Clone, Copy, Debug, PartialEq, Eq)]
pub enum LoadStage {
    /// The library is to be opened.
    Open,
    /// The entry point is to be called.
    CallEntry,
    /// The table behind this header is to be read.
    ReadTable { abi_version: u32, struct_size: usize },
    /// The metadata is to be read through this table.
    ReadMetadata { api: DcgmPluginApiV1 },
}

/// Whether a stage rests on what is accepted only: the header of the known
/// version, and the table with all its functions.
pub open spec fn trusted(stage: LoadStage) -> bool {
    match stage {
        LoadStage::Open => true,
        LoadStage::CallEntry => true,
        LoadStage::ReadTable { abi_version, .. } => abi_version == DCGM_PLUGIN_ABI_VERSION,
        LoadStage::ReadMetadata { api } => api.abi_version == DCGM_PLUGIN_ABI_VERSION && complete(
            api,
        ),
    }
}

/// Whether an event can happen at a stage.
pub open spec fn answers(event: LoadEvent, stage: LoadStage) -> bool {
    match stage {
        LoadStage::Open => event is NotOpened || event is Opened,
        LoadStage::CallEntry => event is NoEntry || event is NullTable || event is Header,
        LoadStage::ReadTable { .. } => event is Table,
        LoadStage::ReadMetadata { .. } => event is NoMetadata || event is Metadata,
    }
}

/// What stops the loading.
pub open spec fn load_problem(event: LoadEvent) -> Option<Seq<char>> {
    match event {
        LoadEvent::NotOpened { error } => Some("dlopen failed: "@ + error@),
        LoadEvent::Opened => None,
        LoadEvent::NoEntry { error } => Some("missing v1 entry point: "@ + error@),
        LoadEvent::NullTable => Some("v1 entry point returned a null function table"@),
        LoadEvent::Header { abi_version, struct_size, table_size } => header_problem(
            abi_version,
            struct_size,
            table_size,
        ),
        LoadEvent::Table { api } => if complete(api) {
            None
        } else {
            Some(INCOMPLETE_TABLE@)
        },
        LoadEvent::NoMetadata { error } => Some(error@),
        LoadEvent::Metadata { metadata } => metadata_problem(metadata),
    }
}

/// The table that was read behind an accepted header.
pub open spec fn table_behind(stage: LoadStage, api: DcgmPluginApiV1) -> DcgmPluginApiV1 {
    match stage {
        LoadStage::ReadTable { abi_version, struct_size } => DcgmPluginApiV1 {
            abi_version,
            struct_size,
            ..api
        },
        _ => api,
    }
}

/// The stage that follows when nothing stops the loading: the entry point is
/// called in an open library, the table is read behind an accepted header, and
/// the metadata through a complete table.
pub open spec fn next_stage(stage: LoadStage, event: LoadEvent) -> LoadStage {
    match event {
        LoadEvent::Opened => LoadStage::CallEntry,
        LoadEvent::Header { abi_version, struct_size, .. } => LoadStage::ReadTable {
            abi_version,
            struct_size,
        },
        LoadEvent::Table { api } => LoadStage::ReadMetadata { api: table_behind(stage, api) },
        _ => stage,
    }
}

/// The loading of an accepted file.
pub struct PluginLoading {
    file: AcceptedPath,
    stage: LoadStage,
}

impl PluginLoading {
    /// The file that is loaded.
    pub closed spec fn file(self) -> AcceptedPath {
        self.file
    }

    /// How far the loading is.
    pub closed spec fn stage(self) -> LoadStage {
        self.stage
    }

    /// The loading rests on what is accepted only.
    #[verifier::type_invariant]
    spec fn well_formed(self) -> bool {
        trusted(self.stage)
    }

    /// The loading of a file, at its start.
    pub fn new(file: AcceptedPath) -> (loading: Self)
        ensures
            loading.file() == file,
            loading.stage() == LoadStage::Open,
    {
        PluginLoading { file, stage: LoadStage::Open }
    }

    /// How far the loading is, which says what to do next.
    pub fn progress(&self) -> (stage: LoadStage)
        ensures
            stage == self.stage(),
            trusted(stage),
    {
        proof {
            use_type_invariant(self);
        }
        self.stage
    }
}

/// A plugin that was loaded.
pub struct LoadedPlugin {
    file: AcceptedPath,
    api: DcgmPluginApiV1,
    metadata: PluginMetadata,
}

impl LoadedPlugin {
    /// The file of the plugin.
    pub closed spec fn file(self) -> AcceptedPath {
        self.file
    }

    /// The function table of the plugin.
    pub closed spec fn api(self) -> DcgmPluginApiV1 {
        self.api
    }

    /// What the plugin reports of itself.
    pub closed spec fn metadata(self) -> PluginMetadata {
        self.metadata
    }

    /// The table has the known version and all its functions, and the plugin
    /// speaks the known wire format.
    #[verifier::type_invariant]
    spec fn well_formed(self) -> bool {
        &&& self.api.abi_version == DCGM_PLUGIN_ABI_VERSION
        &&& complete(self.api)
        &&& self.metadata.wire_format@ == DCGM_PLUGIN_WIRE_FORMAT@
    }

    /// The file of the plugin.
    pub fn path(&self) -> (path: &ShownPath)
        ensures
            *path == self.file().path(),
            is_rooted(path.bytes@),
    {
        self.file.shown()
    }

    /// The function table of the plugin.
    pub fn table(&self) -> (api: DcgmPluginApiV1)
        ensures
            api == self.api(),
            api.abi_version == DCGM_PLUGIN_ABI_VERSION,
            complete(api),
    {
        proof {
            use_type_invariant(self);
        }
        self.api
    }
}

/// Where the loading of a file stands after an event.
pub enum LoadStep {
    /// Go on with the loading.
    Next(PluginLoading),
    /// The plugin is loaded.
    Kept(LoadedPlugin),
}

/// Goes on with the loading of a file, or says what stops it.
pub fn load_candidate(loading: PluginLoading, event: LoadEvent) -> (step: Result<LoadStep, String>)
    requires
        answers(event, loading.stage()),
    ensures
        match load_problem(event) {
            Some(problem) => step matches Err(reason) && reason@ == problem,
            None => match event {
                LoadEvent::Metadata { metadata } => {
                    &&& step matches Ok(LoadStep::Kept(plugin))
                    &&& plugin.file() == loading.file()
                    &&& loading.stage() == (LoadStage::ReadMetadata { api: plugin.api() })
                    &&& plugin.metadata() == metadata
                },
                _ => {
                    &&& step matches Ok(LoadStep::Next(next))
                    &&& next.file() == loading.file()
                    &&& next.stage() == next_stage(loading.stage(), event)
                },
            },
        },
{
    proof {
        use_type_invariant(&loading);
    }
    let file = loading.file;
    match event {
        LoadEvent::NotOpened { error } => {
            let mut reason = "dlopen failed: ".to_owned();
            reason.append(error.as_str());
            Err(reason)
        },
        LoadEvent::Opened => Ok(
            LoadStep::Next(PluginLoading { file, stage: LoadStage::CallEntry }),
        ),
        LoadEvent::NoEntry { error } => {
            let mut reason = "missing v1 entry point: ".to_owned();
            reason.append(error.as_str());
            Err(reason)
        },
        LoadEvent::NullTable => Err("v1 entry point returned a null function table".to_owned()),
        LoadEvent::Header { abi_version, struct_size, table_size } => match validate_api_header(
            abi_version,
            struct_size,
            table_size,
        ) {
            Ok(_) => {
                let stage = LoadStage::ReadTable { abi_version, struct_size };
                Ok(LoadStep::Next(PluginLoading { file, stage }))
            },
            Err(reason) => Err(reason),
        },
        LoadEvent::Table { api } => match validate_api(&api) {
            Ok(_) => {
                let mut table: DcgmPluginApiV1 = api;
                if let LoadStage::ReadTable { abi_version, struct_size } = loading.stage {
                    table.abi_version = abi_version;
                    table.struct_size = struct_size;
                }
                let stage = LoadStage::ReadMetadata { api: table };
                Ok(LoadStep::Next(PluginLoading { file, stage }))
            },
            Err(reason) => Err(reason),
        },
        LoadEvent::NoMetadata { error } => Err(error),
        LoadEvent::Metadata { metadata } => match validate_metadata(&metadata) {
            Ok(_) => match loading.stage {
                LoadStage::ReadMetadata { api } => Ok(
                    LoadStep::Kept(LoadedPlugin { file, api, metadata }),
                ),
                _ => Err(INCOMPLETE_TABLE.to_owned()),
            },
            Err(reason) => Err(reason),
        },
    }
}

/// The loading starts from nothing, and goes on with what is accepted only: a
/// plugin is kept only with the header of the known version, a table with all
/// its functions, and the metadata of the known wire format.
pub proof fn law_kept_plugin_is_validated(stage: LoadStage, event: LoadEvent)
    requires
        trusted(stage),
        answers(event, stage),
        load_problem(event) is None,
    ensures
        trusted(LoadStage::Open),
        trusted(next_stage(stage, event)),
        event matches LoadEvent::Metadata { metadata } ==> metadata.wire_format@
            == DCGM_PLUGIN_WIRE_FORMAT@ && (stage matches LoadStage::ReadMetadata { api }
            && api.abi_version == DCGM_PLUGIN_ABI_VERSION && complete(api)),
{
}

/// Whether the backend is there.
#[derive(Clone, Debug, PartialEq, Eq)]
pub enum DcgmBackendStatus {
    Loaded { path: ShownPath, abi_version: u32, plugin_version: String },
    Unavailable { reason: String },
}

/// The status of the backend after an attempt to load the plugin. A plugin that
/// was loaded has an absolute path and the known version.
pub fn backend_status(plugin: &Result<LoadedPlugin, String>) -> (status: DcgmBackendStatus)
    ensures
        match plugin {
            Ok(plugin) => {
                &&& status matches DcgmBackendStatus::Loaded { path, abi_version, plugin_version }
                &&& path.bytes@ == plugin.file().path().bytes@
                &&& path.text@ == plugin.file().path().text@
                &&& is_rooted(path.bytes@)
                &&& abi_version == plugin.api().abi_version
                &&& abi_version == DCGM_PLUGIN_ABI_VERSION
                &&& plugin_version@ == plugin.metadata().plugin_version@
            },
            Err(reason) => status == (DcgmBackendStatus::Unavailable { reason: *reason }),
        },
{
    match plugin {
        Ok(plugin) => DcgmBackendStatus::Loaded {
            path: plugin.path().clone(),
            abi_version: plugin.table().abi_version,
            plugin_version: plugin.metadata.plugin_version.clone(),
        },
        Err(reason) => DcgmBackendStatus::Unavailable { reason: reason.clone() },
    }
}

/// What became of the attempt to load the plugin; none before the attempt.
pub type Outcome = Option<Result<LoadedPlugin, String>>;

/// What stands after one more attempt: the first one is final.
pub open spec fn after_attempt(outcome: Outcome, attempt: Result<LoadedPlugin, String>) -> Outcome {
    match outcome {
        Some(first) => Some(first),
        None => Some(attempt),
    }
}

/// What stands after several attempts.
pub open spec fn after_attempts(
    outcome: Outcome,
    attempts: Seq<Result<LoadedPlugin, String>>,
) -> Outcome
    decreases attempts.len(),
{
    if attempts.len() == 0 {
        outcome
    } else {
        after_attempt(after_attempts(outcome, attempts.drop_last()), attempts.last())
    }
}

/// The backend of a process. The plugin is loaded once, and what came of it
/// stays.
pub struct Backend {
    outcome: Outcome,
}

impl Backend {
    /// What became of the attempt to load the plugin.
    pub closed spec fn outcome(self) -> Outcome {
        self.outcome
    }

    /// A backend without an attempt.
    pub fn new() -> (backend: Self)
        ensures
            backend.outcome() is None,
    {
        Backend { outcome: None }
    }

    /// What became of the attempt to load the plugin.
    pub fn plugin(&self) -> (plugin: Option<&Result<LoadedPlugin, String>>)
        ensures
            match self.outcome() {
                Some(outcome) => plugin == Some(&outcome),
                None => plugin is None,
            },
    {
        self.outcome.as_ref()
    }

    /// Notes what became of an attempt, unless there was one before.
    pub fn settle(&mut self, attempt: Result<LoadedPlugin, String>)
        ensures
            final(self).outcome() == after_attempt(old(self).outcome(), attempt),
    {
        if self.outcome.is_none() {
            self.outcome = Some(attempt);
        }
    }
}

/// Once the plugin was loaded or found missing nothing changes that, and with it
/// the status of the backend.
pub proof fn law_first_attempt_is_final(
    first: Result<LoadedPlugin, String>,
    attempts: Seq<Result<LoadedPlugin, String>>,
)
    ensures
        after_attempts(Some(first), attempts) == Some(first),
        after_attempts(None, seq![first] + attempts) == Some(first),
    decreases attempts.len(),
{
    let all = seq![first] + attempts;
    if attempts.len() > 0 {
        law_first_attempt_is_final(first, attempts.drop_last());
        assert(all.drop_last() =~= seq![first] + attempts.drop_last());
    } else {
        assert(all =~= seq![first]);
        assert(all.drop_last() =~= seq![]);
        reveal_with_fuel(after_attempts, 2);
    }
}

/// What to do with the buffer after a call that fills one. It is freed in
/// either case, before the failure is reported or after its bytes were parsed.
#[derive(Debug, PartialEq, Eq)]
pub enum BufferUse {
    FreeAndFail(String),
    ParseAndFree,
}

/// What is wrong with the result of a call that fills a buffer.
pub open spec fn buffer_problem(status: i32, buffer: DcgmPluginBuffer) -> Option<Seq<char>> {
    if status != 0 {
        Some("DCGM plugin buffer call failed with status "@ + signed_decimal(status as int))
    } else if buffer.ptr == 0 || buffer.len == 0 {
        Some("DCGM plugin returned an empty buffer"@)
    } else {
        None
    }
}

/// What to do with the buffer, given the status of the call.
pub fn read_buffer(status: i32, buffer: &DcgmPluginBuffer) -> (next: BufferUse)
    ensures
        match buffer_problem(status, *buffer) {
            Some(problem) => next matches BufferUse::FreeAndFail(reason) && reason@ == problem,
            None => next is ParseAndFree,
        },
{
    if status != 0 {
        let mut reason = "DCGM plugin buffer call failed with status ".to_owned();
        reason.append(i32_text(status).as_str());
        return BufferUse::FreeAndFail(reason);
    }
    if buffer.ptr == 0 || buffer.len == 0 {
        return BufferUse::FreeAndFail("DCGM plugin returned an empty buffer".to_owned());
    }
    BufferUse::ParseAndFree
}

/// What to say of bytes that do not parse.
pub fn parse_failure(error: &str) -> (reason: String)
    ensures
        reason@ == "DCGM JSON parse: "@ + error@,
{
    let mut reason = "DCGM JSON parse: ".to_owned();
    reason.append(error);
    reason
}

/// What to do about the session before sampling.
#[derive(Debug, PartialEq, Eq)]
pub enum SessionStep {
    /// Use the session with this handle.
    Use(usize),
    /// Call the function at this address to create a session.
    Create(usize),
    /// Sampling is impossible, for this reason.
    Fail(String),
}

/// The session to sample with: the one there is, or a new one. `session` is its
/// handle, zero for none.
pub fn session_step(session: usize, api: &DcgmPluginApiV1) -> (step: SessionStep)
    ensures
        match step {
            SessionStep::Use(handle) => session != 0 && handle == session,
            SessionStep::Create(create) => session == 0 && api.create_session == Some(create),
            SessionStep::Fail(reason) => session == 0 && api.create_session is None && reason@
                == "dcgm create_session missing"@,
        },
{
    if session != 0 {
        return SessionStep::Use(session);
    }
    match api.create_session {
        Some(create) => SessionStep::Create(create),
        None => SessionStep::Fail("dcgm create_session missing".to_owned()),
    }
}

/// The session that was created, unless its handle is null.
pub fn created_session(handle: usize) -> (session: Result<usize, String>)
    ensures
        match session {
            Ok(session) => session == handle && handle != 0,
            Err(reason) => handle == 0 && reason@ == "dcgm create_session returned null"@,
        },
{
    if handle == 0 {
        return Err("dcgm create_session returned null".to_owned());
    }
    Ok(handle)
}

/// Without an override the plugin is looked for beside the executable, in
/// `../lib/all-smi` from there, and in the two installation directories, in this
/// order; without the directory of the executable only in the latter.
pub proof fn law_places_of_the_plugin(dir: Seq<u8>)
    ensures
        ({
            let file = vstd::utf8::encode_utf8("liball_smi_dcgm.so"@);
            let local = below(vstd::utf8::encode_utf8("/usr/local/lib/all-smi"@), file);
            let system = below(vstd::utf8::encode_utf8("/usr/lib/all-smi"@), file);
            let up = below(dir, vstd::utf8::encode_utf8(".."@));
            let lib = below(up, vstd::utf8::encode_utf8("lib"@));
            let packaged = below(lib, vstd::utf8::encode_utf8("all-smi"@));
            &&& default_places(None) == seq![local, system]
            &&& default_places(Some(dir)) == seq![
                below(dir, file),
                below(packaged, file),
                local,
                system,
            ]
        }),
{
    let file = vstd::utf8::encode_utf8("liball_smi_dcgm.so"@);
    let local = below(vstd::utf8::encode_utf8("/usr/local/lib/all-smi"@), file);
    let system = below(vstd::utf8::encode_utf8("/usr/lib/all-smi"@), file);
    let up = below(dir, vstd::utf8::encode_utf8(".."@));
    let lib = below(up, vstd::utf8::encode_utf8("lib"@));
    let packaged = below(lib, vstd::utf8::encode_utf8("all-smi"@));
    assert(default_places(Some(dir)) =~= seq![
        below(dir, file),
        below(packaged, file),
        local,
        system,
    ]);
}

/// An override is refused where it is empty or does not begin with a slash, and
/// accepted otherwise.
pub proof fn law_override_must_be_absolute(path: ShownPath)
    ensures
        path.bytes@.len() == 0 ==> override_problem(path) == Some(
            "ALL_SMI_DCGM_PLUGIN"@ + " is set but empty"@,
        ),
        path.bytes@.len() > 0 && path.bytes@[0] != 47 ==> override_problem(path) == Some(
            "ALL_SMI_DCGM_PLUGIN"@ + " must be an absolute path, got "@ + path.text@,
        ),
        path.bytes@.len() > 0 && path.bytes@[0] == 47 ==> override_problem(path) is None,
{
}

/// The first ancestor that cannot be inspected, or that everybody can write to, is
/// the reason to refuse a plugin; without one it is not refused on that account.
pub proof fn law_first_unsafe_ancestor_is_reported(
    path: Seq<char>,
    ancestors: Seq<Ancestor>,
    i: int,
)
    requires
        0 <= i <= ancestors.len(),
        forall|j: int|
            0 <= j < i ==> ((#[trigger] ancestors[j]).mode matches Ok(mode) && mode & 2 == 0),
        i < ancestors.len() ==> (ancestors[i].mode matches Ok(mode) ==> mode & 2 != 0),
    ensures
        i == ancestors.len() ==> path_problem(path, ancestors) is None,
        i < ancestors.len() ==> path_problem(path, ancestors) == Some(
            match ancestors[i].mode {
                Err(error) => ancestors[i].text@ + ": cannot inspect permissions: "@ + error@,
                Ok(_) => path + ": refusing DCGM plugin because "@ + ancestors[i].text@
                    + " is world-writable"@,
            },
        ),
    decreases ancestors.len(),
{
    if i > 0 {
        let rest = ancestors.drop_first();
        assert(ancestors[0].mode matches Ok(mode) && mode & 2 == 0);
        assert forall|j: int| 0 <= j < i - 1 implies ((#[trigger] rest[j]).mode matches Ok(mode)
            && mode & 2 == 0) by {
            assert(ancestors[j + 1].mode matches Ok(mode) && mode & 2 == 0);
        }
        law_first_unsafe_ancestor_is_reported(path, rest, i - 1);
    }
}

/// A candidate must begin with a slash, exist, and be a regular file; what is left
/// is up to its ancestors.
pub proof fn law_candidates_by_what_was_found(
    candidate: ShownPath,
    canonical: Result<CanonicalPath, String>,
)
    ensures
        candidate.bytes@.len() == 0 || candidate.bytes@[0] != 47 ==> candidate_problem(
            candidate,
            canonical,
        ) == Some(candidate.text@ + ": plugin path is not absolute"@),
        candidate.bytes@.len() > 0 && candidate.bytes@[0] == 47 ==> candidate_problem(
            candidate,
            canonical,
        ) == (match canonical {
            Err(error) => Some(candidate.text@ + ": cannot canonicalize plugin path: "@ + error@),
            Ok(found) => if found.is_file {
                path_problem(found.path.text@, found.ancestors@)
            } else {
                Some(found.path.text@ + ": plugin path is not a regular file"@)
            },
        }),
{
}

/// What is said of each candidate that did not work, one after the other with
/// semicolons between.
pub proof fn law_complaints_are_listed(attempts: Seq<Attempt>, attempt: Attempt)
    ensures
        ({
            let text = match attempt {
                Attempt::NotFound { candidate } => candidate@ + ": not found"@,
                Attempt::Refused { reason } => reason@,
                Attempt::Failed { path, error } => path@ + ": "@ + error@,
                Attempt::Loaded => ""@,
            };
            let before = listing(complaints(attempts));
            &&& attempts.len() == 0 ==> listing(complaints(attempts.push(attempt))) == text
            &&& attempts.len() > 0 ==> listing(complaints(attempts.push(attempt))) == before
                + "; "@ + text
        }),
        unavailable(complaints(attempts)) == "DCGM plugin unavailable; "@ + listing(
            complaints(attempts),
        ) + ". Install "@ + "liball_smi_dcgm.so"@
            + " beside the executable or in /usr/lib/all-smi, or set "@ + "ALL_SMI_DCGM_PLUGIN"@
            + " to a safe absolute path"@,
{
    let now = complaints(attempts.push(attempt));
    assert(now.drop_last() =~= complaints(attempts));
    assert(now.last() == attempt.complaint());
}

/// A table is accepted exactly when its version is one and it is at least as large as
/// the table that the loader knows.
pub proof fn law_headers_by_version_and_size(
    abi_version: u32,
    struct_size: usize,
    table_size: usize,
)
    ensures
        abi_version != 1 ==> header_problem(abi_version, struct_size, table_size) == Some(
            "unsupported DCGM plugin ABI version "@ + decimal(abi_version as nat) + " (want "@
                + decimal(1) + ")"@,
        ),
        abi_version == 1 && struct_size < table_size ==> header_problem(
            abi_version,
            struct_size,
            table_size,
        ) == Some(
            "DCGM plugin table too small ("@ + decimal(struct_size as nat) + " < "@ + decimal(
                table_size as nat,
            ) + ")"@,
        ),
        abi_version == 1 && struct_size >= table_size ==> header_problem(
            abi_version,
            struct_size,
            table_size,
        ) is None,
{
}

/// The metadata is accepted exactly when it names the wire format.
pub proof fn law_metadata_by_wire_format(metadata: PluginMetadata)
    ensures
        metadata_problem(metadata) is None <==> metadata.wire_format@ == "all-smi-dcgm-json-v1"@,
        metadata_problem(metadata) matches Some(problem) ==> problem
            == "unexpected DCGM wire format "@ + quoted(metadata.wire_format@) + " (want "@
            + "all-smi-dcgm-json-v1"@ + ")"@,
{
}

/// What stops the loading, by what happened.
pub proof fn law_loading_stops_for_a_reason(event: LoadEvent)
    ensures
        event matches LoadEvent::NotOpened { error } ==> load_problem(event) == Some(
            "dlopen failed: "@ + error@,
        ),
        event is Opened ==> load_problem(event) is None,
        event matches LoadEvent::NoEntry { error } ==> load_problem(event) == Some(
            "missing v1 entry point: "@ + error@,
        ),
        event is NullTable ==> load_problem(event) == Some(
            "v1 entry point returned a null function table"@,
        ),
        event matches LoadEvent::Header { abi_version, struct_size, table_size } ==> (load_problem(
            event,
        ) is None <==> abi_version == 1 && struct_size >= table_size),
        event matches LoadEvent::Table { api } ==> (load_problem(event) is None
            <==> api.create_session is Some && api.destroy_session is Some
                && api.sample_json is Some
            && api.read_metadata_json is Some && api.free_buffer is Some) && (load_problem(
            event,
        ) matches Some(problem) ==> problem
            == "DCGM plugin table is missing one or more required function pointers"@),
        event matches LoadEvent::NoMetadata { error } ==> load_problem(event) == Some(error@),
        event matches LoadEvent::Metadata { metadata } ==> (load_problem(event) is None
            <==> metadata.wire_format@ == "all-smi-dcgm-json-v1"@),
{
}

/// An open library is followed by its entry point, an accepted header by the table
/// behind it, and a complete table by the metadata; the table keeps the header that
/// was accepted.
pub proof fn law_loading_goes_in_order(stage: LoadStage, event: LoadEvent)
    requires
        answers(event, stage),
    ensures
        event is Opened ==> stage is Open && next_stage(stage, event) == LoadStage::CallEntry,
        event matches LoadEvent::Header { abi_version, struct_size, table_size } ==> stage
            == LoadStage::CallEntry && next_stage(stage, event) == (LoadStage::ReadTable {
            abi_version,
            struct_size,
        }),
        event matches LoadEvent::Table { api } ==> (stage matches LoadStage::ReadTable {
            abi_version,
            struct_size,
        } && (next_stage(stage, event) matches LoadStage::ReadMetadata { api: table }
            && table.abi_version == abi_version && table.struct_size == struct_size
            && table.create_session == api.create_session && table.destroy_session
            == api.destroy_session && table.sample_json == api.sample_json
            && table.read_metadata_json == api.read_metadata_json && table.free_buffer
            == api.free_buffer)),
        event is Metadata ==> stage is ReadMetadata,
{
}

/// The bytes of a buffer are parsed exactly when the call returned zero and the buffer
/// has some.
pub proof fn law_buffers_by_status(status: i32, buffer: DcgmPluginBuffer)
    ensures
        status != 0 ==> buffer_problem(status, buffer) == Some(
            "DCGM plugin buffer call failed with status "@ + signed_decimal(status as int),
        ),
        status == 0 && (buffer.ptr == 0 || buffer.len == 0) ==> buffer_problem(status, buffer)
            == Some("DCGM plugin returned an empty buffer"@),
        status == 0 && buffer.ptr != 0 && buffer.len != 0
            ==> buffer_problem(status, buffer) is None,
{
}

} // verus!
