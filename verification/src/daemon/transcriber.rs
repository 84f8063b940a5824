//! Loading a speech model and speaking its language.
//!
//! Loading goes through phases, as a bind does: each phase asks for one operation, and what came
//! of it leads to the next phase. A model is loaded only when its engine family is the one that
//! was configured and no symbolic link stands in its way.

use crate::strings;
use crate::unix_path;
use crate::unix_path::UnixPath;
use vstd::prelude::*;
use vstd::string::*;

verus! {

/// The engine families.
#[derive(Clone, Copy, Debug, PartialEq, Eq, Structural)]
pub enum EngineFamily {
    Whisper,
    Qwen3Asr,
    MiniMax,
}

/// The family that a configuration value names, whatever the case of its ASCII letters.
pub open spec fn family_of(value: Seq<char>) -> Option<EngineFamily> {
    let v = strings::ascii_lowercase(value);
    if v == "whisper"@ {
        Some(EngineFamily::Whisper)
    } else if v == "qwen3-asr"@ || v == "qwen3asr"@ || v == "qwen3_asr"@ {
        Some(EngineFamily::Qwen3Asr)
    } else if v == "minimax"@ {
        Some(EngineFamily::MiniMax)
    } else {
        None
    }
}

/// `voxora_bridge::EngineFamily::from_config`: the family that a configuration value names. It
/// lowers the ASCII letters of the value and knows `whisper`, three spellings of `qwen3-asr`,
/// and `minimax`.
#[verifier::external_body]
fn family_from_config(value: &str) -> (r: Option<EngineFamily>)
    ensures
        r == family_of(value@),
{
    match voxora_bridge::EngineFamily::from_config(value) {
        Some(voxora_bridge::EngineFamily::Whisper) => Some(EngineFamily::Whisper),
        Some(voxora_bridge::EngineFamily::Qwen3Asr) => Some(EngineFamily::Qwen3Asr),
        Some(voxora_bridge::EngineFamily::MiniMax) => Some(EngineFamily::MiniMax),
        _ => None,
    }
}

/// A model identifier, taken apart.
#[derive(Debug)]
pub struct ParsedId {
    /// Whether it names a local directory.
    pub local: bool,
    /// `org/repo`, or the local path.
    pub repo: String,
    /// The file inside the repository.
    pub path: Option<Vec<String>>,
}

/// The values of an attempt at taking an identifier apart.
pub open spec fn parse_view(r: Result<ParsedId, String>) -> Result<
    (bool, Seq<char>, Option<Seq<Seq<char>>>),
    Seq<char>,
> {
    match r {
        Ok(p) => Ok(
            (
                p.local,
                p.repo@,
                match p.path {
                    Some(v) => Some(strings::texts(v@)),
                    None => None,
                },
            ),
        ),
        Err(e) => Err(e@),
    }
}

/// What `voxora_registry::ModelId::parse` makes of a model identifier: whether it is local, the
/// repository and the file inside it, or the text of its error.
pub uninterp spec fn registry_parse(id: Seq<char>) -> Result<
    (bool, Seq<char>, Option<Seq<Seq<char>>>),
    Seq<char>,
>;

/// `voxora_registry::ModelId::parse`: takes a model identifier apart, or gives the text of its
/// error. A blank identifier is an error; which other shapes are accepted is left to the name.
#[verifier::external_body]
fn parse_id(id: &str) -> (r: Result<ParsedId, String>)
    ensures
        registry_parse(id@) == parse_view(r),
        strings::blank(id@) ==> r is Err,
{
    match voxora_registry::ModelId::parse(id) {
        Ok(m) => Ok(
            ParsedId {
                local: match m.source {
                    voxora_registry::SourceKind::Local => true,
                    _ => false,
                },
                repo: m.repo,
                path: m.path,
            },
        ),
        Err(e) => Err(e.to_string()),
    }
}

/// Takes a model identifier apart.
pub fn parse_model_id(id: &str) -> (r: Result<ParsedId, String>)
    ensures
        registry_parse(id@) == parse_view(r),
        strings::blank(id@) ==> r is Err,
{
    parse_id(id)
}

impl EngineFamily {
    /// The family that a configuration value names.
    pub fn from_config(value: &str) -> (r: Option<EngineFamily>)
        ensures
            r == family_of(value@),
    {
        family_from_config(value)
    }

    /// The name of the family in configuration files.
    pub open spec fn name(self) -> Seq<char> {
        match self {
            EngineFamily::Whisper => "whisper"@,
            EngineFamily::Qwen3Asr => "qwen3-asr"@,
            EngineFamily::MiniMax => "minimax"@,
        }
    }

    /// The name of the family in configuration files.
    pub fn as_config(&self) -> (r: String)
        ensures
            r@ == self.name(),
    {
        match self {
            EngineFamily::Whisper => "whisper".to_owned(),
            EngineFamily::Qwen3Asr => "qwen3-asr".to_owned(),
            EngineFamily::MiniMax => "minimax".to_owned(),
        }
    }
}

/// The family that a configuration names, or what is said when it names none.
pub fn configured_family(model_kind: &str) -> (r: Result<EngineFamily, String>)
    ensures
        r matches Ok(f) ==> family_of(model_kind@) == Some(f),
        r matches Err(m) ==> family_of(model_kind@) is None && m@ == "unknown model_kind "@
            + strings::debug_text(model_kind@) + "; expected one of `whisper` or `qwen3-asr`"@,
{
    match family_from_config(model_kind) {
        Some(f) => Ok(f),
        None => {
            let mut out: String = "unknown model_kind ".to_owned();
            out.append(strings::quoted(model_kind).as_str());
            out.append("; expected one of `whisper` or `qwen3-asr`");
            Err(out)
        },
    }
}

/// The access token for the model hub: the first of the two variables that is set.
pub fn hub_token(hf_token: &Option<String>, hugging_face_hub_token: &Option<String>) -> (r: Option<String>)
    ensures
        r == (if *hf_token is Some {
            *hf_token
        } else {
            *hugging_face_hub_token
        }),
{
    match hf_token {
        Some(t) => Some(t.clone()),
        None => match hugging_face_hub_token {
            Some(t) => Some(t.clone()),
            None => None,
        },
    }
}

/// A key that counts: set, and not blank.
pub open spec fn usable_key(k: Option<String>) -> Option<Seq<char>> {
    match k {
        Some(s) => if strings::blank(s@) {
            None
        } else {
            Some(s@)
        },
        None => None,
    }
}

/// The key for the hosted engine: the explicit one, else that of `VOXORA_MINIMAX_API_KEY`, else
/// that of `MINIMAX_API_KEY`.
pub open spec fn chosen_key(explicit: Option<String>, prefixed: Option<String>, plain: Option<
    String,
>) -> Option<Seq<char>> {
    if usable_key(explicit) is Some {
        usable_key(explicit)
    } else if usable_key(prefixed) is Some {
        usable_key(prefixed)
    } else {
        usable_key(plain)
    }
}

/// A key, when it counts.
pub fn usable(k: &Option<String>) -> (r: Option<String>)
    ensures
        r matches Some(s) ==> usable_key(*k) == Some(s@),
        r is None ==> usable_key(*k) is None,
{
    match k {
        Some(s) => {
            proof {
                strings::blank_iff_trim_empty(s@);
            }
            if strings::trim_chars(&strings::chars_of(s.as_str())).len() == 0 {
                None
            } else {
                Some(s.clone())
            }
        },
        None => None,
    }
}

/// The key for the hosted engine.
pub fn resolve_minimax_api_key(
    explicit: &Option<String>,
    prefixed: &Option<String>,
    plain: &Option<String>,
) -> (r: Option<String>)
    ensures
        r matches Some(s) ==> chosen_key(*explicit, *prefixed, *plain) == Some(s@),
        r is None ==> chosen_key(*explicit, *prefixed, *plain) is None,
{
    if let Some(k) = usable(explicit) {
        return Some(k);
    }
    if let Some(k) = usable(prefixed) {
        return Some(k);
    }
    usable(plain)
}

/// What stands at the path of a model.
#[derive(Clone, Copy, Debug, PartialEq, Eq, Structural)]
pub enum PathState {
    Missing,
    Unreadable,
    Symlink,
    Other,
}

/// Why a path is refused.
#[derive(Clone, Copy, Debug, PartialEq, Eq, Structural)]
pub enum Refusal {
    /// It cannot be inspected.
    Unreadable,
    /// It is a symbolic link.
    Symlink,
    /// It is missing, and this ancestor of it is a symbolic link.
    Parent { index: usize },
}

/// The ancestors of `p` that have a name: its parent, the parent of that, and so on.
pub open spec fn lineage(p: Seq<u8>) -> Seq<Seq<u8>>
    decreases p.len(),
{
    match unix_path::parent(p) {
        Some(q) => if 0 < q.len() < p.len() {
            seq![q] + lineage(q)
        } else {
            seq![]
        },
        None => seq![],
    }
}

/// The ancestors to inspect before [`refuse_if_symlink`] can decide about a missing path.
pub fn probe_lineage(path: &UnixPath) -> (r: Vec<UnixPath>)
    ensures
        unix_path::path_views(r@) == lineage(path@),
{
    let mut out: Vec<UnixPath> = Vec::new();
    let mut current: UnixPath = path.clone();
    assert(unix_path::path_views(out@) + lineage(current@) =~= lineage(path@));
    loop
        invariant_except_break
            unix_path::path_views(out@) + lineage(current@) == lineage(path@),
        ensures
            unix_path::path_views(out@) == lineage(path@),
        decreases current@.len(),
    {
        let ghost before = unix_path::path_views(out@);
        proof {
            unix_path::parent_is_shorter(current@);
        }
        match current.parent() {
            Some(q) => {
                if q.is_empty() {
                    assert(lineage(current@) =~= seq![]);
                    assert(before + lineage(current@) =~= before);
                    break;
                }
                out.push(q.clone());
                assert(unix_path::path_views(out@) =~= before.push(q@));
                assert(lineage(current@) =~= seq![q@] + lineage(q@));
                assert(before.push(q@) + lineage(q@) =~= before + lineage(current@));
                current = q;
            },
            None => {
                assert(lineage(current@) =~= seq![]);
                assert(before + lineage(current@) =~= before);
                break;
            },
        }
    }
    out
}

/// The refusal of a path: one that cannot be inspected, one that is a symbolic link, and a
/// missing one below a symbolic link.
pub open spec fn refusal(state: PathState, links: Seq<bool>) -> Option<Refusal> {
    match state {
        PathState::Other => None,
        PathState::Unreadable => Some(Refusal::Unreadable),
        PathState::Symlink => Some(Refusal::Symlink),
        PathState::Missing => match strings::first_true(links) {
            Some(i) => Some(Refusal::Parent { index: i as usize }),
            None => None,
        },
    }
}

/// Whether a model may be loaded from a path. `links` tells of each path that
/// [`probe_lineage`] names whether it is a symbolic link; it counts only for a missing path.
pub fn refuse_if_symlink(state: PathState, links: &Vec<bool>) -> (r: Result<(), Refusal>)
    ensures
        r is Ok <==> refusal(state, links@) is None,
        r matches Err(e) ==> refusal(state, links@) == Some(e),
{
    match state {
        PathState::Other => Ok(()),
        PathState::Unreadable => Err(Refusal::Unreadable),
        PathState::Symlink => Err(Refusal::Symlink),
        PathState::Missing => {
            let mut i: usize = 0;
            while i < links.len()
                invariant
                    state == PathState::Missing,
                    i <= links.len(),
                    strings::first_true(links@.take(i as int)) is None,
                decreases links.len() - i,
            {
                assert(links@.take(i + 1).drop_last() =~= links@.take(i as int));
                if links[i] {
                    proof {
                        assert(strings::first_true(links@.take(i + 1)) == Some(i as int));
                        strings::first_true_extends(links@, i + 1);
                    }
                    return Err(Refusal::Parent { index: i });
                }
                i = i + 1;
            }
            assert(links@.take(i as int) =~= links@);
            Ok(())
        },
    }
}

/// The device that an engine runs on.
#[derive(Clone, Copy, Debug, PartialEq, Eq, Structural)]
pub enum Device {
    Cpu,
    Cuda,
}

/// The lowest major compute capability that the GPU kernels run on.
pub const LOWEST_CAPABILITY: i32 = 7;

/// The device for the Qwen3-ASR engine. `capability` is the major compute capability of the
/// GPU, where it could be had; `created` tells whether the GPU device could be created, and
/// counts only for a GPU that is new enough.
pub fn pick_qwen3asr_device(capability: Option<i32>, created: bool) -> (r: Device)
    ensures
        r == (if capability is Some && capability.unwrap() >= LOWEST_CAPABILITY && created {
            Device::Cuda
        } else {
            Device::Cpu
        }),
        r == Device::Cuda <==> created && (capability matches Some(major) && major >= 7),
{
    match capability {
        None => Device::Cpu,
        Some(major) => if major < LOWEST_CAPABILITY {
            Device::Cpu
        } else if created {
            Device::Cuda
        } else {
            Device::Cpu
        },
    }
}

/// Why a model was not loaded.
#[derive(Clone, Copy, Debug, PartialEq, Eq, Structural)]
pub enum LoadFault {
    /// There is no key for the hosted engine.
    NoKey,
    /// The hosted engine does not accept its configuration.
    HostedConfig,
    /// The hosted engine could not be set up.
    HostedEngine,
    /// The model source could not be built.
    Source,
    /// The model identifier does not parse.
    InvalidId,
    /// The model could not be resolved.
    Resolve,
    /// The model belongs to another engine family.
    FamilyMismatch,
    /// The model names no file.
    NoFile,
    /// The resolved path was refused.
    Refused(Refusal),
    /// The engine could not load the model.
    Engine,
    /// There is no engine for the family.
    NoAdapter,
}

/// Where loading a model stands.
#[derive(Clone, Copy, Debug, PartialEq, Eq, Structural)]
pub enum LoadPhase {
    /// Set up the hosted engine.
    Hosted,
    /// Build the model source.
    Source,
    /// Resolve the model identifier.
    Resolve,
    /// Inspect the resolved path for symbolic links.
    Inspect,
    /// Find out about the GPU.
    Probe,
    /// Load the engine, on this device where the engine lets it be chosen.
    Load(Device),
    /// The engine is loaded.
    Done,
    Failed(LoadFault),
}

/// What came of an operation.
#[derive(Debug)]
pub enum LoadEvent {
    HostedReady { endpoint: String, model: String },
    HostedConfigFailed,
    HostedEngineFailed,
    SourceReady,
    SourceFailed,
    /// The model was resolved: its family, where it is known, its directory, and the file in
    /// it, where the identifier names one.
    Resolved { family: Option<EngineFamily>, dir: UnixPath, entry: Option<UnixPath> },
    ResolveFailed,
    Inspected(Result<(), Refusal>),
    Probed { capability: Option<i32>, created: bool },
    EngineLoaded,
    EngineFailed,
}

/// A model that is being loaded.
#[derive(Debug)]
pub struct BridgeTranscriber {
    model_id: String,
    model_kind: EngineFamily,
    phase: LoadPhase,
    /// What the engine is loaded from.
    target: UnixPath,
    /// What the status display shows of it.
    resolved_path: String,
}

/// The values of a [`BridgeTranscriber`].
#[verifier::ext_equal]
pub struct LoadView {
    pub model_id: Seq<char>,
    pub model_kind: EngineFamily,
    pub phase: LoadPhase,
    pub target: Seq<u8>,
    pub resolved_path: Seq<char>,
}

impl View for BridgeTranscriber {
    type V = LoadView;

    closed spec fn view(&self) -> LoadView {
        LoadView {
            model_id: self.model_id@,
            model_kind: self.model_kind,
            phase: self.phase,
            target: self.target@,
            resolved_path: self.resolved_path@,
        }
    }
}

/// Where loading goes on after the identifier was taken apart, or could not be.
pub fn phase_after_parse(parsed: &Result<ParsedId, String>) -> (r: LoadPhase)
    ensures
        r == (if *parsed is Ok {
            LoadPhase::Resolve
        } else {
            LoadPhase::Failed(LoadFault::InvalidId)
        }),
{
    match parsed {
        Ok(_) => LoadPhase::Resolve,
        Err(_) => LoadPhase::Failed(LoadFault::InvalidId),
    }
}

/// What is said of an identifier that could not be taken apart, from its quoted form and the
/// text of the error.
pub fn invalid_id_message(quoted_id: &str, why: &str) -> (r: String)
    ensures
        r@ == "voxora: invalid model id "@ + quoted_id@ + ": "@ + why@,
{
    let mut out: String = "voxora: invalid model id ".to_owned();
    out.append(quoted_id);
    out.append(": ");
    out.append(why);
    out
}

/// What the status display shows of the hosted engine.
pub open spec fn hosted_path(endpoint: Seq<char>, model: Seq<char>) -> Seq<char> {
    "hosted://"@ + endpoint + "/v1/speech_to_text (model: "@ + model + ")"@
}

impl LoadView {
    /// Where loading starts. The hosted engine needs a key and no model source.
    pub open spec fn begin(model_id: Seq<char>, model_kind: EngineFamily, has_key: bool) -> LoadView {
        LoadView {
            model_id,
            model_kind,
            phase: if model_kind == EngineFamily::MiniMax {
                if has_key {
                    LoadPhase::Hosted
                } else {
                    LoadPhase::Failed(LoadFault::NoKey)
                }
            } else {
                LoadPhase::Source
            },
            target: seq![],
            resolved_path: seq![],
        }
    }

    /// The same model in another phase.
    pub open spec fn at(self, phase: LoadPhase) -> LoadView {
        LoadView { phase, ..self }
    }

    /// The model was resolved.
    pub open spec fn resolved(
        self,
        family: Option<EngineFamily>,
        dir: Seq<u8>,
        entry: Option<Seq<u8>>,
    ) -> LoadView {
        if family != Some(self.model_kind) {
            self.at(LoadPhase::Failed(LoadFault::FamilyMismatch))
        } else {
            match self.model_kind {
                EngineFamily::Whisper => match entry {
                    Some(file) => LoadView { target: file, phase: LoadPhase::Inspect, ..self },
                    None => self.at(LoadPhase::Failed(LoadFault::NoFile)),
                },
                EngineFamily::Qwen3Asr => LoadView {
                    target: dir,
                    phase: LoadPhase::Inspect,
                    ..self
                },
                EngineFamily::MiniMax => self.at(LoadPhase::Failed(LoadFault::NoAdapter)),
            }
        }
    }

    /// What an event makes of it; an event that does not belong to the phase changes nothing.
    pub open spec fn next(self, event: LoadEvent) -> LoadView {
        match (self.phase, event) {
            (LoadPhase::Hosted, LoadEvent::HostedReady { endpoint, model }) => LoadView {
                phase: LoadPhase::Done,
                resolved_path: hosted_path(endpoint@, model@),
                ..self
            },
            (LoadPhase::Hosted, LoadEvent::HostedConfigFailed) => self.at(
                LoadPhase::Failed(LoadFault::HostedConfig),
            ),
            (LoadPhase::Hosted, LoadEvent::HostedEngineFailed) => self.at(
                LoadPhase::Failed(LoadFault::HostedEngine),
            ),
            (LoadPhase::Source, LoadEvent::SourceFailed) => self.at(
                LoadPhase::Failed(LoadFault::Source),
            ),
            (LoadPhase::Source, LoadEvent::SourceReady) => if registry_parse(self.model_id) is Ok {
                self.at(LoadPhase::Resolve)
            } else {
                self.at(LoadPhase::Failed(LoadFault::InvalidId))
            },
            (LoadPhase::Resolve, LoadEvent::ResolveFailed) => self.at(
                LoadPhase::Failed(LoadFault::Resolve),
            ),
            (LoadPhase::Resolve, LoadEvent::Resolved { family, dir, entry }) => self.resolved(
                family,
                dir@,
                match entry {
                    Some(e) => Some(e@),
                    None => None,
                },
            ),
            (LoadPhase::Inspect, LoadEvent::Inspected(Err(refusal))) => self.at(
                LoadPhase::Failed(LoadFault::Refused(refusal)),
            ),
            (LoadPhase::Inspect, LoadEvent::Inspected(Ok(_))) => if self.model_kind
                == EngineFamily::Qwen3Asr {
                self.at(LoadPhase::Probe)
            } else {
                self.at(LoadPhase::Load(Device::Cuda))
            },
            (LoadPhase::Probe, LoadEvent::Probed { capability, created }) => self.at(
                LoadPhase::Load(
                    if capability is Some && capability.unwrap() >= LOWEST_CAPABILITY && created {
                        Device::Cuda
                    } else {
                        Device::Cpu
                    },
                ),
            ),
            (LoadPhase::Load(_), LoadEvent::EngineLoaded) => LoadView {
                phase: LoadPhase::Done,
                resolved_path: unix_path::shown(self.target),
                ..self
            },
            (LoadPhase::Load(_), LoadEvent::EngineFailed) => self.at(
                LoadPhase::Failed(LoadFault::Engine),
            ),
            _ => self,
        }
    }
}

impl BridgeTranscriber {
    /// Starts loading a model. `key` is the key for the hosted engine; it counts for that
    /// engine only, and not when it is blank.
    pub fn from_id(model_id: &str, model_kind: EngineFamily, key: &Option<String>) -> (r:
        BridgeTranscriber)
        ensures
            r@ == LoadView::begin(model_id@, model_kind, usable_key(*key) is Some),
    {
        let phase: LoadPhase = match model_kind {
            EngineFamily::MiniMax => match usable(key) {
                Some(_) => LoadPhase::Hosted,
                None => LoadPhase::Failed(LoadFault::NoKey),
            },
            _ => LoadPhase::Source,
        };
        let bytes: Vec<u8> = Vec::new();
        let r = BridgeTranscriber {
            model_id: model_id.to_owned(),
            model_kind,
            phase,
            target: UnixPath { bytes },
            resolved_path: String::new(),
        };
        assert(r@ =~= LoadView::begin(model_id@, model_kind, usable_key(*key) is Some));
        r
    }

    /// Where loading stands.
    pub fn phase(&self) -> (r: LoadPhase)
        ensures
            r == self@.phase,
    {
        self.phase
    }

    /// What the engine is loaded from.
    pub fn target(&self) -> (r: UnixPath)
        ensures
            r@ == self@.target,
    {
        self.target.clone()
    }

    /// What the status display shows of the loaded model.
    pub fn resolved_path(&self) -> (r: &str)
        ensures
            r@ == self@.resolved_path,
    {
        self.resolved_path.as_str()
    }

    /// The identifier of the model.
    pub fn model_id(&self) -> (r: &str)
        ensures
            r@ == self@.model_id,
    {
        self.model_id.as_str()
    }

    /// The engine family of the model.
    pub fn model_kind(&self) -> (r: EngineFamily)
        ensures
            r == self@.model_kind,
    {
        self.model_kind
    }

    fn resolved(&mut self, family: &Option<EngineFamily>, dir: &UnixPath, entry: &Option<UnixPath>)
        ensures
            final(self)@ == old(self)@.resolved(
                *family,
                dir@,
                match *entry {
                    Some(e) => Some(e@),
                    None => None,
                },
            ),
            old(self)@.model_kind == EngineFamily::Qwen3Asr && *family == Some(
                EngineFamily::Qwen3Asr,
            ) ==> final(self)@.phase == LoadPhase::Inspect && final(self)@.target == dir@,
            old(self)@.model_kind == EngineFamily::Whisper && *family == Some(
                EngineFamily::Whisper,
            ) ==> match *entry {
                Some(e) => final(self)@.phase == LoadPhase::Inspect && final(self)@.target == e@,
                None => final(self)@.phase == LoadPhase::Failed(LoadFault::NoFile),
            },
    {
        let same: bool = match family {
            Some(f) => *f == self.model_kind,
            None => false,
        };
        if !same {
            self.phase = LoadPhase::Failed(LoadFault::FamilyMismatch);
            return;
        }
        match self.model_kind {
            EngineFamily::Whisper => match entry {
                Some(file) => {
                    self.target = file.clone();
                    self.phase = LoadPhase::Inspect;
                },
                None => {
                    self.phase = LoadPhase::Failed(LoadFault::NoFile);
                },
            },
            EngineFamily::Qwen3Asr => {
                self.target = dir.clone();
                self.phase = LoadPhase::Inspect;
            },
            EngineFamily::MiniMax => {
                self.phase = LoadPhase::Failed(LoadFault::NoAdapter);
            },
        }
    }

    /// Goes on with what came of the operation that the phase asked for.
    pub fn step(&mut self, event: &LoadEvent)
        ensures
            final(self)@ == old(self)@.next(*event),
    {
        match (self.phase, event) {
            (LoadPhase::Hosted, LoadEvent::HostedReady { endpoint, model }) => {
                let mut out: String = "hosted://".to_owned();
                out.append(endpoint.as_str());
                out.append("/v1/speech_to_text (model: ");
                out.append(model.as_str());
                out.append(")");
                self.resolved_path = out;
                self.phase = LoadPhase::Done;
            },
            (LoadPhase::Hosted, LoadEvent::HostedConfigFailed) => {
                self.phase = LoadPhase::Failed(LoadFault::HostedConfig);
            },
            (LoadPhase::Hosted, LoadEvent::HostedEngineFailed) => {
                self.phase = LoadPhase::Failed(LoadFault::HostedEngine);
            },
            (LoadPhase::Source, LoadEvent::SourceFailed) => {
                self.phase = LoadPhase::Failed(LoadFault::Source);
            },
            (LoadPhase::Source, LoadEvent::SourceReady) => {
                self.phase = phase_after_parse(&parse_id(self.model_id.as_str()));
            },
            (LoadPhase::Resolve, LoadEvent::ResolveFailed) => {
                self.phase = LoadPhase::Failed(LoadFault::Resolve);
            },
            (LoadPhase::Resolve, LoadEvent::Resolved { family, dir, entry }) => {
                self.resolved(family, dir, entry);
            },
            (LoadPhase::Inspect, LoadEvent::Inspected(result)) => match result {
                Err(refusal) => {
                    self.phase = LoadPhase::Failed(LoadFault::Refused(*refusal));
                },
                Ok(_) => {
                    self.phase = match self.model_kind {
                        EngineFamily::Qwen3Asr => LoadPhase::Probe,
                        _ => LoadPhase::Load(Device::Cuda),
                    };
                },
            },
            (LoadPhase::Probe, LoadEvent::Probed { capability, created }) => {
                self.phase = LoadPhase::Load(pick_qwen3asr_device(*capability, *created));
            },
            (LoadPhase::Load(_), LoadEvent::EngineLoaded) => {
                self.resolved_path = self.target.to_text();
                self.phase = LoadPhase::Done;
            },
            (LoadPhase::Load(_), LoadEvent::EngineFailed) => {
                self.phase = LoadPhase::Failed(LoadFault::Engine);
            },
            _ => {},
        }
    }

    /// The language of the engine for an ISO 639-1 code.
    pub fn map_language(&self, iso: &str) -> (r: Option<String>)
        ensures
            r matches Some(s) ==> language_of(self@.model_kind, iso@) == Some(s@),
            r is None ==> language_of(self@.model_kind, iso@) is None,
    {
        match self.model_kind {
            EngineFamily::Whisper | EngineFamily::MiniMax => Some(
                strings::string_of(&strings::lower_chars(&strings::chars_of(iso))),
            ),
            EngineFamily::Qwen3Asr => iso_to_qwen_name(iso),
        }
    }

    /// The language to hand to the engine, or what is said of one that it does not speak.
    pub fn transcribe_language(&self, language: Option<&str>) -> (r: Result<String, String>)
        ensures
            r matches Ok(s) ==> requested_language(self@.model_kind, language) == Some(s@),
            r matches Err(m) ==> requested_language(self@.model_kind, language) is None && m@
                == "language code "@ + strings::debug_text(language.unwrap()@)
                + " is not supported by "@ + self@.model_kind.name()
                + "; see `voxora_bridge::known_languages` for the accepted set"@,
    {
        match language {
            Some(iso) => match self.map_language(iso) {
                Some(s) => Ok(s),
                None => {
                    let mut out: String = "language code ".to_owned();
                    out.append(strings::quoted(iso).as_str());
                    out.append(" is not supported by ");
                    out.append(self.model_kind.as_config().as_str());
                    out.append("; see `voxora_bridge::known_languages` for the accepted set");
                    Err(out)
                },
            },
            None => match self.model_kind {
                EngineFamily::MiniMax => Ok(String::new()),
                _ => Ok("auto".to_owned()),
            },
        }
    }

    /// The message for a model that was not loaded. `detail` is the text of the operation that
    /// failed; for a model of another family, it is the name of that family.
    pub fn failure_message(&self, fault: LoadFault, detail: &str) -> (r: String)
        ensures
            r@ == fault_text(self@, fault, detail@),
    {
        match fault {
            LoadFault::NoKey =>
                "MINIMAX_API_KEY not set; export VOXORA_MINIMAX_API_KEY or MINIMAX_API_KEY in the telora-daemon environment, or add `minimax_api_key = \"...\"` to telora.toml".to_owned(),
            LoadFault::HostedConfig => strings::cat("voxora-minimax: ", detail),
            LoadFault::HostedEngine => strings::cat("voxora: ", detail),
            LoadFault::Source => strings::cat("failed to build HuggingFaceSource: ", detail),
            LoadFault::InvalidId => {
                let why: String = match parse_id(self.model_id.as_str()) {
                    Ok(_) => String::new(),
                    Err(e) => e,
                };
                assert(why@ =~= parse_error(self@.model_id));
                let id: String = strings::quoted(self.model_id.as_str());
                invalid_id_message(id.as_str(), why.as_str())
            },
            LoadFault::Resolve => strings::cat("voxora: ", detail),
            LoadFault::FamilyMismatch => {
                let mut out: String = "model_kind ".to_owned();
                out.append(self.model_kind.as_config().as_str());
                out.append(" does not match model_id ");
                out.append(strings::quoted(self.model_id.as_str()).as_str());
                out.append(" (registry resolved to ");
                out.append(detail);
                out.append("); fix your telora.toml");
                out
            },
            LoadFault::NoFile => {
                let mut out: String = "whisper model_id ".to_owned();
                out.append(strings::quoted(self.model_id.as_str()).as_str());
                out.append(
                    " resolved to a directory but no specific .bin file; use the 3-segment form ggerganov/whisper.cpp/ggml-<variant>.bin",
                );
                out
            },
            LoadFault::Refused(refusal) => {
                let path: String = self.target.quoted();
                match refusal {
                    Refusal::Symlink => {
                        let mut out: String = "refusing to load model from symlink ".to_owned();
                        out.append(path.as_str());
                        out.append("; the voxora cache must contain a regular file");
                        out
                    },
                    Refusal::Unreadable => {
                        let mut out: String = "refusing to load model from ".to_owned();
                        out.append(path.as_str());
                        out.append(": cannot stat (");
                        out.append(detail);
                        out.append("); the voxora cache must be readable");
                        out
                    },
                    Refusal::Parent { index } => {
                        let above_target: Vec<UnixPath> = probe_lineage(&self.target);
                        assert(unix_path::path_views(above_target@).len()
                            == above_target.len());
                        let above: String = if index < above_target.len() {
                            assert(unix_path::path_views(above_target@)[index as int]
                                == above_target@[index as int]@);
                            above_target[index].quoted()
                        } else {
                            String::new()
                        };
                        let mut out: String = "refusing to load model: parent ".to_owned();
                        out.append(above.as_str());
                        out.append(" of ");
                        out.append(path.as_str());
                        out.append(
                            " is a symlink; the voxora cache must contain a regular directory",
                        );
                        assert(above@ =~= parent_quoted(self@.target, index));
                        out
                    },
                }
            },
            LoadFault::Engine => match self.model_kind {
                EngineFamily::Whisper => {
                    let mut out: String = "failed to load Whisper model from ".to_owned();
                    out.append(self.target.to_text().as_str());
                    out.append(": ");
                    out.append(detail);
                    out
                },
                _ => {
                    let mut out: String = "failed to load Qwen3-ASR engine for ".to_owned();
                    out.append(strings::quoted(self.model_id.as_str()).as_str());
                    out.append(": ");
                    out.append(detail);
                    out
                },
            },
            LoadFault::NoAdapter => {
                let kind: &str = match self.model_kind {
                    EngineFamily::Whisper => "Whisper",
                    EngineFamily::Qwen3Asr => "Qwen3Asr",
                    EngineFamily::MiniMax => "MiniMax",
                };
                let mut out: String = "model_kind ".to_owned();
                out.append(kind);
                out.append(
                    " has no voxora engine adapter wired up in telora; current set: Whisper, Qwen3Asr, MiniMax",
                );
                out
            },
        }
    }
}

impl BridgeTranscriber {
    /// The message for a model that was not loaded, without the text of the operation that
    /// failed where that only explains it.
    pub fn failure_summary(&self, fault: LoadFault, detail: &str) -> (r: String)
        ensures
            r@ == fault_summary(self@, fault, detail@),
    {
        match fault {
            LoadFault::Source => "failed to build HuggingFaceSource".to_owned(),
            LoadFault::Engine => match self.model_kind {
                EngineFamily::Whisper => strings::cat(
                    "failed to load Whisper model from ",
                    self.target.to_text().as_str(),
                ),
                _ => strings::cat(
                    "failed to load Qwen3-ASR engine for ",
                    strings::quoted(self.model_id.as_str()).as_str(),
                ),
            },
            _ => self.failure_message(fault, detail),
        }
    }
}

/// What is said of a model that was not loaded, in short.
pub open spec fn fault_summary(v: LoadView, fault: LoadFault, detail: Seq<char>) -> Seq<char> {
    match fault {
        LoadFault::Source => "failed to build HuggingFaceSource"@,
        LoadFault::Engine => if v.model_kind == EngineFamily::Whisper {
            "failed to load Whisper model from "@ + unix_path::shown(v.target)
        } else {
            "failed to load Qwen3-ASR engine for "@ + strings::debug_text(v.model_id)
        },
        _ => fault_text(v, fault, detail),
    }
}

/// The text of the error for an identifier that does not parse.
pub open spec fn parse_error(id: Seq<char>) -> Seq<char> {
    match registry_parse(id) {
        Ok(_) => seq![],
        Err(e) => e,
    }
}

/// An ancestor of a path as it appears in messages.
pub open spec fn parent_quoted(target: Seq<u8>, index: usize) -> Seq<char> {
    if index < lineage(target).len() {
        unix_path::quoted_path(lineage(target)[index as int])
    } else {
        seq![]
    }
}

/// What is said of a model that was not loaded.
pub open spec fn fault_text(v: LoadView, fault: LoadFault, detail: Seq<char>) -> Seq<char> {
    let id = strings::debug_text(v.model_id);
    let path = unix_path::quoted_path(v.target);
    match fault {
        LoadFault::NoKey =>
            "MINIMAX_API_KEY not set; export VOXORA_MINIMAX_API_KEY or MINIMAX_API_KEY in the telora-daemon environment, or add `minimax_api_key = \"...\"` to telora.toml"@,
        LoadFault::HostedConfig => "voxora-minimax: "@ + detail,
        LoadFault::HostedEngine => "voxora: "@ + detail,
        LoadFault::Source => "failed to build HuggingFaceSource: "@ + detail,
        LoadFault::InvalidId => "voxora: invalid model id "@ + id + ": "@ + parse_error(v.model_id),
        LoadFault::Resolve => "voxora: "@ + detail,
        LoadFault::FamilyMismatch => "model_kind "@ + v.model_kind.name()
            + " does not match model_id "@ + id + " (registry resolved to "@ + detail
            + "); fix your telora.toml"@,
        LoadFault::NoFile => "whisper model_id "@ + id
            + " resolved to a directory but no specific .bin file; use the 3-segment form ggerganov/whisper.cpp/ggml-<variant>.bin"@,
        LoadFault::Refused(Refusal::Symlink) => "refusing to load model from symlink "@ + path
            + "; the voxora cache must contain a regular file"@,
        LoadFault::Refused(Refusal::Unreadable) => "refusing to load model from "@ + path
            + ": cannot stat ("@ + detail + "); the voxora cache must be readable"@,
        LoadFault::Refused(Refusal::Parent { index }) => "refusing to load model: parent "@
            + parent_quoted(v.target, index) + " of "@ + path
            + " is a symlink; the voxora cache must contain a regular directory"@,
        LoadFault::Engine => if v.model_kind == EngineFamily::Whisper {
            "failed to load Whisper model from "@ + unix_path::shown(v.target) + ": "@ + detail
        } else {
            "failed to load Qwen3-ASR engine for "@ + id + ": "@ + detail
        },
        LoadFault::NoAdapter => "model_kind "@ + (match v.model_kind {
            EngineFamily::Whisper => "Whisper"@,
            EngineFamily::Qwen3Asr => "Qwen3Asr"@,
            EngineFamily::MiniMax => "MiniMax"@,
        })
            + " has no voxora engine adapter wired up in telora; current set: Whisper, Qwen3Asr, MiniMax"@,
    }
}

/// The English name of a language in lower case, for its code in lower case.
pub open spec fn qwen_name(code: Seq<char>) -> Option<Seq<char>> {
    if code == "en"@ {
        Some("english"@)
    } else if code == "zh"@ || code == "zh-cn"@ || code == "zh-hans"@ {
        Some("chinese"@)
    } else if code == "yue"@ || code == "zh-yue"@ {
        Some("cantonese"@)
    } else if code == "ar"@ {
        Some("arabic"@)
    } else if code == "de"@ {
        Some("german"@)
    } else if code == "fr"@ {
        Some("french"@)
    } else if code == "es"@ {
        Some("spanish"@)
    } else if code == "pt"@ {
        Some("portuguese"@)
    } else if code == "id"@ {
        Some("indonesian"@)
    } else if code == "it"@ {
        Some("italian"@)
    } else if code == "ko"@ {
        Some("korean"@)
    } else if code == "ru"@ {
        Some("russian"@)
    } else if code == "th"@ {
        Some("thai"@)
    } else if code == "vi"@ {
        Some("vietnamese"@)
    } else if code == "ja"@ {
        Some("japanese"@)
    } else if code == "hi"@ {
        Some("hindi"@)
    } else if code == "ms"@ {
        Some("malay"@)
    } else if code == "tr"@ {
        Some("turkish"@)
    } else if code == "nl"@ {
        Some("dutch"@)
    } else if code == "sv"@ {
        Some("swedish"@)
    } else {
        None
    }
}

/// The language of an engine for an ISO 639-1 code: Qwen3-ASR wants the English name, the
/// others want the code in lower case.
pub open spec fn language_of(kind: EngineFamily, iso: Seq<char>) -> Option<Seq<char>> {
    match kind {
        EngineFamily::Qwen3Asr => qwen_name(strings::ascii_lowercase(iso)),
        _ => Some(strings::ascii_lowercase(iso)),
    }
}

/// The language to hand to an engine; without one it is left to the engine, which MiniMax is
/// told by an empty text and the others by `auto`.
pub open spec fn requested_language(kind: EngineFamily, language: Option<&str>) -> Option<
    Seq<char>,
> {
    match language {
        Some(iso) => language_of(kind, iso@),
        None => match kind {
            EngineFamily::MiniMax => Some(seq![]),
            _ => Some("auto"@),
        },
    }
}

/// Maps an ISO 639-1 code to the English name that Qwen3-ASR takes; `None` for a code outside
/// the closed list.
pub fn iso_to_qwen_name(iso: &str) -> (r: Option<String>)
    ensures
        r matches Some(s) ==> qwen_name(strings::ascii_lowercase(iso@)) == Some(s@),
        r is None ==> qwen_name(strings::ascii_lowercase(iso@)) is None,
{
    let code: Vec<char> = strings::lower_chars(&strings::chars_of(iso));
    let name: &str = if strings::chars_are(&code, "en") {
        "english"
    } else if strings::chars_are(&code, "zh") || strings::chars_are(&code, "zh-cn")
        || strings::chars_are(&code, "zh-hans") {
        "chinese"
    } else if strings::chars_are(&code, "yue") || strings::chars_are(&code, "zh-yue") {
        "cantonese"
    } else if strings::chars_are(&code, "ar") {
        "arabic"
    } else if strings::chars_are(&code, "de") {
        "german"
    } else if strings::chars_are(&code, "fr") {
        "french"
    } else if strings::chars_are(&code, "es") {
        "spanish"
    } else if strings::chars_are(&code, "pt") {
        "portuguese"
    } else if strings::chars_are(&code, "id") {
        "indonesian"
    } else if strings::chars_are(&code, "it") {
        "italian"
    } else if strings::chars_are(&code, "ko") {
        "korean"
    } else if strings::chars_are(&code, "ru") {
        "russian"
    } else if strings::chars_are(&code, "th") {
        "thai"
    } else if strings::chars_are(&code, "vi") {
        "vietnamese"
    } else if strings::chars_are(&code, "ja") {
        "japanese"
    } else if strings::chars_are(&code, "hi") {
        "hindi"
    } else if strings::chars_are(&code, "ms") {
        "malay"
    } else if strings::chars_are(&code, "tr") {
        "turkish"
    } else if strings::chars_are(&code, "nl") {
        "dutch"
    } else if strings::chars_are(&code, "sv") {
        "swedish"
    } else {
        return None;
    };
    Some(name.to_owned())
}

/// What is kept of the text that an engine gives.
pub fn finish_transcript(text: &str) -> (r: String)
    ensures
        r@ == strings::trim(text@),
{
    strings::trimmed(text)
}

/// Stands in for an engine while another one is being loaded.
#[derive(Clone, Copy, Debug, PartialEq, Eq, Structural)]
pub struct NoopTranscriber;

impl NoopTranscriber {
    /// Transcribes nothing, whatever was recorded.
    pub fn transcribe(&self, language: Option<&str>) -> (r: String)
        ensures
            r@ == Seq::<char>::empty(),
    {
        String::new()
    }
}

/// `states` is a run of loading a model, driven by `events`.
pub open spec fn is_run(start: LoadView, states: Seq<LoadView>, events: Seq<LoadEvent>) -> bool {
    &&& states.len() == events.len() + 1
    &&& states[0] == start
    &&& forall|i: int|
        0 <= i < events.len() ==> states[i + 1] == states[i].next(#[trigger] events[i])
}

/// The model was resolved, to the family that was configured.
pub open spec fn family_confirmed(kind: EngineFamily, event: LoadEvent) -> bool {
    event matches LoadEvent::Resolved { family, .. } && family == Some(kind)
}

/// The path was found free of symbolic links.
pub open spec fn path_cleared(event: LoadEvent) -> bool {
    event matches LoadEvent::Inspected(result) && result is Ok
}

/// The phases that come after the inspection of the path.
pub open spec fn past_inspection(phase: LoadPhase) -> bool {
    phase is Probe || phase is Load || phase is Done
}

proof fn shorter_run(start: LoadView, states: Seq<LoadView>, events: Seq<LoadEvent>)
    requires
        is_run(start, states, events),
        events.len() > 0,
    ensures
        is_run(start, states.drop_last(), events.drop_last()),
        states.drop_last().last() == states[events.len() - 1],
        states.last() == states[events.len() - 1].next(events.last()),
{
    assert forall|i: int| 0 <= i < events.drop_last().len() implies states.drop_last()[i + 1]
        == states.drop_last()[i].next(#[trigger] events.drop_last()[i]) by {
        assert(events.drop_last()[i] == events[i]);
    }
    assert(events.last() == events[events.len() - 1]);
}

proof fn kind_stays(start: LoadView, states: Seq<LoadView>, events: Seq<LoadEvent>)
    requires
        is_run(start, states, events),
    ensures
        states.last().model_kind == start.model_kind,
        states.last().model_id == start.model_id,
        start.phase == LoadPhase::Source ==> states.last().phase != LoadPhase::Hosted,
    decreases events.len(),
{
    if events.len() > 0 {
        shorter_run(start, states, events);
        kind_stays(start, states.drop_last(), events.drop_last());
    }
}

/// No engine of a local family is loaded before the model was resolved to the family that was
/// configured and its path was found free of symbolic links.
pub proof fn local_models_are_checked_first(
    model_id: Seq<char>,
    kind: EngineFamily,
    states: Seq<LoadView>,
    events: Seq<LoadEvent>,
)
    requires
        kind != EngineFamily::MiniMax,
        is_run(LoadView::begin(model_id, kind, false), states, events),
        past_inspection(states.last().phase),
    ensures
        exists|i: int|
            0 <= i < events.len() && path_cleared(#[trigger] events[i]),
        exists|i: int| 0 <= i < events.len() && family_confirmed(kind, #[trigger] events[i]),
        registry_parse(model_id) is Ok,
    decreases events.len(),
{
    let start = LoadView::begin(model_id, kind, false);
    assert(events.len() > 0);
    shorter_run(start, states, events);
    let n = events.len() - 1;
    let head = states.drop_last();
    let ev = events.drop_last();
    kind_stays(start, head, ev);
    if past_inspection(head.last().phase) {
        local_models_are_checked_first(model_id, kind, head, ev);
        let a = choose|i: int|
            0 <= i < ev.len() && path_cleared(#[trigger] ev[i]);
        assert(events[a] == ev[a]);
        let b = choose|i: int| 0 <= i < ev.len() && family_confirmed(kind, #[trigger] ev[i]);
        assert(events[b] == ev[b]);
    } else {
        assert(head.last().phase == LoadPhase::Inspect);
        assert(path_cleared(events[n]));
        family_before_inspection(model_id, kind, head, ev);
        let b = choose|i: int| 0 <= i < ev.len() && family_confirmed(kind, #[trigger] ev[i]);
        assert(events[b] == ev[b]);
    }
}

proof fn family_before_inspection(
    model_id: Seq<char>,
    kind: EngineFamily,
    states: Seq<LoadView>,
    events: Seq<LoadEvent>,
)
    requires
        kind != EngineFamily::MiniMax,
        is_run(LoadView::begin(model_id, kind, false), states, events),
        states.last().phase == LoadPhase::Inspect || states.last().phase == LoadPhase::Resolve,
    ensures
        states.last().phase == LoadPhase::Inspect ==> exists|i: int|
            0 <= i < events.len() && family_confirmed(kind, #[trigger] events[i]),
        registry_parse(model_id) is Ok,
    decreases events.len(),
{
    let start = LoadView::begin(model_id, kind, false);
    assert(events.len() > 0);
    shorter_run(start, states, events);
    let head = states.drop_last();
    let ev = events.drop_last();
    kind_stays(start, head, ev);
    if head.last().phase == LoadPhase::Inspect || head.last().phase == LoadPhase::Resolve {
        family_before_inspection(model_id, kind, head, ev);
        if head.last().phase == LoadPhase::Inspect {
            let b = choose|i: int| 0 <= i < ev.len() && family_confirmed(kind, #[trigger] ev[i]);
            assert(events[b] == ev[b]);
        } else if states.last().phase == LoadPhase::Inspect {
            assert(family_confirmed(kind, events[events.len() - 1]));
        }
    } else {
        assert(head.last().phase == LoadPhase::Source);
    }
}

/// The engine of a local family is loaded from what the model was resolved to: its file for
/// Whisper, its directory for Qwen3-ASR. That path is also what was inspected, and what the
/// status display shows of the loaded model.
pub proof fn engines_load_what_was_resolved(
    model_id: Seq<char>,
    kind: EngineFamily,
    has_key: bool,
    states: Seq<LoadView>,
    events: Seq<LoadEvent>,
)
    requires
        kind != EngineFamily::MiniMax,
        is_run(LoadView::begin(model_id, kind, has_key), states, events),
        ({
            let phase = states.last().phase;
            phase is Inspect || phase is Probe || phase is Load || phase is Done || (
            phase matches LoadPhase::Failed(fault) && (fault is Refused || fault is Engine))
        }),
    ensures
        exists|i: int|
            0 <= i < events.len() && states[i].phase == LoadPhase::Resolve && resolves_to(
                kind,
                #[trigger] events[i],
                states.last().target,
            ),
        states.last().phase is Done ==> states.last().resolved_path == unix_path::shown(
            states.last().target,
        ),
    decreases events.len(),
{
    let start = LoadView::begin(model_id, kind, has_key);
    assert(events.len() > 0);
    shorter_run(start, states, events);
    let n = events.len() - 1;
    let head = states.drop_last();
    let ev = events.drop_last();
    kind_stays(start, head, ev);
    if head.last().phase == LoadPhase::Resolve {
        assert(resolves_to(kind, events[n], states.last().target));
    } else {
        engines_load_what_was_resolved(model_id, kind, has_key, head, ev);
        let i = choose|i: int|
            0 <= i < ev.len() && head[i].phase == LoadPhase::Resolve && resolves_to(
                kind,
                #[trigger] ev[i],
                head.last().target,
            );
        assert(events[i] == ev[i] && states[i] == head[i]);
    }
}

/// The event resolves a model of this family to this path: the file of a Whisper model, the
/// directory of a Qwen3-ASR model.
pub open spec fn resolves_to(kind: EngineFamily, event: LoadEvent, target: Seq<u8>) -> bool {
    event matches LoadEvent::Resolved { family, dir, entry } && family == Some(kind) && (kind
        == EngineFamily::Whisper ==> (entry matches Some(file) && target == file@)) && (kind
        == EngineFamily::Qwen3Asr ==> target == dir@)
}

/// A hosted model is loaded with a key only, and then the status display shows the endpoint
/// and the model that the engine was set up with.
pub proof fn hosted_models_need_a_key(
    model_id: Seq<char>,
    has_key: bool,
    states: Seq<LoadView>,
    events: Seq<LoadEvent>,
)
    requires
        is_run(LoadView::begin(model_id, EngineFamily::MiniMax, has_key), states, events),
    ensures
        !has_key ==> states.last().phase == LoadPhase::Failed(LoadFault::NoKey),
        has_key && events.len() == 0 ==> states.last().phase == LoadPhase::Hosted,
        states.last().phase == LoadPhase::Hosted || states.last().phase == LoadPhase::Done
            || states.last().phase is Failed,
        states.last().phase == LoadPhase::Done ==> exists|i: int|
            0 <= i < events.len() && (#[trigger] events[i] matches LoadEvent::HostedReady {
                endpoint,
                model,
            } && states.last().resolved_path == "hosted://"@ + endpoint@
                + "/v1/speech_to_text (model: "@ + model@ + ")"@),
    decreases events.len(),
{
    if events.len() > 0 {
        let start = LoadView::begin(model_id, EngineFamily::MiniMax, has_key);
        shorter_run(start, states, events);
        let n = events.len() - 1;
        let head = states.drop_last();
        let ev = events.drop_last();
        hosted_models_need_a_key(model_id, has_key, head, ev);
        if states.last().phase == LoadPhase::Done {
            if head.last().phase == LoadPhase::Done {
                let i = choose|i: int|
                    0 <= i < ev.len() && (#[trigger] ev[i] matches LoadEvent::HostedReady {
                        endpoint,
                        model,
                    } && head.last().resolved_path == "hosted://"@ + endpoint@
                        + "/v1/speech_to_text (model: "@ + model@ + ")"@);
                assert(events[i] == ev[i]);
            } else {
                assert(events[n] is HostedReady);
            }
        }
    }
}

/// An undisturbed load of a model of a local family, whose identifier parses: a Whisper model
/// is loaded right after the inspection of its file, a Qwen3-ASR model after the GPU was asked
/// for, and on the GPU exactly when that has compute capability 7 or more and could be set up.
pub proof fn undisturbed_load(
    model_id: Seq<char>,
    has_key: bool,
    dir: UnixPath,
    file: UnixPath,
    capability: Option<i32>,
    created: bool,
)
    requires
        registry_parse(model_id) is Ok,
    ensures
        ({
            let whisper = LoadView::begin(model_id, EngineFamily::Whisper, has_key).next(
                LoadEvent::SourceReady,
            ).next(
                LoadEvent::Resolved {
                    family: Some(EngineFamily::Whisper),
                    dir,
                    entry: Some(file),
                },
            );
            let qwen = LoadView::begin(model_id, EngineFamily::Qwen3Asr, has_key).next(
                LoadEvent::SourceReady,
            ).next(
                LoadEvent::Resolved { family: Some(EngineFamily::Qwen3Asr), dir, entry: None },
            );
            let probed = qwen.next(LoadEvent::Inspected(Ok(()))).next(
                LoadEvent::Probed { capability, created },
            );
            &&& whisper.phase == LoadPhase::Inspect && whisper.target == file@
            &&& qwen.phase == LoadPhase::Inspect && qwen.target == dir@
            &&& whisper.next(LoadEvent::Inspected(Ok(()))).phase is Load
            &&& qwen.next(LoadEvent::Inspected(Ok(()))).phase == LoadPhase::Probe
            &&& probed.phase == LoadPhase::Load(
                if created && (capability matches Some(major) && major >= 7) {
                    Device::Cuda
                } else {
                    Device::Cpu
                },
            )
            &&& whisper.next(LoadEvent::Inspected(Ok(()))).next(LoadEvent::EngineLoaded).phase
                == LoadPhase::Done
            &&& probed.next(LoadEvent::EngineLoaded).phase == LoadPhase::Done
        }),
{
}

/// Each operation that fails ends the load with its own fault, and a load that has ended stays
/// as it ended.
pub proof fn failed_operations_end_the_load(v: LoadView, event: LoadEvent, refusal: Refusal)
    ensures
        v.phase == LoadPhase::Hosted ==> v.next(LoadEvent::HostedConfigFailed).phase
            == LoadPhase::Failed(LoadFault::HostedConfig),
        v.phase == LoadPhase::Hosted ==> v.next(LoadEvent::HostedEngineFailed).phase
            == LoadPhase::Failed(LoadFault::HostedEngine),
        v.phase == LoadPhase::Source ==> v.next(LoadEvent::SourceFailed).phase
            == LoadPhase::Failed(LoadFault::Source),
        v.phase == LoadPhase::Source && registry_parse(v.model_id) is Err ==> v.next(
            LoadEvent::SourceReady,
        ).phase == LoadPhase::Failed(LoadFault::InvalidId),
        v.phase == LoadPhase::Resolve ==> v.next(LoadEvent::ResolveFailed).phase
            == LoadPhase::Failed(LoadFault::Resolve),
        v.phase == LoadPhase::Inspect ==> v.next(LoadEvent::Inspected(Err(refusal))).phase
            == LoadPhase::Failed(LoadFault::Refused(refusal)),
        v.phase is Load ==> v.next(LoadEvent::EngineFailed).phase == LoadPhase::Failed(
            LoadFault::Engine,
        ),
        v.phase is Failed || v.phase is Done ==> v.next(event) == v,
        v.phase is Resolve && (event matches LoadEvent::Resolved { family, .. } && family != Some(
            v.model_kind,
        )) ==> v.next(event).phase == LoadPhase::Failed(LoadFault::FamilyMismatch),
        v.phase is Resolve && v.model_kind == EngineFamily::Whisper && (
        event matches LoadEvent::Resolved { family, entry, .. } && family == Some(
            EngineFamily::Whisper,
        ) && entry is None) ==> v.next(event).phase == LoadPhase::Failed(LoadFault::NoFile),
        v.phase is Resolve && v.model_kind == EngineFamily::MiniMax && (
        event matches LoadEvent::Resolved { family, .. } && family == Some(EngineFamily::MiniMax))
            ==> v.next(event).phase == LoadPhase::Failed(LoadFault::NoAdapter),
        v.next(event).model_id == v.model_id,
        v.next(event).model_kind == v.model_kind,
{
}

/// A load goes on only with what came of the operation that its phase asked for: each other
/// event leaves it as it was.
pub proof fn other_events_change_nothing(v: LoadView, event: LoadEvent)
    requires
        match v.phase {
            LoadPhase::Hosted => !(event is HostedReady) && !(event is HostedConfigFailed) && !(
            event is HostedEngineFailed),
            LoadPhase::Source => !(event is SourceReady) && !(event is SourceFailed),
            LoadPhase::Resolve => !(event is Resolved) && !(event is ResolveFailed),
            LoadPhase::Inspect => !(event is Inspected),
            LoadPhase::Probe => !(event is Probed),
            LoadPhase::Load(_) => !(event is EngineLoaded) && !(event is EngineFailed),
            LoadPhase::Done | LoadPhase::Failed(_) => true,
        },
    ensures
        v.next(event) == v,
{
}

/// Which paths are refused: those that cannot be inspected, symbolic links, and missing ones
/// with a symbolic link among the ancestors, of which the nearest is named.
pub proof fn refused_paths(state: PathState, links: Seq<bool>)
    requires
        links.len() <= usize::MAX,
    ensures
        refusal(state, links) == Some(Refusal::Unreadable) <==> state == PathState::Unreadable,
        refusal(state, links) == Some(Refusal::Symlink) <==> state == PathState::Symlink,
        state == PathState::Other ==> refusal(state, links) is None,
        forall|i: int|
            0 <= i < links.len() && #[trigger] links[i] && (forall|j: int|
                0 <= j < i ==> !#[trigger] links[j]) && state == PathState::Missing ==> refusal(
                state,
                links,
            ) == Some(Refusal::Parent { index: i as usize }),
        state == PathState::Missing && (forall|j: int| 0 <= j < links.len() ==> !#[trigger] links[j])
            ==> refusal(state, links) is None,
{
    strings::first_true_is_first(links);
}

/// The ancestors that are inspected: the parent of the path, then the parent of that, and so
/// on, up to the last one that has a name.
pub proof fn lineage_climbs(p: Seq<u8>)
    ensures
        lineage(p).len() > 0 ==> unix_path::parent(p) == Some(lineage(p)[0]),
        lineage(p).len() == 0 ==> (unix_path::parent(p) matches Some(q) ==> q.len() == 0),
        forall|i: int|
            0 <= i < lineage(p).len() - 1 ==> unix_path::parent(#[trigger] lineage(p)[i]) == Some(
                lineage(p)[i + 1],
            ),
        lineage(p).len() > 0 ==> (unix_path::parent(lineage(p).last()) matches Some(q) ==> q.len()
            == 0),
        forall|i: int| 0 <= i < lineage(p).len() ==> #[trigger] lineage(p)[i].len() > 0,
    decreases p.len(),
{
    unix_path::parent_is_shorter(p);
    match unix_path::parent(p) {
        Some(q) => {
            if 0 < q.len() < p.len() {
                lineage_climbs(q);
                let l = lineage(p);
                let m = lineage(q);
                assert(l == seq![q] + m);
                assert forall|i: int| 0 <= i < l.len() - 1 implies unix_path::parent(
                    #[trigger] l[i],
                ) == Some(l[i + 1]) by {
                    if i > 0 {
                        assert(l[i] == m[i - 1]);
                        assert(l[i + 1] == m[i]);
                    } else {
                        assert(l[1] == m[0]);
                    }
                }
                assert forall|i: int| 0 <= i < l.len() implies #[trigger] l[i].len() > 0 by {
                    if i > 0 {
                        assert(l[i] == m[i - 1]);
                    }
                }
                if m.len() > 0 {
                    assert(l.last() == m.last());
                } else {
                    assert(l.last() == q);
                }
            }
        },
        None => {},
    }
}

/// The languages that Qwen3-ASR is told by their English names.
pub proof fn qwen_languages()
    ensures
        qwen_name("en"@) == Some("english"@),
        qwen_name("zh"@) == Some("chinese"@),
        qwen_name("zh-cn"@) == Some("chinese"@),
        qwen_name("zh-hans"@) == Some("chinese"@),
        qwen_name("yue"@) == Some("cantonese"@),
        qwen_name("zh-yue"@) == Some("cantonese"@),
        qwen_name("ar"@) == Some("arabic"@),
        qwen_name("de"@) == Some("german"@),
        qwen_name("fr"@) == Some("french"@),
        qwen_name("es"@) == Some("spanish"@),
        qwen_name("pt"@) == Some("portuguese"@),
        qwen_name("id"@) == Some("indonesian"@),
        qwen_name("it"@) == Some("italian"@),
        qwen_name("ko"@) == Some("korean"@),
        qwen_name("ru"@) == Some("russian"@),
        qwen_name("th"@) == Some("thai"@),
        qwen_name("vi"@) == Some("vietnamese"@),
        qwen_name("ja"@) == Some("japanese"@),
        qwen_name("hi"@) == Some("hindi"@),
        qwen_name("ms"@) == Some("malay"@),
        qwen_name("tr"@) == Some("turkish"@),
        qwen_name("nl"@) == Some("dutch"@),
        qwen_name("sv"@) == Some("swedish"@),
{
    reveal_strlit("en");
    reveal_strlit("zh");
    reveal_strlit("zh-cn");
    reveal_strlit("zh-hans");
    reveal_strlit("yue");
    reveal_strlit("zh-yue");
    reveal_strlit("ar");
    reveal_strlit("de");
    reveal_strlit("fr");
    reveal_strlit("es");
    reveal_strlit("pt");
    reveal_strlit("id");
    reveal_strlit("it");
    reveal_strlit("ko");
    reveal_strlit("ru");
    reveal_strlit("th");
    reveal_strlit("vi");
    reveal_strlit("ja");
    reveal_strlit("hi");
    reveal_strlit("ms");
    reveal_strlit("tr");
    reveal_strlit("nl");
    reveal_strlit("sv");
    assert("zh"@.len() == 2 && "en"@.len() == 2);
    assert("zh-cn"@.len() == 5 && "zh-hans"@.len() == 7);
    assert("yue"@.len() == 3 && "zh-yue"@.len() == 6);
    assert("en"@[0] == 'e' && "en"@[1] == 'n');
    assert("zh"@[0] == 'z' && "zh"@[1] == 'h');
    assert("ar"@[0] == 'a' && "ar"@[1] == 'r');
    assert("de"@[0] == 'd' && "de"@[1] == 'e');
    assert("fr"@[0] == 'f' && "fr"@[1] == 'r');
    assert("es"@[0] == 'e' && "es"@[1] == 's');
    assert("pt"@[0] == 'p' && "pt"@[1] == 't');
    assert("id"@[0] == 'i' && "id"@[1] == 'd');
    assert("it"@[0] == 'i' && "it"@[1] == 't');
    assert("ko"@[0] == 'k' && "ko"@[1] == 'o');
    assert("ru"@[0] == 'r' && "ru"@[1] == 'u');
    assert("th"@[0] == 't' && "th"@[1] == 'h');
    assert("vi"@[0] == 'v' && "vi"@[1] == 'i');
    assert("ja"@[0] == 'j' && "ja"@[1] == 'a');
    assert("hi"@[0] == 'h' && "hi"@[1] == 'i');
    assert("ms"@[0] == 'm' && "ms"@[1] == 's');
    assert("tr"@[0] == 't' && "tr"@[1] == 'r');
    assert("nl"@[0] == 'n' && "nl"@[1] == 'l');
    assert("sv"@[0] == 's' && "sv"@[1] == 'v');
}

/// Qwen3-ASR speaks no other language.
pub proof fn other_languages_are_refused(code: Seq<char>)
    requires
        code != "en"@,
        code != "zh"@,
        code != "zh-cn"@,
        code != "zh-hans"@,
        code != "yue"@,
        code != "zh-yue"@,
        code != "ar"@,
        code != "de"@,
        code != "fr"@,
        code != "es"@,
        code != "pt"@,
        code != "id"@,
        code != "it"@,
        code != "ko"@,
        code != "ru"@,
        code != "th"@,
        code != "vi"@,
        code != "ja"@,
        code != "hi"@,
        code != "ms"@,
        code != "tr"@,
        code != "nl"@,
        code != "sv"@,
    ensures
        qwen_name(code) is None,
{
}

/// Whisper and the hosted engine take every code, and are told it as it was given but for
/// capitals of ASCII. Without a code the hosted engine is told nothing and the others `auto`.
pub proof fn codes_are_handed_on(iso: Seq<char>, i: int)
    requires
        0 <= i < iso.len(),
    ensures
        ({
            let w = language_of(EngineFamily::Whisper, iso);
            let m = language_of(EngineFamily::MiniMax, iso);
            &&& w is Some && w == m && w->0.len() == iso.len()
            &&& if 'A' <= iso[i] <= 'Z' {
                w->0[i] as int == iso[i] as int + 32
            } else {
                w->0[i] == iso[i]
            }
        }),
        requested_language(EngineFamily::Whisper, None) == Some("auto"@),
        requested_language(EngineFamily::Qwen3Asr, None) == Some("auto"@),
        requested_language(EngineFamily::MiniMax, None) == Some(Seq::<char>::empty()),
{
}

/// The first key that is not blank counts, in this order: the explicit one, the prefixed
/// variable, the plain variable. A blank one counts as little as a missing one.
pub proof fn keys_in_order(
    explicit: String,
    prefixed: String,
    plain: String,
    a: Option<String>,
    b: Option<String>,
)
    ensures
        !strings::blank(explicit@) ==> chosen_key(Some(explicit), a, b) == Some(explicit@),
        strings::blank(explicit@) ==> chosen_key(Some(explicit), a, b) == chosen_key(None, a, b),
        !strings::blank(prefixed@) ==> chosen_key(None, Some(prefixed), b) == Some(prefixed@),
        strings::blank(prefixed@) ==> chosen_key(None, Some(prefixed), b) == chosen_key(
            None,
            None,
            b,
        ),
        !strings::blank(plain@) ==> chosen_key(None, None, Some(plain)) == Some(plain@),
        strings::blank(plain@) ==> chosen_key(None, None, Some(plain)) is None,
        chosen_key(None, None, None) is None,
{
}

/// A path that is accepted is not a symbolic link, and a missing one has none among its
/// ancestors.
pub proof fn accepted_paths_have_no_links(state: PathState, links: Seq<bool>)
    requires
        refusal(state, links) is None,
    ensures
        state != PathState::Symlink,
        state == PathState::Missing ==> forall|j: int|
            0 <= j < links.len() ==> !#[trigger] links[j],
{
    strings::first_true_is_first(links);
}

/// The case of the ASCII letters of a language code does not matter.
pub proof fn language_codes_ignore_case(kind: EngineFamily, a: Seq<char>, b: Seq<char>)
    requires
        strings::ascii_lowercase(a) == strings::ascii_lowercase(b),
    ensures
        language_of(kind, a) == language_of(kind, b),
{
}

/// The name of a family in configuration files names that family.
pub proof fn family_names_are_understood(f: EngineFamily)
    ensures
        family_of(f.name()) == Some(f),
{
    reveal_strlit("whisper");
    reveal_strlit("qwen3-asr");
    reveal_strlit("qwen3asr");
    reveal_strlit("qwen3_asr");
    reveal_strlit("minimax");
    assert(strings::ascii_lowercase("whisper"@) =~= "whisper"@);
    assert(strings::ascii_lowercase("qwen3-asr"@) =~= "qwen3-asr"@);
    assert(strings::ascii_lowercase("minimax"@) =~= "minimax"@);
    assert("whisper"@[0] != "qwen3-asr"@[0]);
    assert("minimax"@[0] != "qwen3-asr"@[0]);
    assert("minimax"@[0] != "qwen3asr"@[0]);
    assert("minimax"@[0] != "qwen3_asr"@[0]);
    assert("minimax"@[0] != "whisper"@[0]);
}

/// What is said of a hosted engine, a model source or a model identifier that failed.
pub proof fn wording_of_sources(v: LoadView, detail: Seq<char>)
    ensures
        fault_text(v, LoadFault::NoKey, detail)
            == "MINIMAX_API_KEY not set; export VOXORA_MINIMAX_API_KEY or MINIMAX_API_KEY in the telora-daemon environment, or add `minimax_api_key = \"...\"` to telora.toml"@,
        fault_text(v, LoadFault::HostedConfig, detail) == "voxora-minimax: "@ + detail,
        fault_text(v, LoadFault::HostedEngine, detail) == "voxora: "@ + detail,
        fault_text(v, LoadFault::Source, detail) == "failed to build HuggingFaceSource: "@ + detail,
        fault_summary(v, LoadFault::Source, detail) == "failed to build HuggingFaceSource"@,
        fault_text(v, LoadFault::Resolve, detail) == "voxora: "@ + detail,
        registry_parse(v.model_id) matches Err(why) ==> fault_text(v, LoadFault::InvalidId, detail)
            == "voxora: invalid model id "@ + strings::debug_text(v.model_id) + ": "@ + why,
        fault_text(v, LoadFault::FamilyMismatch, detail) == "model_kind "@ + v.model_kind.name()
            + " does not match model_id "@ + strings::debug_text(v.model_id)
            + " (registry resolved to "@ + detail + "); fix your telora.toml"@,
        fault_text(v, LoadFault::NoFile, detail) == "whisper model_id "@ + strings::debug_text(
            v.model_id,
        )
            + " resolved to a directory but no specific .bin file; use the 3-segment form ggerganov/whisper.cpp/ggml-<variant>.bin"@,
{
}

/// What is said of a path that is refused and of an engine that does not load. In short, the
/// text of the engine is left out.
pub proof fn wording_of_paths_and_engines(v: LoadView, index: usize, detail: Seq<char>)
    ensures
        ({
            let path = unix_path::quoted_path(v.target);
            &&& fault_text(v, LoadFault::Refused(Refusal::Symlink), detail)
                == "refusing to load model from symlink "@ + path
                + "; the voxora cache must contain a regular file"@
            &&& fault_text(v, LoadFault::Refused(Refusal::Unreadable), detail)
                == "refusing to load model from "@ + path + ": cannot stat ("@ + detail
                + "); the voxora cache must be readable"@
            &&& index < lineage(v.target).len() ==> fault_text(
                v,
                LoadFault::Refused(Refusal::Parent { index }),
                detail,
            ) == "refusing to load model: parent "@ + unix_path::quoted_path(
                lineage(v.target)[index as int],
            ) + " of "@ + path + " is a symlink; the voxora cache must contain a regular directory"@
        }),
        v.model_kind == EngineFamily::Whisper ==> fault_text(v, LoadFault::Engine, detail)
            == "failed to load Whisper model from "@ + unix_path::shown(v.target) + ": "@ + detail
            && fault_summary(v, LoadFault::Engine, detail)
            == "failed to load Whisper model from "@ + unix_path::shown(v.target),
        v.model_kind != EngineFamily::Whisper ==> fault_text(v, LoadFault::Engine, detail)
            == "failed to load Qwen3-ASR engine for "@ + strings::debug_text(v.model_id) + ": "@
            + detail && fault_summary(v, LoadFault::Engine, detail)
            == "failed to load Qwen3-ASR engine for "@ + strings::debug_text(v.model_id),
        forall|fault: LoadFault|
            !(fault is Source) && !(fault is Engine) ==> #[trigger] fault_summary(v, fault, detail)
                == fault_text(v, fault, detail),
{
}

/// The names of the families in configuration files.
pub proof fn family_names()
    ensures
        EngineFamily::Whisper.name() == "whisper"@,
        EngineFamily::Qwen3Asr.name() == "qwen3-asr"@,
        EngineFamily::MiniMax.name() == "minimax"@,
{
}

/// Qwen3-ASR is told the English name of a language, whatever the case of its code; a language
/// that was asked for is never replaced by the default.
pub proof fn languages_that_were_asked_for(kind: EngineFamily, iso: &str)
    ensures
        language_of(EngineFamily::Qwen3Asr, iso@) == qwen_name(strings::ascii_lowercase(iso@)),
        requested_language(kind, Some(iso)) == language_of(kind, iso@),
        kind != EngineFamily::Qwen3Asr ==> requested_language(kind, Some(iso)) is Some,
{
}

} // verus!
