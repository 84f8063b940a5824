//! The clipboard round trip that types a transcription.
//!
//! The text is put on the clipboard, the paste shortcut is pressed, and what was on the
//! clipboard before is offered again, with every type it had. The round trip goes through
//! phases; each asks for one operation, and what came of it leads to the next. Where the
//! compositor lacks the data-control protocol the round trip falls back to the `wl-copy` and
//! `wl-paste` tools, which handle one type only. A clipboard with a password on it is neither
//! read nor overwritten.

use crate::strings;
use vstd::prelude::*;
use vstd::string::*;

verus! {

/// The type by which password managers mark what they put on the clipboard.
pub const SENSITIVE_MIME: &'static str = "x-kde-passwordManagerHint";

/// The type that a transcription is offered as.
pub const TRANSCRIPTION_MIME: &'static str = "text/plain;charset=utf-8";

/// Milliseconds between the paste and the restore.
pub const RESTORE_DELAY_MS: u64 = 150;

/// Milliseconds that reading one type may take.
pub const PER_MIME_READ_DEADLINE_MS: u64 = 1500;

/// Backups of at least this many bytes are large.
pub const LARGE_BACKUP_BYTES: u128 = 65536;

/// One type of the clipboard, with its bytes.
#[derive(Debug)]
pub struct MimeSourceEntry {
    pub mime_type: String,
    pub data: Vec<u8>,
}

/// What was on the clipboard. Types that could not be read are skipped.
#[derive(Debug)]
pub struct ClipboardSnapshot {
    pub had_content: bool,
    pub sources: Vec<MimeSourceEntry>,
    pub skipped_mimes: Vec<String>,
}

/// The values of a [`ClipboardSnapshot`].
#[verifier::ext_equal]
pub struct SnapshotView {
    pub had_content: bool,
    pub sources: Seq<(Seq<char>, Seq<u8>)>,
    pub skipped: Seq<Seq<char>>,
}

/// The values of a list of entries.
pub open spec fn source_views(v: Seq<MimeSourceEntry>) -> Seq<(Seq<char>, Seq<u8>)> {
    v.map_values(|e: MimeSourceEntry| (e.mime_type@, e.data@))
}

impl View for ClipboardSnapshot {
    type V = SnapshotView;

    open spec fn view(&self) -> SnapshotView {
        SnapshotView {
            had_content: self.had_content,
            sources: source_views(self.sources@),
            skipped: strings::texts(self.skipped_mimes@),
        }
    }
}

/// A snapshot of an empty clipboard.
pub open spec fn empty_snapshot() -> SnapshotView {
    SnapshotView { had_content: false, sources: seq![], skipped: seq![] }
}

impl ClipboardSnapshot {
    /// A snapshot of an empty clipboard.
    pub fn empty() -> (r: ClipboardSnapshot)
        ensures
            r@ == empty_snapshot(),
    {
        let sources: Vec<MimeSourceEntry> = Vec::new();
        let skipped_mimes: Vec<String> = Vec::new();
        let r = ClipboardSnapshot { had_content: false, sources, skipped_mimes };
        assert(r@ =~= empty_snapshot());
        r
    }
}

/// How the round trip ended.
#[derive(Debug, PartialEq, Eq)]
pub enum PasteOutcome {
    /// The text was pasted, and every type that was on the clipboard is offered again. A
    /// clipboard with nothing on it keeps the text.
    Done,
    /// The text was pasted, and these types that were on the clipboard are lost; the others are
    /// offered again. A clipboard of which nothing could be read keeps the text.
    Partial { skipped: Vec<String> },
    /// The text was pasted; the clipboard could not be kept with all its types.
    FallbackSingleMime { reason: String },
    /// The text was not pasted and the clipboard was not touched.
    Refused { reason: String },
}

/// The values of a [`PasteOutcome`].
#[verifier::ext_equal]
pub enum OutcomeView {
    Done,
    Partial(Seq<Seq<char>>),
    FallbackSingleMime(Seq<char>),
    Refused(Seq<char>),
}

impl View for PasteOutcome {
    type V = OutcomeView;

    open spec fn view(&self) -> OutcomeView {
        match *self {
            PasteOutcome::Done => OutcomeView::Done,
            PasteOutcome::Partial { skipped } => OutcomeView::Partial(strings::texts(skipped@)),
            PasteOutcome::FallbackSingleMime { reason } => OutcomeView::FallbackSingleMime(
                reason@,
            ),
            PasteOutcome::Refused { reason } => OutcomeView::Refused(reason@),
        }
    }
}

impl PasteOutcome {
    /// Whether the user has to be told that something did not work. Losing a few types is no
    /// failure.
    pub fn is_failure(&self) -> (r: bool)
        ensures
            r == (self@ is FallbackSingleMime || self@ is Refused),
    {
        match self {
            PasteOutcome::FallbackSingleMime { .. } | PasteOutcome::Refused { .. } => true,
            PasteOutcome::Done | PasteOutcome::Partial { .. } => false,
        }
    }
}

/// Whether the clipboard is marked as holding a password.
pub open spec fn sensitive(types: Seq<Seq<char>>) -> bool {
    types.contains(SENSITIVE_MIME@)
}

/// Whether the clipboard is marked as holding a password; one whose types cannot be listed is
/// not.
pub fn has_sensitive_content(types: &Option<Vec<String>>) -> (r: bool)
    ensures
        r == (*types is Some && sensitive(strings::texts(types.unwrap()@))),
        r == (*types matches Some(ts) && exists|i: int|
            0 <= i < ts@.len() && #[trigger] ts@[i]@ == "x-kde-passwordManagerHint"@),
{
    match types {
        None => false,
        Some(ts) => {
            proof {
                password_mark(ts@);
            }
            is_sensitive(ts)
        },
    }
}

/// A clipboard holds a password when one of its types is the mark of password managers.
pub proof fn password_mark(types: Seq<String>)
    ensures
        sensitive(strings::texts(types)) <==> exists|i: int|
            0 <= i < types.len() && #[trigger] types[i]@ == "x-kde-passwordManagerHint"@,
{
    let ts = strings::texts(types);
    if sensitive(ts) {
        let i = choose|i: int| 0 <= i < ts.len() && ts[i] == SENSITIVE_MIME@;
        assert(types[i]@ == "x-kde-passwordManagerHint"@);
    }
    if exists|i: int| 0 <= i < types.len() && #[trigger] types[i]@ == "x-kde-passwordManagerHint"@ {
        let i = choose|i: int|
            0 <= i < types.len() && #[trigger] types[i]@ == "x-kde-passwordManagerHint"@;
        assert(ts[i] == SENSITIVE_MIME@);
    }
}

fn is_sensitive(types: &Vec<String>) -> (r: bool)
    ensures
        r == sensitive(strings::texts(types@)),
{
    let ghost ts = strings::texts(types@);
    let mut i: usize = 0;
    while i < types.len()
        invariant
            i <= types.len(),
            ts == strings::texts(types@),
            ts.len() == types.len(),
            forall|k: int| 0 <= k < i ==> #[trigger] ts[k] != SENSITIVE_MIME@,
        decreases types.len() - i,
    {
        assert(ts[i as int] == types@[i as int]@);
        if strings::same(types[i].as_str(), SENSITIVE_MIME) {
            assert(ts.contains(ts[i as int]));
            return true;
        }
        i = i + 1;
    }
    false
}

/// What came of reading one type.
#[derive(Debug)]
pub enum ReadOutcome {
    /// These bytes.
    Read(Vec<u8>),
    /// An error.
    Failed,
    /// Nothing before the deadline.
    TimedOut,
}

/// What is to be read for a backup.
#[derive(Clone, Copy, Debug, PartialEq, Eq, Structural)]
pub enum BackupPlan {
    /// The protocol is missing: nothing can be read.
    ProtocolMissing,
    /// There is nothing to read, or nothing that may be read.
    Nothing,
    /// Every type, in order.
    ReadAll,
}

/// What is to be read for a backup: nothing of an empty clipboard or one with a password on it.
pub fn plan_backup(types: &Option<Vec<String>>) -> (r: BackupPlan)
    ensures
        r == match *types {
            None => BackupPlan::ProtocolMissing,
            Some(ts) => if ts@.len() == 0 || sensitive(strings::texts(ts@)) {
                BackupPlan::Nothing
            } else {
                BackupPlan::ReadAll
            },
        },
{
    match types {
        None => BackupPlan::ProtocolMissing,
        Some(ts) => if ts.len() == 0 || is_sensitive(ts) {
            BackupPlan::Nothing
        } else {
            BackupPlan::ReadAll
        },
    }
}

/// The types that were read, with their bytes, in order.
pub open spec fn read_sources(types: Seq<Seq<char>>, reads: Seq<ReadOutcome>) -> Seq<
    (Seq<char>, Seq<u8>),
>
    decreases types.len(),
{
    if types.len() == 0 || reads.len() != types.len() {
        seq![]
    } else {
        let rest = read_sources(types.drop_last(), reads.drop_last());
        match reads.last() {
            ReadOutcome::Read(data) => rest.push((types.last(), data@)),
            _ => rest,
        }
    }
}

/// The types that were not read, in order.
pub open spec fn skipped_types(types: Seq<Seq<char>>, reads: Seq<ReadOutcome>) -> Seq<Seq<char>>
    decreases types.len(),
{
    if types.len() == 0 || reads.len() != types.len() {
        seq![]
    } else {
        let rest = skipped_types(types.drop_last(), reads.drop_last());
        if reads.last() is Read {
            rest
        } else {
            rest.push(types.last())
        }
    }
}

/// The snapshot of a clipboard whose types were all read or tried.
pub open spec fn taken(types: Seq<Seq<char>>, reads: Seq<ReadOutcome>) -> SnapshotView {
    SnapshotView {
        had_content: read_sources(types, reads).len() > 0,
        sources: read_sources(types, reads),
        skipped: skipped_types(types, reads),
    }
}

/// The snapshot of a clipboard with these types, for a backup as [`plan_backup`] plans it.
pub open spec fn backed_up(types: Option<Vec<String>>, reads: Seq<ReadOutcome>) -> SnapshotView {
    match types {
        None => empty_snapshot(),
        Some(ts) => {
            let t = strings::texts(ts@);
            if t.len() == 0 || sensitive(t) {
                empty_snapshot()
            } else {
                taken(t, reads)
            }
        },
    }
}

/// Takes a snapshot of the clipboard, and tells whether the protocol is missing. `reads` holds
/// what came of reading each type, when all are to be read; otherwise it does not count.
pub fn backup(types: &Option<Vec<String>>, reads: &Vec<ReadOutcome>) -> (r: (
    ClipboardSnapshot,
    bool,
))
    requires
        types matches Some(ts) ==> ts@.len() == 0 || sensitive(strings::texts(ts@)) || reads.len()
            == ts.len(),
    ensures
        r.0@ == backed_up(*types, reads@),
        r.1 == (*types is None),
        r.0@.had_content <==> (*types matches Some(ts) && !sensitive(strings::texts(ts@))
            && exists|i: int| 0 <= i < ts@.len() && #[trigger] reads@[i] is Read),
        r.0@.had_content <==> r.0@.sources.len() > 0,
{
    proof {
        if let Some(ts) = types {
            let t = strings::texts(ts@);
            assert(t.len() == ts@.len());
            if t.len() == reads@.len() {
                some_type_was_read(t, reads@);
            }
        }
    }
    match types {
        None => (ClipboardSnapshot::empty(), true),
        Some(ts) => {
            if ts.len() == 0 || is_sensitive(ts) {
                return (ClipboardSnapshot::empty(), false);
            }
            let ghost t = strings::texts(ts@);
            let mut sources: Vec<MimeSourceEntry> = Vec::new();
            let mut skipped_mimes: Vec<String> = Vec::new();
            let mut i: usize = 0;
            assert(source_views(sources@) =~= read_sources(t.take(0), reads@.take(0)));
            assert(strings::texts(skipped_mimes@) =~= skipped_types(t.take(0), reads@.take(0)));
            while i < ts.len()
                invariant
                    i <= ts.len(),
                    ts.len() == reads.len(),
                    t == strings::texts(ts@),
                    t.len() == ts.len(),
                    source_views(sources@) == read_sources(
                        t.take(i as int),
                        reads@.take(i as int),
                    ),
                    strings::texts(skipped_mimes@) == skipped_types(
                        t.take(i as int),
                        reads@.take(i as int),
                    ),
                decreases ts.len() - i,
            {
                let ghost a = t.take(i + 1);
                let ghost b = reads@.take(i + 1);
                assert(a.drop_last() =~= t.take(i as int));
                assert(b.drop_last() =~= reads@.take(i as int));
                assert(a.last() == ts@[i as int]@);
                assert(b.last() == reads@[i as int]);
                let ghost before = source_views(sources@);
                let ghost left = strings::texts(skipped_mimes@);
                match &reads[i] {
                    ReadOutcome::Read(data) => {
                        let entry: MimeSourceEntry = MimeSourceEntry {
                            mime_type: ts[i].clone(),
                            data: crate::unix_path::copy_bytes(data),
                        };
                        sources.push(entry);
                        assert(source_views(sources@) =~= before.push((a.last(), data@)));
                    },
                    ReadOutcome::Failed => {
                        skipped_mimes.push(ts[i].clone());
                        assert(strings::texts(skipped_mimes@) =~= left.push(a.last()));
                    },
                    ReadOutcome::TimedOut => {
                        skipped_mimes.push(ts[i].clone());
                        assert(strings::texts(skipped_mimes@) =~= left.push(a.last()));
                    },
                }
                i = i + 1;
            }
            assert(t.take(i as int) =~= t);
            assert(reads@.take(i as int) =~= reads@);
            let had_content: bool = sources.len() > 0;
            assert(source_views(sources@).len() == sources.len());
            (ClipboardSnapshot { had_content, sources, skipped_mimes }, false)
        },
    }
}

/// The types that `wl-paste --list-types` prints: its lines without white space around them,
/// but for empty ones.
pub open spec fn listed(lines: Seq<Seq<char>>) -> Seq<Seq<char>>
    decreases lines.len(),
{
    if lines.len() == 0 {
        seq![]
    } else {
        let rest = listed(lines.drop_last());
        let t = strings::trim(lines.last());
        if t.len() > 0 {
            rest.push(t)
        } else {
            rest
        }
    }
}

/// The types that `wl-paste --list-types` prints.
pub fn listed_types(output: &Vec<u8>) -> (r: Vec<String>)
    ensures
        strings::texts(r@) == listed(strings::lines(strings::text_of_bytes(output@))),
{
    let text: String = strings::lossy(output);
    let lines: Vec<Vec<char>> = strings::lines_of(&strings::chars_of(text.as_str()));
    let ghost ls = strings::lines(strings::text_of_bytes(output@));
    let mut out: Vec<String> = Vec::new();
    let mut i: usize = 0;
    assert(strings::views(lines@).len() == lines.len());
    assert(strings::texts(out@) =~= listed(ls.take(0)));
    while i < lines.len()
        invariant
            i <= lines.len(),
            strings::views(lines@) == ls,
            ls.len() == lines.len(),
            strings::texts(out@) == listed(ls.take(i as int)),
        decreases lines.len() - i,
    {
        let t: Vec<char> = strings::trim_chars(&lines[i]);
        assert(lines@[i as int]@ == strings::views(lines@)[i as int]);
        assert(ls.take(i + 1).drop_last() =~= ls.take(i as int));
        assert(ls.take(i + 1).last() == ls[i as int]);
        if t.len() > 0 {
            let ghost before = strings::texts(out@);
            out.push(strings::string_of(&t));
            assert(strings::texts(out@) =~= before.push(t@));
        }
        i = i + 1;
    }
    assert(ls.take(i as int) =~= ls);
    out
}

/// The one type that the fallback reads: the first one, unless a password is on the clipboard.
pub open spec fn primary(types: Seq<Seq<char>>) -> Option<Seq<char>> {
    if types.len() == 0 || sensitive(types) {
        None
    } else {
        Some(types[0])
    }
}

/// The one type that the fallback reads. `output` is what `wl-paste --list-types` printed, when
/// it ran well.
pub fn primary_type(output: &Option<Vec<u8>>) -> (r: Option<String>)
    ensures
        match *output {
            None => r is None,
            Some(bytes) => {
                let types = listed(strings::lines(strings::text_of_bytes(bytes@)));
                &&& r matches Some(t) ==> primary(types) == Some(t@)
                &&& r is None ==> primary(types) is None
            },
        },
{
    match output {
        None => None,
        Some(bytes) => {
            let types: Vec<String> = listed_types(bytes);
            assert(strings::texts(types@).len() == types.len());
            if types.len() == 0 || is_sensitive(&types) {
                None
            } else {
                assert(strings::texts(types@)[0] == types@[0]@);
                Some(types[0].clone())
            }
        },
    }
}

/// Whether the fallback finds a password on the clipboard. `output` is what
/// `wl-paste --list-types` printed, when it ran well.
pub fn fallback_sensitive(output: &Option<Vec<u8>>) -> (r: bool)
    ensures
        r == (*output matches Some(b) && sensitive(
            listed(strings::lines(strings::text_of_bytes(b@))),
        )),
{
    match output {
        None => false,
        Some(bytes) => is_sensitive(&listed_types(bytes)),
    }
}

/// The snapshot that the fallback takes: the one type, when it could be read.
pub fn backup_via_wl_paste(primary: &Option<String>, data: &Option<Vec<u8>>) -> (r:
    ClipboardSnapshot)
    ensures
        r@ == match (*primary, *data) {
            (Some(mime), Some(bytes)) => SnapshotView {
                had_content: true,
                sources: seq![(mime@, bytes@)],
                skipped: seq![],
            },
            _ => empty_snapshot(),
        },
{
    match (primary, data) {
        (Some(mime), Some(bytes)) => {
            let mut sources: Vec<MimeSourceEntry> = Vec::new();
            sources.push(
                MimeSourceEntry {
                    mime_type: mime.clone(),
                    data: crate::unix_path::copy_bytes(bytes),
                },
            );
            let skipped_mimes: Vec<String> = Vec::new();
            let r = ClipboardSnapshot { had_content: true, sources, skipped_mimes };
            assert(r@.sources =~= seq![(mime@, bytes@)]);
            assert(r@.skipped =~= seq![]);
            r
        },
        _ => ClipboardSnapshot::empty(),
    }
}

/// What a restore does to the clipboard.
#[derive(Debug)]
pub enum RestorePlan<'a> {
    /// Clear it.
    Clear,
    /// Offer all of these, together.
    Offer(&'a Vec<MimeSourceEntry>),
    /// Offer this one.
    OfferOne(&'a MimeSourceEntry),
}

/// How a snapshot is restored: everything that was read is offered again; an empty clipboard
/// is cleared.
pub fn restore(snap: &ClipboardSnapshot) -> (r: RestorePlan<'_>)
    ensures
        !snap.had_content ==> r is Clear,
        snap.had_content ==> (r matches RestorePlan::Offer(v) && v@ == snap.sources@),
{
    if !snap.had_content {
        RestorePlan::Clear
    } else {
        RestorePlan::Offer(&snap.sources)
    }
}

/// How the fallback restores a snapshot: its first type is offered again.
pub fn restore_via_wl_copy(snap: &ClipboardSnapshot) -> (r: RestorePlan<'_>)
    ensures
        (!snap.had_content || snap.sources@.len() == 0) ==> r is Clear,
        (snap.had_content && snap.sources@.len() > 0) ==> (r matches RestorePlan::OfferOne(e)
            && *e == snap.sources@[0]),
{
    if !snap.had_content || snap.sources.len() == 0 {
        RestorePlan::Clear
    } else {
        RestorePlan::OfferOne(&snap.sources[0])
    }
}

/// Why the clipboard could not be written.
#[derive(Debug)]
pub enum CopyError {
    /// The compositor lacks a protocol.
    MissingProtocol { name: String, version: u32 },
    /// There is no connection to the compositor.
    WaylandConnection,
    /// Something else, in words.
    Other(String),
}

/// The error means that the compositor cannot do it, rather than that it failed.
pub open spec fn protocol_error(e: CopyError) -> bool {
    e is MissingProtocol || e is WaylandConnection
}

/// Whether the error means that the compositor cannot do it, rather than that it failed.
pub fn is_protocol_error(e: &CopyError) -> (r: bool)
    ensures
        r == protocol_error(*e),
        r == (*e is MissingProtocol || *e is WaylandConnection),
{
    match e {
        CopyError::MissingProtocol { .. } | CopyError::WaylandConnection => true,
        CopyError::Other(_) => false,
    }
}

/// The error in words.
pub open spec fn error_reason(e: CopyError) -> Seq<char> {
    match e {
        CopyError::MissingProtocol { name, version } => "compositor missing "@ + name@ + " v"@
            + strings::decimal(version as nat),
        CopyError::WaylandConnection => "could not connect to Wayland server"@,
        CopyError::Other(text) => text@,
    }
}

/// The error in words.
pub fn copy_error_reason(e: &CopyError) -> (r: String)
    ensures
        r@ == error_reason(*e),
        match *e {
            CopyError::MissingProtocol { name, version } => r@ == "compositor missing "@ + name@
                + " v"@ + strings::decimal(version as nat),
            CopyError::WaylandConnection => r@ == "could not connect to Wayland server"@,
            CopyError::Other(text) => r@ == text@,
        },
{
    match e {
        CopyError::MissingProtocol { name, version } => {
            let mut out: String = "compositor missing ".to_owned();
            out.append(name.as_str());
            out.append(" v");
            out.append(strings::decimal_of(*version as u64).as_str());
            out
        },
        CopyError::WaylandConnection => "could not connect to Wayland server".to_owned(),
        CopyError::Other(text) => text.clone(),
    }
}

/// The outcome of a round trip that restored the clipboard.
pub open spec fn kept(skipped: Seq<Seq<char>>) -> OutcomeView {
    if skipped.len() == 0 {
        OutcomeView::Done
    } else {
        OutcomeView::Partial(skipped)
    }
}

/// The outcome of a round trip that restored the clipboard: partial when types were skipped.
pub fn outcome_for_skipped(snap: &ClipboardSnapshot) -> (r: PasteOutcome)
    ensures
        r@ == kept(snap@.skipped),
        r@ is Done <==> snap@.skipped.len() == 0,
        snap@.skipped.len() > 0 ==> r@ == OutcomeView::Partial(snap@.skipped),
{
    if snap.skipped_mimes.len() == 0 {
        PasteOutcome::Done
    } else {
        let mut skipped: Vec<String> = Vec::new();
        let ghost all = strings::texts(snap.skipped_mimes@);
        let mut i: usize = 0;
        assert(strings::texts(skipped@) =~= all.take(0));
        while i < snap.skipped_mimes.len()
            invariant
                i <= snap.skipped_mimes.len(),
                all == strings::texts(snap.skipped_mimes@),
                all.len() == snap.skipped_mimes.len(),
                strings::texts(skipped@) == all.take(i as int),
            decreases snap.skipped_mimes.len() - i,
        {
            let ghost before = strings::texts(skipped@);
            skipped.push(snap.skipped_mimes[i].clone());
            assert(strings::texts(skipped@) =~= before.push(all[i as int]));
            assert(all.take(i + 1) =~= all.take(i as int).push(all[i as int]));
            i = i + 1;
        }
        assert(all.take(i as int) =~= all);
        PasteOutcome::Partial { skipped }
    }
}

/// How a round trip ends.
#[derive(Clone, Copy, Debug, PartialEq, Eq, Structural)]
pub enum Ending {
    /// What was read of the clipboard is offered again; where nothing was, the text stays.
    Kept,
    Fallback,
    Refused,
}

/// Where a round trip stands.
#[derive(Clone, Copy, Debug, PartialEq, Eq, Structural)]
pub enum PastePhase {
    /// Look whether a password is on the clipboard.
    CheckSensitive,
    /// Take a snapshot of the clipboard.
    Backup,
    /// Put the text on the clipboard.
    Write,
    /// Press the paste shortcut.
    Press,
    /// Restore the clipboard, after [`RESTORE_DELAY_MS`].
    Restore,
    /// Take a snapshot with `wl-paste`.
    FallbackBackup,
    /// Put the text on the clipboard with `wl-copy`.
    FallbackWrite,
    /// Press the paste shortcut.
    FallbackPress,
    /// Restore the clipboard with `wl-copy`, after [`RESTORE_DELAY_MS`].
    FallbackRestore,
    Finished(Ending),
}

/// What came of an operation.
#[derive(Debug)]
pub enum PasteEvent {
    /// The types on the clipboard were listed, and a password is or is not among them.
    SensitiveChecked { present: bool },
    BackedUp { snapshot: ClipboardSnapshot, protocol_missing: bool },
    Written,
    WriteFailed(CopyError),
    /// The shortcut was pressed, or could not be: the text is on the clipboard either way.
    Pressed,
    Restored,
    RestoreFailed(CopyError),
    /// The types that `wl-paste` lists hold a password.
    FallbackSensitive,
    FallbackBackedUp { snapshot: ClipboardSnapshot },
    FallbackWriteFailed(String),
}

/// A round trip.
#[derive(Debug)]
pub struct PasteFlow {
    /// The text that is pasted.
    text: String,
    phase: PastePhase,
    snapshot: ClipboardSnapshot,
    reason: String,
}

/// The values of a [`PasteFlow`].
#[verifier::ext_equal]
pub struct FlowView {
    pub text: Seq<char>,
    pub phase: PastePhase,
    pub snapshot: SnapshotView,
    pub reason: Seq<char>,
}

impl View for PasteFlow {
    type V = FlowView;

    closed spec fn view(&self) -> FlowView {
        FlowView {
            text: self.text@,
            phase: self.phase,
            snapshot: self.snapshot@,
            reason: self.reason@,
        }
    }
}

impl FlowView {
    /// A round trip begins; there is none for an empty text.
    pub open spec fn begin(text: Seq<char>) -> FlowView {
        if text.len() == 0 {
            FlowView {
                text,
                phase: PastePhase::Finished(Ending::Refused),
                snapshot: empty_snapshot(),
                reason: "transcription is empty"@,
            }
        } else {
            FlowView {
                text,
                phase: PastePhase::CheckSensitive,
                snapshot: empty_snapshot(),
                reason: seq![],
            }
        }
    }

    /// The same round trip in another phase.
    pub open spec fn at(self, phase: PastePhase) -> FlowView {
        FlowView { phase, ..self }
    }

    /// The round trip in another phase, for a reason.
    pub open spec fn because(self, phase: PastePhase, reason: Seq<char>) -> FlowView {
        FlowView { phase, reason, ..self }
    }

    /// The round trip ends: a password is on the clipboard.
    pub open spec fn refused_for_password(self) -> FlowView {
        self.because(
            PastePhase::Finished(Ending::Refused),
            "clipboard contains "@ + SENSITIVE_MIME@,
        )
    }

    /// What an event makes of it; an event that does not belong to the phase changes nothing.
    pub open spec fn next(self, event: PasteEvent) -> FlowView {
        match (self.phase, event) {
            (PastePhase::CheckSensitive, PasteEvent::SensitiveChecked { present }) => if present {
                self.refused_for_password()
            } else {
                self.at(PastePhase::Backup)
            },
            (PastePhase::Backup, PasteEvent::SensitiveChecked { present }) => if present {
                self.refused_for_password()
            } else {
                self
            },
            (PastePhase::FallbackBackup, PasteEvent::FallbackSensitive) =>
                self.refused_for_password(),
            (PastePhase::Backup, PasteEvent::BackedUp { snapshot, protocol_missing }) => if protocol_missing {
                self.because(
                    PastePhase::FallbackBackup,
                    "wlr-data-control / ext-data-control not available"@,
                )
            } else {
                FlowView { phase: PastePhase::Write, snapshot: snapshot@, ..self }
            },
            (PastePhase::Write, PasteEvent::Written) => self.at(PastePhase::Press),
            (PastePhase::Write, PasteEvent::WriteFailed(e)) => if protocol_error(e) {
                self.because(PastePhase::FallbackBackup, error_reason(e))
            } else {
                self.because(
                    PastePhase::Finished(Ending::Refused),
                    "wl-clipboard-rs copy failed: "@ + error_reason(e),
                )
            },
            (PastePhase::Press, PasteEvent::Pressed) => if self.snapshot.had_content {
                self.at(PastePhase::Restore)
            } else {
                self.at(PastePhase::Finished(Ending::Kept))
            },
            (PastePhase::Restore, PasteEvent::Restored) => self.at(
                PastePhase::Finished(Ending::Kept),
            ),
            (PastePhase::Restore, PasteEvent::RestoreFailed(e)) => self.because(
                PastePhase::Finished(Ending::Fallback),
                error_reason(e),
            ),
            (PastePhase::FallbackBackup, PasteEvent::FallbackBackedUp { snapshot }) => FlowView {
                phase: PastePhase::FallbackWrite,
                snapshot: snapshot@,
                ..self
            },
            (PastePhase::FallbackWrite, PasteEvent::Written) => self.at(PastePhase::FallbackPress),
            (PastePhase::FallbackWrite, PasteEvent::FallbackWriteFailed(text)) => self.because(
                PastePhase::Finished(Ending::Refused),
                "wl-copy fallback write failed: "@ + text@,
            ),
            (PastePhase::FallbackPress, PasteEvent::Pressed) => if self.snapshot.had_content {
                self.at(PastePhase::FallbackRestore)
            } else {
                self.at(PastePhase::Finished(Ending::Fallback))
            },
            (PastePhase::FallbackRestore, PasteEvent::Restored) => self.at(
                PastePhase::Finished(Ending::Fallback),
            ),
            _ => self,
        }
    }

    /// How a finished round trip ended.
    pub open spec fn outcome(self) -> Option<OutcomeView> {
        match self.phase {
            PastePhase::Finished(Ending::Kept) => Some(kept(self.snapshot.skipped)),
            PastePhase::Finished(Ending::Fallback) => Some(
                OutcomeView::FallbackSingleMime(self.reason),
            ),
            PastePhase::Finished(Ending::Refused) => Some(OutcomeView::Refused(self.reason)),
            _ => None,
        }
    }
}

impl PasteFlow {
    /// Begins a round trip that types `text`; there is none for an empty text.
    pub fn paste_text_via_clipboard(text: &str) -> (r: PasteFlow)
        ensures
            r@ == FlowView::begin(text@),
    {
        let chars: Vec<char> = strings::chars_of(text);
        let snapshot: ClipboardSnapshot = ClipboardSnapshot::empty();
        if chars.len() == 0 {
            PasteFlow {
                text: text.to_owned(),
                phase: PastePhase::Finished(Ending::Refused),
                snapshot,
                reason: "transcription is empty".to_owned(),
            }
        } else {
            let reason: String = String::new();
            assert(reason@ =~= seq![]);
            PasteFlow {
                text: text.to_owned(),
                phase: PastePhase::CheckSensitive,
                snapshot,
                reason,
            }
        }
    }

    /// Where the round trip stands.
    pub fn phase(&self) -> (r: PastePhase)
        ensures
            r == self@.phase,
    {
        self.phase
    }

    /// What the phases that write put on the clipboard: the text in UTF-8, with its type.
    pub fn to_write(&self) -> (r: (String, Vec<u8>))
        ensures
            r.0@ == TRANSCRIPTION_MIME@,
            r.0@ == "text/plain;charset=utf-8"@,
            r.1@ == vstd::utf8::encode_utf8(self@.text),
    {
        (TRANSCRIPTION_MIME.to_owned(), strings::bytes_of(self.text.as_str()))
    }

    /// What was on the clipboard.
    pub fn snapshot(&self) -> (r: &ClipboardSnapshot)
        ensures
            r@ == self@.snapshot,
    {
        &self.snapshot
    }

    fn refuse_for_password(&mut self)
        ensures
            final(self)@ == old(self)@.refused_for_password(),
    {
        self.reason = strings::cat("clipboard contains ", SENSITIVE_MIME);
        self.phase = PastePhase::Finished(Ending::Refused);
    }

    /// Goes on with what came of the operation that the phase asked for.
    pub fn step(&mut self, event: PasteEvent)
        ensures
            final(self)@ == old(self)@.next(event),
    {
        match (self.phase, event) {
            (PastePhase::CheckSensitive, PasteEvent::SensitiveChecked { present }) => {
                if present {
                    self.refuse_for_password();
                } else {
                    self.phase = PastePhase::Backup;
                }
            },
            (PastePhase::Backup, PasteEvent::SensitiveChecked { present }) => {
                if present {
                    self.refuse_for_password();
                }
            },
            (PastePhase::FallbackBackup, PasteEvent::FallbackSensitive) => {
                self.refuse_for_password();
            },
            (PastePhase::Backup, PasteEvent::BackedUp { snapshot, protocol_missing }) => {
                if protocol_missing {
                    self.reason = "wlr-data-control / ext-data-control not available".to_owned();
                    self.phase = PastePhase::FallbackBackup;
                } else {
                    self.snapshot = snapshot;
                    self.phase = PastePhase::Write;
                }
            },
            (PastePhase::Write, PasteEvent::Written) => {
                self.phase = PastePhase::Press;
            },
            (PastePhase::Write, PasteEvent::WriteFailed(e)) => {
                let why: String = copy_error_reason(&e);
                if is_protocol_error(&e) {
                    self.reason = why;
                    self.phase = PastePhase::FallbackBackup;
                } else {
                    self.reason = strings::cat("wl-clipboard-rs copy failed: ", why.as_str());
                    self.phase = PastePhase::Finished(Ending::Refused);
                }
            },
            (PastePhase::Press, PasteEvent::Pressed) => {
                self.phase = if self.snapshot.had_content {
                    PastePhase::Restore
                } else {
                    PastePhase::Finished(Ending::Kept)
                };
            },
            (PastePhase::Restore, PasteEvent::Restored) => {
                self.phase = PastePhase::Finished(Ending::Kept);
            },
            (PastePhase::Restore, PasteEvent::RestoreFailed(e)) => {
                self.reason = copy_error_reason(&e);
                self.phase = PastePhase::Finished(Ending::Fallback);
            },
            (PastePhase::FallbackBackup, PasteEvent::FallbackBackedUp { snapshot }) => {
                self.snapshot = snapshot;
                self.phase = PastePhase::FallbackWrite;
            },
            (PastePhase::FallbackWrite, PasteEvent::Written) => {
                self.phase = PastePhase::FallbackPress;
            },
            (PastePhase::FallbackWrite, PasteEvent::FallbackWriteFailed(text)) => {
                self.reason = strings::cat("wl-copy fallback write failed: ", text.as_str());
                self.phase = PastePhase::Finished(Ending::Refused);
            },
            (PastePhase::FallbackPress, PasteEvent::Pressed) => {
                self.phase = if self.snapshot.had_content {
                    PastePhase::FallbackRestore
                } else {
                    PastePhase::Finished(Ending::Fallback)
                };
            },
            (PastePhase::FallbackRestore, PasteEvent::Restored) => {
                self.phase = PastePhase::Finished(Ending::Fallback);
            },
            _ => {},
        }
    }

    /// How a finished round trip ended.
    pub fn outcome(&self) -> (r: Option<PasteOutcome>)
        ensures
            r matches Some(o) ==> self@.outcome() == Some(o@),
            r is None ==> self@.outcome() is None,
    {
        match self.phase {
            PastePhase::Finished(ending) => match ending {
                Ending::Kept => Some(outcome_for_skipped(&self.snapshot)),
                Ending::Fallback => Some(
                    PasteOutcome::FallbackSingleMime { reason: self.reason.clone() },
                ),
                Ending::Refused => Some(PasteOutcome::Refused { reason: self.reason.clone() }),
            },
            _ => None,
        }
    }
}

/// The size of a backup.
#[derive(Clone, Copy, Debug, PartialEq, Eq, Structural)]
pub struct BackupSize {
    pub total: u128,
    pub largest: usize,
    /// Whether it is worth a line in the log.
    pub large: bool,
}

/// The bytes of all sources together.
pub open spec fn total_bytes(v: Seq<MimeSourceEntry>) -> nat
    decreases v.len(),
{
    if v.len() == 0 {
        0
    } else {
        total_bytes(v.drop_last()) + v.last().data@.len()
    }
}

/// The bytes of the largest source.
pub open spec fn largest_bytes(v: Seq<MimeSourceEntry>) -> nat
    decreases v.len(),
{
    if v.len() == 0 {
        0
    } else {
        let m = largest_bytes(v.drop_last());
        if v.last().data@.len() > m {
            v.last().data@.len()
        } else {
            m
        }
    }
}

/// The size of a backup, as it is logged.
pub fn log_total_backup_size(sources: &Vec<MimeSourceEntry>) -> (r: BackupSize)
    ensures
        r.total == total_bytes(sources@),
        r.largest == largest_bytes(sources@),
        r.large == (total_bytes(sources@) >= LARGE_BACKUP_BYTES),
        r.large == (r.total >= 65536),
{
    let mut total: u128 = 0;
    let mut largest: usize = 0;
    let mut i: usize = 0;
    while i < sources.len()
        invariant
            i <= sources.len(),
            total == total_bytes(sources@.take(i as int)),
            largest == largest_bytes(sources@.take(i as int)),
            total <= i * 0xffff_ffff_ffff_ffff,
        decreases sources.len() - i,
    {
        let n: usize = sources[i].data.len();
        assert(sources@.take(i + 1).drop_last() =~= sources@.take(i as int));
        assert(i * 0xffff_ffff_ffff_ffff <= 0xffff_ffff_ffff_ffff * 0xffff_ffff_ffff_ffff)
            by (nonlinear_arith)
            requires
                i <= 0xffff_ffff_ffff_ffff,
        ;
        total = total + (n as u128);
        if n > largest {
            largest = n;
        }
        i = i + 1;
    }
    assert(sources@.take(i as int) =~= sources@);
    BackupSize { total, largest, large: total >= LARGE_BACKUP_BYTES }
}

/// Each type ends up in exactly one list: the bytes that were read stand with their type, in
/// order, and the types that were not read stand among the skipped ones, in order.
pub proof fn every_type_is_accounted_for(types: Seq<Seq<char>>, reads: Seq<ReadOutcome>)
    requires
        types.len() == reads.len(),
    ensures
        read_sources(types, reads).len() + skipped_types(types, reads).len() == types.len(),
        forall|i: int|
            0 <= i < types.len() ==> (match #[trigger] reads[i] {
                ReadOutcome::Read(data) => read_sources(types, reads).contains(
                    (types[i], data@),
                ),
                _ => skipped_types(types, reads).contains(types[i]),
            }),
    decreases types.len(),
{
    if types.len() > 0 {
        let t = types.drop_last();
        let r = reads.drop_last();
        every_type_is_accounted_for(t, r);
        let a = read_sources(types, reads);
        let b = skipped_types(types, reads);
        let a0 = read_sources(t, r);
        let b0 = skipped_types(t, r);
        assert forall|i: int| 0 <= i < types.len() implies (match #[trigger] reads[i] {
            ReadOutcome::Read(data) => a.contains((types[i], data@)),
            _ => b.contains(types[i]),
        }) by {
            if i < t.len() {
                assert(r[i] == reads[i]);
                match reads[i] {
                    ReadOutcome::Read(data) => {
                        let k = choose|k: int| 0 <= k < a0.len() && a0[k] == (types[i], data@);
                        assert(a[k] == a0[k]);
                    },
                    _ => {
                        let k = choose|k: int| 0 <= k < b0.len() && b0[k] == types[i];
                        assert(b[k] == b0[k]);
                    },
                }
            } else {
                match reads[i] {
                    ReadOutcome::Read(data) => {
                        assert(a[a.len() - 1] == (types[i], data@));
                    },
                    _ => {
                        assert(b[b.len() - 1] == types[i]);
                    },
                }
            }
        }
    }
}

proof fn some_type_was_read(types: Seq<Seq<char>>, reads: Seq<ReadOutcome>)
    requires
        types.len() == reads.len(),
    ensures
        read_sources(types, reads).len() > 0 <==> exists|i: int|
            0 <= i < reads.len() && #[trigger] reads[i] is Read,
    decreases types.len(),
{
    if types.len() > 0 {
        let r = reads.drop_last();
        some_type_was_read(types.drop_last(), r);
        let n = reads.len() - 1;
        if reads[n] is Read {
            assert(0 <= n < reads.len() && reads[n] is Read);
        }
        if exists|i: int| 0 <= i < r.len() && #[trigger] r[i] is Read {
            let i = choose|i: int| 0 <= i < r.len() && #[trigger] r[i] is Read;
            assert(reads[i] is Read);
        }
        if exists|i: int| 0 <= i < reads.len() && #[trigger] reads[i] is Read {
            let i = choose|i: int| 0 <= i < reads.len() && #[trigger] reads[i] is Read;
            if i < n {
                assert(r[i] is Read);
            }
        }
    }
}

/// A snapshot has content exactly when at least one type of the clipboard was read, and then it
/// holds the bytes of that type.
pub proof fn what_was_read_is_content(types: Vec<String>, reads: Seq<ReadOutcome>)
    requires
        reads.len() == types@.len(),
        forall|i: int| 0 <= i < types@.len() ==> #[trigger] types@[i]@
            != "x-kde-passwordManagerHint"@,
    ensures
        backed_up(Some(types), reads).had_content <==> exists|i: int|
            0 <= i < reads.len() && #[trigger] reads[i] is Read,
        forall|i: int|
            0 <= i < reads.len() ==> (match #[trigger] reads[i] {
                ReadOutcome::Read(data) => backed_up(Some(types), reads).sources.contains(
                    (types@[i]@, data@),
                ),
                _ => backed_up(Some(types), reads).skipped.contains(types@[i]@),
            }),
        backed_up(Some(types), reads).sources.len() + backed_up(Some(types), reads).skipped.len()
            == reads.len(),
{
    let t = strings::texts(types@);
    assert(t.len() == types@.len());
    password_mark(types@);
    every_type_is_accounted_for(t, reads);
    some_type_was_read(t, reads);
    assert forall|i: int| 0 <= i < reads.len() implies (match #[trigger] reads[i] {
        ReadOutcome::Read(data) => backed_up(Some(types), reads).sources.contains(
            (types@[i]@, data@),
        ),
        _ => backed_up(Some(types), reads).skipped.contains(types@[i]@),
    }) by {
        assert(t[i] == types@[i]@);
    }
}

/// What is kept of a clipboard whose types are listed in two parts is what is kept of the
/// first part, then what is kept of the second, and a single type is kept with its bytes or
/// skipped. So the order of the types is the order of the snapshot.
pub proof fn snapshots_keep_the_order(
    a: Seq<Seq<char>>,
    ra: Seq<ReadOutcome>,
    b: Seq<Seq<char>>,
    rb: Seq<ReadOutcome>,
)
    requires
        a.len() == ra.len(),
        b.len() == rb.len(),
    ensures
        read_sources(a + b, ra + rb) == read_sources(a, ra) + read_sources(b, rb),
        skipped_types(a + b, ra + rb) == skipped_types(a, ra) + skipped_types(b, rb),
        b.len() == 1 ==> (match rb[0] {
            ReadOutcome::Read(data) => read_sources(b, rb) == seq![(b[0], data@)]
                && skipped_types(b, rb).len() == 0,
            _ => read_sources(b, rb).len() == 0 && skipped_types(b, rb) == seq![b[0]],
        }),
    decreases b.len(),
{
    if b.len() == 0 {
        assert(a + b =~= a);
        assert(ra + rb =~= ra);
        assert(read_sources(a, ra) + read_sources(b, rb) =~= read_sources(a, ra));
        assert(skipped_types(a, ra) + skipped_types(b, rb) =~= skipped_types(a, ra));
    } else {
        let b0 = b.drop_last();
        let rb0 = rb.drop_last();
        snapshots_keep_the_order(a, ra, b0, rb0);
        assert((a + b).drop_last() =~= a + b0);
        assert((ra + rb).drop_last() =~= ra + rb0);
        assert(read_sources(a + b, ra + rb) =~= read_sources(a, ra) + read_sources(b, rb));
        assert(skipped_types(a + b, ra + rb) =~= skipped_types(a, ra) + skipped_types(b, rb));
        if b.len() == 1 {
            assert(read_sources(b0, rb0).len() == 0);
            assert(skipped_types(b0, rb0).len() == 0);
        }
    }
}

/// Nothing of a clipboard with a password on it gets into a snapshot, and the fallback does
/// not read it either.
pub proof fn passwords_are_never_read(types: Vec<String>, reads: Seq<ReadOutcome>)
    requires
        sensitive(strings::texts(types@)),
    ensures
        backed_up(Some(types), reads) == empty_snapshot(),
        primary(strings::texts(types@)) is None,
{
}

/// `states` is a run of a round trip, driven by `events`.
pub open spec fn is_run(start: FlowView, states: Seq<FlowView>, events: Seq<PasteEvent>) -> bool {
    &&& states.len() == events.len() + 1
    &&& states[0] == start
    &&& forall|i: int|
        0 <= i < events.len() ==> states[i + 1] == states[i].next(#[trigger] events[i])
}

/// The text was put on the clipboard in this step.
pub open spec fn writes(state: FlowView, event: PasteEvent) -> bool {
    (state.phase == PastePhase::Write || state.phase == PastePhase::FallbackWrite) && event
        is Written
}

/// The phases in which the clipboard has not been touched.
pub open spec fn untouched(phase: PastePhase) -> bool {
    match phase {
        PastePhase::CheckSensitive
        | PastePhase::Backup
        | PastePhase::Write
        | PastePhase::FallbackBackup
        | PastePhase::FallbackWrite => true,
        PastePhase::Finished(ending) => ending == Ending::Refused,
        _ => false,
    }
}

proof fn shorter_run(start: FlowView, states: Seq<FlowView>, events: Seq<PasteEvent>)
    requires
        is_run(start, states, events),
        events.len() > 0,
    ensures
        is_run(start, states.drop_last(), events.drop_last()),
        states.drop_last().last() == states[events.len() - 1],
        states.last() == states[events.len() - 1].next(events[events.len() - 1]),
{
    assert forall|i: int| 0 <= i < events.drop_last().len() implies states.drop_last()[i + 1]
        == states.drop_last()[i].next(#[trigger] events.drop_last()[i]) by {
        assert(events.drop_last()[i] == events[i]);
    }
}

/// In every state of a round trip the text to write is the one that it began with.
pub proof fn text_is_kept(text: Seq<char>, states: Seq<FlowView>, events: Seq<PasteEvent>)
    requires
        is_run(FlowView::begin(text), states, events),
    ensures
        states.last().text == text,
    decreases events.len(),
{
    if events.len() > 0 {
        shorter_run(FlowView::begin(text), states, events);
        text_is_kept(text, states.drop_last(), events.drop_last());
    }
}

/// A refused round trip has not touched the clipboard: in no step of it was the text put there.
pub proof fn refused_means_untouched(
    text: Seq<char>,
    states: Seq<FlowView>,
    events: Seq<PasteEvent>,
)
    requires
        is_run(FlowView::begin(text), states, events),
        untouched(states.last().phase),
    ensures
        forall|i: int| 0 <= i < events.len() ==> !writes(states[i], #[trigger] events[i]),
    decreases events.len(),
{
    if events.len() > 0 {
        let start = FlowView::begin(text);
        shorter_run(start, states, events);
        let head = states.drop_last();
        let ev = events.drop_last();
        assert(untouched(head.last().phase));
        refused_means_untouched(text, head, ev);
        assert forall|i: int| 0 <= i < events.len() implies !writes(
            states[i],
            #[trigger] events[i],
        ) by {
            if i < ev.len() {
                assert(ev[i] == events[i]);
                assert(head[i] == states[i]);
            }
        }
    }
}

/// The clipboard was backed up in this step, as the snapshot `s`.
pub open spec fn backed_up_as(state: FlowView, event: PasteEvent, s: SnapshotView) -> bool {
    state.phase == PastePhase::Backup && (event matches PasteEvent::BackedUp {
        snapshot,
        protocol_missing,
    } && !protocol_missing && snapshot@ == s)
}

/// The phases that follow a backup without the fallback.
pub open spec fn after_backup(phase: PastePhase) -> bool {
    match phase {
        PastePhase::Write | PastePhase::Press | PastePhase::Restore => true,
        PastePhase::Finished(ending) => ending == Ending::Kept,
        _ => false,
    }
}

/// The step in which the snapshot of a run was taken.
proof fn snapshot_is_the_backup(text: Seq<char>, states: Seq<FlowView>, events: Seq<PasteEvent>)
    -> (b: int)
    requires
        is_run(FlowView::begin(text), states, events),
        after_backup(states.last().phase),
    ensures
        0 <= b < events.len(),
        backed_up_as(states[b], events[b], states.last().snapshot),
    decreases events.len(),
{
    assert(events.len() > 0);
    shorter_run(FlowView::begin(text), states, events);
    let head = states.drop_last();
    let ev = events.drop_last();
    if after_backup(head.last().phase) {
        let b = snapshot_is_the_backup(text, head, ev);
        assert(ev[b] == events[b]);
        assert(head[b] == states[b]);
        b
    } else {
        events.len() - 1
    }
}

/// A round trip that kept a clipboard with something on it has restored it: what was restored
/// is the snapshot that the backup took.
pub proof fn kept_means_restored(text: Seq<char>, states: Seq<FlowView>, events: Seq<PasteEvent>)
    requires
        is_run(FlowView::begin(text), states, events),
        states.last().phase == PastePhase::Finished(Ending::Kept),
        states.last().snapshot.had_content,
    ensures
        exists|b: int, i: int|
            0 <= b < i < events.len() && states[i].phase == PastePhase::Restore
                && #[trigger] events[i] is Restored && backed_up_as(
                states[b],
                #[trigger] events[b],
                states[i].snapshot,
            ) && states[i].snapshot == states.last().snapshot,
    decreases events.len(),
{
    let start = FlowView::begin(text);
    assert(events.len() > 0);
    shorter_run(start, states, events);
    let head = states.drop_last();
    let ev = events.drop_last();
    if head.last().phase == PastePhase::Finished(Ending::Kept) {
        kept_means_restored(text, head, ev);
        let (b, i) = choose|b: int, i: int|
            0 <= b < i < ev.len() && head[i].phase == PastePhase::Restore && #[trigger] ev[i]
                is Restored && backed_up_as(head[b], #[trigger] ev[b], head[i].snapshot)
                && head[i].snapshot == head.last().snapshot;
        assert(events[i] == ev[i] && events[b] == ev[b]);
        assert(states[i] == head[i] && states[b] == head[b]);
    } else {
        let i = events.len() - 1;
        assert(events[i] is Restored && states[i].phase == PastePhase::Restore);
        let b = snapshot_is_the_backup(text, head, ev);
        assert(events[b] == ev[b] && states[b] == head[b]);
    }
}

proof fn backup_is_what_is_restored(
    start: FlowView,
    states: Seq<FlowView>,
    events: Seq<PasteEvent>,
    k: int,
    s: SnapshotView,
)
    requires
        is_run(start, states, events),
        0 <= k < events.len(),
        backed_up_as(states[k], events[k], s),
    ensures
        states.last().phase != PastePhase::CheckSensitive,
        states.last().phase != PastePhase::Backup,
        after_backup(states.last().phase) ==> states.last().snapshot == s,
        states.last().phase == PastePhase::Finished(Ending::Kept) && s.had_content ==> exists|
            j: int,
        |
            k < j < events.len() && #[trigger] events[j] is Restored && states[j].phase
                == PastePhase::Restore && states[j].snapshot == s,
    decreases events.len(),
{
    shorter_run(start, states, events);
    let n = events.len() - 1;
    if k < n {
        let head = states.drop_last();
        let ev = events.drop_last();
        assert(ev[k] == events[k] && head[k] == states[k]);
        backup_is_what_is_restored(start, head, ev, k, s);
        if states.last().phase == PastePhase::Finished(Ending::Kept) && s.had_content {
            if head.last().phase == PastePhase::Finished(Ending::Kept) {
                let j = choose|j: int|
                    k < j < ev.len() && #[trigger] ev[j] is Restored && head[j].phase
                        == PastePhase::Restore && head[j].snapshot == s;
                assert(events[j] == ev[j] && states[j] == head[j]);
            } else {
                assert(events[n] is Restored && states[n].phase == PastePhase::Restore);
            }
        }
    }
}

/// A round trip that read any type of the clipboard ends well only after that type, with its
/// bytes, was offered again.
pub proof fn what_was_read_is_restored(
    text: Seq<char>,
    states: Seq<FlowView>,
    events: Seq<PasteEvent>,
    k: int,
    types: Vec<String>,
    reads: Seq<ReadOutcome>,
    i: int,
    data: Vec<u8>,
)
    requires
        is_run(FlowView::begin(text), states, events),
        0 <= k < events.len(),
        backed_up_as(states[k], events[k], backed_up(Some(types), reads)),
        reads.len() == types@.len(),
        forall|n: int| 0 <= n < types@.len() ==> #[trigger] types@[n]@
            != "x-kde-passwordManagerHint"@,
        0 <= i < reads.len(),
        reads[i] == ReadOutcome::Read(data),
        states.last().outcome() matches Some(o) && (o is Done || o is Partial),
    ensures
        exists|j: int|
            k < j < events.len() && #[trigger] events[j] is Restored && states[j].phase
                == PastePhase::Restore && states[j].snapshot.had_content
                && states[j].snapshot.sources.contains((types@[i]@, data@)),
{
    let s = backed_up(Some(types), reads);
    what_was_read_is_content(types, reads);
    assert(reads[i] is Read);
    backup_is_what_is_restored(FlowView::begin(text), states, events, k, s);
    let j = choose|j: int|
        k < j < events.len() && #[trigger] events[j] is Restored && states[j].phase
            == PastePhase::Restore && states[j].snapshot == s;
    assert(states[j].snapshot.sources.contains((types@[i]@, data@)));
}

/// The phases in which the text has been put on the clipboard.
pub open spec fn text_written(phase: PastePhase) -> bool {
    match phase {
        PastePhase::Press
        | PastePhase::Restore
        | PastePhase::FallbackPress
        | PastePhase::FallbackRestore => true,
        PastePhase::Finished(ending) => ending != Ending::Refused,
        _ => false,
    }
}

/// The phases in which the paste shortcut has been pressed.
pub open spec fn shortcut_pressed(phase: PastePhase) -> bool {
    match phase {
        PastePhase::Restore | PastePhase::FallbackRestore => true,
        PastePhase::Finished(ending) => ending != Ending::Refused,
        _ => false,
    }
}

/// A round trip that was not refused has put the text on the clipboard, and pressed the paste
/// shortcut after that.
pub proof fn success_means_pasted(text: Seq<char>, states: Seq<FlowView>, events: Seq<PasteEvent>)
    requires
        is_run(FlowView::begin(text), states, events),
    ensures
        text_written(states.last().phase) ==> exists|w: int|
            0 <= w < events.len() && writes(states[w], #[trigger] events[w]),
        shortcut_pressed(states.last().phase) ==> exists|w: int, p: int|
            0 <= w < p < events.len() && writes(states[w], #[trigger] events[w])
                && #[trigger] events[p] is Pressed,
    decreases events.len(),
{
    if events.len() > 0 {
        let n = events.len() - 1;
        shorter_run(FlowView::begin(text), states, events);
        let head = states.drop_last();
        let ev = events.drop_last();
        success_means_pasted(text, head, ev);
        if text_written(states.last().phase) {
            if text_written(head.last().phase) {
                let w = choose|w: int| 0 <= w < ev.len() && writes(head[w], #[trigger] ev[w]);
                assert(writes(states[w], events[w]));
                if shortcut_pressed(states.last().phase) {
                    if shortcut_pressed(head.last().phase) {
                        let (a, b) = choose|a: int, b: int|
                            0 <= a < b < ev.len() && writes(head[a], #[trigger] ev[a])
                                && #[trigger] ev[b] is Pressed;
                        assert(events[a] == ev[a] && events[b] == ev[b] && states[a] == head[a]);
                    } else {
                        assert(events[n] is Pressed);
                    }
                }
            } else {
                assert(writes(states[n], events[n]));
            }
        }
    }
}

/// An undisturbed round trip, for any text and any snapshot: nothing is said to the user but
/// the types that were skipped, and a clipboard with something on it is restored in between.
pub proof fn undisturbed_round_trip(text: Seq<char>, snapshot: ClipboardSnapshot)
    requires
        text.len() > 0,
    ensures
        ({
            let listed = FlowView::begin(text).next(
                PasteEvent::SensitiveChecked { present: false },
            );
            let pressed = listed.next(
                PasteEvent::BackedUp { snapshot, protocol_missing: false },
            ).next(PasteEvent::Written).next(PasteEvent::Pressed);
            let end = if snapshot@.had_content {
                pressed.next(PasteEvent::Restored)
            } else {
                pressed
            };
            &&& FlowView::begin(text).phase == PastePhase::CheckSensitive
            &&& listed.phase == PastePhase::Backup
            &&& snapshot@.had_content ==> pressed.phase == PastePhase::Restore
                && pressed.outcome() is None
            &&& snapshot@.skipped.len() == 0 ==> end.outcome() == Some(OutcomeView::Done)
            &&& snapshot@.skipped.len() > 0 ==> end.outcome() == Some(
                OutcomeView::Partial(snapshot@.skipped),
            )
        }),
{
}

/// Where the protocol is missing, at the backup or at the write, the round trip goes on with
/// the tools and says why it could not keep every type. A clipboard with something on it is
/// restored in between.
pub proof fn fallback_round_trip(
    text: Seq<char>,
    lost: ClipboardSnapshot,
    e: CopyError,
    snapshot: ClipboardSnapshot,
    at_backup: bool,
)
    requires
        text.len() > 0,
        e is MissingProtocol || e is WaylandConnection,
    ensures
        ({
            let listed = FlowView::begin(text).next(
                PasteEvent::SensitiveChecked { present: false },
            );
            let fallen = if at_backup {
                listed.next(PasteEvent::BackedUp { snapshot: lost, protocol_missing: true })
            } else {
                listed.next(
                    PasteEvent::BackedUp { snapshot: lost, protocol_missing: false },
                ).next(PasteEvent::WriteFailed(e))
            };
            let pressed = fallen.next(PasteEvent::FallbackBackedUp { snapshot }).next(
                PasteEvent::Written,
            ).next(PasteEvent::Pressed);
            let end = if snapshot@.had_content {
                pressed.next(PasteEvent::Restored)
            } else {
                pressed
            };
            let why = if at_backup {
                "wlr-data-control / ext-data-control not available"@
            } else {
                match e {
                    CopyError::MissingProtocol { name, version } => "compositor missing "@ + name@
                        + " v"@ + strings::decimal(version as nat),
                    _ => "could not connect to Wayland server"@,
                }
            };
            &&& fallen.phase == PastePhase::FallbackBackup
            &&& snapshot@.had_content ==> pressed.phase == PastePhase::FallbackRestore
                && pressed.snapshot == snapshot@ && pressed.outcome() is None
            &&& end.outcome() == Some(OutcomeView::FallbackSingleMime(why))
        }),
{
}

/// What the user is told when the text could not be put on the clipboard, or the clipboard
/// could not be restored.
pub proof fn failures_are_told(
    text: Seq<char>,
    snapshot: ClipboardSnapshot,
    fallback: ClipboardSnapshot,
    e: String,
)
    requires
        text.len() > 0,
    ensures
        ({
            let backed_up = FlowView::begin(text).next(
                PasteEvent::SensitiveChecked { present: false },
            ).next(PasteEvent::BackedUp { snapshot, protocol_missing: false });
            let written = backed_up.next(PasteEvent::Written).next(PasteEvent::Pressed);
            let other = FlowView::begin(text).next(
                PasteEvent::SensitiveChecked { present: false },
            ).next(PasteEvent::BackedUp { snapshot, protocol_missing: true }).next(
                PasteEvent::FallbackBackedUp { snapshot: fallback },
            );
            &&& backed_up.next(PasteEvent::WriteFailed(CopyError::Other(e))).outcome() == Some(
                OutcomeView::Refused("wl-clipboard-rs copy failed: "@ + e@),
            )
            &&& other.next(PasteEvent::FallbackWriteFailed(e)).outcome() == Some(
                OutcomeView::Refused("wl-copy fallback write failed: "@ + e@),
            )
            &&& snapshot@.had_content ==> written.next(
                PasteEvent::RestoreFailed(CopyError::Other(e)),
            ).outcome() == Some(OutcomeView::FallbackSingleMime(e@))
            &&& FlowView::begin(Seq::<char>::empty()).outcome() == Some(
                OutcomeView::Refused("transcription is empty"@),
            )
        }),
{
}

/// A round trip goes on only with what came of the operation that its phase asked for: each
/// other event leaves it as it was.
pub proof fn other_events_change_nothing(state: FlowView, event: PasteEvent)
    requires
        match state.phase {
            PastePhase::CheckSensitive => !(event is SensitiveChecked),
            PastePhase::Backup => !(event is SensitiveChecked) && !(event is BackedUp),
            PastePhase::Write => !(event is Written) && !(event is WriteFailed),
            PastePhase::Press | PastePhase::FallbackPress => !(event is Pressed),
            PastePhase::Restore => !(event is Restored) && !(event is RestoreFailed),
            PastePhase::FallbackBackup => !(event is FallbackSensitive) && !(event
                is FallbackBackedUp),
            PastePhase::FallbackWrite => !(event is Written) && !(event is FallbackWriteFailed),
            PastePhase::FallbackRestore => !(event is Restored),
            PastePhase::Finished(_) => true,
        },
    ensures
        state.next(event) == state,
{
}

/// An ended round trip stays as it ended, and nothing about it is told before its end.
pub proof fn endings_are_final(state: FlowView, event: PasteEvent)
    ensures
        state.outcome() is Some ==> state.next(event) == state,
        state.outcome() is Some <==> state.phase is Finished,
        state.next(event).text == state.text,
{
}

/// The fallback reads the first of the listed types, and none of a clipboard with a password
/// on it.
pub proof fn fallback_reads_the_first_type(types: Seq<Seq<char>>)
    ensures
        primary(types) is Some <==> types.len() > 0 && !types.contains(
            "x-kde-passwordManagerHint"@,
        ),
        primary(types) matches Some(t) ==> t == types[0],
{
}

/// The types that are listed are the lines that are not blank, in order, without white space
/// around them.
pub proof fn listed_types_are_the_lines(a: Seq<Seq<char>>, b: Seq<Seq<char>>)
    ensures
        listed(a + b) == listed(a) + listed(b),
        b.len() == 1 && strings::blank(b[0]) ==> listed(b).len() == 0,
        b.len() == 1 && !strings::blank(b[0]) ==> listed(b) == seq![strings::trim(b[0])],
    decreases b.len(),
{
    if b.len() == 0 {
        assert(a + b =~= a);
        assert(listed(a) + listed(b) =~= listed(a));
    } else {
        listed_types_are_the_lines(a, b.drop_last());
        assert((a + b).drop_last() =~= a + b.drop_last());
        assert(listed(a + b) =~= listed(a) + listed(b));
        strings::blank_iff_trim_empty(b.last());
        if b.len() == 1 {
            assert(listed(b.drop_last()).len() == 0);
        }
    }
}

/// The size of a backup is the sum over its sources, and no source is larger than the largest,
/// which is the size of one of them.
pub proof fn backup_sizes(v: Seq<MimeSourceEntry>, e: MimeSourceEntry)
    ensures
        total_bytes(v.push(e)) == total_bytes(v) + e.data@.len(),
        total_bytes(seq![]) == 0,
        forall|i: int| 0 <= i < v.len() ==> #[trigger] v[i].data@.len() <= largest_bytes(v),
        v.len() > 0 ==> exists|i: int|
            0 <= i < v.len() && #[trigger] v[i].data@.len() == largest_bytes(v),
        v.len() == 0 ==> largest_bytes(v) == 0,
    decreases v.len(),
{
    assert(v.push(e).drop_last() =~= v);
    if v.len() > 0 {
        let t = v.drop_last();
        backup_sizes(t, e);
        assert forall|i: int| 0 <= i < v.len() implies #[trigger] v[i].data@.len()
            <= largest_bytes(v) by {
            if i < t.len() {
                assert(t[i] == v[i]);
            }
        }
        if v.last().data@.len() > largest_bytes(t) || t.len() == 0 {
            assert(v[v.len() - 1].data@.len() == largest_bytes(v));
        } else {
            let i = choose|i: int|
                0 <= i < t.len() && #[trigger] t[i].data@.len() == largest_bytes(t);
            assert(v[i].data@.len() == largest_bytes(v));
        }
    }
}

/// The clipboard is restored 150 milliseconds after the paste, and one type may take a second
/// and a half to read.
pub proof fn clipboard_delays()
    ensures
        RESTORE_DELAY_MS == 150,
        PER_MIME_READ_DEADLINE_MS == 1500,
{
}

/// A listing of the clipboard showed a password in this step: the first one, the one of the
/// backup, or that of the fallback.
pub open spec fn password_seen(state: FlowView, event: PasteEvent) -> bool {
    match state.phase {
        PastePhase::CheckSensitive | PastePhase::Backup =>
            event matches PasteEvent::SensitiveChecked { present } && present,
        PastePhase::FallbackBackup => event is FallbackSensitive,
        _ => false,
    }
}

proof fn password_ends_the_run(
    text: Seq<char>,
    states: Seq<FlowView>,
    events: Seq<PasteEvent>,
    k: int,
)
    requires
        is_run(FlowView::begin(text), states, events),
        0 <= k < events.len(),
        password_seen(states[k], events[k]),
    ensures
        states.last().phase == PastePhase::Finished(Ending::Refused),
        states.last().reason == "clipboard contains "@ + SENSITIVE_MIME@,
    decreases events.len(),
{
    shorter_run(FlowView::begin(text), states, events);
    if k < events.len() - 1 {
        let head = states.drop_last();
        let ev = events.drop_last();
        assert(ev[k] == events[k] && head[k] == states[k]);
        password_ends_the_run(text, head, ev, k);
    }
}

/// A password is never overwritten: once a listing showed one, with the data-control protocol
/// or with `wl-paste`, the round trip is refused, and in no step of it was the text put on the
/// clipboard.
pub proof fn passwords_are_never_overwritten(
    text: Seq<char>,
    states: Seq<FlowView>,
    events: Seq<PasteEvent>,
    k: int,
)
    requires
        is_run(FlowView::begin(text), states, events),
        0 <= k < events.len(),
        password_seen(states[k], events[k]),
    ensures
        states.last().outcome() == Some(
            OutcomeView::Refused("clipboard contains "@ + SENSITIVE_MIME@),
        ),
        forall|i: int| 0 <= i < events.len() ==> !writes(states[i], #[trigger] events[i]),
{
    password_ends_the_run(text, states, events, k);
    refused_means_untouched(text, states, events);
}

/// A clipboard that is marked as holding a password is left alone: the round trip is refused.
pub proof fn passwords_refuse_the_round_trip(text: Seq<char>)
    requires
        text.len() > 0,
    ensures
        FlowView::begin(text).next(PasteEvent::SensitiveChecked { present: true }).outcome()
            matches Some(OutcomeView::Refused(_)),
{
}

} // verus!
