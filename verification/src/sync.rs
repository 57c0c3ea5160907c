//! A sync, step by step: the sheet is fetched, written to the working tree, committed, and
//! announced if there is a key for it.
//!
//! The run decides what is to be done next; whoever drives it does that and tells the run what
//! came of it.
use vstd::prelude::*;

use crate::announce::{
    announced, key_error, prepare_announcement, prepare_note, AnnouncementModel, RepoAnnouncement,
};
use crate::config::{relay_list, resolve_relays};
use crate::snapshot::{
    commit_text, meta_file, note_text, render_commit_message, render_meta_file, snapshot_of,
    snapshot_result_view, take_snapshot, Snapshot, SnapshotModel, SNAPSHOT_CSV, SNAPSHOT_DIR,
    SNAPSHOT_META,
};
use crate::text::{optional_string, texts};

verus! {

/// The error of a repository without a working tree.
pub const BARE_REPOSITORY: &'static str = "repository must not be bare";

/// The error of an event that the run did not ask for.
pub const OUT_OF_STEP: &'static str = "sync is out of step";

/// The name under which a commit is made where git knows no other.
pub const FALLBACK_NAME: &'static str = "Start Small Bot";

/// The address that goes with that name.
pub const FALLBACK_EMAIL: &'static str = "start-small-bot@example.com";

/// What a sync has come to.
pub struct SyncResult {
    /// The sheet as it was fetched.
    pub snapshot: Snapshot,
    /// The commit that records it.
    pub commit_id: String,
    /// Whether a commit was made.
    pub changed: bool,
    /// The note that announces it, if one was published.
    pub nostr_event_id: Option<String>,
    /// The announcement of the repository, if one was published.
    pub nip34_event_id: Option<String>,
}

/// What a sync has come to, by its characters.
pub struct SyncResultModel {
    pub snapshot: SnapshotModel,
    pub commit_id: Seq<char>,
    pub changed: bool,
    pub nostr_event_id: Option<Seq<char>>,
    pub nip34_event_id: Option<Seq<char>>,
}

impl View for SyncResult {
    type V = SyncResultModel;

    open spec fn view(&self) -> SyncResultModel {
        SyncResultModel {
            snapshot: self.snapshot@,
            commit_id: self.commit_id@,
            changed: self.changed,
            nostr_event_id: optional_string(self.nostr_event_id),
            nip34_event_id: optional_string(self.nip34_event_id),
        }
    }
}

/// The steps by which a snapshot is written to the working tree and committed.
#[derive(Clone, Copy, PartialEq, Eq, Structural)]
pub enum Stage {
    Discover,
    MakeDir,
    WriteCsv,
    WriteMeta,
    OpenIndex,
    AddCsv,
    AddMeta,
    WriteIndex,
    WriteTree,
    FindTree,
    ReadSignature,
    MakeSignature,
    ReadHead,
    PeelHead,
    FirstCommit,
    NextCommit,
}

/// Where a run stands, and what it has learned so far.
pub enum Phase {
    /// The sheet is being fetched.
    Fetch,
    /// The clock is being read.
    Clock { snapshot: Snapshot },
    /// The snapshot is being written and committed.
    Record { stage: Stage, snapshot: Snapshot, time: u128 },
    /// The note is being published.
    Note { snapshot: Snapshot, commit_id: String },
    /// The repository is being looked at for its announcement.
    Survey { snapshot: Snapshot, commit_id: String, note_id: String },
    /// The announcement of the repository is being published.
    Announcement { snapshot: Snapshot, commit_id: String, note_id: String },
    /// There is nothing left to do.
    Over,
}

/// Where a run stands, by its characters.
pub enum PhaseModel {
    Fetch,
    Clock { snapshot: SnapshotModel },
    Record { stage: Stage, snapshot: SnapshotModel, time: nat },
    Note { snapshot: SnapshotModel, commit_id: Seq<char> },
    Survey { snapshot: SnapshotModel, commit_id: Seq<char>, note_id: Seq<char> },
    Announcement { snapshot: SnapshotModel, commit_id: Seq<char>, note_id: Seq<char> },
    Over,
}

impl View for Phase {
    type V = PhaseModel;

    open spec fn view(&self) -> PhaseModel {
        match self {
            Phase::Fetch => PhaseModel::Fetch,
            Phase::Clock { snapshot } => PhaseModel::Clock { snapshot: snapshot@ },
            Phase::Record { stage, snapshot, time } => PhaseModel::Record {
                stage: *stage,
                snapshot: snapshot@,
                time: *time as nat,
            },
            Phase::Note { snapshot, commit_id } => PhaseModel::Note {
                snapshot: snapshot@,
                commit_id: commit_id@,
            },
            Phase::Survey { snapshot, commit_id, note_id } => PhaseModel::Survey {
                snapshot: snapshot@,
                commit_id: commit_id@,
                note_id: note_id@,
            },
            Phase::Announcement { snapshot, commit_id, note_id } => PhaseModel::Announcement {
                snapshot: snapshot@,
                commit_id: commit_id@,
                note_id: note_id@,
            },
            Phase::Over => PhaseModel::Over,
        }
    }
}

/// What is to be done next.
pub enum SyncAction {
    /// Fetch the sheet.
    Fetch { url: String },
    /// Read the clock, in nanoseconds since the epoch.
    ReadClock,
    /// Find the repository, and say whether it has a working tree.
    DiscoverRepository,
    /// Make a directory in the working tree, with those above it.
    CreateDir { path: String },
    /// Write a file in the working tree.
    WriteFile { path: String, contents: String },
    /// Open the index.
    OpenIndex,
    /// Add a file to the index.
    AddToIndex { path: String },
    /// Write the index.
    WriteIndex,
    /// Write the index as a tree.
    WriteTree,
    /// Look the tree up.
    FindTree,
    /// Take the signature that git is set up with.
    ReadSignature,
    /// Make a signature of this name and address.
    MakeSignature { name: String, email: String },
    /// Look up what `HEAD` points to.
    ReadHead,
    /// Look up the commit that `HEAD` points to.
    PeelHead,
    /// Commit the tree to `HEAD`, on top of the commit that it points to or as the first.
    Commit { message: String, on_head: bool },
    /// Publish a note to the relays.
    PublishNote { privkey: String, content: String, relays: Vec<String> },
    /// Read the `CNAME` file and the address of the remote `origin`.
    ReadRepository,
    /// Publish the announcement of the repository to the relays.
    PublishAnnouncement { privkey: String, announcement: RepoAnnouncement, relays: Vec<String> },
    /// The sync is done.
    Finish { result: SyncResult },
    /// The sync has failed.
    Fail { message: String },
}

/// What is to be done next, by its characters.
pub enum ActionModel {
    Fetch { url: Seq<char> },
    ReadClock,
    DiscoverRepository,
    CreateDir { path: Seq<char> },
    WriteFile { path: Seq<char>, contents: Seq<char> },
    OpenIndex,
    AddToIndex { path: Seq<char> },
    WriteIndex,
    WriteTree,
    FindTree,
    ReadSignature,
    MakeSignature { name: Seq<char>, email: Seq<char> },
    ReadHead,
    PeelHead,
    Commit { message: Seq<char>, on_head: bool },
    PublishNote { privkey: Seq<char>, content: Seq<char>, relays: Seq<Seq<char>> },
    ReadRepository,
    PublishAnnouncement {
        privkey: Seq<char>,
        announcement: AnnouncementModel,
        relays: Seq<Seq<char>>,
    },
    Finish { result: SyncResultModel },
    Fail { message: Seq<char> },
}

impl View for SyncAction {
    type V = ActionModel;

    open spec fn view(&self) -> ActionModel {
        match self {
            SyncAction::Fetch { url } => ActionModel::Fetch { url: url@ },
            SyncAction::ReadClock => ActionModel::ReadClock,
            SyncAction::DiscoverRepository => ActionModel::DiscoverRepository,
            SyncAction::CreateDir { path } => ActionModel::CreateDir { path: path@ },
            SyncAction::WriteFile { path, contents } => ActionModel::WriteFile {
                path: path@,
                contents: contents@,
            },
            SyncAction::OpenIndex => ActionModel::OpenIndex,
            SyncAction::AddToIndex { path } => ActionModel::AddToIndex { path: path@ },
            SyncAction::WriteIndex => ActionModel::WriteIndex,
            SyncAction::WriteTree => ActionModel::WriteTree,
            SyncAction::FindTree => ActionModel::FindTree,
            SyncAction::ReadSignature => ActionModel::ReadSignature,
            SyncAction::MakeSignature { name, email } => ActionModel::MakeSignature {
                name: name@,
                email: email@,
            },
            SyncAction::ReadHead => ActionModel::ReadHead,
            SyncAction::PeelHead => ActionModel::PeelHead,
            SyncAction::Commit { message, on_head } => ActionModel::Commit {
                message: message@,
                on_head: *on_head,
            },
            SyncAction::PublishNote { privkey, content, relays } => ActionModel::PublishNote {
                privkey: privkey@,
                content: content@,
                relays: texts(relays@),
            },
            SyncAction::ReadRepository => ActionModel::ReadRepository,
            SyncAction::PublishAnnouncement { privkey, announcement, relays } => {
                ActionModel::PublishAnnouncement {
                    privkey: privkey@,
                    announcement: announcement@,
                    relays: texts(relays@),
                }
            },
            SyncAction::Finish { result } => ActionModel::Finish { result: result@ },
            SyncAction::Fail { message } => ActionModel::Fail { message: message@ },
        }
    }
}

/// What came of the action.
pub enum SyncEvent {
    /// It was done.
    Done,
    /// The sheet, as it was fetched.
    Body { text: String },
    /// The time, in nanoseconds since the epoch.
    Time { unix_ns: u128 },
    /// The repository was found.
    Repository { bare: bool },
    /// The commit was made.
    Committed { id: String },
    /// The event was published.
    Published { id: String },
    /// What the repository says of itself.
    Surveyed { cname: Option<String>, origin: Option<String> },
    /// It failed.
    Failed { message: String },
}

/// What came of the action, by its characters.
pub enum EventModel {
    Done,
    Body { text: Seq<char> },
    Time { unix_ns: nat },
    Repository { bare: bool },
    Committed { id: Seq<char> },
    Published { id: Seq<char> },
    Surveyed { cname: Option<Seq<char>>, origin: Option<Seq<char>> },
    Failed { message: Seq<char> },
}

impl View for SyncEvent {
    type V = EventModel;

    open spec fn view(&self) -> EventModel {
        match self {
            SyncEvent::Done => EventModel::Done,
            SyncEvent::Body { text } => EventModel::Body { text: text@ },
            SyncEvent::Time { unix_ns } => EventModel::Time { unix_ns: *unix_ns as nat },
            SyncEvent::Repository { bare } => EventModel::Repository { bare: *bare },
            SyncEvent::Committed { id } => EventModel::Committed { id: id@ },
            SyncEvent::Published { id } => EventModel::Published { id: id@ },
            SyncEvent::Surveyed { cname, origin } => EventModel::Surveyed {
                cname: optional_string(*cname),
                origin: optional_string(*origin),
            },
            SyncEvent::Failed { message } => EventModel::Failed { message: message@ },
        }
    }
}

/// What a run is asked for.
pub struct SyncRequest {
    /// The address of the sheet.
    pub url: String,
    /// The private key to publish under, if any.
    pub privkey: Option<String>,
    /// The relays that were named, if any.
    pub relays: Option<String>,
}

/// What a run is asked for, by its characters.
pub struct RequestModel {
    pub url: Seq<char>,
    pub privkey: Option<Seq<char>>,
    pub relays: Option<Seq<char>>,
}

impl View for SyncRequest {
    type V = RequestModel;

    open spec fn view(&self) -> RequestModel {
        RequestModel {
            url: self.url@,
            privkey: optional_string(self.privkey),
            relays: optional_string(self.relays),
        }
    }
}

/// A phase and an action, by their characters.
pub open spec fn step_view(step: (Phase, SyncAction)) -> (PhaseModel, ActionModel) {
    (step.0@, step.1@)
}

/// The run has failed.
pub open spec fn failed(message: Seq<char>) -> (PhaseModel, ActionModel) {
    (PhaseModel::Over, ActionModel::Fail { message })
}

/// What is to be done at a stage.
pub open spec fn stage_action(
    url: Seq<char>,
    stage: Stage,
    snapshot: SnapshotModel,
    time: nat,
) -> ActionModel {
    match stage {
        Stage::Discover => ActionModel::DiscoverRepository,
        Stage::MakeDir => ActionModel::CreateDir { path: SNAPSHOT_DIR@ },
        Stage::WriteCsv => ActionModel::WriteFile { path: SNAPSHOT_CSV@, contents: snapshot.csv },
        Stage::WriteMeta => ActionModel::WriteFile {
            path: SNAPSHOT_META@,
            contents: meta_file(snapshot.meta, time),
        },
        Stage::OpenIndex => ActionModel::OpenIndex,
        Stage::AddCsv => ActionModel::AddToIndex { path: SNAPSHOT_CSV@ },
        Stage::AddMeta => ActionModel::AddToIndex { path: SNAPSHOT_META@ },
        Stage::WriteIndex => ActionModel::WriteIndex,
        Stage::WriteTree => ActionModel::WriteTree,
        Stage::FindTree => ActionModel::FindTree,
        Stage::ReadSignature => ActionModel::ReadSignature,
        Stage::MakeSignature => ActionModel::MakeSignature {
            name: FALLBACK_NAME@,
            email: FALLBACK_EMAIL@,
        },
        Stage::ReadHead => ActionModel::ReadHead,
        Stage::PeelHead => ActionModel::PeelHead,
        Stage::FirstCommit => ActionModel::Commit {
            message: commit_text(snapshot.sha256, snapshot.rows, url, time),
            on_head: false,
        },
        Stage::NextCommit => ActionModel::Commit {
            message: commit_text(snapshot.sha256, snapshot.rows, url, time),
            on_head: true,
        },
    }
}

/// The stage is entered.
pub open spec fn entered(
    url: Seq<char>,
    stage: Stage,
    snapshot: SnapshotModel,
    time: nat,
) -> (PhaseModel, ActionModel) {
    (PhaseModel::Record { stage, snapshot, time }, stage_action(url, stage, snapshot, time))
}

/// The stage that follows when what was to be done is done.
pub open spec fn stage_after(stage: Stage) -> Option<Stage> {
    match stage {
        Stage::Discover => None,
        Stage::MakeDir => Some(Stage::WriteCsv),
        Stage::WriteCsv => Some(Stage::WriteMeta),
        Stage::WriteMeta => Some(Stage::OpenIndex),
        Stage::OpenIndex => Some(Stage::AddCsv),
        Stage::AddCsv => Some(Stage::AddMeta),
        Stage::AddMeta => Some(Stage::WriteIndex),
        Stage::WriteIndex => Some(Stage::WriteTree),
        Stage::WriteTree => Some(Stage::FindTree),
        Stage::FindTree => Some(Stage::ReadSignature),
        Stage::ReadSignature => Some(Stage::ReadHead),
        Stage::MakeSignature => Some(Stage::ReadHead),
        Stage::ReadHead => Some(Stage::PeelHead),
        Stage::PeelHead => Some(Stage::NextCommit),
        Stage::FirstCommit => None,
        Stage::NextCommit => None,
    }
}

/// The stage that follows when what was to be done fails but can do without: a signature of our
/// own where git has none, a first commit where there is no `HEAD`.
pub open spec fn stage_instead(stage: Stage) -> Option<Stage> {
    match stage {
        Stage::ReadSignature => Some(Stage::MakeSignature),
        Stage::ReadHead => Some(Stage::FirstCommit),
        _ => None,
    }
}

/// What follows the snapshot, or the error in the sheet.
pub open spec fn after_fetch(taken: Result<SnapshotModel, Seq<char>>) -> (PhaseModel, ActionModel) {
    match taken {
        Ok(snapshot) => (PhaseModel::Clock { snapshot }, ActionModel::ReadClock),
        Err(message) => failed(message),
    }
}

/// The run is done without having published anything.
pub open spec fn unannounced(snapshot: SnapshotModel, commit_id: Seq<char>) -> (
    PhaseModel,
    ActionModel,
) {
    (
        PhaseModel::Over,
        ActionModel::Finish {
            result: SyncResultModel {
                snapshot,
                commit_id,
                changed: true,
                nostr_event_id: None,
                nip34_event_id: None,
            },
        },
    )
}

/// What follows the commit: the note, if there is a key that can be used.
pub open spec fn after_commit(
    request: RequestModel,
    snapshot: SnapshotModel,
    commit_id: Seq<char>,
) -> (PhaseModel, ActionModel) {
    match request.privkey {
        None => unannounced(snapshot, commit_id),
        Some(privkey) => match key_error(privkey) {
            Some(message) => failed(message),
            None => (
                PhaseModel::Note { snapshot, commit_id },
                ActionModel::PublishNote {
                    privkey,
                    content: note_text(commit_id, snapshot.sha256, snapshot.rows, request.url),
                    relays: relay_list(request.relays),
                },
            ),
        },
    }
}

/// What follows the look at the repository: its announcement.
pub open spec fn after_survey(
    request: RequestModel,
    snapshot: SnapshotModel,
    commit_id: Seq<char>,
    note_id: Seq<char>,
    cname: Option<Seq<char>>,
    origin: Option<Seq<char>>,
) -> (PhaseModel, ActionModel) {
    match request.privkey {
        None => failed(OUT_OF_STEP@),
        Some(privkey) => match key_error(privkey) {
            Some(message) => failed(message),
            None => (
                PhaseModel::Announcement { snapshot, commit_id, note_id },
                ActionModel::PublishAnnouncement {
                    privkey,
                    announcement: announced(cname, origin, request.relays),
                    relays: relay_list(request.relays),
                },
            ),
        },
    }
}

/// What follows at a stage.
pub open spec fn after_stage(
    request: RequestModel,
    stage: Stage,
    snapshot: SnapshotModel,
    time: nat,
    event: EventModel,
) -> (PhaseModel, ActionModel) {
    match event {
        EventModel::Failed { message } => match stage_instead(stage) {
            Some(next) => entered(request.url, next, snapshot, time),
            None => failed(message),
        },
        EventModel::Repository { bare } => if stage == Stage::Discover {
            if bare {
                failed(BARE_REPOSITORY@)
            } else {
                entered(request.url, Stage::MakeDir, snapshot, time)
            }
        } else {
            failed(OUT_OF_STEP@)
        },
        EventModel::Done => match stage_after(stage) {
            Some(next) => entered(request.url, next, snapshot, time),
            None => failed(OUT_OF_STEP@),
        },
        EventModel::Committed { id } => if stage == Stage::FirstCommit || stage
            == Stage::NextCommit {
            after_commit(request, snapshot, id)
        } else {
            failed(OUT_OF_STEP@)
        },
        _ => failed(OUT_OF_STEP@),
    }
}

/// What follows in a run.
pub open spec fn next(request: RequestModel, phase: PhaseModel, event: EventModel) -> (
    PhaseModel,
    ActionModel,
) {
    match (phase, event) {
        (PhaseModel::Record { stage, snapshot, time }, _) => after_stage(
            request,
            stage,
            snapshot,
            time,
            event,
        ),
        (PhaseModel::Over, _) => failed(OUT_OF_STEP@),
        (_, EventModel::Failed { message }) => failed(message),
        (PhaseModel::Fetch, EventModel::Body { text }) => after_fetch(
            snapshot_of(request.url, text),
        ),
        (PhaseModel::Clock { snapshot }, EventModel::Time { unix_ns }) => entered(
            request.url,
            Stage::Discover,
            snapshot,
            unix_ns,
        ),
        (PhaseModel::Note { snapshot, commit_id }, EventModel::Published { id }) => (
            PhaseModel::Survey { snapshot, commit_id, note_id: id },
            ActionModel::ReadRepository,
        ),
        (
            PhaseModel::Survey { snapshot, commit_id, note_id },
            EventModel::Surveyed { cname, origin },
        ) => after_survey(request, snapshot, commit_id, note_id, cname, origin),
        (
            PhaseModel::Announcement { snapshot, commit_id, note_id },
            EventModel::Published { id },
        ) => (
            PhaseModel::Over,
            ActionModel::Finish {
                result: SyncResultModel {
                    snapshot,
                    commit_id,
                    changed: true,
                    nostr_event_id: Some(note_id),
                    nip34_event_id: Some(id),
                },
            },
        ),
        _ => failed(OUT_OF_STEP@),
    }
}

/// The run has failed.
fn fail(message: String) -> (r: (Phase, SyncAction))
    ensures
        step_view(r) == failed(message@),
{
    (Phase::Over, SyncAction::Fail { message })
}

/// The run was told of something that it did not ask for.
fn out_of_step() -> (r: (Phase, SyncAction))
    ensures
        step_view(r) == failed(OUT_OF_STEP@),
{
    fail(OUT_OF_STEP.to_owned())
}

/// Enters a stage.
pub fn enter_stage(url: &str, stage: Stage, snapshot: Snapshot, time: u128) -> (r: (
    Phase,
    SyncAction,
))
    ensures
        step_view(r) == entered(url@, stage, snapshot@, time as nat),
{
    let action: SyncAction = match stage {
        Stage::Discover => SyncAction::DiscoverRepository,
        Stage::MakeDir => SyncAction::CreateDir { path: SNAPSHOT_DIR.to_owned() },
        Stage::WriteCsv => SyncAction::WriteFile {
            path: SNAPSHOT_CSV.to_owned(),
            contents: snapshot.csv.clone(),
        },
        Stage::WriteMeta => SyncAction::WriteFile {
            path: SNAPSHOT_META.to_owned(),
            contents: render_meta_file(&snapshot, time),
        },
        Stage::OpenIndex => SyncAction::OpenIndex,
        Stage::AddCsv => SyncAction::AddToIndex { path: SNAPSHOT_CSV.to_owned() },
        Stage::AddMeta => SyncAction::AddToIndex { path: SNAPSHOT_META.to_owned() },
        Stage::WriteIndex => SyncAction::WriteIndex,
        Stage::WriteTree => SyncAction::WriteTree,
        Stage::FindTree => SyncAction::FindTree,
        Stage::ReadSignature => SyncAction::ReadSignature,
        Stage::MakeSignature => SyncAction::MakeSignature {
            name: FALLBACK_NAME.to_owned(),
            email: FALLBACK_EMAIL.to_owned(),
        },
        Stage::ReadHead => SyncAction::ReadHead,
        Stage::PeelHead => SyncAction::PeelHead,
        Stage::FirstCommit => SyncAction::Commit {
            message: render_commit_message(&snapshot, url, time),
            on_head: false,
        },
        Stage::NextCommit => SyncAction::Commit {
            message: render_commit_message(&snapshot, url, time),
            on_head: true,
        },
    };
    (Phase::Record { stage, snapshot, time }, action)
}

/// The stage that follows when what was to be done is done.
fn next_stage(stage: Stage) -> (r: Option<Stage>)
    ensures
        r == stage_after(stage),
{
    match stage {
        Stage::Discover => None,
        Stage::MakeDir => Some(Stage::WriteCsv),
        Stage::WriteCsv => Some(Stage::WriteMeta),
        Stage::WriteMeta => Some(Stage::OpenIndex),
        Stage::OpenIndex => Some(Stage::AddCsv),
        Stage::AddCsv => Some(Stage::AddMeta),
        Stage::AddMeta => Some(Stage::WriteIndex),
        Stage::WriteIndex => Some(Stage::WriteTree),
        Stage::WriteTree => Some(Stage::FindTree),
        Stage::FindTree => Some(Stage::ReadSignature),
        Stage::ReadSignature => Some(Stage::ReadHead),
        Stage::MakeSignature => Some(Stage::ReadHead),
        Stage::ReadHead => Some(Stage::PeelHead),
        Stage::PeelHead => Some(Stage::NextCommit),
        Stage::FirstCommit => None,
        Stage::NextCommit => None,
    }
}

/// What follows the snapshot, or the error in the sheet.
pub fn step_after_fetch(taken: Result<Snapshot, String>) -> (r: (Phase, SyncAction))
    ensures
        step_view(r) == after_fetch(snapshot_result_view(taken)),
{
    match taken {
        Ok(snapshot) => (Phase::Clock { snapshot }, SyncAction::ReadClock),
        Err(message) => fail(message),
    }
}

/// What follows the commit where there is a key: the publication of the note that was prepared,
/// or the end if the key cannot be used.
pub fn step_to_note(
    request: &SyncRequest,
    privkey: &str,
    snapshot: Snapshot,
    commit_id: String,
    prepared: Result<String, String>,
) -> (r: (Phase, SyncAction))
    ensures
        step_view(r) == match prepared {
            Ok(content) => (
                PhaseModel::Note { snapshot: snapshot@, commit_id: commit_id@ },
                ActionModel::PublishNote {
                    privkey: privkey@,
                    content: content@,
                    relays: relay_list(request@.relays),
                },
            ),
            Err(message) => failed(message@),
        },
{
    match prepared {
        Ok(content) => {
            let relays: Vec<String> = match &request.relays {
                Some(list) => resolve_relays(Some(list.as_str())),
                None => resolve_relays(None),
            };
            (
                Phase::Note { snapshot, commit_id },
                SyncAction::PublishNote { privkey: privkey.to_owned(), content, relays },
            )
        },
        Err(message) => fail(message),
    }
}

/// What follows the look at the repository: the publication of the announcement that was
/// prepared, or the end if the key cannot be used.
pub fn step_to_announcement(
    request: &SyncRequest,
    privkey: &str,
    snapshot: Snapshot,
    commit_id: String,
    note_id: String,
    prepared: Result<RepoAnnouncement, String>,
) -> (r: (Phase, SyncAction))
    ensures
        step_view(r) == match prepared {
            Ok(announcement) => (
                PhaseModel::Announcement {
                    snapshot: snapshot@,
                    commit_id: commit_id@,
                    note_id: note_id@,
                },
                ActionModel::PublishAnnouncement {
                    privkey: privkey@,
                    announcement: announcement@,
                    relays: relay_list(request@.relays),
                },
            ),
            Err(message) => failed(message@),
        },
{
    match prepared {
        Ok(announcement) => {
            let relays: Vec<String> = match &request.relays {
                Some(list) => resolve_relays(Some(list.as_str())),
                None => resolve_relays(None),
            };
            (
                Phase::Announcement { snapshot, commit_id, note_id },
                SyncAction::PublishAnnouncement {
                    privkey: privkey.to_owned(),
                    announcement,
                    relays,
                },
            )
        },
        Err(message) => fail(message),
    }
}

/// What follows the commit.
fn step_after_commit(request: &SyncRequest, snapshot: Snapshot, commit_id: String) -> (r: (
    Phase,
    SyncAction,
))
    ensures
        step_view(r) == after_commit(request@, snapshot@, commit_id@),
{
    match &request.privkey {
        None => (
            Phase::Over,
            SyncAction::Finish {
                result: SyncResult {
                    snapshot,
                    commit_id,
                    changed: true,
                    nostr_event_id: None,
                    nip34_event_id: None,
                },
            },
        ),
        Some(privkey) => {
            let prepared: Result<String, String> = prepare_note(
                privkey.as_str(),
                &snapshot,
                commit_id.as_str(),
                request.url.as_str(),
            );
            step_to_note(request, privkey.as_str(), snapshot, commit_id, prepared)
        },
    }
}

/// What follows the look at the repository.
fn step_after_survey(
    request: &SyncRequest,
    snapshot: Snapshot,
    commit_id: String,
    note_id: String,
    cname: &Option<String>,
    origin: &Option<String>,
) -> (r: (Phase, SyncAction))
    ensures
        step_view(r) == after_survey(
            request@,
            snapshot@,
            commit_id@,
            note_id@,
            optional_string(*cname),
            optional_string(*origin),
        ),
{
    match &request.privkey {
        None => out_of_step(),
        Some(privkey) => {
            let cname_text: Option<&str> = match cname {
                Some(text) => Some(text.as_str()),
                None => None,
            };
            let origin_text: Option<&str> = match origin {
                Some(text) => Some(text.as_str()),
                None => None,
            };
            let relays_text: Option<&str> = match &request.relays {
                Some(text) => Some(text.as_str()),
                None => None,
            };
            let prepared: Result<RepoAnnouncement, String> = prepare_announcement(
                privkey.as_str(),
                cname_text,
                origin_text,
                relays_text,
            );
            step_to_announcement(
                request,
                privkey.as_str(),
                snapshot,
                commit_id,
                note_id,
                prepared,
            )
        },
    }
}

/// What follows at a stage.
fn step_after_stage(
    request: &SyncRequest,
    stage: Stage,
    snapshot: Snapshot,
    time: u128,
    event: SyncEvent,
) -> (r: (Phase, SyncAction))
    ensures
        step_view(r) == after_stage(request@, stage, snapshot@, time as nat, event@),
{
    match event {
        SyncEvent::Failed { message } => match stage {
            Stage::ReadSignature => enter_stage(
                request.url.as_str(),
                Stage::MakeSignature,
                snapshot,
                time,
            ),
            Stage::ReadHead => enter_stage(
                request.url.as_str(),
                Stage::FirstCommit,
                snapshot,
                time,
            ),
            _ => fail(message),
        },
        SyncEvent::Repository { bare } => if stage == Stage::Discover {
            if bare {
                fail(BARE_REPOSITORY.to_owned())
            } else {
                enter_stage(request.url.as_str(), Stage::MakeDir, snapshot, time)
            }
        } else {
            out_of_step()
        },
        SyncEvent::Done => match next_stage(stage) {
            Some(next) => enter_stage(request.url.as_str(), next, snapshot, time),
            None => out_of_step(),
        },
        SyncEvent::Committed { id } => if stage == Stage::FirstCommit || stage
            == Stage::NextCommit {
            step_after_commit(request, snapshot, id)
        } else {
            out_of_step()
        },
        _ => out_of_step(),
    }
}

/// The first step of a run.
pub fn start_sync(request: &SyncRequest) -> (r: (Phase, SyncAction))
    ensures
        step_view(r) == (PhaseModel::Fetch, ActionModel::Fetch { url: request@.url }),
{
    (Phase::Fetch, SyncAction::Fetch { url: request.url.clone() })
}

/// The next step of a run, given what came of the action before.
pub fn step_sync(request: &SyncRequest, phase: Phase, event: SyncEvent) -> (r: (Phase, SyncAction))
    ensures
        step_view(r) == next(request@, phase@, event@),
{
    match (phase, event) {
        (Phase::Record { stage, snapshot, time }, event) => step_after_stage(
            request,
            stage,
            snapshot,
            time,
            event,
        ),
        (Phase::Over, _) => out_of_step(),
        (_, SyncEvent::Failed { message }) => fail(message),
        (Phase::Fetch, SyncEvent::Body { text }) => step_after_fetch(
            take_snapshot(request.url.as_str(), text),
        ),
        (Phase::Clock { snapshot }, SyncEvent::Time { unix_ns }) => enter_stage(
            request.url.as_str(),
            Stage::Discover,
            snapshot,
            unix_ns,
        ),
        (Phase::Note { snapshot, commit_id }, SyncEvent::Published { id }) => (
            Phase::Survey { snapshot, commit_id, note_id: id },
            SyncAction::ReadRepository,
        ),
        (
            Phase::Survey { snapshot, commit_id, note_id },
            SyncEvent::Surveyed { cname, origin },
        ) => step_after_survey(request, snapshot, commit_id, note_id, &cname, &origin),
        (Phase::Announcement { snapshot, commit_id, note_id }, SyncEvent::Published { id }) => (
            Phase::Over,
            SyncAction::Finish {
                result: SyncResult {
                    snapshot,
                    commit_id,
                    changed: true,
                    nostr_event_id: Some(note_id),
                    nip34_event_id: Some(id),
                },
            },
        ),
        _ => out_of_step(),
    }
}

} // verus!
