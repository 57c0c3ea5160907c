//! What holds of every run of a sync, whatever comes of its actions.
use vstd::prelude::*;
use vstd::utf8::encode_utf8;

use crate::announce::{announced, key_error};
use crate::config::relay_list;
use crate::numeral::{decimal, hex_lower};
use crate::records::{collected, csv_records};
use crate::snapshot::{
    commit_text, meta_file, note_text, sha256_digest, snapshot_of, snapshots_hold_the_whole_sheet,
    SnapshotModel, SNAPSHOT_CSV, SNAPSHOT_META,
};
use crate::sync::{
    failed, next, stage_action, ActionModel, EventModel, PhaseModel, RequestModel, Stage,
    SyncResult, SyncResultModel,
};
use crate::text::optional_string;

verus! {

/// Where a run stands, and what it wants done, once it was told of the events.
pub open spec fn run_after(request: RequestModel, events: Seq<EventModel>) -> (
    PhaseModel,
    ActionModel,
)
    decreases events.len(),
{
    if events.len() == 0 {
        (PhaseModel::Fetch, ActionModel::Fetch { url: request.url })
    } else {
        next(request, run_after(request, events.drop_last()).0, events.last())
    }
}

/// What a run wanted done before event `i`.
pub open spec fn action_before(
    request: RequestModel,
    events: Seq<EventModel>,
    i: int,
) -> ActionModel {
    run_after(request, events.take(i)).1
}

/// The place of a stage among the others.
pub open spec fn stage_rank(stage: Stage) -> nat {
    match stage {
        Stage::Discover => 0,
        Stage::MakeDir => 1,
        Stage::WriteCsv => 2,
        Stage::WriteMeta => 3,
        Stage::OpenIndex => 4,
        Stage::AddCsv => 5,
        Stage::AddMeta => 6,
        Stage::WriteIndex => 7,
        Stage::WriteTree => 8,
        Stage::FindTree => 9,
        Stage::ReadSignature => 10,
        Stage::MakeSignature => 11,
        Stage::ReadHead => 12,
        Stage::PeelHead => 13,
        Stage::FirstCommit => 14,
        Stage::NextCommit => 14,
    }
}

/// The place of a phase among the others.
pub open spec fn phase_rank(phase: PhaseModel) -> nat {
    match phase {
        PhaseModel::Fetch => 0,
        PhaseModel::Clock { .. } => 1,
        PhaseModel::Record { stage, .. } => 2 + stage_rank(stage),
        PhaseModel::Note { .. } => 17,
        PhaseModel::Survey { .. } => 18,
        PhaseModel::Announcement { .. } => 19,
        PhaseModel::Over => 20,
    }
}

/// Every event moves a run on, until it is over.
pub proof fn every_event_moves_a_run_on(
    request: RequestModel,
    phase: PhaseModel,
    event: EventModel,
)
    requires
        !(phase is Over),
    ensures
        phase_rank(next(request, phase, event).0) > phase_rank(phase),
{
}

/// A run is over after twenty events at the latest.
pub proof fn runs_come_to_an_end(request: RequestModel, events: Seq<EventModel>)
    ensures
        events.len() >= 20 ==> run_after(request, events).0 is Over,
{
    lemma_rank_grows(request, events);
}

proof fn lemma_rank_grows(request: RequestModel, events: Seq<EventModel>)
    ensures
        run_after(request, events).0 is Over || phase_rank(run_after(request, events).0)
            >= events.len(),
    decreases events.len(),
{
    if events.len() > 0 {
        lemma_rank_grows(request, events.drop_last());
    }
}

/// Once a run is over it wants nothing done any more.
pub proof fn nothing_is_done_after_the_end(request: RequestModel, event: EventModel)
    ensures
        next(request, PhaseModel::Over, event).0 is Over,
        next(request, PhaseModel::Over, event).1 is Fail,
{
}

/// A run is over exactly if it has finished or failed.
pub proof fn runs_end_with_a_result_or_an_error(request: RequestModel, events: Seq<EventModel>)
    ensures
        run_after(request, events).0 is Over <==> (run_after(request, events).1 is Finish
            || run_after(request, events).1 is Fail),
{
    if events.len() > 0 {
        lemma_over_is_the_end(
            request,
            run_after(request, events.drop_last()).0,
            events.last(),
        );
    }
}

proof fn lemma_over_is_the_end(request: RequestModel, phase: PhaseModel, event: EventModel)
    ensures
        next(request, phase, event).0 is Over <==> (next(request, phase, event).1 is Finish
            || next(request, phase, event).1 is Fail),
{
}

/// The run can do without what failed: git's own signature, or a `HEAD`.
pub open spec fn can_do_without(phase: PhaseModel) -> bool {
    match phase {
        PhaseModel::Record { stage, .. } => stage == Stage::ReadSignature || stage
            == Stage::ReadHead,
        _ => false,
    }
}

/// An error ends the run, and is what the run reports.
pub proof fn errors_end_a_run(request: RequestModel, phase: PhaseModel, message: Seq<char>)
    requires
        !(phase is Over),
        !can_do_without(phase),
    ensures
        next(request, phase, EventModel::Failed { message }) == failed(message),
{
}

/// There is no private key, or one that can be used.
pub open spec fn key_is_usable(request: RequestModel) -> bool {
    match request.privkey {
        Some(privkey) => key_error(privkey) is None,
        None => true,
    }
}

/// What came of the action is what was wanted, or something that the run can do without.
pub open spec fn answered(request: RequestModel, action: ActionModel, event: EventModel) -> bool {
    match action {
        ActionModel::Fetch { .. } => event matches EventModel::Body { text } && snapshot_of(
            request.url,
            text,
        ) is Ok,
        ActionModel::ReadClock => event is Time,
        ActionModel::DiscoverRepository => event matches EventModel::Repository { bare } && !bare,
        ActionModel::ReadSignature => event is Done || event is Failed,
        ActionModel::ReadHead => event is Done || event is Failed,
        ActionModel::Commit { .. } => event is Committed,
        ActionModel::PublishNote { .. } => event is Published,
        ActionModel::ReadRepository => event is Surveyed,
        ActionModel::PublishAnnouncement { .. } => event is Published,
        ActionModel::Finish { .. } => false,
        ActionModel::Fail { .. } => false,
        _ => event is Done,
    }
}

/// A run whose actions are all answered, under a key that can be used if there is one, does not
/// fail: it wants something done, or has finished.
pub proof fn answered_runs_do_not_fail(request: RequestModel, events: Seq<EventModel>)
    requires
        key_is_usable(request),
        forall|i: int|
            0 <= i < events.len() ==> answered(
                request,
                #[trigger] action_before(request, events, i),
                events[i],
            ),
    ensures
        !(run_after(request, events).1 is Fail),
        run_after(request, events).0 is Over ==> run_after(request, events).1 is Finish,
{
    lemma_answered_run(request, events);
}

/// What a run wants done in a phase.
spec fn wanted(request: RequestModel, phase: PhaseModel, action: ActionModel) -> bool {
    match phase {
        PhaseModel::Fetch => action is Fetch,
        PhaseModel::Clock { .. } => action is ReadClock,
        PhaseModel::Record { stage, snapshot, time } => action == stage_action(
            request.url,
            stage,
            snapshot,
            time,
        ),
        PhaseModel::Note { .. } => action is PublishNote && request.privkey is Some,
        PhaseModel::Survey { .. } => action is ReadRepository && request.privkey is Some,
        PhaseModel::Announcement { .. } => action is PublishAnnouncement,
        PhaseModel::Over => action is Finish,
    }
}

proof fn lemma_answered_run(request: RequestModel, events: Seq<EventModel>)
    requires
        key_is_usable(request),
        forall|i: int|
            0 <= i < events.len() ==> answered(
                request,
                #[trigger] action_before(request, events, i),
                events[i],
            ),
    ensures
        wanted(request, run_after(request, events).0, run_after(request, events).1),
    decreases events.len(),
{
    if events.len() > 0 {
        let front = events.drop_last();
        assert forall|i: int| 0 <= i < front.len() implies answered(
            request,
            #[trigger] action_before(request, front, i),
            front[i],
        ) by {
            assert(events.take(i) =~= front.take(i));
            assert(answered(request, action_before(request, events, i), events[i]));
        }
        lemma_answered_run(request, front);
        assert(events.take(events.len() - 1) =~= front);
        assert(answered(
            request,
            action_before(request, events, events.len() - 1),
            events[events.len() - 1],
        ));
        lemma_answered_step(
            request,
            run_after(request, front).0,
            run_after(request, front).1,
            events.last(),
        );
    }
}

proof fn lemma_answered_step(
    request: RequestModel,
    phase: PhaseModel,
    action: ActionModel,
    event: EventModel,
)
    requires
        key_is_usable(request),
        wanted(request, phase, action),
        answered(request, action, event),
    ensures
        wanted(request, next(request, phase, event).0, next(request, phase, event).1),
{
}

/// Without a private key nothing is published.
pub proof fn without_a_key_nothing_is_published(request: RequestModel, events: Seq<EventModel>)
    requires
        request.privkey is None,
    ensures
        !(run_after(request, events).1 is PublishNote),
        !(run_after(request, events).1 is PublishAnnouncement),
        run_after(request, events).1 matches ActionModel::Finish { result }
            ==> result.nostr_event_id is None && result.nip34_event_id is None,
    decreases events.len(),
{
    if events.len() > 0 {
        lemma_no_announcing_phase(request, events.drop_last());
    }
}

proof fn lemma_no_announcing_phase(request: RequestModel, events: Seq<EventModel>)
    requires
        request.privkey is None,
    ensures
        !(run_after(request, events).0 is Note),
        !(run_after(request, events).0 is Survey),
        !(run_after(request, events).0 is Announcement),
    decreases events.len(),
{
    if events.len() > 0 {
        lemma_no_announcing_phase(request, events.drop_last());
    }
}

/// The first event of a run was the sheet of which `snapshot` is the snapshot.
pub open spec fn fetched(
    request: RequestModel,
    events: Seq<EventModel>,
    snapshot: SnapshotModel,
) -> bool {
    events.len() > 0 && (events[0] matches EventModel::Body { text } && snapshot_of(
        request.url,
        text,
    ) == Ok::<SnapshotModel, Seq<char>>(snapshot))
}

/// What the stage wants done was wanted, and was done.
pub open spec fn stage_done(
    request: RequestModel,
    events: Seq<EventModel>,
    stage: Stage,
    snapshot: SnapshotModel,
    time: nat,
) -> bool {
    exists|i: int|
        0 <= i < events.len() && #[trigger] action_before(request, events, i) == stage_action(
            request.url,
            stage,
            snapshot,
            time,
        ) && events[i] == EventModel::Done
}

/// The stages that each commit is preceded by.
pub open spec fn is_preparation(stage: Stage) -> bool {
    1 <= stage_rank(stage) <= 9
}

/// A run that is writing and committing a snapshot has fetched it, has read the clock, and has
/// done what the stages before want done.
proof fn lemma_recording(
    request: RequestModel,
    events: Seq<EventModel>,
    stage: Stage,
    snapshot: SnapshotModel,
    time: nat,
)
    requires
        run_after(request, events).0 == (PhaseModel::Record { stage, snapshot, time }),
    ensures
        fetched(request, events, snapshot),
        events.len() > 1 && events[1] == (EventModel::Time { unix_ns: time }),
        run_after(request, events).1 == stage_action(request.url, stage, snapshot, time),
        forall|s: Stage|
            is_preparation(s) && stage_rank(s) < stage_rank(stage) ==> #[trigger] stage_done(
                request,
                events,
                s,
                snapshot,
                time,
            ),
    decreases events.len(),
{
    let front = events.drop_last();
    let event = events.last();
    match run_after(request, front).0 {
        PhaseModel::Record { stage: before, snapshot: snap, time: t } => {
            lemma_recording(request, front, before, snap, t);
            assert forall|s: Stage|
                is_preparation(s) && stage_rank(s) < stage_rank(stage) implies #[trigger] stage_done(
                request,
                events,
                s,
                snapshot,
                time,
            ) by {
                if stage_rank(s) < stage_rank(before) {
                    assert(stage_done(request, front, s, snapshot, time));
                    let i = choose|i: int|
                        0 <= i < front.len() && #[trigger] action_before(request, front, i)
                            == stage_action(request.url, s, snapshot, time) && front[i]
                            == EventModel::Done;
                    assert(events.take(i) =~= front.take(i));
                    assert(action_before(request, events, i) == action_before(request, front, i));
                    assert(events[i] == front[i]);
                } else {
                    assert(s == before);
                    assert(events.take(events.len() - 1) =~= front);
                    assert(action_before(request, events, events.len() - 1) == stage_action(
                        request.url,
                        s,
                        snapshot,
                        time,
                    ));
                }
            }
        },
        PhaseModel::Clock { snapshot: snap } => {
            lemma_clock(request, front, snap);
        },
        _ => {},
    }
}

/// A run that waits for the clock has fetched the sheet and was told of nothing else.
proof fn lemma_clock(request: RequestModel, events: Seq<EventModel>, snapshot: SnapshotModel)
    requires
        run_after(request, events).0 == (PhaseModel::Clock { snapshot }),
    ensures
        events.len() == 1,
        fetched(request, events, snapshot),
{
    let front = events.drop_last();
    if front.len() > 0 {
        lemma_not_fetching(request, front);
    }
}

/// A run that was told of something is no longer fetching.
proof fn lemma_not_fetching(request: RequestModel, events: Seq<EventModel>)
    requires
        events.len() > 0,
    ensures
        !(run_after(request, events).0 is Fetch),
{
}

/// Nothing is committed before both files are written, with the sheet exactly as it was fetched
/// and what is recorded of it, and both are added to the index.
pub proof fn commits_record_the_fetched_sheet(request: RequestModel, events: Seq<EventModel>)
    requires
        run_after(request, events).1 is Commit,
    ensures
        events.len() > 1,
        events[0] matches EventModel::Body { text } && events[1] matches EventModel::Time {
            unix_ns,
        } && snapshot_of(request.url, text) matches Ok(snapshot) && snapshot.csv == text && {
            &&& snapshot.sha256 == hex_lower(sha256_digest(encode_utf8(text)))
            &&& collected(csv_records(text)) matches Ok(rows) && snapshot.rows == rows.len()
            &&& run_after(request, events).1->Commit_message == commit_text(
                snapshot.sha256,
                snapshot.rows,
                request.url,
                unix_ns,
            )
            &&& exists|i: int|
                0 <= i < events.len() && #[trigger] action_before(request, events, i) == (
                ActionModel::WriteFile { path: SNAPSHOT_CSV@, contents: text }) && events[i]
                    == EventModel::Done
            &&& exists|i: int|
                0 <= i < events.len() && #[trigger] action_before(request, events, i) == (
                ActionModel::WriteFile {
                    path: SNAPSHOT_META@,
                    contents: meta_file(snapshot.meta, unix_ns),
                }) && events[i] == EventModel::Done
            &&& exists|i: int|
                0 <= i < events.len() && #[trigger] action_before(request, events, i) == (
                ActionModel::AddToIndex { path: SNAPSHOT_CSV@ }) && events[i] == EventModel::Done
            &&& exists|i: int|
                0 <= i < events.len() && #[trigger] action_before(request, events, i) == (
                ActionModel::AddToIndex { path: SNAPSHOT_META@ }) && events[i] == EventModel::Done
        },
{
    lemma_commit_phase(request, events);
    match run_after(request, events).0 {
        PhaseModel::Record { stage, snapshot, time } => {
            lemma_recording(request, events, stage, snapshot, time);
            assert(stage_done(request, events, Stage::WriteCsv, snapshot, time));
            assert(stage_done(request, events, Stage::WriteMeta, snapshot, time));
            assert(stage_done(request, events, Stage::AddCsv, snapshot, time));
            assert(stage_done(request, events, Stage::AddMeta, snapshot, time));
        },
        _ => {},
    }
}

/// A commit is wanted at the two last stages only.
proof fn lemma_commit_phase(request: RequestModel, events: Seq<EventModel>)
    requires
        run_after(request, events).1 is Commit,
    ensures
        run_after(request, events).0 is Record,
        stage_rank(run_after(request, events).0->stage) == 14,
{
}

/// A commit was wanted for the snapshot, and git made it under this id.
pub open spec fn committed(
    request: RequestModel,
    events: Seq<EventModel>,
    snapshot: SnapshotModel,
    commit_id: Seq<char>,
) -> bool {
    exists|i: int|
        0 <= i < events.len() && #[trigger] action_before(request, events, i) is Commit && events[i]
            == (EventModel::Committed { id: commit_id }) && (run_after(
            request,
            events.take(i),
        ).0 matches PhaseModel::Record { snapshot: s, .. } && s == snapshot)
}

/// What was committed before an event was committed before the next.
proof fn lemma_committed_stays(
    request: RequestModel,
    events: Seq<EventModel>,
    snapshot: SnapshotModel,
    commit_id: Seq<char>,
)
    requires
        events.len() > 0,
        committed(request, events.drop_last(), snapshot, commit_id),
    ensures
        committed(request, events, snapshot, commit_id),
{
    let front = events.drop_last();
    let i = choose|i: int|
        0 <= i < front.len() && #[trigger] action_before(request, front, i) is Commit && front[i]
            == (EventModel::Committed { id: commit_id }) && (run_after(
            request,
            front.take(i),
        ).0 matches PhaseModel::Record { snapshot: s, .. } && s == snapshot);
    assert(events.take(i) =~= front.take(i));
    assert(action_before(request, events, i) is Commit);
    assert(events[i] == front[i]);
}

/// The commit that an event has just told of.
proof fn lemma_just_committed(request: RequestModel, events: Seq<EventModel>)
    requires
        events.len() > 0,
        run_after(request, events.drop_last()).1 is Commit,
        events.last() is Committed,
    ensures
        run_after(request, events.drop_last()).0 matches PhaseModel::Record { snapshot, .. }
            && committed(request, events, snapshot, events.last()->Committed_id),
{
    lemma_commit_phase(request, events.drop_last());
    assert(events.take(events.len() - 1) =~= events.drop_last());
    assert(action_before(request, events, events.len() - 1) is Commit);
}

/// At the last stages a commit is wanted.
proof fn lemma_last_stage_commits(request: RequestModel, events: Seq<EventModel>)
    requires
        run_after(request, events).0 is Record,
        stage_rank(run_after(request, events).0->stage) == 14,
    ensures
        run_after(request, events).1 is Commit,
{
    match run_after(request, events).0 {
        PhaseModel::Record { stage, snapshot, time } => {
            lemma_recording(request, events, stage, snapshot, time);
        },
        _ => {},
    }
}

/// A run that publishes has committed the snapshot, under the id that it goes on with.
proof fn lemma_announcing(request: RequestModel, events: Seq<EventModel>)
    ensures
        run_after(request, events).0 matches PhaseModel::Note { snapshot, commit_id }
            ==> committed(request, events, snapshot, commit_id),
        run_after(request, events).0 matches PhaseModel::Survey { snapshot, commit_id, .. }
            ==> committed(request, events, snapshot, commit_id),
        run_after(request, events).0 matches PhaseModel::Announcement { snapshot, commit_id, .. }
            ==> committed(request, events, snapshot, commit_id),
    decreases events.len(),
{
    if events.len() > 0 {
        let front = events.drop_last();
        lemma_announcing(request, front);
        match run_after(request, front).0 {
            PhaseModel::Record { stage, snapshot, time } => {
                if stage_rank(stage) == 14 && events.last() is Committed {
                    lemma_last_stage_commits(request, front);
                    lemma_just_committed(request, events);
                }
            },
            PhaseModel::Note { snapshot, commit_id } => {
                lemma_committed_stays(request, events, snapshot, commit_id);
            },
            PhaseModel::Survey { snapshot, commit_id, .. } => {
                lemma_committed_stays(request, events, snapshot, commit_id);
            },
            _ => {},
        }
    }
}

/// Nothing is published before the snapshot is committed, and nothing without a key that can be
/// used; the note names the commit that was made.
pub proof fn publications_follow_the_commit(request: RequestModel, events: Seq<EventModel>)
    ensures
        run_after(request, events).1 matches ActionModel::PublishNote { privkey, content, relays }
            ==> request.privkey == Some(privkey) && key_error(privkey) is None && relays
            == relay_list(request.relays) && exists|snapshot: SnapshotModel, commit_id: Seq<char>|
            #[trigger] committed(request, events, snapshot, commit_id) && content == note_text(
                commit_id,
                snapshot.sha256,
                snapshot.rows,
                request.url,
            ),
        run_after(request, events).1 matches ActionModel::PublishAnnouncement { privkey, .. }
            ==> request.privkey == Some(privkey) && key_error(privkey) is None && exists|
            snapshot: SnapshotModel,
            commit_id: Seq<char>,
        | #[trigger] committed(request, events, snapshot, commit_id),
{
    lemma_announcing(request, events);
    match run_after(request, events).0 {
        PhaseModel::Note { snapshot, commit_id } => {
            assert(committed(request, events, snapshot, commit_id));
        },
        PhaseModel::Announcement { snapshot, commit_id, .. } => {
            assert(committed(request, events, snapshot, commit_id));
        },
        _ => {},
    }
}

/// A run that finishes has committed the sheet that it fetched, under the id that it reports.
pub proof fn results_report_the_commit(request: RequestModel, events: Seq<EventModel>)
    requires
        run_after(request, events).1 is Finish,
    ensures
        committed(
            request,
            events,
            run_after(request, events).1->result.snapshot,
            run_after(request, events).1->result.commit_id,
        ),
        fetched(request, events, run_after(request, events).1->result.snapshot),
        run_after(request, events).1->result.changed,
        run_after(request, events).1->result.nostr_event_id is Some <==> request.privkey is Some,
        run_after(request, events).1->result.nip34_event_id is Some <==> request.privkey is Some,
{
    let front = events.drop_last();
    let result = run_after(request, events).1->result;
    lemma_announcing(request, front);
    match run_after(request, front).0 {
        PhaseModel::Record { stage, snapshot, time } => {
            lemma_last_stage_commits(request, front);
            lemma_just_committed(request, events);
        },
        PhaseModel::Announcement { snapshot, commit_id, .. } => {
            lemma_committed_stays(request, events, snapshot, commit_id);
            if request.privkey is None {
                lemma_no_announcing_phase(request, front);
            }
        },
        _ => {},
    }
    let i = choose|i: int|
        0 <= i < events.len() && #[trigger] action_before(request, events, i) is Commit && events[i]
            == (EventModel::Committed { id: result.commit_id }) && (run_after(
            request,
            events.take(i),
        ).0 matches PhaseModel::Record { snapshot: s, .. } && s == result.snapshot);
    match run_after(request, events.take(i)).0 {
        PhaseModel::Record { stage, snapshot, time } => {
            lemma_recording(request, events.take(i), stage, snapshot, time);
            assert(events.take(i)[0] == events[0]);
        },
        _ => {},
    }
}

/// One more event is one more step.
proof fn lemma_step(request: RequestModel, events: Seq<EventModel>, n: int)
    requires
        0 <= n < events.len(),
    ensures
        run_after(request, events.take(n + 1)) == next(
            request,
            run_after(request, events.take(n)).0,
            events[n],
        ),
{
    assert(events.take(n + 1).drop_last() =~= events.take(n));
    assert(events.take(n + 1).last() == events[n]);
}

proof fn lemma_push(request: RequestModel, events: Seq<EventModel>, event: EventModel)
    ensures
        run_after(request, events.push(event)) == next(
            request,
            run_after(request, events).0,
            event,
        ),
{
    assert(events.push(event).drop_last() =~= events);
}

/// A sync whose actions succeed takes these steps up to the signature, in this order: it fetches
/// the sheet, reads the clock, finds the repository, makes the directory, writes the sheet as it
/// came and its metadata, adds both files to the index, and writes the index and its tree.
pub proof fn syncs_take_these_steps(
    request: RequestModel,
    events: Seq<EventModel>,
    text: Seq<char>,
    rows: nat,
    unix_ns: nat,
)
    requires
        collected(csv_records(text)) is Ok,
        collected(csv_records(text))->Ok_0.len() == rows,
        events.len() == 12,
        events[0] == (EventModel::Body { text }),
        events[1] == (EventModel::Time { unix_ns }),
        events[2] == (EventModel::Repository { bare: false }),
        forall|i: int| 3 <= i < 12 ==> #[trigger] events[i] == EventModel::Done,
    ensures
        action_before(request, events, 0) == (ActionModel::Fetch { url: request.url }),
        action_before(request, events, 1) == ActionModel::ReadClock,
        action_before(request, events, 2) == ActionModel::DiscoverRepository,
        action_before(request, events, 3) == (ActionModel::CreateDir { path: "sheet-snapshots"@ }),
        action_before(request, events, 4) == (ActionModel::WriteFile {
            path: "sheet-snapshots/google-sheet.csv"@,
            contents: text,
        }),
        action_before(request, events, 5) == (ActionModel::WriteFile {
            path: "sheet-snapshots/google-sheet.meta"@,
            contents: "source_url="@ + request.url + "\nsha256="@ + hex_lower(
                sha256_digest(encode_utf8(text)),
            ) + "\nrows="@ + decimal(rows) + "\n"@ + "synced_at_unix_ns="@ + decimal(unix_ns)
                + "\n"@,
        }),
        action_before(request, events, 6) == ActionModel::OpenIndex,
        action_before(request, events, 7) == (ActionModel::AddToIndex {
            path: "sheet-snapshots/google-sheet.csv"@,
        }),
        action_before(request, events, 8) == (ActionModel::AddToIndex {
            path: "sheet-snapshots/google-sheet.meta"@,
        }),
        action_before(request, events, 9) == ActionModel::WriteIndex,
        action_before(request, events, 10) == ActionModel::WriteTree,
        action_before(request, events, 11) == ActionModel::FindTree,
        action_before(request, events, 12) == ActionModel::ReadSignature,
{
    snapshots_hold_the_whole_sheet(request.url, text);
    assert(events.take(0) =~= Seq::<EventModel>::empty());
    lemma_step(request, events, 0);
    lemma_step(request, events, 1);
    lemma_step(request, events, 2);
    lemma_step(request, events, 3);
    lemma_step(request, events, 4);
    lemma_step(request, events, 5);
    lemma_step(request, events, 6);
    lemma_step(request, events, 7);
    lemma_step(request, events, 8);
    lemma_step(request, events, 9);
    lemma_step(request, events, 10);
    lemma_step(request, events, 11);
}

/// The action of a stage is wanted at that stage only.
proof fn lemma_stage_of_action(request: RequestModel, events: Seq<EventModel>)
    ensures
        run_after(request, events).1 is DiscoverRepository ==> (run_after(
            request,
            events,
        ).0 matches PhaseModel::Record { stage, .. } && stage == Stage::Discover),
        run_after(request, events).1 is ReadSignature ==> (run_after(
            request,
            events,
        ).0 matches PhaseModel::Record { stage, .. } && stage == Stage::ReadSignature),
        run_after(request, events).1 is ReadHead ==> (run_after(
            request,
            events,
        ).0 matches PhaseModel::Record { stage, .. } && stage == Stage::ReadHead),
        run_after(request, events).1 is PublishNote ==> run_after(request, events).0 is Note
            && request.privkey is Some && key_error(request.privkey->0) is None,
        run_after(request, events).1 is ReadRepository ==> run_after(request, events).0 is Survey,
        run_after(request, events).1 is PublishAnnouncement ==> run_after(
            request,
            events,
        ).0 is Announcement,
{
}

/// The commit is signed with what git knows, or else with a name of our own; both ways lead on to
/// `HEAD`.
pub proof fn commits_are_signed_by_git_or_by_the_bot(
    request: RequestModel,
    events: Seq<EventModel>,
    message: Seq<char>,
)
    requires
        run_after(request, events).1 is ReadSignature,
    ensures
        run_after(request, events.push(EventModel::Done)).1 == ActionModel::ReadHead,
        run_after(request, events.push(EventModel::Failed { message })).1 == (
        ActionModel::MakeSignature {
            name: "Start Small Bot"@,
            email: "start-small-bot@example.com"@,
        }),
        run_after(
            request,
            events.push(EventModel::Failed { message }).push(EventModel::Done),
        ).1 == ActionModel::ReadHead,
{
    lemma_stage_of_action(request, events);
    lemma_push(request, events, EventModel::Done);
    lemma_push(request, events, EventModel::Failed { message });
    lemma_push(request, events.push(EventModel::Failed { message }), EventModel::Done);
}

/// The commit is made on top of the one that `HEAD` points to; where there is no `HEAD` it is the
/// first.
pub proof fn commits_stand_on_the_head(
    request: RequestModel,
    events: Seq<EventModel>,
    message: Seq<char>,
)
    requires
        run_after(request, events).1 is ReadHead,
    ensures
        run_after(request, events.push(EventModel::Done)).1 == ActionModel::PeelHead,
        run_after(
            request,
            events.push(EventModel::Done).push(EventModel::Done),
        ).1 matches ActionModel::Commit { on_head, .. } && on_head,
        run_after(
            request,
            events.push(EventModel::Failed { message }),
        ).1 matches ActionModel::Commit { on_head, .. } && !on_head,
{
    lemma_stage_of_action(request, events);
    lemma_push(request, events, EventModel::Done);
    lemma_push(request, events.push(EventModel::Done), EventModel::Done);
    lemma_push(request, events, EventModel::Failed { message });
}

/// Once the commit is made, a sync without a key is done and reports the commit, the sheet and
/// its digest; one with a key publishes the note on them, unless the key cannot be used, which is
/// then what it reports.
pub proof fn commits_are_reported_or_announced(
    request: RequestModel,
    events: Seq<EventModel>,
    id: Seq<char>,
)
    requires
        run_after(request, events).1 is Commit,
    ensures
        events.len() > 1,
        events[0] matches EventModel::Body { text } && collected(csv_records(text)) matches Ok(rows)
            && {
            let digest = hex_lower(sha256_digest(encode_utf8(text)));
            let after = run_after(request, events.push(EventModel::Committed { id })).1;
            match request.privkey {
                None => after matches ActionModel::Finish { result } && {
                    &&& result.commit_id == id
                    &&& result.changed
                    &&& result.snapshot.csv == text
                    &&& result.snapshot.sha256 == digest
                    &&& result.snapshot.rows == rows.len()
                    &&& result.nostr_event_id is None
                    &&& result.nip34_event_id is None
                },
                Some(privkey) => match key_error(privkey) {
                    Some(message) => after == (ActionModel::Fail { message }),
                    None => after == (ActionModel::PublishNote {
                        privkey,
                        content: note_text(id, digest, rows.len(), request.url),
                        relays: relay_list(request.relays),
                    }),
                },
            }
        },
{
    commits_record_the_fetched_sheet(request, events);
    lemma_commit_phase(request, events);
    match run_after(request, events).0 {
        PhaseModel::Record { stage, snapshot, time } => {
            lemma_recording(request, events, stage, snapshot, time);
            snapshots_hold_the_whole_sheet(request.url, events[0]->text);
        },
        _ => {},
    }
    lemma_push(request, events, EventModel::Committed { id });
}

/// Once the note is published the repository is announced, with what it says of itself, and the
/// sync is done and reports both.
pub proof fn notes_are_followed_by_the_announcement(
    request: RequestModel,
    events: Seq<EventModel>,
    note_id: Seq<char>,
    cname: Option<Seq<char>>,
    origin: Option<Seq<char>>,
    announcement_id: Seq<char>,
)
    requires
        run_after(request, events).1 is PublishNote,
    ensures
        ({
            let noted = events.push(EventModel::Published { id: note_id });
            let surveyed = noted.push(EventModel::Surveyed { cname, origin });
            let done = surveyed.push(EventModel::Published { id: announcement_id });
            &&& run_after(request, noted).1 == ActionModel::ReadRepository
            &&& request.privkey matches Some(privkey) && run_after(request, surveyed).1 == (
            ActionModel::PublishAnnouncement {
                privkey,
                announcement: announced(cname, origin, request.relays),
                relays: relay_list(request.relays),
            })
            &&& run_after(request, done).1 matches ActionModel::Finish { result }
                && result.nostr_event_id == Some(note_id) && result.nip34_event_id == Some(
                announcement_id,
            ) && result.changed && (exists|i: int|
                0 <= i < events.len() && #[trigger] events[i] == (EventModel::Committed {
                    id: result.commit_id,
                }))
        }),
{
    let noted = events.push(EventModel::Published { id: note_id });
    let surveyed = noted.push(EventModel::Surveyed { cname, origin });
    lemma_stage_of_action(request, events);
    lemma_announcing(request, events);
    lemma_push(request, events, EventModel::Published { id: note_id });
    lemma_push(request, noted, EventModel::Surveyed { cname, origin });
    lemma_push(request, surveyed, EventModel::Published { id: announcement_id });
    match run_after(request, events).0 {
        PhaseModel::Note { snapshot, commit_id } => {
            assert(committed(request, events, snapshot, commit_id));
            let i = choose|i: int|
                0 <= i < events.len() && #[trigger] action_before(request, events, i) is Commit
                    && events[i] == (EventModel::Committed { id: commit_id }) && (run_after(
                    request,
                    events.take(i),
                ).0 matches PhaseModel::Record { snapshot: s, .. } && s == snapshot);
            assert(events[i] == (EventModel::Committed { id: commit_id }));
        },
        _ => {},
    }
}

/// What a sync is refused for by itself: a sheet whose records cannot be read, with their first
/// error, and a repository without a working tree.
pub proof fn unreadable_sheets_and_bare_repositories_are_refused(
    request: RequestModel,
    text: Seq<char>,
    events: Seq<EventModel>,
)
    ensures
        collected(csv_records(text)) matches Err(message) ==> run_after(
            request,
            seq![EventModel::Body { text }],
        ).1 == (ActionModel::Fail { message }),
        run_after(request, events).1 is DiscoverRepository ==> run_after(
            request,
            events.push(EventModel::Repository { bare: true }),
        ).1 == (ActionModel::Fail { message: "repository must not be bare"@ }),
{
    snapshots_hold_the_whole_sheet(request.url, text);
    let none = Seq::<EventModel>::empty();
    lemma_push(request, none, EventModel::Body { text });
    assert(none.push(EventModel::Body { text }) =~= seq![EventModel::Body { text }]);
    lemma_stage_of_action(request, events);
    lemma_push(request, events, EventModel::Repository { bare: true });
}

/// Whatever action fails, but for git's signature and `HEAD`, the sync ends with its error.
pub proof fn failed_actions_are_reported(
    request: RequestModel,
    events: Seq<EventModel>,
    message: Seq<char>,
)
    requires
        !(run_after(request, events).1 is ReadSignature),
        !(run_after(request, events).1 is ReadHead),
        !(run_after(request, events).1 is Finish),
        !(run_after(request, events).1 is Fail),
    ensures
        run_after(request, events.push(EventModel::Failed { message })).1 == (ActionModel::Fail {
            message,
        }),
{
    lemma_push(request, events, EventModel::Failed { message });
    runs_end_with_a_result_or_an_error(request, events);
    match run_after(request, events).0 {
        PhaseModel::Record { stage, snapshot, time } => {
            lemma_recording(request, events, stage, snapshot, time);
        },
        _ => {},
    }
}

/// A result is seen as what its fields hold.
pub proof fn results_are_seen_by_their_fields(result: SyncResult)
    ensures
        result@ == (SyncResultModel {
            snapshot: result.snapshot@,
            commit_id: result.commit_id@,
            changed: result.changed,
            nostr_event_id: optional_string(result.nostr_event_id),
            nip34_event_id: optional_string(result.nip34_event_id),
        }),
{
}

/// The event is one that the action can come to, other than failure.
pub open spec fn asked_for(action: ActionModel, event: EventModel) -> bool {
    match action {
        ActionModel::Fetch { .. } => event is Body,
        ActionModel::ReadClock => event is Time,
        ActionModel::DiscoverRepository => event is Repository,
        ActionModel::Commit { .. } => event is Committed,
        ActionModel::PublishNote { .. } => event is Published,
        ActionModel::ReadRepository => event is Surveyed,
        ActionModel::PublishAnnouncement { .. } => event is Published,
        ActionModel::Finish { .. } => false,
        ActionModel::Fail { .. } => false,
        _ => event is Done,
    }
}

/// An event that was not asked for ends a run with an error.
pub proof fn events_out_of_step_end_a_run(
    request: RequestModel,
    events: Seq<EventModel>,
    event: EventModel,
)
    requires
        !(event is Failed),
        !asked_for(run_after(request, events).1, event),
    ensures
        run_after(request, events.push(event)).1 == (ActionModel::Fail {
            message: "sync is out of step"@,
        }),
{
    lemma_push(request, events, event);
    runs_end_with_a_result_or_an_error(request, events);
    lemma_stage_of_action(request, events);
    match run_after(request, events).0 {
        PhaseModel::Record { stage, snapshot, time } => {
            lemma_recording(request, events, stage, snapshot, time);
        },
        PhaseModel::Clock { snapshot } => {
            lemma_clock(request, events, snapshot);
        },
        _ => {},
    }
}

} // verus!
