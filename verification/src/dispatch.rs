//! What a worker does with one purchase after the other. The worker itself
//! fetches, writes and waits; this module decides. A worker starts with the
//! task `Task::Pull`, carries the task out, and hands the outcome to
//! `advance`, which names the next task, until the task is `Task::Stop`.

use crate::catalog::{CollectionEntry, DigitalItem, EntryView, ItemView};
use crate::dates::{before_cutoff, earlier_purchase, Timestamp};
use vstd::prelude::*;
use vstd::string::StringExecFns;

verus! {

/// Recorded for a purchase that was made before the cutoff.
pub const SKIPPED: &'static str = "Skipped (after-filter)";

/// Recorded for a purchase of which the catalog has no details.
pub const UNKNOWN: &'static str = "UNKNOWN";

/// Recorded for an item that cannot be downloaded in any format.
pub const NO_DOWNLOADS: &'static str = "No downloads";

/// What a run asks of every worker.
#[derive(Clone, Copy, Debug, PartialEq, Eq, Structural)]
pub struct Settings {
    /// Purchases made before this instant are recorded and not downloaded.
    pub after: Option<Timestamp>,
    /// Report what would be downloaded, and download nothing.
    pub dry_run: bool,
}

/// A task, as contracts see it.
pub ghost enum TaskView {
    Pull,
    FetchMetadata { entry: EntryView },
    CreateDirectory { id: Seq<char>, item: ItemView },
    Transfer { id: Seq<char>, item: ItemView },
    Record { id: Seq<char>, description: Seq<char> },
    RecordIfMissing { id: Seq<char>, description: Seq<char> },
    Report { line: Seq<char> },
    Stop,
}

/// The one thing that a worker has to do next.
#[derive(Clone, Debug, PartialEq, Eq)]
pub enum Task {
    /// Take the next purchase from the queue.
    Pull,
    /// Ask the catalog for the details of the purchase.
    FetchMetadata { entry: CollectionEntry },
    /// Make the directory that the item goes to.
    CreateDirectory { id: String, item: DigitalItem },
    /// Fetch the item's content into its directory.
    Transfer { id: String, item: DigitalItem },
    /// Add a record to the store, whether or not the id has one.
    Record { id: String, description: String },
    /// Add a record to the store unless the id has one.
    RecordIfMissing { id: String, description: String },
    /// Add a line to the list of what a run would download.
    Report { line: String },
    /// Leave: the queue is empty.
    Stop,
}

impl View for Task {
    type V = TaskView;

    open spec fn view(&self) -> TaskView {
        match *self {
            Task::Pull => TaskView::Pull,
            Task::FetchMetadata { entry } => TaskView::FetchMetadata { entry: entry@ },
            Task::CreateDirectory { id, item } => TaskView::CreateDirectory { id: id@, item: item@ },
            Task::Transfer { id, item } => TaskView::Transfer { id: id@, item: item@ },
            Task::Record { id, description } => TaskView::Record {
                id: id@,
                description: description@,
            },
            Task::RecordIfMissing { id, description } => TaskView::RecordIfMissing {
                id: id@,
                description: description@,
            },
            Task::Report { line } => TaskView::Report { line: line@ },
            Task::Stop => TaskView::Stop,
        }
    }
}

/// An outcome, as contracts see it.
pub ghost enum OutcomeView {
    Pulled(EntryView),
    Empty,
    Found(ItemView),
    NotFound,
    Done,
    Failed,
}

/// How a task ended.
#[derive(Clone, Debug, PartialEq, Eq)]
pub enum Outcome {
    /// The queue handed out this purchase.
    Pulled(CollectionEntry),
    /// The queue had nothing left.
    Empty,
    /// The catalog has these details.
    Found(DigitalItem),
    /// The catalog has no details of the purchase.
    NotFound,
    /// The task was carried out.
    Done,
    /// The task could not be carried out.
    Failed,
}

impl View for Outcome {
    type V = OutcomeView;

    open spec fn view(&self) -> OutcomeView {
        match *self {
            Outcome::Pulled(entry) => OutcomeView::Pulled(entry@),
            Outcome::Empty => OutcomeView::Empty,
            Outcome::Found(item) => OutcomeView::Found(item@),
            Outcome::NotFound => OutcomeView::NotFound,
            Outcome::Done => OutcomeView::Done,
            Outcome::Failed => OutcomeView::Failed,
        }
    }
}

/// The line that a dry run reports for an item: the id, then title and
/// artist.
pub open spec fn report_line(id: Seq<char>, item: ItemView) -> Seq<char> {
    id + ", "@ + item.title + " - "@ + item.artist
}

/// The description under which a downloaded item is recorded: title, year
/// and artist.
pub open spec fn download_description(item: ItemView) -> Seq<char> {
    item.title + " ("@ + item.release_year + ") by "@ + item.artist
}

/// The task that follows `task` once it ended with `outcome`.
///
/// A purchase made before the cutoff is recorded as skipped and left at
/// that. For any other the catalog is asked. A purchase without details, and
/// one without downloads, is recorded as such. A dry run reports the item;
/// otherwise its directory is made, its content fetched, and the item
/// recorded under its description. A task that fails ends the work on its
/// purchase without a record. After the last task for a purchase comes
/// `Pull`, and after an empty queue `Stop`.
pub open spec fn next_task(settings: Settings, task: TaskView, outcome: OutcomeView) -> TaskView {
    match task {
        TaskView::Pull => match outcome {
            OutcomeView::Pulled(entry) => if earlier_purchase(
                settings.after,
                entry.purchased_at,
            ) is Some {
                TaskView::RecordIfMissing { id: entry.id, description: SKIPPED@ }
            } else {
                TaskView::FetchMetadata { entry }
            },
            OutcomeView::Empty => TaskView::Stop,
            _ => TaskView::Pull,
        },
        TaskView::FetchMetadata { entry } => match outcome {
            OutcomeView::Found(item) => if item.downloads is None {
                TaskView::Record { id: entry.id, description: NO_DOWNLOADS@ }
            } else if settings.dry_run {
                TaskView::Report { line: report_line(entry.id, item) }
            } else {
                TaskView::CreateDirectory { id: entry.id, item }
            },
            OutcomeView::NotFound => TaskView::Record { id: entry.id, description: UNKNOWN@ },
            _ => TaskView::Pull,
        },
        TaskView::CreateDirectory { id, item } => match outcome {
            OutcomeView::Done => TaskView::Transfer { id, item },
            _ => TaskView::Pull,
        },
        TaskView::Transfer { id, item } => match outcome {
            OutcomeView::Done => TaskView::RecordIfMissing {
                id,
                description: download_description(item),
            },
            _ => TaskView::Pull,
        },
        TaskView::Record { .. } => TaskView::Pull,
        TaskView::RecordIfMissing { .. } => TaskView::Pull,
        TaskView::Report { .. } => TaskView::Pull,
        TaskView::Stop => TaskView::Stop,
    }
}

/// The tasks that a worker turns to, one after each of `outcomes`, when it
/// is at `task` and the outcomes come in that order.
pub open spec fn tasks_after(settings: Settings, task: TaskView, outcomes: Seq<OutcomeView>) -> Seq<
    TaskView,
>
    decreases outcomes.len(),
{
    if outcomes.len() == 0 {
        Seq::empty()
    } else {
        let next = next_task(settings, task, outcomes[0]);
        seq![next] + tasks_after(settings, next, outcomes.drop_first())
    }
}

/// Whether a task makes a directory or fetches content.
pub open spec fn touches_files(task: TaskView) -> bool {
    task is CreateDirectory || task is Transfer
}

/// Whether a task writes a record that is not one of the three fixed
/// descriptions: that is, the record of a download.
pub open spec fn records_download(task: TaskView) -> bool {
    match task {
        TaskView::Record { description, .. } => description != UNKNOWN@ && description
            != NO_DOWNLOADS@,
        TaskView::RecordIfMissing { description, .. } => description != SKIPPED@,
        _ => false,
    }
}

/// Date-filter skip. A purchase made before the cutoff gets one task, the
/// record that it was skipped, written unless the id has a record. Whatever
/// comes of that, the worker then turns to the queue again: no details are
/// asked for, no directory made and nothing fetched. This holds in a dry run
/// too.
pub proof fn lemma_early_purchase_is_skipped(
    settings: Settings,
    entry: EntryView,
    reply: OutcomeView,
)
    requires
        earlier_purchase(settings.after, entry.purchased_at) is Some,
    ensures
        tasks_after(settings, TaskView::Pull, seq![OutcomeView::Pulled(entry), reply]) == seq![
            TaskView::RecordIfMissing { id: entry.id, description: SKIPPED@ },
            TaskView::Pull,
        ],
{
    let outcomes = seq![OutcomeView::Pulled(entry), reply];
    let skip = TaskView::RecordIfMissing { id: entry.id, description: SKIPPED@ };
    reveal_with_fuel(tasks_after, 3);
    assert(outcomes.drop_first() =~= seq![reply]);
    assert(seq![reply].drop_first() =~= Seq::<OutcomeView>::empty());
    assert(tasks_after(settings, TaskView::Pull, outcomes) =~= seq![skip, TaskView::Pull]);
}

/// Every purchase that was not made before the cutoff is looked up in the
/// catalog, in a dry run as in any other.
pub proof fn lemma_later_purchase_is_looked_up(settings: Settings, entry: EntryView)
    requires
        earlier_purchase(settings.after, entry.purchased_at) is None,
    ensures
        next_task(settings, TaskView::Pull, OutcomeView::Pulled(entry)) == (TaskView::FetchMetadata {
            entry,
        }),
{
}

/// A task that could not be carried out leaves no record: the worker turns
/// to the queue for the next purchase.
pub proof fn lemma_failure_leaves_no_record(settings: Settings, task: TaskView)
    ensures
        next_task(settings, task, OutcomeView::Failed) == if task is Stop {
            TaskView::Stop
        } else {
            TaskView::Pull
        },
{
}

/// Dry-run purity. In a dry run no worker ever turns to making a directory
/// or to fetching content, and none records a download, whatever the queue
/// hands out and whatever the catalog answers. The records that a dry run
/// does write are those of purchases before the cutoff, of purchases without
/// details and of items without downloads.
pub proof fn lemma_dry_run_touches_no_files(
    settings: Settings,
    task: TaskView,
    outcomes: Seq<OutcomeView>,
)
    requires
        settings.dry_run,
        !touches_files(task),
    ensures
        tasks_after(settings, task, outcomes).len() == outcomes.len(),
        forall|i: int|
            0 <= i < outcomes.len() ==> !touches_files(
                #[trigger] tasks_after(settings, task, outcomes)[i],
            ) && !records_download(tasks_after(settings, task, outcomes)[i]),
    decreases outcomes.len(),
{
    if outcomes.len() > 0 {
        let next = next_task(settings, task, outcomes[0]);
        lemma_dry_run_touches_no_files(settings, next, outcomes.drop_first());
        let later = tasks_after(settings, next, outcomes.drop_first());
        assert forall|i: int| 0 <= i < outcomes.len() implies !touches_files(
            #[trigger] tasks_after(settings, task, outcomes)[i],
        ) && !records_download(tasks_after(settings, task, outcomes)[i]) by {
            if i > 0 {
                assert(tasks_after(settings, task, outcomes)[i] == later[i - 1]);
            }
        }
    }
}

/// In a dry run, an item that has downloads, bought at or after the cutoff,
/// gets two tasks: its details are fetched and its line is reported. Then
/// the worker turns to the queue again: nothing was written to the store.
pub proof fn lemma_dry_run_item_is_reported(
    settings: Settings,
    entry: EntryView,
    item: ItemView,
    reply: OutcomeView,
)
    requires
        settings.dry_run,
        earlier_purchase(settings.after, entry.purchased_at) is None,
        item.downloads is Some,
    ensures
        tasks_after(
            settings,
            TaskView::Pull,
            seq![OutcomeView::Pulled(entry), OutcomeView::Found(item), reply],
        ) == seq![
            TaskView::FetchMetadata { entry },
            TaskView::Report { line: report_line(entry.id, item) },
            TaskView::Pull,
        ],
{
    let outcomes = seq![OutcomeView::Pulled(entry), OutcomeView::Found(item), reply];
    reveal_with_fuel(tasks_after, 4);
    assert(outcomes.drop_first() =~= seq![OutcomeView::Found(item), reply]);
    assert(seq![OutcomeView::Found(item), reply].drop_first() =~= seq![reply]);
    assert(seq![reply].drop_first() =~= Seq::<OutcomeView>::empty());
    assert(tasks_after(settings, TaskView::Pull, outcomes) =~= seq![
        TaskView::FetchMetadata { entry },
        TaskView::Report { line: report_line(entry.id, item) },
        TaskView::Pull,
    ]);
}

/// Outside a dry run, an item that has downloads, bought at or after the
/// cutoff, is looked up, given its directory, fetched, and recorded under
/// its description unless the id has a record.
pub proof fn lemma_download_is_recorded(
    settings: Settings,
    entry: EntryView,
    item: ItemView,
    reply: OutcomeView,
)
    requires
        !settings.dry_run,
        earlier_purchase(settings.after, entry.purchased_at) is None,
        item.downloads is Some,
    ensures
        tasks_after(
            settings,
            TaskView::Pull,
            seq![
                OutcomeView::Pulled(entry),
                OutcomeView::Found(item),
                OutcomeView::Done,
                OutcomeView::Done,
                reply,
            ],
        ) == seq![
            TaskView::FetchMetadata { entry },
            TaskView::CreateDirectory { id: entry.id, item },
            TaskView::Transfer { id: entry.id, item },
            TaskView::RecordIfMissing { id: entry.id, description: download_description(item) },
            TaskView::Pull,
        ],
{
    let found = OutcomeView::Found(item);
    let done = OutcomeView::Done;
    let outcomes = seq![OutcomeView::Pulled(entry), found, done, done, reply];
    reveal_with_fuel(tasks_after, 6);
    assert(outcomes.drop_first() =~= seq![found, done, done, reply]);
    assert(seq![found, done, done, reply].drop_first() =~= seq![done, done, reply]);
    assert(seq![done, done, reply].drop_first() =~= seq![done, reply]);
    assert(seq![done, reply].drop_first() =~= seq![reply]);
    assert(seq![reply].drop_first() =~= Seq::<OutcomeView>::empty());
    assert(tasks_after(settings, TaskView::Pull, outcomes) =~= seq![
        TaskView::FetchMetadata { entry },
        TaskView::CreateDirectory { id: entry.id, item },
        TaskView::Transfer { id: entry.id, item },
        TaskView::RecordIfMissing { id: entry.id, description: download_description(item) },
        TaskView::Pull,
    ]);
}

/// Writes the line that a dry run reports for an item.
pub fn format_report_line(id: &str, item: &DigitalItem) -> (line: String)
    ensures
        line@ == report_line(id@, item@),
{
    let mut line = String::from_str(id);
    line.append(", ");
    line.append(item.title.as_str());
    line.append(" - ");
    line.append(item.artist.as_str());
    line
}

/// Writes the description under which a downloaded item is recorded.
pub fn format_download_description(item: &DigitalItem) -> (description: String)
    ensures
        description@ == download_description(item@),
{
    let mut description = String::from_str(item.title.as_str());
    description.append(" (");
    description.append(item.release_year.as_str());
    description.append(") by ");
    description.append(item.artist.as_str());
    description
}

/// The task with which every worker starts.
pub fn first_task() -> (task: Task)
    ensures
        task@ == TaskView::Pull,
{
    Task::Pull
}

/// Names the task that follows `task` once it ended with `outcome`.
pub fn advance(settings: &Settings, task: Task, outcome: Outcome) -> (next: Task)
    ensures
        next@ == next_task(*settings, task@, outcome@),
{
    match task {
        Task::Pull => match outcome {
            Outcome::Pulled(entry) => {
                if before_cutoff(settings.after, entry.purchased_at).is_some() {
                    Task::RecordIfMissing { id: entry.id, description: String::from_str(SKIPPED) }
                } else {
                    Task::FetchMetadata { entry }
                }
            },
            Outcome::Empty => Task::Stop,
            _ => Task::Pull,
        },
        Task::FetchMetadata { entry } => match outcome {
            Outcome::Found(item) => {
                if item.downloads.is_none() {
                    Task::Record { id: entry.id, description: String::from_str(NO_DOWNLOADS) }
                } else if settings.dry_run {
                    Task::Report { line: format_report_line(entry.id.as_str(), &item) }
                } else {
                    Task::CreateDirectory { id: entry.id, item }
                }
            },
            Outcome::NotFound => Task::Record {
                id: entry.id,
                description: String::from_str(UNKNOWN),
            },
            _ => Task::Pull,
        },
        Task::CreateDirectory { id, item } => match outcome {
            Outcome::Done => Task::Transfer { id, item },
            _ => Task::Pull,
        },
        Task::Transfer { id, item } => match outcome {
            Outcome::Done => {
                let description = format_download_description(&item);
                Task::RecordIfMissing { id, description }
            },
            _ => Task::Pull,
        },
        Task::Record { .. } => Task::Pull,
        Task::RecordIfMissing { .. } => Task::Pull,
        Task::Report { .. } => Task::Pull,
        Task::Stop => Task::Stop,
    }
}

} // verus!
