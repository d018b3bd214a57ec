use bandsnatch::catalog::{CollectionEntry, DigitalItem};
use bandsnatch::dates::Timestamp;
use bandsnatch::dispatch::{
    advance, first_task, format_download_description, format_report_line, Outcome, Settings, Task,
    NO_DOWNLOADS, SKIPPED, UNKNOWN,
};

const CUTOFF: i64 = 1_577_836_800;

fn settings(dry_run: bool) -> Settings {
    Settings { after: Some(Timestamp { secs: CUTOFF, nanos: 0 }), dry_run }
}

fn bought(id: &str, secs: Option<i64>) -> CollectionEntry {
    CollectionEntry {
        id: String::from(id),
        source_url: format!("https://example.test/{id}"),
        purchased_at: secs.map(|secs| Timestamp { secs, nanos: 0 }),
    }
}

fn album() -> DigitalItem {
    DigitalItem {
        title: String::from("Blue Lines"),
        artist: String::from("Massive Attack"),
        release_year: String::from("1991"),
        is_single: false,
        downloads: Some(vec![(String::from("flac"), String::from("https://example.test/f"))]),
    }
}

fn bare() -> DigitalItem {
    DigitalItem { downloads: None, ..album() }
}

fn record(id: &str, description: &str) -> Task {
    Task::Record { id: String::from(id), description: String::from(description) }
}

fn record_if_missing(id: &str, description: &str) -> Task {
    Task::RecordIfMissing { id: String::from(id), description: String::from(description) }
}

#[test]
fn fixed_descriptions() {
    assert_eq!(SKIPPED, "Skipped (after-filter)");
    assert_eq!(UNKNOWN, "UNKNOWN");
    assert_eq!(NO_DOWNLOADS, "No downloads");
}

#[test]
fn worker_starts_by_pulling() {
    assert_eq!(first_task(), Task::Pull);
}

#[test]
fn empty_queue_stops_the_worker() {
    assert_eq!(advance(&settings(false), Task::Pull, Outcome::Empty), Task::Stop);
    assert_eq!(advance(&settings(false), Task::Stop, Outcome::Empty), Task::Stop);
    assert_eq!(advance(&settings(false), Task::Stop, Outcome::Done), Task::Stop);
    assert_eq!(advance(&settings(true), Task::Stop, Outcome::Pulled(bought("a", None))), Task::Stop);
}

#[test]
fn early_purchase_is_recorded_as_skipped() {
    let next = advance(&settings(false), Task::Pull, Outcome::Pulled(bought("a", Some(CUTOFF - 1))));
    assert_eq!(next, record_if_missing("a", "Skipped (after-filter)"));
    assert_eq!(advance(&settings(false), next.clone(), Outcome::Done), Task::Pull);
    assert_eq!(advance(&settings(false), next, Outcome::Failed), Task::Pull);
}

#[test]
fn early_purchase_is_recorded_in_a_dry_run_too() {
    let next = advance(&settings(true), Task::Pull, Outcome::Pulled(bought("a", Some(0))));
    assert_eq!(next, record_if_missing("a", "Skipped (after-filter)"));
}

#[test]
fn purchase_at_the_cutoff_is_looked_up() {
    let entry = bought("a", Some(CUTOFF));
    let next = advance(&settings(false), Task::Pull, Outcome::Pulled(entry.clone()));
    assert_eq!(next, Task::FetchMetadata { entry });
}

#[test]
fn purchase_without_date_is_looked_up() {
    let entry = bought("a", None);
    let next = advance(&settings(false), Task::Pull, Outcome::Pulled(entry.clone()));
    assert_eq!(next, Task::FetchMetadata { entry });
}

#[test]
fn without_cutoff_every_purchase_is_looked_up() {
    let open = Settings { after: None, dry_run: false };
    let entry = bought("a", Some(i64::MIN));
    let next = advance(&open, Task::Pull, Outcome::Pulled(entry.clone()));
    assert_eq!(next, Task::FetchMetadata { entry });
}

#[test]
fn missing_details_are_recorded_as_unknown() {
    let task = Task::FetchMetadata { entry: bought("a", None) };
    let next = advance(&settings(false), task, Outcome::NotFound);
    assert_eq!(next, record("a", "UNKNOWN"));
    assert_eq!(advance(&settings(false), next, Outcome::Done), Task::Pull);
}

#[test]
fn failed_lookup_leaves_no_record() {
    let task = Task::FetchMetadata { entry: bought("a", None) };
    assert_eq!(advance(&settings(false), task, Outcome::Failed), Task::Pull);
}

#[test]
fn item_without_downloads_is_recorded_as_such() {
    let task = Task::FetchMetadata { entry: bought("a", None) };
    let next = advance(&settings(false), task.clone(), Outcome::Found(bare()));
    assert_eq!(next, record("a", "No downloads"));
    let dry = advance(&settings(true), task, Outcome::Found(bare()));
    assert_eq!(dry, record("a", "No downloads"));
}

#[test]
fn dry_run_reports_the_item() {
    let task = Task::FetchMetadata { entry: bought("a17", None) };
    let next = advance(&settings(true), task, Outcome::Found(album()));
    assert_eq!(next, Task::Report { line: String::from("a17, Blue Lines - Massive Attack") });
    assert_eq!(advance(&settings(true), next, Outcome::Done), Task::Pull);
}

#[test]
fn download_goes_through_directory_and_transfer() {
    let run = settings(false);
    let task = Task::FetchMetadata { entry: bought("a17", None) };
    let step = advance(&run, task, Outcome::Found(album()));
    assert_eq!(step, Task::CreateDirectory { id: String::from("a17"), item: album() });
    let step = advance(&run, step, Outcome::Done);
    assert_eq!(step, Task::Transfer { id: String::from("a17"), item: album() });
    let step = advance(&run, step, Outcome::Done);
    assert_eq!(step, record_if_missing("a17", "Blue Lines (1991) by Massive Attack"));
    assert_eq!(advance(&run, step, Outcome::Done), Task::Pull);
}

#[test]
fn failed_directory_leaves_no_record() {
    let task = Task::CreateDirectory { id: String::from("a"), item: album() };
    assert_eq!(advance(&settings(false), task, Outcome::Failed), Task::Pull);
}

#[test]
fn failed_transfer_leaves_no_record() {
    let task = Task::Transfer { id: String::from("a"), item: album() };
    assert_eq!(advance(&settings(false), task, Outcome::Failed), Task::Pull);
}

#[test]
fn failed_record_is_passed_over() {
    assert_eq!(advance(&settings(false), record("a", "UNKNOWN"), Outcome::Failed), Task::Pull);
    assert_eq!(advance(&settings(false), record_if_missing("a", "x"), Outcome::Failed), Task::Pull);
}

#[test]
fn outcome_that_does_not_fit_the_task_ends_the_item() {
    let run = settings(false);
    assert_eq!(advance(&run, Task::Pull, Outcome::Done), Task::Pull);
    assert_eq!(advance(&run, Task::Pull, Outcome::Found(album())), Task::Pull);
    let lookup = Task::FetchMetadata { entry: bought("a", None) };
    assert_eq!(advance(&run, lookup.clone(), Outcome::Done), Task::Pull);
    assert_eq!(advance(&run, lookup, Outcome::Empty), Task::Pull);
    let directory = Task::CreateDirectory { id: String::from("a"), item: album() };
    assert_eq!(advance(&run, directory, Outcome::NotFound), Task::Pull);
    let transfer = Task::Transfer { id: String::from("a"), item: album() };
    assert_eq!(advance(&run, transfer, Outcome::Found(album())), Task::Pull);
}

#[test]
fn report_line_names_id_title_and_artist() {
    assert_eq!(format_report_line("p9", &album()), "p9, Blue Lines - Massive Attack");
    let nameless = DigitalItem { title: String::new(), artist: String::new(), ..album() };
    assert_eq!(format_report_line("", &nameless), ",  - ");
}

#[test]
fn description_names_title_year_and_artist() {
    assert_eq!(format_download_description(&album()), "Blue Lines (1991) by Massive Attack");
    let nameless = DigitalItem {
        title: String::new(),
        artist: String::new(),
        release_year: String::new(),
        ..album()
    };
    assert_eq!(format_download_description(&nameless), " () by ");
}
