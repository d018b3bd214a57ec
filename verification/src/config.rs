//! What the operator asks of a run, and what follows from it before any
//! worker starts.

use crate::dates::Timestamp;
use crate::dispatch::Settings;
use crate::text::{ends_with, same};
use vstd::prelude::*;

verus! {

/// What the operator asks of a run.
#[derive(Clone, Debug, PartialEq, Eq)]
pub struct Args {
    /// Download only what was bought at or after this instant. Earlier
    /// purchases are recorded all the same.
    pub after: Option<Timestamp>,
    /// Keep to the purchases of this album.
    pub album: Option<String>,
    /// Keep to the purchases of this artist.
    pub artist: Option<String>,
    /// The audio format to download in.
    pub audio_format: String,
    /// Where the session cookies are kept.
    pub cookies: Option<String>,
    /// Print more about what the catalog answers.
    pub debug: bool,
    /// List what would be downloaded, and download nothing.
    pub dry_run: bool,
    /// Work on every purchase, whatever the store knows.
    pub force: bool,
    /// The number of workers.
    pub jobs: u8,
    /// Work on no more than this many purchases.
    pub limit: Option<usize>,
    /// The directory that the downloads go to.
    pub output_folder: String,
    /// The user whose collection is downloaded.
    pub user: String,
}

/// The places of a run in the file system, with the home directory written
/// out.
#[derive(Clone, Debug, PartialEq, Eq)]
pub struct Locations {
    pub cookies_file: Option<String>,
    pub root: String,
}

/// Whether a path starts in a way that stands for the home directory: with
/// a tilde that ends the path or has a separator behind it.
pub open spec fn names_home(path: Seq<char>) -> bool {
    path.len() > 0 && path[0] == '~' && (path.len() == 1 || path[1] == '/' || path[1] == '\\')
}

/// What holds of a path and its expansion, whatever the home directory is
/// and whether or not there is one. A path that does not name the home
/// directory is left as it is. One that does keeps what follows the tilde
/// at its end.
pub open spec fn expands_to(path: Seq<char>, expanded: Seq<char>) -> bool {
    if names_home(path) {
        ends_with(expanded, path.skip(1))
    } else {
        expanded == path
    }
}

/// Calls `shellexpand::tilde`, which puts the home directory of the current
/// user in the place of a leading tilde. The home directory is whatever the
/// system says it is at the time of the call, and there may be none, so the
/// contract states only what holds of every outcome: see `expands_to`. On some systems a backslash behind the tilde counts as a
/// separator and on others it does not; the contract allows both.
#[verifier::external_body]
fn expand_tilde(path: &str) -> (expanded: String)
    ensures
        expands_to(path@, expanded@),
{
    shellexpand::tilde(path).into_owned()
}

/// What to do about the directory that the downloads go to.
#[derive(Clone, Copy, Debug, PartialEq, Eq, Structural)]
pub enum RootPlan {
    /// It is there: use it.
    Use,
    /// Nothing is there: make it, and what is missing on the way to it.
    Create,
    /// Something else is there: the run cannot start.
    Refuse,
}

/// Decides what to do about the output directory. `found` is `None` where
/// nothing could be learned of the path, and otherwise tells whether what
/// is there is a directory.
pub fn plan_output_root(found: Option<bool>) -> (plan: RootPlan)
    ensures
        plan == match found {
            Some(true) => RootPlan::Use,
            Some(false) => RootPlan::Refuse,
            None => RootPlan::Create,
        },
{
    match found {
        Some(true) => RootPlan::Use,
        Some(false) => RootPlan::Refuse,
        None => RootPlan::Create,
    }
}

/// The names of the audio formats that can be asked for.
pub open spec fn format_names() -> Seq<Seq<char>> {
    seq![
        "flac"@,
        "wav"@,
        "aac-hi"@,
        "mp3-320"@,
        "aiff-lossless"@,
        "vorbis"@,
        "mp3-v0"@,
        "alac"@,
    ]
}

/// What a list of string slices holds, as contracts see it.
pub open spec fn names_of(names: Seq<&'static str>) -> Seq<Seq<char>> {
    names.map_values(|name: &'static str| name@)
}

/// The names of the audio formats that can be asked for.
pub fn supported_formats() -> (names: Vec<&'static str>)
    ensures
        names_of(names@) == format_names(),
{
    let mut names: Vec<&'static str> = Vec::new();
    names.push("flac");
    names.push("wav");
    names.push("aac-hi");
    names.push("mp3-320");
    names.push("aiff-lossless");
    names.push("vorbis");
    names.push("mp3-v0");
    names.push("alac");
    proof {
        assert(names_of(names@) =~= format_names());
    }
    names
}

/// Tells whether `name` is one of the audio formats that can be asked for.
pub fn is_supported_format(name: &str) -> (supported: bool)
    ensures
        supported == format_names().contains(name@),
{
    let names = supported_formats();
    let mut i: usize = 0;
    while i < names.len()
        invariant
            i <= names.len(),
            names_of(names@) == format_names(),
            forall|k: int| 0 <= k < i ==> #[trigger] format_names()[k] != name@,
        decreases names.len() - i,
    {
        assert(names_of(names@)[i as int] == names@[i as int]@);
        if same(names[i], name) {
            return true;
        }
        i += 1;
    }
    assert(names_of(names@).len() == names@.len());
    false
}

impl Args {
    /// What the workers of the run need to know.
    pub fn settings(&self) -> (settings: Settings)
        ensures
            settings == (Settings { after: self.after, dry_run: self.dry_run }),
    {
        Settings { after: self.after, dry_run: self.dry_run }
    }

    /// The output directory and the cookies file with a leading tilde
    /// replaced by the home directory, where there is one.
    pub fn locations(&self) -> (locations: Locations)
        ensures
            expands_to(self.output_folder@, locations.root@),
            match (self.cookies, locations.cookies_file) {
                (Some(path), Some(expanded)) => expands_to(path@, expanded@),
                (None, None) => true,
                _ => false,
            },
    {
        let cookies_file = match &self.cookies {
            Some(path) => Some(expand_tilde(path.as_str())),
            None => None,
        };
        Locations { cookies_file, root: expand_tilde(self.output_folder.as_str()) }
    }
}

} // verus!
