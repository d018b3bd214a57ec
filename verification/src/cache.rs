//! The record of items that have already been decided: one line of text per
//! item, the item's id first and a free-text description after it.

use crate::text::{first_index, free_of, lemma_first_index, lemma_first_index_is, texts};
use vstd::prelude::*;
use vstd::string::StringExecFns;

verus! {

/// The name of the file that holds the store, inside the output directory.
pub const CACHE_FILE_NAME: &'static str = "bandcamp-collection-downloader.cache";

/// `std::io::ErrorKind` of the standard library: the kind of an I/O error.
/// The library hands such a value on and never looks into it.
#[verifier::external_type_specification]
#[verifier::external_body]
pub struct ExErrorKind(std::io::ErrorKind);

/// What came of reading the file that holds the store.
#[derive(Debug)]
pub enum StoreRead {
    /// The file was read, and this is its text.
    Text(String),
    /// There is no such file.
    Missing,
    /// The file is there and could not be read.
    Failed(std::io::ErrorKind),
}

/// Why a store could not be opened.
#[derive(Debug)]
pub enum CacheError {
    /// Its file could not be read.
    Unreadable(std::io::ErrorKind),
}

/// One record of the store, as contracts see it.
pub ghost struct Record {
    pub id: Seq<char>,
    pub description: Seq<char>,
}

/// One record of the store.
#[derive(Clone, Debug, PartialEq, Eq)]
pub struct CacheEntry {
    pub id: String,
    pub description: String,
}

impl View for CacheEntry {
    type V = Record;

    open spec fn view(&self) -> Record {
        Record { id: self.id@, description: self.description@ }
    }
}

/// The records of `entries`, in their order.
pub open spec fn records_of(entries: Seq<CacheEntry>) -> Seq<Record> {
    entries.map_values(|entry: CacheEntry| entry@)
}

/// The ids of `records`, in their order.
pub open spec fn ids_of(records: Seq<Record>) -> Seq<Seq<char>> {
    records.map_values(|record: Record| record.id)
}

/// Whether `records` holds a record for `id`.
pub open spec fn knows(records: Seq<Record>, id: Seq<char>) -> bool {
    exists|i: int| 0 <= i < records.len() && #[trigger] records[i].id == id
}

/// The records that `records` holds for `id`, in their order.
pub open spec fn records_for(records: Seq<Record>, id: Seq<char>) -> Seq<Record>
    decreases records.len(),
{
    if records.len() == 0 {
        Seq::empty()
    } else if records.last().id == id {
        records_for(records.drop_last(), id).push(records.last())
    } else {
        records_for(records.drop_last(), id)
    }
}

/// The number of records that `records` holds for `id`.
pub open spec fn occurrences(records: Seq<Record>, id: Seq<char>) -> nat {
    records_for(records, id).len()
}

/// The store after a record was added without looking.
pub open spec fn recorded(records: Seq<Record>, id: Seq<char>, description: Seq<char>) -> Seq<
    Record,
> {
    records.push(Record { id, description })
}

/// The store after a record was added unless one for its id was there.
pub open spec fn recorded_if_missing(
    records: Seq<Record>,
    id: Seq<char>,
    description: Seq<char>,
) -> Seq<Record> {
    if knows(records, id) {
        records
    } else {
        recorded(records, id, description)
    }
}

/// The store after the calls `calls` to `add_if_missing` took effect one
/// after the other, each with the id and the description of its record.
pub open spec fn replayed(records: Seq<Record>, calls: Seq<Record>) -> Seq<Record>
    decreases calls.len(),
{
    if calls.len() == 0 {
        records
    } else {
        replayed(
            recorded_if_missing(records, calls[0].id, calls[0].description),
            calls.drop_first(),
        )
    }
}

/// Whether a record can be written as a line and read back: the id holds no
/// colon, and neither part holds a line feed.
pub open spec fn storable(record: Record) -> bool {
    &&& free_of(record.id, ':')
    &&& free_of(record.id, '\n')
    &&& free_of(record.description, '\n')
}

/// Whether a text is made of whole lines: it is empty or ends with a line
/// feed.
pub open spec fn whole_lines(text: Seq<char>) -> bool {
    text.len() == 0 || text.last() == '\n'
}

/// The line of text that stands for a record: the id, a colon and a space,
/// the description, and a line feed.
pub open spec fn record_line(record: Record) -> Seq<char> {
    record.id + seq![':', ' '] + record.description + seq!['\n']
}

/// The record that a line of the store stands for. The id is what comes
/// before the first colon, the description what comes after it, less one
/// space where the description starts with one. A line without a colon is
/// an id without a description.
pub open spec fn parse_line(line: Seq<char>) -> Record {
    let cut = first_index(line, ':');
    if cut == line.len() {
        Record { id: line, description: Seq::empty() }
    } else {
        let rest = line.skip(cut + 1);
        Record {
            id: line.take(cut),
            description: if rest.len() > 0 && rest[0] == ' ' {
                rest.drop_first()
            } else {
                rest
            },
        }
    }
}

/// The record of a line, or nothing for a line without characters.
pub open spec fn parse_optional_line(line: Seq<char>) -> Seq<Record> {
    if line.len() == 0 {
        Seq::empty()
    } else {
        seq![parse_line(line)]
    }
}

/// The records that the text of a store stands for: one for each line that
/// holds a character, in the order of the lines. A line ends at a line feed
/// or at the end of the text.
pub open spec fn parse_records(text: Seq<char>) -> Seq<Record>
    decreases text.len(),
{
    if text.len() == 0 {
        Seq::empty()
    } else {
        let end = first_index(text, '\n');
        let rest = if 0 <= end < text.len() {
            text.skip(end + 1)
        } else {
            Seq::empty()
        };
        parse_optional_line(text.take(end)) + parse_records(rest)
    }
}

/// A text that starts with a line and its line feed stands for the record
/// of that line and then for what the rest of the text stands for.
pub proof fn lemma_parse_first_line(line: Seq<char>, rest: Seq<char>)
    requires
        free_of(line, '\n'),
    ensures
        parse_records(line + seq!['\n'] + rest) == parse_optional_line(line) + parse_records(rest),
{
    let text = line + seq!['\n'] + rest;
    lemma_first_index_is(text, '\n', line.len() as int);
    assert(text.take(line.len() as int) =~= line);
    assert(text.skip(line.len() as int + 1) =~= rest);
}

/// A text without a line feed is one line.
pub proof fn lemma_parse_last_line(line: Seq<char>)
    requires
        free_of(line, '\n'),
    ensures
        parse_records(line) == parse_optional_line(line),
{
    if line.len() > 0 {
        lemma_first_index_is(line, '\n', line.len() as int);
        assert(line.take(line.len() as int) =~= line);
        assert(parse_records(Seq::<char>::empty()) =~= Seq::<Record>::empty());
        assert(parse_optional_line(line) + Seq::<Record>::empty() =~= parse_optional_line(line));
    }
}

/// How the record of a line changes when the line grows by one character.
proof fn lemma_parse_line_grows(line: Seq<char>, ch: char)
    ensures
        first_index(line.push(ch), ':') == if first_index(line, ':') < line.len() || ch == ':' {
            first_index(line, ':')
        } else {
            line.len() as int + 1
        },
        parse_line(line.push(ch)).id == if first_index(line, ':') < line.len() || ch == ':' {
            parse_line(line).id
        } else {
            parse_line(line).id.push(ch)
        },
        parse_line(line.push(ch)).description == if first_index(line, ':') == line.len() || (
        first_index(line, ':') + 1 == line.len() && ch == ' ') {
            parse_line(line).description
        } else {
            parse_line(line).description.push(ch)
        },
{
    let cut = first_index(line, ':');
    let grown = line.push(ch);
    lemma_first_index(line, ':');
    if cut < line.len() {
        lemma_first_index_is(grown, ':', cut);
        assert(grown.take(cut) =~= line.take(cut));
        assert(grown.skip(cut + 1) =~= line.skip(cut + 1).push(ch));
        let rest = line.skip(cut + 1);
        if rest.len() > 0 && rest[0] == ' ' {
            assert(rest.push(ch).drop_first() =~= rest.drop_first().push(ch));
        } else if rest.len() == 0 {
            assert(rest.push(ch).drop_first() =~= rest);
            assert(rest.push(ch) =~= parse_line(line).description.push(ch));
        }
    } else if ch == ':' {
        lemma_first_index_is(grown, ':', cut);
        assert(grown.take(cut) =~= line);
        assert(grown.skip(cut + 1) =~= Seq::<char>::empty());
    } else {
        lemma_first_index_is(grown, ':', cut + 1);
    }
}

/// Reading two texts one after the other is reading them as one, where the
/// first is made of whole lines.
pub proof fn lemma_parse_whole_lines(text: Seq<char>, more: Seq<char>)
    requires
        whole_lines(text),
    ensures
        parse_records(text + more) == parse_records(text) + parse_records(more),
    decreases text.len(),
{
    if text.len() == 0 {
        assert(text + more =~= more);
        assert(parse_records(text) + parse_records(more) =~= parse_records(more));
    } else {
        lemma_first_index(text, '\n');
        let end = first_index(text, '\n');
        let line = text.take(end);
        let rest = text.skip(end + 1);
        assert(text =~= line + seq!['\n'] + rest);
        assert(text + more =~= line + seq!['\n'] + (rest + more));
        if rest.len() > 0 {
            assert(rest.last() == text.last());
        }
        lemma_parse_first_line(line, rest);
        lemma_parse_first_line(line, rest + more);
        lemma_parse_whole_lines(rest, more);
        assert(parse_optional_line(line) + (parse_records(rest) + parse_records(more))
            =~= parse_optional_line(line) + parse_records(rest) + parse_records(more));
    }
}

/// The line written for a record is read back as that record.
pub proof fn lemma_line_is_read_back(record: Record)
    requires
        storable(record),
    ensures
        parse_records(record_line(record)) == seq![record],
{
    let line = record.id + seq![':', ' '] + record.description;
    assert(record_line(record) =~= line + seq!['\n'] + Seq::<char>::empty());
    lemma_parse_first_line(line, Seq::empty());
    lemma_first_index_is(line, ':', record.id.len() as int);
    assert(line.take(record.id.len() as int) =~= record.id);
    let rest = line.skip(record.id.len() as int + 1);
    assert(rest =~= seq![' '] + record.description);
    assert(rest.drop_first() =~= record.description);
    assert(parse_line(line) == record);
    assert(seq![record] + Seq::<Record>::empty() =~= seq![record]);
}

/// Appending is durable. Where the text of a store is made of whole lines,
/// the text with the line of one more record at its end is read as the
/// records that were there, unchanged and in their order, and the new one
/// after them.
pub proof fn lemma_appended_line_is_read_back(text: Seq<char>, record: Record)
    requires
        whole_lines(text),
        storable(record),
    ensures
        parse_records(text + record_line(record)) == parse_records(text).push(record),
        whole_lines(text + record_line(record)),
{
    lemma_parse_whole_lines(text, record_line(record));
    lemma_line_is_read_back(record);
    assert(parse_records(text) + seq![record] =~= parse_records(text).push(record));
}

/// A store knows an id exactly where it holds at least one record for it.
pub proof fn lemma_known_is_counted(records: Seq<Record>, id: Seq<char>)
    ensures
        knows(records, id) <==> occurrences(records, id) > 0,
        forall|i: int|
            0 <= i < records_for(records, id).len() ==> (#[trigger] records_for(
                records,
                id,
            )[i]).id == id,
    decreases records.len(),
{
    if records.len() > 0 {
        let before = records.drop_last();
        lemma_known_is_counted(before, id);
        if knows(records, id) {
            let i = choose|i: int| 0 <= i < records.len() && #[trigger] records[i].id == id;
            if i < before.len() {
                assert(before[i].id == id);
            }
        }
        if knows(before, id) {
            let i = choose|i: int| 0 <= i < before.len() && #[trigger] before[i].id == id;
            assert(records[i].id == id);
        }
        if records.last().id == id {
            assert(records[records.len() - 1].id == id);
        }
    }
}

/// What one more record does to the records of an id.
pub proof fn lemma_records_for_push(records: Seq<Record>, record: Record, id: Seq<char>)
    ensures
        records_for(records.push(record), id) == if record.id == id {
            records_for(records, id).push(record)
        } else {
            records_for(records, id)
        },
{
    assert(records.push(record).drop_last() =~= records);
}

/// Idempotence of `add_if_missing`. Two calls for one id, with whatever
/// descriptions, leave the store as the first call alone leaves it. A store
/// that held no record for the id then holds exactly one, with the
/// description of the first call; a store that held some holds the same
/// ones.
pub proof fn lemma_add_if_missing_twice(
    records: Seq<Record>,
    id: Seq<char>,
    first: Seq<char>,
    second: Seq<char>,
)
    ensures
        recorded_if_missing(recorded_if_missing(records, id, first), id, second)
            == recorded_if_missing(records, id, first),
        records_for(recorded_if_missing(records, id, first), id) == if knows(records, id) {
            records_for(records, id)
        } else {
            seq![Record { id, description: first }]
        },
{
    let once = recorded_if_missing(records, id, first);
    lemma_known_is_counted(records, id);
    if !knows(records, id) {
        let record = Record { id, description: first };
        lemma_records_for_push(records, record, id);
        assert(once[records.len() as int].id == id);
        assert(records_for(records, id) =~= Seq::<Record>::empty());
        assert(records_for(once, id) =~= seq![record]);
    }
}

/// The position of the first call for `id` among `calls`, or the number of
/// calls where none is for it.
pub open spec fn first_call_for(calls: Seq<Record>, id: Seq<char>) -> int
    decreases calls.len(),
{
    if calls.len() == 0 || calls[0].id == id {
        0
    } else {
        1 + first_call_for(calls.drop_first(), id)
    }
}

/// The first write wins. Let any number of callers call `add_if_missing`,
/// and let their calls take effect in the order `calls`. The records of an
/// id that the store knew stay as they were. An id that it did not know
/// has exactly one record afterwards if any call was for it, and that
/// record is the one of the first such call; it has none if no call was.
pub proof fn lemma_first_write_wins(records: Seq<Record>, calls: Seq<Record>, id: Seq<char>)
    ensures
        0 <= first_call_for(calls, id) <= calls.len(),
        records_for(replayed(records, calls), id) == if knows(records, id) {
            records_for(records, id)
        } else if first_call_for(calls, id) < calls.len() {
            seq![calls[first_call_for(calls, id)]]
        } else {
            Seq::empty()
        },
    decreases calls.len(),
{
    lemma_known_is_counted(records, id);
    if calls.len() == 0 {
        assert(records_for(records, id) =~= Seq::<Record>::empty() || knows(records, id));
    } else {
        let call = calls[0];
        let next = recorded_if_missing(records, call.id, call.description);
        lemma_first_write_wins(next, calls.drop_first(), id);
        lemma_known_is_counted(next, id);
        lemma_add_if_missing_twice(records, call.id, call.description, call.description);
        if knows(records, call.id) {
            assert(next == records);
        } else {
            lemma_records_for_push(records, call, id);
            assert(call == Record { id: call.id, description: call.description });
            assert(next == records.push(call));
        }
        if call.id != id && first_call_for(calls.drop_first(), id) < calls.drop_first().len() {
            assert(calls.drop_first()[first_call_for(calls.drop_first(), id)]
                == calls[first_call_for(calls, id)]);
        }
    }
}

/// Writes the line that stands for the record of `id` and `description`.
pub fn format_record(id: &str, description: &str) -> (line: String)
    ensures
        line@ == record_line(Record { id: id@, description: description@ }),
{
    proof {
        reveal_strlit(": ");
        reveal_strlit("\n");
        assert(": "@ =~= seq![':', ' ']);
        assert("\n"@ =~= seq!['\n']);
    }
    let mut line = String::from_str(id);
    line.append(": ");
    line.append(description);
    line.append("\n");
    line
}

/// The records of a store, in the order in which they were written.
pub struct Cache {
    entries: Vec<CacheEntry>,
}

impl View for Cache {
    type V = Seq<Record>;

    closed spec fn view(&self) -> Seq<Record> {
        records_of(self.entries@)
    }
}

impl Cache {
    /// A store without records.
    pub fn new() -> (cache: Cache)
        ensures
            cache@ == Seq::<Record>::empty(),
    {
        Cache { entries: Vec::new() }
    }

    /// Opens the store from what came of reading its file. A file that is
    /// missing is a store without records. A file that could not be read is
    /// an error of the kind that the reading gave.
    pub fn open(read: StoreRead) -> (opened: Result<Cache, CacheError>)
        ensures
            match read {
                StoreRead::Text(text) => opened matches Ok(cache) && cache@ == parse_records(text@),
                StoreRead::Missing => opened matches Ok(cache) && cache@ == Seq::<Record>::empty(),
                StoreRead::Failed(kind) => opened matches Err(CacheError::Unreadable(reason))
                    && reason == kind,
            },
    {
        match read {
            StoreRead::Text(text) => Ok(Cache::load(text.as_str())),
            StoreRead::Missing => Ok(Cache::new()),
            StoreRead::Failed(kind) => Err(CacheError::Unreadable(kind)),
        }
    }

    /// Reads the text of a store.
    pub fn load(text: &str) -> (cache: Cache)
        ensures
            cache@ == parse_records(text@),
    {
        let mut entries: Vec<CacheEntry> = Vec::new();
        let mut id = String::new();
        let mut description = String::new();
        let mut in_description = false;
        let mut after_colon = false;
        let mut any = false;
        let ghost mut line: Seq<char> = Seq::empty();
        proof {
            assert(line + text@.skip(0) =~= text@);
            assert(records_of(entries@) + parse_records(text@) =~= parse_records(text@));
        }
        for ch in it: text.chars()
            invariant
                it.seq() == text@,
                parse_records(text@) == records_of(entries@) + parse_records(
                    line + text@.skip(it.index()),
                ),
                free_of(line, '\n'),
                any == (line.len() > 0),
                id@ == parse_line(line).id,
                description@ == parse_line(line).description,
                in_description == (first_index(line, ':') < line.len()),
                after_colon == (first_index(line, ':') + 1 == line.len()),
        {
            let ghost rest = text@.skip(it.index() + 1);
            proof {
                assert(text@.skip(it.index()) =~= seq![ch] + rest);
            }
            if ch == '\n' {
                proof {
                    assert(line + text@.skip(it.index()) =~= line + seq!['\n'] + rest);
                    lemma_parse_first_line(line, rest);
                }
                let ghost done = records_of(entries@);
                if any {
                    entries.push(CacheEntry { id, description });
                }
                proof {
                    assert(records_of(entries@) =~= done + parse_optional_line(line));
                    assert(Seq::<char>::empty() + rest =~= rest);
                    assert(parse_records(text@) =~= records_of(entries@) + parse_records(rest));
                }
                id = String::new();
                description = String::new();
                in_description = false;
                after_colon = false;
                any = false;
                proof {
                    line = Seq::empty();
                }
            } else {
                proof {
                    lemma_first_index(line, ':');
                    lemma_parse_line_grows(line, ch);
                    assert(line + text@.skip(it.index()) =~= line.push(ch) + rest);
                }
                if !in_description {
                    if ch == ':' {
                        in_description = true;
                        after_colon = true;
                    } else {
                        id.push(ch);
                    }
                } else {
                    if !(after_colon && ch == ' ') {
                        description.push(ch);
                    }
                    after_colon = false;
                }
                any = true;
                proof {
                    line = line.push(ch);
                }
            }
        }
        let ghost done = records_of(entries@);
        if any {
            entries.push(CacheEntry { id, description });
        }
        proof {
            assert(line + text@.skip(text@.len() as int) =~= line);
            lemma_parse_last_line(line);
            assert(records_of(entries@) =~= done + parse_optional_line(line));
        }
        Cache { entries }
    }

    /// The number of records.
    pub fn len(&self) -> (count: usize)
        ensures
            count == self@.len(),
    {
        self.entries.len()
    }

    /// The ids of all records, in the order of the records.
    pub fn content(&self) -> (ids: Vec<String>)
        ensures
            texts(ids@) == ids_of(self@),
    {
        let mut ids: Vec<String> = Vec::new();
        let mut i: usize = 0;
        while i < self.entries.len()
            invariant
                i <= self.entries.len(),
                ids@.len() == i,
                forall|k: int| 0 <= k < i ==> (#[trigger] ids@[k])@ == self.entries@[k].id@,
            decreases self.entries.len() - i,
        {
            ids.push(self.entries[i].id.clone());
            i += 1;
        }
        proof {
            assert(texts(ids@) =~= ids_of(self@));
        }
        ids
    }

    /// Tells whether there is a record for `id`.
    pub fn contains(&self, id: &str) -> (known: bool)
        ensures
            known == knows(self@, id@),
    {
        let probe = id.to_owned();
        let mut i: usize = 0;
        while i < self.entries.len()
            invariant
                i <= self.entries.len(),
                probe@ == id@,
                !knows(self@.take(i as int), id@),
            decreases self.entries.len() - i,
        {
            if self.entries[i].id == probe {
                assert(self@[i as int].id == id@);
                return true;
            }
            proof {
                let before = self@.take(i as int);
                let now = self@.take(i + 1);
                assert forall|k: int| 0 <= k < now.len() implies #[trigger] now[k].id != id@ by {
                    if k < i {
                        assert(before[k].id != id@);
                    }
                }
            }
            i += 1;
        }
        proof {
            assert(self@.take(i as int) =~= self@);
        }
        false
    }

    /// Adds a record without looking whether the id has one already, and
    /// hands back the line that stands for it.
    pub fn add(&mut self, id: &str, description: &str) -> (line: String)
        ensures
            final(self)@ == recorded(old(self)@, id@, description@),
            line@ == record_line(Record { id: id@, description: description@ }),
    {
        let entry = CacheEntry { id: id.to_owned(), description: description.to_owned() };
        self.entries.push(entry);
        proof {
            assert(final(self)@ =~= recorded(old(self)@, id@, description@));
        }
        format_record(id, description)
    }

    /// Adds a record unless the id has one already. Hands back the line that
    /// stands for the new record, or `None` when nothing was added.
    pub fn add_if_missing(&mut self, id: &str, description: &str) -> (line: Option<String>)
        ensures
            final(self)@ == recorded_if_missing(old(self)@, id@, description@),
            match line {
                Some(text) => !knows(old(self)@, id@) && text@ == record_line(
                    Record { id: id@, description: description@ },
                ),
                None => knows(old(self)@, id@),
            },
    {
        if self.contains(id) {
            None
        } else {
            Some(self.add(id, description))
        }
    }
}

} // verus!
