//! What the catalog service tells about a collection: the purchases it
//! lists, and the details it gives of one item.

use crate::dates::{parse_purchased_date, purchase_instant, Timestamp};
use vstd::prelude::*;

verus! {

/// One purchase, as contracts see it.
pub ghost struct EntryView {
    pub id: Seq<char>,
    pub source_url: Seq<char>,
    pub purchased_at: Option<Timestamp>,
}

/// One purchase of the collection: the id under which it is remembered,
/// where its details are found, and when it was bought, if that is known.
#[derive(Clone, Debug, PartialEq, Eq)]
pub struct CollectionEntry {
    pub id: String,
    pub source_url: String,
    pub purchased_at: Option<Timestamp>,
}

impl View for CollectionEntry {
    type V = EntryView;

    open spec fn view(&self) -> EntryView {
        EntryView { id: self.id@, source_url: self.source_url@, purchased_at: self.purchased_at }
    }
}

/// The purchases of `entries`, in their order.
pub open spec fn entry_views(entries: Seq<CollectionEntry>) -> Seq<EntryView> {
    entries.map_values(|entry: CollectionEntry| entry@)
}

impl CollectionEntry {
    /// The purchase that one line of the catalog's listing stands for. A
    /// purchase date that is not in the catalog's form counts as unknown.
    pub fn from_listing(id: String, source_url: String, purchased: Option<&str>) -> (entry:
        CollectionEntry)
        ensures
            entry.id == id,
            entry.source_url == source_url,
            entry.purchased_at == match purchased {
                Some(text) => purchase_instant(text@),
                None => None,
            },
    {
        let purchased_at = match purchased {
            Some(text) => parse_purchased_date(text),
            None => None,
        };
        CollectionEntry { id, source_url, purchased_at }
    }
}

/// The details of one item, as contracts see them.
pub ghost struct ItemView {
    pub title: Seq<char>,
    pub artist: Seq<char>,
    pub release_year: Seq<char>,
    pub is_single: bool,
    pub downloads: Option<Seq<(Seq<char>, Seq<char>)>>,
}

/// The details of one item: what it is called, who made it and when, whether
/// it is a single track, and for each audio format in which it can be had
/// the place where that content is fetched. An item without downloads has
/// `None` there.
#[derive(Clone, Debug, PartialEq, Eq)]
pub struct DigitalItem {
    pub title: String,
    pub artist: String,
    pub release_year: String,
    pub is_single: bool,
    pub downloads: Option<Vec<(String, String)>>,
}

impl View for DigitalItem {
    type V = ItemView;

    open spec fn view(&self) -> ItemView {
        ItemView {
            title: self.title@,
            artist: self.artist@,
            release_year: self.release_year@,
            is_single: self.is_single,
            downloads: match self.downloads {
                Some(list) => Some(list@.map_values(|pair: (String, String)| (pair.0@, pair.1@))),
                None => None,
            },
        }
    }
}

} // verus!
