use std::cmp::Ordering;
use vstd::prelude::*;
use vstd::std_specs::cmp::PartialEqSpecImpl;
use vstd::std_specs::cmp::PartialOrdSpecImpl;
use vstd::string::*;

use crate::color_pair::ColorPair;
use crate::file_type::FileType;
use crate::metadata::Metadata;
use crate::mime::{guess_mime, guessed_mime, media_type, media_type_of};
use crate::name_order::{compare_names, order_of, Order};

verus! {

/// One child of a listed directory.
///
/// Entries are compared by `filename` alone: two entries with the same file
/// name are equal, whatever else they hold.
#[derive(Debug)]
pub struct Entry {
    /// Absolute path; identifies the entry.
    pub path: String,
    /// The name shown in the listing.
    pub filename: String,
    pub metadata: Metadata,
    pub filetype: FileType,
    /// Media type guessed from the path.
    pub mime: String,
    /// Styles for the unfocused and the focused row, fixed at creation.
    pub color: ColorPair,
    /// Size label; empty until it has been computed.
    pub size: String,
}

/// An entry as a value: its texts as character sequences.
pub struct EntryView {
    pub path: Seq<char>,
    pub filename: Seq<char>,
    pub metadata: Metadata,
    pub filetype: FileType,
    pub mime: Seq<char>,
    pub color: ColorPair,
    pub size: Seq<char>,
}

impl View for Entry {
    type V = EntryView;

    open spec fn view(&self) -> EntryView {
        EntryView {
            path: self.path@,
            filename: self.filename@,
            metadata: self.metadata,
            filetype: self.filetype,
            mime: self.mime@,
            color: self.color,
            size: self.size@,
        }
    }
}

/// The entries of a list as values.
pub open spec fn entry_views(s: Seq<Entry>) -> Seq<EntryView> {
    s.map_values(|entry: Entry| entry@)
}

/// A name is hidden when it starts with a dot.
pub open spec fn is_hidden(name: Seq<char>) -> bool {
    name.len() > 0 && name[0] == '.'
}

/// Tells whether a file name starts with a dot.
pub fn hidden_name(name: &str) -> (hidden: bool)
    ensures
        hidden == is_hidden(name@),
{
    if name.is_empty() {
        false
    } else {
        name.get_char(0) == '.'
    }
}

impl Entry {
    /// A fresh entry: the media type is guessed from `path`, and the size
    /// label starts out empty.
    pub fn new(
        path: String,
        filename: String,
        metadata: Metadata,
        filetype: FileType,
        color: ColorPair,
    ) -> (entry: Entry)
        ensures
            entry.path == path,
            entry.filename == filename,
            entry@ == (EntryView {
                path: path@,
                filename: filename@,
                metadata,
                filetype,
                mime: media_type_of(guessed_mime(path@)),
                color,
                size: Seq::<char>::empty(),
            }),
    {
        let mime = media_type(guess_mime(path.as_str()));
        Entry { path, filename, metadata, filetype, mime, color, size: String::new() }
    }

    /// The ordering of two entries as `std` spells it.
    pub open spec fn ordering(&self, other: &Entry) -> Ordering {
        match order_of(self.filename@, other.filename@) {
            Order::Less => Ordering::Less,
            Order::Equal => Ordering::Equal,
            Order::Greater => Ordering::Greater,
        }
    }

    /// Compares two entries by file name, byte by byte.
    pub fn cmp(&self, other: &Entry) -> (o: Ordering)
        ensures
            o == self.ordering(other),
    {
        match compare_names(self.filename.as_str(), other.filename.as_str()) {
            Order::Less => Ordering::Less,
            Order::Equal => Ordering::Equal,
            Order::Greater => Ordering::Greater,
        }
    }
}

impl Clone for Entry {
    fn clone(&self) -> (copy: Entry)
        ensures
            copy == *self,
    {
        Entry {
            path: self.path.clone(),
            filename: self.filename.clone(),
            metadata: self.metadata,
            filetype: self.filetype,
            mime: self.mime.clone(),
            color: self.color,
            size: self.size.clone(),
        }
    }
}

impl PartialEq for Entry {
    fn eq(&self, other: &Entry) -> (equal: bool) {
        self.filename == other.filename
    }
}

impl PartialEqSpecImpl for Entry {
    open spec fn obeys_eq_spec() -> bool {
        true
    }

    open spec fn eq_spec(&self, other: &Entry) -> bool {
        self.filename@ == other.filename@
    }
}

impl Eq for Entry {

}

impl PartialOrd for Entry {
    fn partial_cmp(&self, other: &Entry) -> (o: Option<Ordering>) {
        Some(self.cmp(other))
    }
}

impl PartialOrdSpecImpl for Entry {
    open spec fn obeys_partial_cmp_spec() -> bool {
        true
    }

    open spec fn partial_cmp_spec(&self, other: &Entry) -> Option<Ordering> {
        Some(self.ordering(other))
    }
}

} // verus!
