use vstd::prelude::*;

use crate::color_pair::{ColorPair, DefaultColorPair};
use crate::entry::{hidden_name, is_hidden, Entry, EntryView};
use crate::file_type::FileType;
use crate::metadata::Metadata;
use crate::mime::{guessed_mime, media_type_of};

verus! {

/// What enumerating a directory yields for one child: its path, its name
/// where the name could be decoded, and its metadata where they could be
/// read.
#[derive(Debug)]
pub struct DirItem {
    pub path: String,
    pub name: Option<String>,
    pub metadata: Option<Metadata>,
}

/// A directory item as a value.
pub struct DirItemView {
    pub path: Seq<char>,
    pub name: Option<Seq<char>>,
    pub metadata: Option<Metadata>,
}

impl View for DirItem {
    type V = DirItemView;

    open spec fn view(&self) -> DirItemView {
        DirItemView {
            path: self.path@,
            name: match self.name {
                Some(name) => Some(name@),
                None => None,
            },
            metadata: self.metadata,
        }
    }
}

/// An item is listed when its name and metadata could be read, the name is
/// not empty, and it is not hidden or hidden entries are shown. What kind of
/// thing it is plays no part: a socket or a device is listed like a file.
pub open spec fn admissible(item: DirItemView, show_hidden: bool) -> bool {
    &&& item.name is Some
    &&& item.metadata is Some
    &&& item.name->0.len() > 0
    &&& (show_hidden || !is_hidden(item.name->0))
}

/// The category an item is listed under: the one its metadata name, and
/// that of a file where they name none.
pub open spec fn kind_of(metadata: Metadata) -> FileType {
    match metadata.spec_file_type() {
        Some(filetype) => filetype,
        None => FileType::File,
    }
}

/// The colors an item is listed in: those of its type and executable bit,
/// and the neutral pair where its metadata name no type.
pub open spec fn color_of(metadata: Metadata) -> ColorPair {
    match metadata.spec_file_type() {
        Some(filetype) => ColorPair::choice(filetype, metadata.executable).pair(),
        None => DefaultColorPair::White.pair(),
    }
}

/// The entry that lists an admissible item, with the media type guessed
/// from its path and no size label yet.
pub open spec fn entry_of(item: DirItemView) -> EntryView {
    let metadata = item.metadata->0;
    EntryView {
        path: item.path,
        filename: item.name->0,
        metadata,
        filetype: kind_of(metadata),
        mime: media_type_of(guessed_mime(item.path)),
        color: color_of(metadata),
        size: Seq::empty(),
    }
}

/// What an item contributes to a listing: its entry, or nothing.
pub open spec fn admitted(item: DirItemView, show_hidden: bool) -> Option<EntryView> {
    if admissible(item, show_hidden) {
        Some(entry_of(item))
    } else {
        None
    }
}

/// Turns one enumerated item into an entry, or skips it. An item whose name
/// or metadata could not be read is skipped like a hidden one: a bad item
/// never ends the listing.
pub fn entry_from(item: DirItem, show_hidden: bool) -> (entry: Option<Entry>)
    ensures
        match entry {
            Some(e) => admitted(item@, show_hidden) == Some(e@),
            None => admitted(item@, show_hidden) is None,
        },
{
    let DirItem { path, name, metadata } = item;
    let filename = match name {
        Some(filename) => filename,
        None => {
            return None;
        },
    };
    let metadata = match metadata {
        Some(metadata) => metadata,
        None => {
            return None;
        },
    };
    if filename.as_str().is_empty() {
        return None;
    }
    if !show_hidden && hidden_name(filename.as_str()) {
        return None;
    }
    let (filetype, color) = match metadata.file_type() {
        Some(filetype) => (filetype, ColorPair::new(&filetype, metadata.executable)),
        None => (FileType::File, ColorPair::default()),
    };
    Some(Entry::new(path, filename, metadata, filetype, color))
}

} // verus!
