//! A TOML document as far as a strings file is concerned: is it a table, and
//! which of its keys hold a string.

use vstd::prelude::*;

verus! {

/// What a key of the top-level table holds.
#[derive(Debug)]
pub enum Item {
    /// A string, with its text.
    Text(String),
    /// Anything else: a number, a boolean, a date, an array or a table.
    Other,
}

/// The mathematical value of an [`Item`].
pub enum ItemView {
    Text(Seq<char>),
    Other,
}

impl View for Item {
    type V = ItemView;

    open spec fn view(&self) -> ItemView {
        match self {
            Item::Text(text) => ItemView::Text(text@),
            Item::Other => ItemView::Other,
        }
    }
}

/// A parsed document.
#[derive(Debug)]
pub enum Document {
    /// A table: its keys, each with what it holds, in the order in which the
    /// parser hands them out.
    Table(Vec<(String, Item)>),
    /// A value that is no table.
    Other,
}

/// The mathematical value of a [`Document`].
pub enum DocumentView {
    Table(Seq<(Seq<char>, ItemView)>),
    Other,
}

impl View for Document {
    type V = DocumentView;

    open spec fn view(&self) -> DocumentView {
        match self {
            Document::Table(entries) => DocumentView::Table(entries_view(entries@)),
            Document::Other => DocumentView::Other,
        }
    }
}

/// The entries of a table, each key and item by its view.
pub open spec fn entries_view(entries: Seq<(String, Item)>) -> Seq<(Seq<char>, ItemView)> {
    Seq::new(entries.len(), |i: int| (entries[i].0@, entries[i].1@))
}

/// Every item is a string.
pub open spec fn all_text(entries: Seq<(Seq<char>, ItemView)>) -> bool {
    forall|i: int| 0 <= i < entries.len() ==> (#[trigger] entries[i]).1 is Text
}

/// The document is a table whose items are all strings.
pub open spec fn is_flat(doc: DocumentView) -> bool {
    doc matches DocumentView::Table(entries) && all_text(entries)
}

/// The keys of a table, each with the text of its item.
pub open spec fn texts(entries: Seq<(Seq<char>, ItemView)>) -> Seq<(Seq<char>, Seq<char>)> {
    Seq::new(entries.len(), |i: int| (entries[i].0, entries[i].1->Text_0))
}

/// No key occurs twice among the entries.
pub open spec fn entry_keys_distinct(entries: Seq<(Seq<char>, ItemView)>) -> bool {
    forall|i: int, j: int| 0 <= i < j < entries.len() ==> entries[i].0 != entries[j].0
}

} // verus!
