//! From TOML text to a string table.

use vstd::prelude::*;
use crate::document::{
    all_text, entries_view, entry_keys_distinct, is_flat, texts, Document, DocumentView, Item,
    ItemView,
};
use crate::error::Error;
use crate::table::{
    collected, keys_distinct, lemma_collected_of_distinct, lemma_lookup_finds, lookup, StringTable,
};

verus! {

/// What toml makes of `input`: the document, or `None` where the text is not
/// well-formed TOML.
pub uninterp spec fn toml_document(input: Seq<char>) -> Option<DocumentView>;

/// `toml::from_str::<toml::Value>`, which reads `input` as a TOML document,
/// and `toml::map::Map::into_iter` on the table it gives.
///
/// The result depends on the text alone. A table's keys come out of toml's
/// map one time each, so no key occurs twice. With toml's feature `unbounded`
/// off, as it is here, the parser refuses as an error keys, arrays and inline
/// tables that are nested deeper than its limit.
#[verifier::external_body]
fn read_document(input: &str) -> (r: Result<Document, toml::de::Error>)
    ensures
        match r {
            Ok(doc) => toml_document(input@) == Some(doc@) && (doc@ matches DocumentView::Table(
                entries,
            ) ==> entry_keys_distinct(entries)),
            Err(_) => toml_document(input@) is None,
        },
{
    let value = toml::from_str::<toml::Value>(input)?;
    let toml::Value::Table(table) = value else {
        return Ok(Document::Other);
    };
    let mut entries = Vec::new();
    for (key, value) in table {
        entries.push((key, match value {
            toml::Value::String(text) => Item::Text(text),
            _ => Item::Other,
        }));
    }
    Ok(Document::Table(entries))
}

/// What a document gives: the table of its strings, or nothing where it is
/// not a flat table of strings.
pub open spec fn table_of(doc: DocumentView) -> Option<Seq<(Seq<char>, Seq<char>)>> {
    if is_flat(doc) {
        Some(collected(texts(doc->Table_0)))
    } else {
        None
    }
}

/// The string table of a parsed document. A document that is no table, or a
/// table in which anything but a string occurs, is refused as a whole.
pub fn from_document(doc: Document) -> (r: Result<StringTable, Error>)
    ensures
        match r {
            Ok(table) => table_of(doc@) == Some(table@) && table.wf(),
            Err(e) => table_of(doc@) is None && e is TOMLStructureError,
        },
{
    match doc {
        Document::Table(entries) => {
            let ghost all = entries_view(entries@);
            let mut table = StringTable::new();
            for entry in it: entries
                invariant
                    doc@ == DocumentView::Table(all),
                    all == entries_view(it.seq()),
                    all_text(all.take(it.index() as int)),
                    table@ == collected(texts(all.take(it.index() as int))),
                    table.wf(),
            {
                let ghost done = all.take(it.index() as int);
                let ghost next = all.take(it.index() as int + 1);
                assert(next.drop_last() =~= done);
                assert(next.last() == all[it.index() as int]);
                match entry.1 {
                    Item::Text(text) => {
                        assert(texts(next).drop_last() =~= texts(done));
                        table.insert(entry.0, text);
                    },
                    Item::Other => {
                        assert(all[it.index() as int].1 is Other);
                        return Err(Error::TOMLStructureError);
                    },
                }
            }
            assert(all.take(all.len() as int) =~= all);
            Ok(table)
        },
        Document::Other => Err(Error::TOMLStructureError),
    }
}

/// `r` is what reading `input` as a strings file gives: the table of a flat
/// document, each key and each message as the document has them;
/// `TOMLParseError` where the text is not TOML; `TOMLStructureError` where the
/// document is no table or holds anything but strings.
pub open spec fn parses_to(input: Seq<char>, r: Result<StringTable, Error>) -> bool {
    match toml_document(input) {
        None => r matches Err(e) && e is TOMLParseError,
        Some(doc) => if is_flat(doc) {
            r matches Ok(table) && table@ == texts(doc->Table_0) && table.wf()
        } else {
            r matches Err(e) && e is TOMLStructureError
        },
    }
}

/// Reads `toml` as a strings file: a TOML document that is a table in which
/// every key holds a string. The table has each key and each message as the
/// document gives them, and the keys in the parser's order.
///
/// Text that is not TOML gives `TOMLParseError` with the parser's own error;
/// a document of any other shape gives `TOMLStructureError`.
pub fn parse_toml(toml: &str) -> (r: Result<StringTable, Error>)
    ensures
        parses_to(toml@, r),
{
    match read_document(toml) {
        Ok(doc) => {
            proof {
                if is_flat(doc@) {
                    lemma_texts_keep_keys(doc@->Table_0);
                    lemma_collected_of_distinct(texts(doc@->Table_0));
                }
            }
            from_document(doc)
        },
        Err(e) => Err(Error::from(e)),
    }
}

/// Text that toml reads as anything but a table is refused for its structure.
pub proof fn lemma_no_table_is_refused(input: Seq<char>, r: Result<StringTable, Error>)
    requires
        parses_to(input, r),
        toml_document(input) matches Some(doc) && doc !is Table,
    ensures
        r matches Err(e) && e is TOMLStructureError,
{
}

/// One item that is no string has the whole table refused for its structure,
/// whatever the other keys hold.
pub proof fn lemma_other_item_is_refused(
    input: Seq<char>,
    entries: Seq<(Seq<char>, ItemView)>,
    i: int,
    r: Result<StringTable, Error>,
)
    requires
        parses_to(input, r),
        toml_document(input) == Some(DocumentView::Table(entries)),
        0 <= i < entries.len(),
        entries[i].1 is Other,
    ensures
        r matches Err(e) && e is TOMLStructureError,
{
}

/// Text that is not well-formed TOML gives a parse error, never a structure
/// error, and a parse error comes for such text alone.
pub proof fn lemma_malformed_is_parse_error(input: Seq<char>, r: Result<StringTable, Error>)
    requires
        parses_to(input, r),
    ensures
        toml_document(input) is None <==> (r matches Err(e) && e is TOMLParseError),
        toml_document(input) is None ==> !(r matches Err(e) && e is TOMLStructureError),
{
}

/// A flat table is kept as it is. Where toml reads `input` as a table whose
/// items are all strings, parsing succeeds, the table has every key with its
/// text at the key's place, and looking the key up finds that text.
pub proof fn lemma_flat_table_is_kept(
    input: Seq<char>,
    entries: Seq<(Seq<char>, ItemView)>,
    i: int,
    r: Result<StringTable, Error>,
)
    requires
        parses_to(input, r),
        toml_document(input) == Some(DocumentView::Table(entries)),
        all_text(entries),
        0 <= i < entries.len(),
    ensures
        r matches Ok(table) && table@.len() == entries.len() && table@[i] == (
            entries[i].0,
            entries[i].1->Text_0,
        ) && lookup(table@, entries[i].0) == Some(entries[i].1->Text_0),
{
    lemma_lookup_finds(r->Ok_0@, i);
}

/// The texts of entries with distinct keys have distinct keys.
pub proof fn lemma_texts_keep_keys(entries: Seq<(Seq<char>, ItemView)>)
    requires
        entry_keys_distinct(entries),
    ensures
        keys_distinct(texts(entries)),
{
}

} // verus!
