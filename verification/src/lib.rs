//! Compile-time localization: a flat TOML table of strings becomes the source
//! of a `tr!` macro that looks each key up while the consumer is compiled.
//!
//! The text goes through two steps. [`parse_toml`] reads it into a
//! [`StringTable`], and refuses what is not a flat table from strings to
//! strings. [`generate`] writes the macros for a table. [`gen_strings_macro`]
//! does both.

use vstd::prelude::*;

pub mod codegen;
pub mod document;
pub mod error;
pub mod table;
pub mod toml_parser;

pub use crate::codegen::generate;
pub use crate::document::{Document, Item};
pub use crate::error::Error;
pub use crate::table::StringTable;
pub use crate::toml_parser::{from_document, parse_toml};

use crate::codegen::{
    arm, arms, lemma_empty_table_source, lemma_entry_has_arm, rest, source, INNER_CLOSE,
    INNER_OPEN, OUTER, UNKNOWN_KEY_ARM,
};
use crate::document::{all_text, is_flat, texts, DocumentView, ItemView};
use crate::toml_parser::toml_document;

verus! {

/// `r` is what converting `input` gives: the source for the table of a flat
/// document, or the error of reading it.
pub open spec fn converts_to(input: Seq<char>, r: Result<String, Error>) -> bool {
    match toml_document(input) {
        None => r matches Err(e) && e is TOMLParseError,
        Some(doc) => if is_flat(doc) {
            r matches Ok(code) && code@ == source(texts(doc->Table_0))
        } else {
            r matches Err(e) && e is TOMLStructureError
        },
    }
}

/// Converts the text of a strings file to Rust source that defines the macro
/// `tr!`.
pub fn gen_strings_macro(input: &str) -> (r: Result<String, Error>)
    ensures
        converts_to(input@, r),
{
    match parse_toml(input) {
        Ok(strings) => Ok(generate(&strings)),
        Err(e) => Err(e),
    }
}

/// Two conversions of the same text end alike: both give source, and then the
/// same source, or both fail, and then with the same kind of error.
pub proof fn lemma_conversion_is_deterministic(
    input: Seq<char>,
    first: Result<String, Error>,
    second: Result<String, Error>,
)
    requires
        converts_to(input, first),
        converts_to(input, second),
    ensures
        first is Ok <==> second is Ok,
        first matches Ok(a) ==> second matches Ok(b) && a@ == b@,
        first matches Err(a) ==> second matches Err(b) && (a is TOMLParseError <==> b
            is TOMLParseError) && (a is TOMLStructureError <==> b is TOMLStructureError),
{
}

/// A flat table comes through unchanged. Where toml reads `input` as a table
/// whose items are all strings, the conversion succeeds, and every key of the
/// table has its arm in the source, made of the key's literal and the literal
/// of its message, at the place the key has in the table.
pub proof fn lemma_flat_table_round_trip(
    input: Seq<char>,
    entries: Seq<(Seq<char>, ItemView)>,
    r: Result<String, Error>,
    i: int,
)
    requires
        toml_document(input) == Some(DocumentView::Table(entries)),
        all_text(entries),
        converts_to(input, r),
        0 <= i < entries.len(),
    ensures
        r matches Ok(code) && code@ == INNER_OPEN@ + arms(texts(entries).take(i)) + arm(
            entries[i].0,
            entries[i].1->Text_0,
        ) + arms(texts(entries).skip(i + 1)) + rest(),
{
    lemma_entry_has_arm(texts(entries), i);
}

/// The empty table gives the two macros with no arm but the one for unknown
/// keys.
pub proof fn lemma_empty_table_conversion(input: Seq<char>, r: Result<String, Error>)
    requires
        toml_document(input) == Some(DocumentView::Table(Seq::empty())),
        converts_to(input, r),
    ensures
        r matches Ok(code) && code@ == INNER_OPEN@ + UNKNOWN_KEY_ARM@ + INNER_CLOSE@ + OUTER@,
{
    lemma_empty_table_source();
    assert(texts(Seq::empty()) =~= Seq::empty());
}

} // verus!
