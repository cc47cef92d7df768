//! From a string table to the source of the `tr!` macro.
//!
//! The source is written as `proc_macro2` prints a token stream: one space
//! between two tokens, none inside `=>`, none after `(` or before `)`.

use vstd::prelude::*;
use vstd::string::StringExecFns;
use crate::table::StringTable;

verus! {

/// Opens the inner macro, which has one arm for each key.
pub const INNER_OPEN: &'static str = "macro_rules ! ctl10n_tr_inner { ";

/// Opens an arm, before the key.
pub const ARM_OPEN: &'static str = "(";

/// Stands between the key of an arm and its message.
pub const ARM_ARROW: &'static str = ") => { ";

/// Closes an arm, after the message.
pub const ARM_CLOSE: &'static str = " } ; ";

/// The last arm of the inner macro. It takes any key that no arm before it
/// took and stops the compiler with a message that names the key.
pub const UNKNOWN_KEY_ARM: &'static str =
    "($ key : tt) => { compile_error ! (concat ! (\"There is no string for key `\" , stringify ! ($ key) , \"`\")) } ; ";

/// Closes the inner macro.
pub const INNER_CLOSE: &'static str = "} ";

/// The macro that consumers call. With a key alone it is the message as a
/// string literal; with further arguments it hands the message and the
/// arguments, as they stand, to `format!`.
pub const OUTER: &'static str =
    "macro_rules ! tr { ($ key : tt) => { ctl10n_tr_inner ! ($ key) } ; ($ key : tt , $ ($ args : tt) *) => { format ! (ctl10n_tr_inner ! ($ key) , $ ($ args) *) } ; }";

/// The Rust string literal that stands for `text`, quotes included.
pub uninterp spec fn string_literal(text: Seq<char>) -> Seq<char>;

/// `<str as quote::ToTokens>::to_token_stream`, which makes the one token
/// `proc_macro2::Literal::string(text)`, printed by the stream's `Display`.
///
/// Outside a procedural macro the literal is `text` between double quotes,
/// each character escaped as `char::escape_debug` does it, but for `'`, which
/// stays, and NUL, which becomes `\0` or `\x00`. The result is a function of
/// the text.
#[verifier::external_body]
fn literal(text: &str) -> (token: String)
    ensures
        token@ == string_literal(text@),
{
    quote::ToTokens::to_token_stream(text).to_string()
}

/// The arm that resolves `key` to `value`.
pub open spec fn arm(key: Seq<char>, value: Seq<char>) -> Seq<char> {
    ARM_OPEN@ + string_literal(key) + ARM_ARROW@ + string_literal(value) + ARM_CLOSE@
}

/// The arms of `entries`, one after the other in their order.
pub open spec fn arms(entries: Seq<(Seq<char>, Seq<char>)>) -> Seq<char>
    decreases entries.len(),
{
    if entries.len() == 0 {
        Seq::empty()
    } else {
        arms(entries.drop_last()) + arm(entries.last().0, entries.last().1)
    }
}

/// What comes after the arms of the keys.
pub open spec fn rest() -> Seq<char> {
    UNKNOWN_KEY_ARM@ + INNER_CLOSE@ + OUTER@
}

/// The generated source for `entries`.
pub open spec fn source(entries: Seq<(Seq<char>, Seq<char>)>) -> Seq<char> {
    INNER_OPEN@ + arms(entries) + rest()
}

/// The arms of two runs of entries, one after the other, are the arms of the
/// first followed by the arms of the second.
pub proof fn lemma_arms_concat(
    first: Seq<(Seq<char>, Seq<char>)>,
    second: Seq<(Seq<char>, Seq<char>)>,
)
    ensures
        arms(first + second) == arms(first) + arms(second),
    decreases second.len(),
{
    if second.len() == 0 {
        assert(first + second =~= first);
        assert(arms(first) + arms(second) =~= arms(first));
    } else {
        lemma_arms_concat(first, second.drop_last());
        assert((first + second).drop_last() =~= first + second.drop_last());
        assert(arms(first + second) =~= arms(first) + arms(second));
    }
}

/// Every entry has its arm in the source, at its place: after the arms of
/// the entries before it, before the arms of those after it. The arm holds
/// the literal of the key and the literal of the message and nothing else of
/// the table.
pub proof fn lemma_entry_has_arm(entries: Seq<(Seq<char>, Seq<char>)>, i: int)
    requires
        0 <= i < entries.len(),
    ensures
        source(entries) == INNER_OPEN@ + arms(entries.take(i)) + arm(entries[i].0, entries[i].1)
            + arms(entries.skip(i + 1)) + rest(),
{
    let one = entries.subrange(i, i + 1);
    assert(arms(one) =~= arm(entries[i].0, entries[i].1)) by {
        assert(one.drop_last().len() == 0);
        assert(arms(one.drop_last()) =~= Seq::<char>::empty());
    }
    assert(entries =~= entries.take(i) + one + entries.skip(i + 1));
    lemma_arms_concat(entries.take(i) + one, entries.skip(i + 1));
    lemma_arms_concat(entries.take(i), one);
}

/// The source for the empty table has no arm but the one for unknown keys.
pub proof fn lemma_empty_table_source()
    ensures
        source(Seq::empty()) == INNER_OPEN@ + UNKNOWN_KEY_ARM@ + INNER_CLOSE@ + OUTER@,
{
    assert(source(Seq::empty()) =~= INNER_OPEN@ + UNKNOWN_KEY_ARM@ + INNER_CLOSE@ + OUTER@);
}

/// Writes the arm for `key` and `value` at the end of `code`.
fn push_arm(code: &mut String, key: &str, value: &str)
    ensures
        final(code)@ == old(code)@ + arm(key@, value@),
{
    let key_token = literal(key);
    let value_token = literal(value);
    code.append(ARM_OPEN);
    code.append(key_token.as_str());
    code.append(ARM_ARROW);
    code.append(value_token.as_str());
    code.append(ARM_CLOSE);
    assert(code@ =~= old(code)@ + arm(key@, value@));
}

/// The source of the two macros for `table`: an arm for each key in the
/// table's order, then the arm for unknown keys, then the macro `tr!`.
pub fn generate(table: &StringTable) -> (code: String)
    ensures
        code@ == source(table@),
{
    let mut code = String::from_str(INNER_OPEN);
    let count = table.len();
    let mut done: usize = 0;
    while done < count
        invariant
            count == table@.len(),
            done <= count,
            code@ == INNER_OPEN@ + arms(table@.take(done as int)),
        decreases count - done,
    {
        if let Some((key, value)) = table.entry(done) {
            push_arm(&mut code, key, value);
        }
        proof {
            let next = table@.take(done as int + 1);
            assert(next.drop_last() =~= table@.take(done as int));
            assert(next.last() == table@[done as int]);
            assert(code@ =~= INNER_OPEN@ + arms(next));
        }
        done += 1;
    }
    code.append(UNKNOWN_KEY_ARM);
    code.append(INNER_CLOSE);
    code.append(OUTER);
    assert(table@.take(count as int) =~= table@);
    assert(code@ =~= source(table@));
    code
}

} // verus!
