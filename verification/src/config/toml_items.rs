//! The items of a TOML document, as `toml_edit` keeps them: with the comments,
//! the spacing and the order of keys that the file had.
//!
//! What an item holds is a [`Node`], and the comments around what it holds are
//! [`Notes`]; how they are written down is left to `toml_edit`.

use vstd::prelude::*;

use crate::config::notes::{
    entry_note, fresh, fresh_list, key_note, like, with_note, without_note, Notes,
};
use crate::config::tree::Node;
use toml_edit::{DocumentMut, Item};

verus! {

/// An item of a document.
#[verifier::external_type_specification]
#[verifier::external_body]
pub struct ExItem(toml_edit::Item);

/// A whole document.
#[verifier::external_type_specification]
#[verifier::external_body]
pub struct ExDocument(toml_edit::DocumentMut);

/// What an item holds. A table and an inline table are both a [`Node::Table`]
/// of all their entries, told apart by its second part; the third is the order
/// in which the entries are kept.
pub uninterp spec fn held(item: Item) -> Node;

/// What the root of a document holds.
pub uninterp spec fn contents(document: DocumentMut) -> Node;

/// The comments and the space that an item keeps, of itself and of all that it
/// holds: of a table or a value the text of its `Decor`, with an array's
/// trailing text and an inline table's preamble behind it; of a key the text of
/// its two `Decor`s. What was not read from a text, and has been given none, has
/// none.
pub uninterp spec fn notes(item: Item) -> Notes;

/// The comments and the space that the root of a document keeps, and those
/// behind its last entry.
pub uninterp spec fn document_notes(document: DocumentMut) -> (Notes, Seq<char>);

/// How a document is written down.
pub uninterp spec fn written(document: DocumentMut) -> Seq<char>;

/// What a text holds when it is read as TOML, with the comments in it and those
/// behind its last entry; or what `toml_edit` says against it.
pub uninterp spec fn toml(text: Seq<char>) -> Result<(Node, (Notes, Seq<char>)), Seq<char>>;

/// Reads a text: `str::parse` into a `toml_edit::DocumentMut`. The contract
/// claims that what comes of it, the error's text too, is a function of the
/// text; that the root of what was read is a table that is not inline; that what
/// was read is sound; and that comments are kept of exactly what was read.
#[verifier::external_body]
pub(crate) fn parse(text: &str) -> (r: Result<DocumentMut, String>)
    ensures
        match r {
            Ok(document) => {
                &&& toml(text@) == Ok::<(Node, (Notes, Seq<char>)), Seq<char>>(
                    (contents(document), document_notes(document)),
                )
                &&& crate::config::tree::is_section(contents(document))
                &&& crate::config::tree::sound(contents(document))
                &&& like(document_notes(document).0, contents(document))
            },
            Err(why) => toml(text@) == Err::<(Node, (Notes, Seq<char>)), Seq<char>>(why@),
        },
{
    match text.parse::<DocumentMut>() {
        Ok(document) => Ok(document),
        Err(error) => Err(error.to_string()),
    }
}

/// Writes a document down: `ToString` of `toml_edit::DocumentMut`, which needs
/// its root to be a table that is not inline. The contract only names the text:
/// that the comments stand in it, and that it reads back as what was written, is
/// not claimed. Tables are written in the order of their places in the file, and
/// a row that was not read from one is given the place of the table before it:
/// where tables inside the rows of a section stood in another order than their
/// keys are kept in, a row added to the section can come to stand before some of
/// them, and they are then read as its own.
#[verifier::external_body]
pub(crate) fn write_out(document: &DocumentMut) -> (r: String)
    requires
        crate::config::tree::is_section(contents(*document)),
    ensures
        r@ == written(*document),
{
    document.to_string()
}

/// A copy of a document: `Clone` of `toml_edit::DocumentMut`, which holds what
/// the document holds, with its comments.
#[verifier::external_body]
pub(crate) fn copy(document: &DocumentMut) -> (r: DocumentMut)
    ensures
        contents(r) == contents(*document),
        document_notes(r) == document_notes(*document),
{
    document.clone()
}

/// The root of a document: `DocumentMut::as_item`.
#[verifier::external_body]
pub(crate) fn root(document: &DocumentMut) -> (r: &Item)
    ensures
        held(*r) == contents(*document),
        notes(*r) == document_notes(*document).0,
{
    document.as_item()
}

/// The root of a document, to be changed: `DocumentMut::as_item_mut`. The
/// document ends up holding what its root ends up holding, and what stands
/// behind its last entry is left alone.
#[verifier::external_body]
pub(crate) fn root_mut(document: &mut DocumentMut) -> (r: &mut Item)
    ensures
        held(*r) == contents(*old(document)),
        contents(*final(document)) == held(*final(r)),
        notes(*r) == document_notes(*old(document)).0,
        document_notes(*final(document)) == (
            notes(*final(r)),
            document_notes(*old(document)).1,
        ),
{
    document.as_item_mut()
}

/// Whether an item is a table or an inline table: `Item::is_table_like`.
#[verifier::external_body]
pub(crate) fn is_table(item: &Item) -> (r: bool)
    ensures
        r == (held(*item) is Table),
{
    item.is_table_like()
}

/// The text that an item is: `Item::as_str`.
#[verifier::external_body]
pub(crate) fn text_of(item: &Item) -> (r: Option<&str>)
    ensures
        match r {
            Some(text) => held(*item) == Node::Text(text@),
            None => !(held(*item) is Text),
        },
{
    item.as_str()
}

/// How many rows an item has: `ArrayOfTables::len`, where
/// `Item::as_array_of_tables` says that it has any.
#[verifier::external_body]
pub(crate) fn rows_in(item: &Item) -> (r: Option<usize>)
    ensures
        match r {
            Some(count) => (held(*item) matches Node::Rows(rows) && rows.len() == count),
            None => !(held(*item) is Rows),
        },
{
    match item.as_array_of_tables() {
        Some(rows) => Some(rows.len()),
        None => None,
    }
}

/// An entry of a table: `Item::get` with a name, which passes over an entry
/// that holds nothing and finds nothing in what is no table.
#[verifier::external_body]
pub(crate) fn entry<'a>(item: &'a Item, name: &str) -> (r: Option<&'a Item>)
    ensures
        match r {
            Some(found) => crate::config::tree::entry(held(*item), name@) == Some(held(*found)),
            None => crate::config::tree::entry(held(*item), name@) is None,
        },
{
    item.get(name)
}

/// An entry that a table has, to be changed: `Item::get_mut` with a name. The
/// table ends up with what the entry ends up holding under that name; its own
/// comments and those of its keys are left alone.
#[verifier::external_body]
pub(crate) fn entry_mut<'a>(item: &'a mut Item, name: &str) -> (r: &'a mut Item)
    requires
        held(*old(item)) matches Node::Table(entries, _, _) && entries.contains_key(name@),
    ensures
        held(*r) == (held(*old(item))->Table_0)[name@],
        held(*final(item)) == crate::config::tree::with_entry(
            held(*old(item)),
            name@,
            held(*final(r)),
        ),
        notes(*r) == notes(*old(item)).entries[name@],
        notes(*final(item)) == with_note(
            notes(*old(item)),
            name@,
            notes(*old(item)).keys[name@],
            notes(*final(r)),
        ),
{
    item.get_mut(name).expect("an entry of the table")
}

/// An entry of a table, which is made an empty table first where the table has
/// none of that name: `TableLike::entry` and `Entry::or_insert_with`. A key that
/// was there keeps its comments; a new one has none.
#[verifier::external_body]
pub(crate) fn table_under<'a>(item: &'a mut Item, name: &str) -> (r: &'a mut Item)
    requires
        held(*old(item)) is Table,
    ensures
        held(*r) == crate::config::tree::entry_or(
            held(*old(item))->Table_0,
            name@,
            crate::config::tree::blank(),
        ),
        held(*final(item)) == crate::config::tree::with_entry(
            held(*old(item)),
            name@,
            held(*final(r)),
        ),
        notes(*r) == entry_note(notes(*old(item)), held(*old(item)), name@),
        notes(*final(item)) == with_note(
            notes(*old(item)),
            name@,
            key_note(notes(*old(item)), held(*old(item)), name@),
            notes(*final(r)),
        ),
{
    let table = item.as_table_like_mut().expect("a table");
    table.entry(name).or_insert_with(toml_edit::table)
}

/// An entry of a table, which is made a section without rows first where the
/// table has none of that name: `TableLike::entry` and `Entry::or_insert_with`.
/// A key that was there keeps its comments; a new one has none.
#[verifier::external_body]
pub(crate) fn rows_under<'a>(item: &'a mut Item, name: &str) -> (r: &'a mut Item)
    requires
        held(*old(item)) is Table,
    ensures
        held(*r) == crate::config::tree::entry_or(
            held(*old(item))->Table_0,
            name@,
            Node::Rows(Seq::empty()),
        ),
        held(*final(item)) == crate::config::tree::with_entry(
            held(*old(item)),
            name@,
            held(*final(r)),
        ),
        notes(*r) == entry_note(notes(*old(item)), held(*old(item)), name@),
        notes(*final(item)) == with_note(
            notes(*old(item)),
            name@,
            key_note(notes(*old(item)), held(*old(item)), name@),
            notes(*final(r)),
        ),
{
    let table = item.as_table_like_mut().expect("a table");
    table.entry(name).or_insert_with(toml_edit::array)
}

/// A row: `Item::get` with a number.
#[verifier::external_body]
pub(crate) fn row(item: &Item, index: usize) -> (r: &Item)
    requires
        held(*item) matches Node::Rows(rows) && index < rows.len(),
    ensures
        held(*r) == (held(*item)->Rows_0)[index as int],
{
    item.get(index).expect("a row of the section")
}

/// A row, to be changed: `Item::get_mut` with a number. The section ends up
/// with what the row ends up holding in its place.
#[verifier::external_body]
pub(crate) fn row_mut(item: &mut Item, index: usize) -> (r: &mut Item)
    requires
        held(*old(item)) matches Node::Rows(rows) && index < rows.len(),
    ensures
        held(*r) == (held(*old(item))->Rows_0)[index as int],
        held(*final(item)) == Node::Rows(
            (held(*old(item))->Rows_0).update(index as int, held(*final(r))),
        ),
        notes(*r) == notes(*old(item)).items[index as int],
        notes(*final(item)) == (Notes {
            items: notes(*old(item)).items.update(index as int, notes(*final(r))),
            ..notes(*old(item))
        }),
{
    item.get_mut(index).expect("a row of the section")
}

/// Appends an empty row: `ArrayOfTables::push` of a `Table::new`.
#[verifier::external_body]
pub(crate) fn push_blank(item: &mut Item)
    requires
        held(*old(item)) matches Node::Rows(rows) && rows.len() < usize::MAX,
    ensures
        held(*final(item)) == Node::Rows(
            (held(*old(item))->Rows_0).push(crate::config::tree::blank()),
        ),
        notes(*final(item)) == (Notes {
            items: notes(*old(item)).items.push(fresh()),
            ..notes(*old(item))
        }),
{
    let rows = item.as_array_of_tables_mut().expect("a section of rows");
    rows.push(toml_edit::Table::new());
}

/// Takes a row out, and later ones move up: `ArrayOfTables::remove`, which
/// needs the row to be a table.
#[verifier::external_body]
pub(crate) fn drop_row(item: &mut Item, index: usize)
    requires
        held(*old(item)) matches Node::Rows(rows) && index < rows.len()
            && crate::config::tree::is_section(rows[index as int]),
    ensures
        held(*final(item)) == Node::Rows((held(*old(item))->Rows_0).remove(index as int)),
        notes(*final(item)) == (Notes {
            items: notes(*old(item)).items.remove(index as int),
            ..notes(*old(item))
        }),
{
    let rows = item.as_array_of_tables_mut().expect("a section of rows");
    rows.remove(index);
}

/// Puts a value into a table, in the place of what stood under its name, or
/// behind all others: `TableLike::insert`. An inline table takes values only.
/// The comments around its key are lost; all others are left alone.
#[verifier::external_body]
pub(crate) fn insert(item: &mut Item, name: &str, value: Item)
    requires
        held(*old(item)) is Table,
        crate::config::tree::is_value(held(value)),
    ensures
        held(*final(item)) == crate::config::tree::with_entry(
            held(*old(item)),
            name@,
            held(value),
        ),
        notes(*final(item)) == with_note(
            notes(*old(item)),
            name@,
            Seq::empty(),
            notes(value),
        ),
{
    let table = item.as_table_like_mut().expect("a table");
    table.insert(name, value);
}

/// Takes an entry out of a table, with its comments; the others keep their order
/// and theirs: `TableLike::remove`.
#[verifier::external_body]
pub(crate) fn remove(item: &mut Item, name: &str)
    requires
        held(*old(item)) is Table,
    ensures
        held(*final(item)) == crate::config::tree::without_entry(held(*old(item)), name@),
        notes(*final(item)) == without_note(notes(*old(item)), name@),
{
    let table = item.as_table_like_mut().expect("a table");
    table.remove(name);
}

/// The names of a table's entries, in their order: `TableLike::iter`. Stated of
/// a table none of whose entries holds nothing.
#[verifier::external_body]
pub(crate) fn names(item: &Item) -> (r: Vec<String>)
    requires
        held(*item) matches Node::Table(entries, _, _) && (forall|name: Seq<char>|
            entries.contains_key(name) ==> !(#[trigger] entries[name] is Absent)),
    ensures
        crate::text::texts(r@) == held(*item)->Table_2,
{
    let table = item.as_table_like().expect("a table");
    table.iter().map(|entry| entry.0.to_owned()).collect()
}

/// How many items a list has: `Array::len`, where `Item::as_array` says that it
/// is one.
#[verifier::external_body]
pub(crate) fn items_in(item: &Item) -> (r: Option<usize>)
    ensures
        match r {
            Some(count) => (held(*item) matches Node::List(items) && items.len() == count),
            None => !(held(*item) is List),
        },
{
    match item.as_array() {
        Some(items) => Some(items.len()),
        None => None,
    }
}

/// An item of a list, to be changed: `Item::get_mut` with a number. The list
/// ends up with what the item ends up holding in its place.
#[verifier::external_body]
pub(crate) fn element_mut(item: &mut Item, index: usize) -> (r: &mut Item)
    requires
        held(*old(item)) matches Node::List(items) && index < items.len(),
    ensures
        held(*r) == (held(*old(item))->List_0)[index as int],
        held(*final(item)) == Node::List(
            (held(*old(item))->List_0).update(index as int, held(*final(r))),
        ),
        notes(*r) == notes(*old(item)).items[index as int],
        notes(*final(item)) == (Notes {
            items: notes(*old(item)).items.update(index as int, notes(*final(r))),
            ..notes(*old(item))
        }),
{
    item.get_mut(index).expect("an item of the list")
}

/// A text as an item, without comments: `toml_edit::value`.
#[verifier::external_body]
pub(crate) fn text_item(text: String) -> (r: Item)
    ensures
        held(r) == Node::Text(text@),
        notes(r) == fresh(),
{
    toml_edit::value(text)
}

/// A number as an item, without comments: `toml_edit::value`.
#[verifier::external_body]
pub(crate) fn integer_item(number: i64) -> (r: Item)
    ensures
        held(r) == Node::Integer(number),
        notes(r) == fresh(),
{
    toml_edit::value(number)
}

/// A truth value as an item, without comments: `toml_edit::value`.
#[verifier::external_body]
pub(crate) fn flag_item(flag: bool) -> (r: Item)
    ensures
        held(r) == Node::Flag(flag),
        notes(r) == fresh(),
{
    toml_edit::value(flag)
}

/// A list of texts as an item: `toml_edit::value` of a `toml_edit::Array`
/// collected from them, without comments.
#[verifier::external_body]
pub(crate) fn list_item(texts: Vec<String>) -> (r: Item)
    ensures
        held(r) == Node::List(
            crate::text::texts(texts@).map_values(|text: Seq<char>| Node::Text(text)),
        ),
        notes(r) == fresh_list(texts@.len()),
{
    toml_edit::value(texts.into_iter().collect::<toml_edit::Array>())
}

} // verus!
