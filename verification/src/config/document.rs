//! The config file as a document, with comments and key order preserved.
//!
//! This is what lets the settings pages rewrite one key without regenerating
//! the file: that would lose the operator's comments and, worse, would write a
//! secret that came from the environment or a file straight into the
//! configuration in plaintext.

use vstd::prelude::*;
use vstd::string::*;

use crate::config::keys::{key_leads_to, route, segments, shown_levels, Level, Route, Step};
use crate::config::notes::{
    cut_notes, dropped_notes, fresh, fresh_list, in_field, like, notes_at, notes_kept, padded_notes,
    placed_notes, pushed_notes, redacted_notes, touched_at, Notes,
};
use crate::config::toml_items::{
    contents, copy, document_notes, drop_row, element_mut, entry, entry_mut, flag_item, held, insert,
    integer_item, is_table, items_in, list_item, names, notes, parse, push_blank, remove, root,
    root_mut, row, row_mut, rows_in, rows_under, table_under, text_item, text_of, toml, write_out,
    written,
};
use crate::config::tree::{
    dropped, is_section, is_value, looked_up, open_to, padded, placed, reached, redacted,
    redacted_entry, secret_key, section_rows, sound, with_rows, Node,
};
use crate::config::write::{begins, DocumentError, Draft, Save, SaveAction, Stamp};
use crate::text::same;
use toml_edit::{DocumentMut, Item};

verus! {

/// The config file as a document. Deliberately cannot be printed: it contains
/// inline secrets.
pub struct ConfigDocument {
    pub path: String,
    pub doc: DocumentMut,
    /// `false` when the file or its directory is not writable, found out once,
    /// at read time, so the UI can say so before the operator types anything.
    pub writable: bool,
    /// The original file's mode, so a save does not widen it.
    pub mode: Option<u32>,
    /// What the file was at read time, to detect an edit made by something else
    /// between rendering the form and saving it.
    pub stamp: Option<Stamp>,
}

/// A value that can be written at a key.
pub enum Setting {
    Text(String),
    Integer(i64),
    Flag(bool),
    Texts(Vec<String>),
}

impl Setting {
    /// What it is in a document.
    pub open spec fn node(self) -> Node {
        match self {
            Setting::Text(text) => Node::Text(text@),
            Setting::Integer(number) => Node::Integer(number),
            Setting::Flag(flag) => Node::Flag(flag),
            Setting::Texts(texts) => Node::List(
                crate::text::texts(texts@).map_values(|text: Seq<char>| Node::Text(text)),
            ),
        }
    }

    /// The comments that it brings: none.
    pub open spec fn notes(self) -> Notes {
        match self {
            Setting::Texts(texts) => fresh_list(texts@.len()),
            _ => fresh(),
        }
    }

    fn item(self) -> (r: Item)
        ensures
            held(r) == self.node(),
            notes(r) == self.notes(),
    {
        match self {
            Setting::Text(text) => text_item(text),
            Setting::Integer(number) => integer_item(number),
            Setting::Flag(flag) => flag_item(flag),
            Setting::Texts(texts) => list_item(texts),
        }
    }
}


/// What a setting is in a document is sound, and so are its notes.
proof fn a_setting_is_sound(value: Setting)
    ensures
        sound(value.node()),
        like(value.notes(), value.node()),
{
    if value is Texts {
        let items = value.node()->List_0;
        assert forall|i: int| 0 <= i < items.len() implies !(#[trigger] items[i] is Absent)
            && sound(items[i]) by {
            assert(items[i] is Text);
        }
        assert forall|i: int| 0 <= i < items.len() implies like(
            value.notes().items[i],
            #[trigger] items[i],
        ) by {
            assert(items[i] is Text);
        }
    }
}

/// The table that levels lead to, from the given one on, without creating
/// anything.
fn find<'a>(item: &'a Item, levels: &Vec<Level>, from: usize) -> (r: Option<&'a Item>)
    requires
        from <= levels@.len(),
    ensures
        match r {
            Some(table) => reached(held(*item), shown_levels(levels@).skip(from as int)) == Some(
                held(*table),
            ),
            None => reached(held(*item), shown_levels(levels@).skip(from as int)) is None,
        },
    decreases levels@.len() - from,
{
    let ghost way = shown_levels(levels@).skip(from as int);
    if from == levels.len() {
        return if is_table(item) {
            Some(item)
        } else {
            None
        };
    }
    assert(way.drop_first() =~= shown_levels(levels@).skip(from + 1));
    let found = match entry(item, levels[from].name.as_str()) {
        Some(found) => found,
        None => return None,
    };
    match levels[from].row {
        None => find(found, levels, from + 1),
        Some(index) => match rows_in(found) {
            Some(count) => if index < count {
                find(row(found, index), levels, from + 1)
            } else {
                None
            },
            None => None,
        },
    }
}

/// Whether nothing stands in the way of levels, from the given one on. `None`
/// stands for a table that is not there yet.
fn is_open(item: Option<&Item>, levels: &Vec<Level>, from: usize) -> (r: bool)
    requires
        from <= levels@.len(),
        item matches Some(item) ==> sound(held(*item)),
    ensures
        r == open_to(
            match item {
                Some(item) => held(*item),
                None => crate::config::tree::blank(),
            },
            shown_levels(levels@).skip(from as int),
        ),
    decreases levels@.len() - from,
{
    let ghost way = shown_levels(levels@).skip(from as int);
    let table: Option<&Item> = match item {
        Some(item) => {
            if !is_table(item) {
                return false;
            }
            Some(item)
        },
        None => None,
    };
    if from == levels.len() {
        return true;
    }
    assert(way.drop_first() =~= shown_levels(levels@).skip(from + 1));
    let found: Option<&Item> = match table {
        Some(table) => {
            assert((held(*table)->Table_0).contains_key(way[0].0) ==> sound(
                (held(*table)->Table_0)[way[0].0],
            ));
            entry(table, levels[from].name.as_str())
        },
        None => None,
    };
    match levels[from].row {
        None => is_open(found, levels, from + 1),
        Some(index) => {
            if index == usize::MAX {
                return false;
            }
            match found {
                Some(section) => match rows_in(section) {
                    Some(count) => if index < count {
                        let table = row(section, index);
                        assert(sound(held(*section)));
                        is_open(Some(table), levels, from + 1)
                    } else {
                        is_open(None, levels, from + 1)
                    },
                    None => false,
                },
                None => is_open(None, levels, from + 1),
            }
        },
    }
}

/// Add empty rows to a section until there is one of that number.
fn pad(item: &mut Item, index: usize)
    requires
        held(*old(item)) is Rows,
        notes(*old(item)).items.len() == (held(*old(item))->Rows_0).len(),
        index < usize::MAX,
    ensures
        held(*final(item)) == Node::Rows(padded(held(*old(item))->Rows_0, index as nat)),
        notes(*final(item)) == (Notes {
            items: padded_notes(notes(*old(item)).items, index as nat),
            ..notes(*old(item))
        }),
{
    let ghost before = held(*item)->Rows_0;
    let ghost noted = notes(*item);
    let mut count: usize = match rows_in(item) {
        Some(count) => count,
        None => 0,
    };
    while count <= index
        invariant
            index < usize::MAX,
            held(*item) is Rows,
            count == (held(*item)->Rows_0).len(),
            before.len() <= count,
            count <= index + 1 || count == before.len(),
            forall|i: int|
                0 <= i < count ==> (#[trigger] (held(*item)->Rows_0)[i]) == if i < before.len() {
                    before[i]
                } else {
                    crate::config::tree::blank()
                },
            noted.items.len() == before.len(),
            notes(*item).own == noted.own,
            notes(*item).keys == noted.keys,
            notes(*item).entries == noted.entries,
            notes(*item).items.len() == count,
            forall|i: int|
                0 <= i < count ==> (#[trigger] notes(*item).items[i]) == if i < before.len() {
                    noted.items[i]
                } else {
                    fresh()
                },
        decreases index + 1 - count,
    {
        push_blank(item);
        count += 1;
    }
    assert((held(*item)->Rows_0) =~= padded(before, index as nat));
    assert(notes(*item).items =~= padded_notes(noted.items, index as nat));
}

/// Put a value in the field of a route, from the given level on, creating what
/// is not there on the way.
fn put(item: &mut Item, route: &Route, from: usize, value: Item)
    requires
        from <= route.levels@.len(),
        open_to(held(*old(item)), shown_levels(route.levels@).skip(from as int)),
        like(notes(*old(item)), held(*old(item))),
        is_value(held(value)),
    ensures
        notes(*final(item)) == placed_notes(
            notes(*old(item)),
            held(*old(item)),
            shown_levels(route.levels@).skip(from as int),
            route.field@,
            notes(value),
        ),
        held(*final(item)) == placed(
            held(*old(item)),
            shown_levels(route.levels@).skip(from as int),
            route.field@,
            held(value),
        ),
    decreases route.levels@.len() - from,
{
    let ghost way = shown_levels(route.levels@).skip(from as int);
    if from == route.levels.len() {
        insert(item, route.field.as_str(), value);
        return;
    }
    assert(way.drop_first() =~= shown_levels(route.levels@).skip(from + 1));
    let name = route.levels[from].name.as_str();
    let ghost entries = held(*item)->Table_0;
    assert(entries.contains_key(name@) ==> like(notes(*item).entries[name@], entries[name@]));
    match route.levels[from].row {
        None => {
            let table = table_under(item, name);
            put(table, route, from + 1, value);
        },
        Some(index) => {
            let section = rows_under(item, name);
            let ghost rows = held(*section)->Rows_0;
            let ghost noted = notes(*section).items;
            assert(like(notes(*section), held(*section)));
            pad(section, index);
            assert(index < rows.len() ==> like(noted[index as int], rows[index as int]));
            let table = row_mut(section, index);
            put(table, route, from + 1, value);
        },
    }
}

/// Take the field of a route out, from the given level on.
fn take_out(item: &mut Item, route: &Route, from: usize)
    requires
        from <= route.levels@.len(),
        reached(held(*old(item)), shown_levels(route.levels@).skip(from as int)) is Some,
        like(notes(*old(item)), held(*old(item))),
    ensures
        notes(*final(item)) == dropped_notes(
            notes(*old(item)),
            held(*old(item)),
            shown_levels(route.levels@).skip(from as int),
            route.field@,
        ),
        held(*final(item)) == dropped(
            held(*old(item)),
            shown_levels(route.levels@).skip(from as int),
            route.field@,
        ),
    decreases route.levels@.len() - from,
{
    let ghost way = shown_levels(route.levels@).skip(from as int);
    if from == route.levels.len() {
        remove(item, route.field.as_str());
        return;
    }
    assert(way.drop_first() =~= shown_levels(route.levels@).skip(from + 1));
    let name = route.levels[from].name.as_str();
    let ghost entries = held(*item)->Table_0;
    assert(like(notes(*item).entries[name@], entries[name@]));
    let found = entry_mut(item, name);
    match route.levels[from].row {
        None => take_out(found, route, from + 1),
        Some(index) => {
            let ghost rows = held(*found)->Rows_0;
            assert(like(notes(*found).items[index as int], rows[index as int]));
            let table = row_mut(found, index);
            take_out(table, route, from + 1);
        },
    }
}


/// Whether the value under a key must not be shown. `text` is the value where
/// it is a text. An empty one is no secret.
pub fn must_redact(key: &str, text: Option<&str>) -> (r: bool)
    ensures
        r == (secret_key(key@) && (text matches Some(value) && value@.len() > 0)),
{
    let set: bool = match text {
        Some(value) => !value.is_empty(),
        None => false,
    };
    set && (same(key, "api_key") || same(key, "password") || same(key, "auth_token"))
}

/// Blot out every secret in what is no secret itself: in the entries of a table,
/// the rows of a section and the items of a list, however deep.
fn redact(item: &mut Item)
    requires
        sound(held(*old(item))),
        like(notes(*old(item)), held(*old(item))),
    ensures
        held(*final(item)) == redacted(held(*old(item))),
        notes(*final(item)) == redacted_notes(notes(*old(item)), held(*old(item))),
    decreases held(*old(item)), 1nat,
{
    if is_table(item) {
        redact_table(item);
    } else if rows_in(item).is_some() {
        redact_rows(item);
    } else if items_in(item).is_some() {
        redact_items(item);
    }
}

/// Blot out every secret in a table.
fn redact_table(item: &mut Item)
    requires
        sound(held(*old(item))),
        like(notes(*old(item)), held(*old(item))),
        held(*old(item)) is Table,
    ensures
        held(*final(item)) == redacted(held(*old(item))),
        notes(*final(item)) == redacted_notes(notes(*old(item)), held(*old(item))),
    decreases held(*old(item)), 0nat,
{
    let ghost start = held(*item);
    let ghost entries = start->Table_0;
    let ghost all = start->Table_2;
    let ghost noted = notes(*item);
    let keys = names(item);
    let mut i: usize = 0;
    while i < keys.len()
        invariant
            i <= keys@.len(),
            all == crate::text::texts(keys@),
            all == start->Table_2,
            entries == start->Table_0,
            start == held(*old(item)),
            start is Table,
            sound(start),
            held(*item) is Table,
            held(*item)->Table_1 == start->Table_1,
            held(*item)->Table_2 == all,
            (held(*item)->Table_0).dom() == entries.dom(),
            forall|k: int|
                0 <= k < all.len() ==> (held(*item)->Table_0)[#[trigger] all[k]] == if k < i {
                    redacted_entry(all[k], entries[all[k]])
                } else {
                    entries[all[k]]
                },
            noted == notes(*old(item)),
            like(noted, start),
            notes(*item).own == noted.own,
            notes(*item).keys == noted.keys,
            notes(*item).items == noted.items,
            notes(*item).entries.dom() == entries.dom(),
            forall|k: int|
                0 <= k < all.len() ==> notes(*item).entries[#[trigger] all[k]] == if k < i {
                    redacted_notes(noted, start).entries[all[k]]
                } else {
                    noted.entries[all[k]]
                },
        decreases keys@.len() - i,
    {
        let ghost before = held(*item)->Table_0;
        let ghost marked = notes(*item);
        let ghost name = all[i as int];
        assert(keys@[i as int]@ == name);
        assert(all.contains(name));
        assert(entries.contains_key(name));
        assert(like(noted.entries[name], entries[name]));
        let key = keys[i].as_str();
        let found = entry_mut(item, key);
        let ghost was = held(*found);
        let secret: bool = must_redact(key, text_of(found));
        if secret {
            *found = text_item("<redacted>".to_owned());
        } else {
            redact(found);
        }
        i += 1;
        assert((held(*item)->Table_0) =~= before.insert(name, redacted_entry(name, was)));
        assert((held(*item)->Table_0).dom() =~= entries.dom());
        assert(notes(*item).keys =~= marked.keys);
        assert(notes(*item).entries =~= marked.entries.insert(
            name,
            redacted_notes(noted, start).entries[name],
        ));
        assert(notes(*item).entries.dom() =~= entries.dom());
    }
    assert forall|name: Seq<char>| #[trigger] entries.contains_key(name) implies (held(
        *item,
    )->Table_0)[name] == redacted_entry(name, entries[name]) && notes(*item).entries[name]
        == redacted_notes(noted, start).entries[name] by {
        assert(all.contains(name));
        let k = choose|k: int| 0 <= k < all.len() && all[k] == name;
        assert(all[k] == name);
    }
    assert((held(*item)->Table_0) =~= (redacted(start)->Table_0));
    assert(notes(*item).entries =~= redacted_notes(noted, start).entries);
}

/// Blot out every secret in the rows of a section.
fn redact_rows(item: &mut Item)
    requires
        sound(held(*old(item))),
        like(notes(*old(item)), held(*old(item))),
        held(*old(item)) is Rows,
    ensures
        held(*final(item)) == redacted(held(*old(item))),
        notes(*final(item)) == redacted_notes(notes(*old(item)), held(*old(item))),
    decreases held(*old(item)), 0nat,
{
    let ghost rows = held(*item)->Rows_0;
    let ghost noted = notes(*item);
    let count: usize = match rows_in(item) {
        Some(count) => count,
        None => 0,
    };
    let mut i: usize = 0;
    while i < count
        invariant
            i <= count == rows.len(),
            Node::Rows(rows) == held(*old(item)),
            sound(Node::Rows(rows)),
            held(*item) is Rows,
            (held(*item)->Rows_0).len() == count,
            forall|k: int|
                0 <= k < count ==> (#[trigger] (held(*item)->Rows_0)[k]) == if k < i {
                    redacted(rows[k])
                } else {
                    rows[k]
                },
            noted == notes(*old(item)),
            like(noted, Node::Rows(rows)),
            notes(*item).own == noted.own,
            notes(*item).keys == noted.keys,
            notes(*item).entries == noted.entries,
            notes(*item).items.len() == count,
            forall|k: int|
                0 <= k < count ==> (#[trigger] notes(*item).items[k]) == if k < i {
                    redacted_notes(noted.items[k], rows[k])
                } else {
                    noted.items[k]
                },
        decreases count - i,
    {
        assert((held(*item)->Rows_0)[i as int] == rows[i as int]);
        assert(notes(*item).items[i as int] == noted.items[i as int]);
        assert(like(noted.items[i as int], rows[i as int]));
        let table = row_mut(item, i);
        redact(table);
        i += 1;
    }
    assert((held(*item)->Rows_0) =~= (redacted(Node::Rows(rows))->Rows_0));
    assert(notes(*item).items =~= redacted_notes(noted, Node::Rows(rows)).items);
}

/// Blot out every secret in the items of a list.
fn redact_items(item: &mut Item)
    requires
        sound(held(*old(item))),
        like(notes(*old(item)), held(*old(item))),
        held(*old(item)) is List,
    ensures
        held(*final(item)) == redacted(held(*old(item))),
        notes(*final(item)) == redacted_notes(notes(*old(item)), held(*old(item))),
    decreases held(*old(item)), 0nat,
{
    let ghost items = held(*item)->List_0;
    let ghost noted = notes(*item);
    let count: usize = match items_in(item) {
        Some(count) => count,
        None => 0,
    };
    let mut i: usize = 0;
    while i < count
        invariant
            i <= count == items.len(),
            Node::List(items) == held(*old(item)),
            sound(Node::List(items)),
            held(*item) is List,
            (held(*item)->List_0).len() == count,
            forall|k: int|
                0 <= k < count ==> (#[trigger] (held(*item)->List_0)[k]) == if k < i {
                    redacted(items[k])
                } else {
                    items[k]
                },
            noted == notes(*old(item)),
            like(noted, Node::List(items)),
            notes(*item).own == noted.own,
            notes(*item).keys == noted.keys,
            notes(*item).entries == noted.entries,
            notes(*item).items.len() == count,
            forall|k: int|
                0 <= k < count ==> (#[trigger] notes(*item).items[k]) == if k < i {
                    redacted_notes(noted.items[k], items[k])
                } else {
                    noted.items[k]
                },
        decreases count - i,
    {
        assert((held(*item)->List_0)[i as int] == items[i as int]);
        assert(notes(*item).items[i as int] == noted.items[i as int]);
        assert(like(noted.items[i as int], items[i as int]));
        let element = element_mut(item, i);
        redact(element);
        i += 1;
    }
    assert((held(*item)->List_0) =~= (redacted(Node::List(items))->List_0));
    assert(notes(*item).items =~= redacted_notes(noted, Node::List(items)).items);
}

impl ConfigDocument {
    /// The root is a table that is not inline, every row of a repeated section
    /// is one, and no entry holds nothing. Comments are kept of exactly what is
    /// there.
    pub open spec fn wf(self) -> bool {
        &&& is_section(contents(self.doc))
        &&& sound(contents(self.doc))
        &&& like(self.notes(), contents(self.doc))
    }

    /// The comments in the document.
    pub open spec fn notes(self) -> Notes {
        document_notes(self.doc).0
    }

    /// The comments behind all that the document holds.
    pub open spec fn closing(self) -> Seq<char> {
        document_notes(self.doc).1
    }

    /// Everything but what the document holds is as it was.
    pub open spec fn same_file(self, other: ConfigDocument) -> bool {
        self.path == other.path && self.writable == other.writable && self.mode == other.mode
            && self.stamp == other.stamp
    }

    /// What stands at a key; nothing where the key leads nowhere.
    pub open spec fn at(self, key: Seq<char>) -> Option<Node> {
        match key_leads_to(key) {
            Some((levels, field)) => looked_up(contents(self.doc), levels, field),
            None => None,
        }
    }

    /// A value can be written at a key: the key ends in a name, and nothing
    /// stands in its way.
    pub open spec fn takes(self, key: Seq<char>) -> bool {
        key_leads_to(key) matches Some((levels, _)) && open_to(contents(self.doc), levels)
    }

    /// The document with a value at a key.
    pub open spec fn with(self, key: Seq<char>, value: Node) -> Node {
        let (levels, field) = key_leads_to(key)->0;
        placed(contents(self.doc), levels, field, value)
    }

    /// The comments in the document with a value at a key.
    pub open spec fn notes_with(self, key: Seq<char>, value: Notes) -> Notes {
        let (levels, field) = key_leads_to(key)->0;
        placed_notes(self.notes(), contents(self.doc), levels, field, value)
    }

    /// The comments in the document without a key.
    pub open spec fn notes_without(self, key: Seq<char>) -> Notes {
        match key_leads_to(key) {
            Some((levels, field)) => if reached(contents(self.doc), levels) is Some {
                dropped_notes(self.notes(), contents(self.doc), levels, field)
            } else {
                self.notes()
            },
            None => self.notes(),
        }
    }

    /// A name is free or stands for a repeated section, with room for a row.
    pub open spec fn takes_row(self, section: Seq<char>) -> bool {
        let there = (contents(self.doc)->Table_0).contains_key(section);
        &&& there ==> (contents(self.doc)->Table_0)[section] is Rows
        &&& section_rows(contents(self.doc), section).len() < usize::MAX
    }

    /// Take in what stands in the file at `path`. A missing file, `None`, is no
    /// error: a fresh install has none yet, and it reads as an empty document.
    pub fn read(
        path: &str,
        found: Result<Option<String>, String>,
        mode: Option<u32>,
        stamp: Option<Stamp>,
        writable: bool,
    ) -> (r: Result<ConfigDocument, DocumentError>)
        ensures
            match found {
                Err(why) => r matches Err(DocumentError::Read { path: p, source }) && p@ == path@
                    && source == why,
                Ok(found) => {
                    let text = match found {
                        Some(text) => text@,
                        None => Seq::empty(),
                    };
                    match toml(text) {
                        Err(why) => r matches Err(DocumentError::Parse { path: p, source }) && p@
                            == path@ && source@ == why,
                        Ok((node, noted)) => r matches Ok(document) && document.wf()
                            && document.path@ == path@ && contents(document.doc) == node
                            && document_notes(document.doc) == noted && document.writable
                            == writable && document.mode == mode && document.stamp == stamp,
                    }
                },
            },
    {
        let text = match found {
            Ok(Some(text)) => text,
            Ok(None) => String::new(),
            Err(source) => return Err(DocumentError::Read { path: path.to_owned(), source }),
        };
        match parse(text.as_str()) {
            Ok(doc) => Ok(ConfigDocument { path: path.to_owned(), doc, writable, mode, stamp }),
            Err(source) => Err(DocumentError::Parse { path: path.to_owned(), source }),
        }
    }

    /// What stands at a key. `None` means the key is absent from the file, so a
    /// form shows the default instead of pretending it was set.
    pub fn get(&self, key: &str) -> (r: Option<&Item>)
        ensures
            match r {
                Some(item) => self.at(key@) == Some(held(*item)),
                None => self.at(key@) is None,
            },
    {
        let route = match route(segments(key)) {
            Some(route) => route,
            None => return None,
        };
        assert(shown_levels(route.levels@).skip(0) =~= shown_levels(route.levels@));
        match find(root(&self.doc), &route.levels, 0) {
            Some(table) => entry(table, route.field.as_str()),
            None => None,
        }
    }

    /// Write a value at a key, creating any row of a repeated section or table
    /// that the key needs along the way.
    pub fn set(&mut self, key: &str, value: Setting)
        requires
            old(self).wf(),
            old(self).takes(key@),
        ensures
            final(self).wf(),
            final(self).same_file(*old(self)),
            contents(final(self).doc) == old(self).with(key@, value.node()),
            final(self).notes() == old(self).notes_with(key@, value.notes()),
            final(self).closing() == old(self).closing(),
    {
        let ghost before = contents(self.doc);
        let ghost node = value.node();
        if let Some(route) = route(segments(key)) {
            let ghost levels = shown_levels(route.levels@);
            assert(levels.skip(0) =~= levels);
            proof {
                a_setting_is_sound(value);
                crate::config::tree::setting_keeps_sound(before, levels, route.field@, node);
                crate::config::notes::setting_keeps_like(
                    self.notes(),
                    before,
                    levels,
                    route.field@,
                    value.notes(),
                    node,
                );
            }
            let item = value.item();
            let table = root_mut(&mut self.doc);
            put(table, &route, 0, item);
        }
    }

    /// Write a value at a key, where nothing stands in its way. Says whether it
    /// was written.
    pub fn try_set(&mut self, key: &str, value: Setting) -> (r: bool)
        requires
            old(self).wf(),
        ensures
            r == old(self).takes(key@),
            final(self).wf(),
            final(self).same_file(*old(self)),
            contents(final(self).doc) == if r {
                old(self).with(key@, value.node())
            } else {
                contents(old(self).doc)
            },
            final(self).notes() == if r {
                old(self).notes_with(key@, value.notes())
            } else {
                old(self).notes()
            },
            final(self).closing() == old(self).closing(),
    {
        let free: bool = match route(segments(key)) {
            Some(route) => {
                assert(shown_levels(route.levels@).skip(0) =~= shown_levels(route.levels@));
                is_open(Some(root(&self.doc)), &route.levels, 0)
            },
            None => false,
        };
        if free {
            self.set(key, value);
        }
        free
    }

    /// Write a list of texts at a key.
    pub fn set_array(&mut self, key: &str, values: Vec<String>)
        requires
            old(self).wf(),
            old(self).takes(key@),
        ensures
            final(self).wf(),
            final(self).same_file(*old(self)),
            contents(final(self).doc) == old(self).with(key@, Setting::Texts(values).node()),
            final(self).notes() == old(self).notes_with(key@, Setting::Texts(values).notes()),
            final(self).closing() == old(self).closing(),
    {
        self.set(key, Setting::Texts(values));
    }

    /// Take a key out. Nothing happens if the key, or anything on its path, is
    /// absent.
    pub fn remove(&mut self, key: &str)
        requires
            old(self).wf(),
        ensures
            final(self).wf(),
            final(self).same_file(*old(self)),
            contents(final(self).doc) == match key_leads_to(key@) {
                Some((levels, field)) => dropped(contents(old(self).doc), levels, field),
                None => contents(old(self).doc),
            },
            final(self).notes() == old(self).notes_without(key@),
            final(self).closing() == old(self).closing(),
    {
        let ghost before = contents(self.doc);
        let route = match route(segments(key)) {
            Some(route) => route,
            None => return,
        };
        let ghost levels = shown_levels(route.levels@);
        assert(levels.skip(0) =~= levels);
        proof {
            crate::config::tree::removing_keeps_sound(before, levels, route.field@);
        }
        if find(root(&self.doc), &route.levels, 0).is_some() {
            proof {
                crate::config::notes::removing_keeps_like(
                    self.notes(),
                    before,
                    levels,
                    route.field@,
                );
            }
            let table = root_mut(&mut self.doc);
            take_out(table, &route, 0);
        } else {
            proof {
                crate::config::tree::removing_what_is_absent_changes_nothing(
                    before,
                    levels,
                    route.field@,
                );
            }
        }
    }

    /// One new blank row appended to a repeated section. Returns its index.
    pub fn push_row(&mut self, section: &str) -> (r: usize)
        requires
            old(self).wf(),
            old(self).takes_row(section@),
        ensures
            final(self).wf(),
            final(self).same_file(*old(self)),
            r == section_rows(contents(old(self).doc), section@).len(),
            contents(final(self).doc) == with_rows(
                contents(old(self).doc),
                section@,
                section_rows(contents(old(self).doc), section@).push(crate::config::tree::blank()),
            ),
            final(self).notes() == pushed_notes(
                old(self).notes(),
                contents(old(self).doc),
                section@,
            ),
            final(self).closing() == old(self).closing(),
    {
        let ghost before = contents(self.doc);
        let ghost noted = self.notes();
        let table = root_mut(&mut self.doc);
        let item = rows_under(table, section);
        let count: usize = match rows_in(item) {
            Some(count) => count,
            None => 0,
        };
        push_blank(item);
        proof {
            crate::config::tree::pushing_keeps_sound(before, section@);
            crate::config::notes::pushing_keeps_like(noted, before, section@);
        }
        count
    }

    /// Append a blank row to a section, where the name is free or stands for
    /// one. Returns its index.
    pub fn try_push_row(&mut self, section: &str) -> (r: Option<usize>)
        requires
            old(self).wf(),
        ensures
            match r {
                Some(index) => {
                    &&& old(self).takes_row(section@)
                    &&& index == section_rows(contents(old(self).doc), section@).len()
                    &&& contents(final(self).doc) == with_rows(
                        contents(old(self).doc),
                        section@,
                        section_rows(contents(old(self).doc), section@).push(
                            crate::config::tree::blank(),
                        ),
                    )
                    &&& final(self).notes() == pushed_notes(
                        old(self).notes(),
                        contents(old(self).doc),
                        section@,
                    )
                },
                None => !old(self).takes_row(section@) && contents(final(self).doc) == contents(
                    old(self).doc,
                ) && final(self).notes() == old(self).notes(),
            },
            final(self).closing() == old(self).closing(),
            final(self).wf(),
            final(self).same_file(*old(self)),
    {
        let ghost entries = contents(self.doc)->Table_0;
        assert(entries.contains_key(section@) ==> !(entries[section@] is Absent));
        let free: bool = match entry(root(&self.doc), section) {
            Some(item) => match rows_in(item) {
                Some(count) => count < usize::MAX,
                None => false,
            },
            None => true,
        };
        if free {
            Some(self.push_row(section))
        } else {
            None
        }
    }

    /// The number of rows in a repeated section.
    pub fn row_count(&self, section: &str) -> (r: usize)
        ensures
            r == section_rows(contents(self.doc), section@).len(),
    {
        match entry(root(&self.doc), section) {
            Some(item) => match rows_in(item) {
                Some(count) => count,
                None => 0,
            },
            None => 0,
        }
    }

    /// Drop one row of a repeated section entirely: every later row's index
    /// goes down by one. Nothing happens where there is no such section.
    pub fn remove_row(&mut self, section: &str, index: usize)
        requires
            old(self).wf(),
            crate::config::tree::entry(contents(old(self).doc), section@) matches Some(
                Node::Rows(rows),
            ) ==> index < rows.len(),
        ensures
            final(self).wf(),
            final(self).same_file(*old(self)),
            contents(final(self).doc) == match crate::config::tree::entry(
                contents(old(self).doc),
                section@,
            ) {
                Some(Node::Rows(rows)) => with_rows(
                    contents(old(self).doc),
                    section@,
                    rows.remove(index as int),
                ),
                _ => contents(old(self).doc),
            },
            final(self).notes() == match crate::config::tree::entry(
                contents(old(self).doc),
                section@,
            ) {
                Some(Node::Rows(_)) => cut_notes(old(self).notes(), section@, index as int),
                _ => old(self).notes(),
            },
            final(self).closing() == old(self).closing(),
    {
        let ghost before = contents(self.doc);
        let repeated: bool = match entry(root(&self.doc), section) {
            Some(item) => rows_in(item).is_some(),
            None => false,
        };
        if repeated {
            proof {
                crate::config::tree::dropping_a_row_keeps_sound(before, section@, index as int);
                crate::config::notes::cutting_keeps_like(
                    self.notes(),
                    before,
                    section@,
                    index as int,
                );
            }
            let table = root_mut(&mut self.doc);
            let item = entry_mut(table, section);
            drop_row(item, index);
        }
    }

    /// The document as it is written down.
    pub fn text(&self) -> (r: String)
        requires
            self.wf(),
        ensures
            r@ == written(self.doc),
    {
        write_out(&self.doc)
    }

    /// The document with every secret value blanked out, the way out when the
    /// file cannot be written. No other function turns the document into text
    /// for display.
    pub fn to_redacted_toml(&self) -> (r: String)
        requires
            self.wf(),
        ensures
            exists|shown: DocumentMut|
                contents(shown) == redacted(contents(self.doc)) && document_notes(shown) == (
                    redacted_notes(self.notes(), contents(self.doc)),
                    self.closing(),
                ) && r@ == #[trigger] written(shown),
    {
        let mut doc = copy(&self.doc);
        let table = root_mut(&mut doc);
        redact(table);
        write_out(&doc)
    }

    pub fn writable(&self) -> (r: bool)
        ensures
            r == self.writable,
    {
        self.writable
    }

    pub fn path(&self) -> (r: &str)
        ensures
            r@ == self.path@,
    {
        self.path.as_str()
    }

    /// Begin to write the document to disk.
    pub fn save(&self) -> (r: (Save, SaveAction))
        requires
            self.wf(),
        ensures
            r.0.document.path@ == self.path@,
            r.0.document.text@ == written(self.doc),
            r.0.document.writable == self.writable,
            r.0.document.mode == self.mode,
            r.0.document.stamp == self.stamp,
            begins(r.0.document, r.0, r.1),
    {
        Save::start(
            Draft {
                path: self.path.clone(),
                text: write_out(&self.doc),
                writable: self.writable,
                mode: self.mode,
                stamp: self.stamp,
            },
        )
    }
}

/// What was written at a key is read back from it.
pub proof fn a_written_key_is_read_back(
    before: ConfigDocument,
    after: ConfigDocument,
    key: Seq<char>,
    value: Setting,
)
    requires
        before.takes(key),
        contents(after.doc) == before.with(key, value.node()),
    ensures
        after.at(key) == Some(value.node()),
{
    let (levels, field) = key_leads_to(key)->0;
    crate::config::tree::a_set_field_is_read_back(
        contents(before.doc),
        levels,
        field,
        value.node(),
    );
}

/// Writing at a key keeps every comment in the file but those around that key
/// and what stood there.
pub proof fn writing_a_key_keeps_the_other_comments(
    before: ConfigDocument,
    after: ConfigDocument,
    key: Seq<char>,
    value: Setting,
    place: Seq<Step>,
)
    requires
        before.wf(),
        before.takes(key),
        after.notes() == before.notes_with(key, value.notes()),
        notes_at(before.notes(), place) is Some,
        !in_field(place, (key_leads_to(key)->0).0, (key_leads_to(key)->0).1),
    ensures
        notes_kept(
            notes_at(before.notes(), place)->0,
            notes_at(after.notes(), place),
            touched_at(place, (key_leads_to(key)->0).0, (key_leads_to(key)->0).1),
        ),
{
    let (levels, field) = key_leads_to(key)->0;
    crate::config::notes::setting_keeps_the_comments(
        before.notes(),
        contents(before.doc),
        levels,
        field,
        value.notes(),
        place,
    );
}

/// Taking out a key keeps every comment in the file but those around that key
/// and what stood there.
pub proof fn removing_a_key_keeps_the_other_comments(
    before: ConfigDocument,
    after: ConfigDocument,
    key: Seq<char>,
    place: Seq<Step>,
)
    requires
        before.wf(),
        after.notes() == before.notes_without(key),
        notes_at(before.notes(), place) is Some,
        key_leads_to(key) matches Some((levels, field)) ==> !in_field(place, levels, field),
    ensures
        notes_kept(
            notes_at(before.notes(), place)->0,
            notes_at(after.notes(), place),
            match key_leads_to(key) {
                Some((levels, field)) => touched_at(place, levels, field),
                None => None,
            },
        ),
{
    if let Some((levels, field)) = key_leads_to(key) {
        if reached(contents(before.doc), levels) is Some {
            crate::config::notes::removing_keeps_the_comments(
                before.notes(),
                contents(before.doc),
                levels,
                field,
                place,
            );
        }
    }
}

} // verus!
