//! The comments of a TOML document: what stands around its keys, values and
//! headers, and what becomes of it when the document is changed at one place.

use vstd::prelude::*;

use crate::config::keys::Step;
use crate::config::tree::{
    blank, dropped, entry, entry_or, open_to, padded, placed, reached, section_rows, set_secret,
    with_rows, Node,
};

verus! {

/// The comments and the space that were read around what stands at one place.
pub struct Notes {
    /// Around the value itself, or the header of the table itself.
    pub own: Seq<char>,
    /// Around the key of each entry of a table.
    pub keys: Map<Seq<char>, Seq<char>>,
    /// Of each entry of a table.
    pub entries: Map<Seq<char>, Notes>,
    /// Of each row of a section, or each item of a list.
    pub items: Seq<Notes>,
}

/// Nothing is noted.
pub open spec fn fresh() -> Notes {
    Notes { own: Seq::empty(), keys: Map::empty(), entries: Map::empty(), items: Seq::empty() }
}

/// Nothing is noted of a list of that many items.
pub open spec fn fresh_list(count: nat) -> Notes {
    Notes { items: Seq::new(count, |i: int| fresh()), ..fresh() }
}

/// There are notes of what is there, and of nothing else.
pub open spec fn like(notes: Notes, node: Node) -> bool
    decreases node,
{
    match node {
        Node::Table(entries, _, _) => {
            &&& notes.keys.dom() == entries.dom()
            &&& notes.entries.dom() == entries.dom()
            &&& forall|name: Seq<char>| #[trigger]
                entries.contains_key(name) ==> like(notes.entries[name], entries[name])
        },
        Node::Rows(rows) => {
            &&& notes.items.len() == rows.len()
            &&& forall|i: int|
                0 <= i < rows.len() ==> like(notes.items[i], #[trigger] rows[i])
        },
        Node::List(items) => {
            &&& notes.items.len() == items.len()
            &&& forall|i: int|
                0 <= i < items.len() ==> like(notes.items[i], #[trigger] items[i])
        },
        _ => true,
    }
}

/// The notes of a table with an entry put under a name.
pub open spec fn with_note(notes: Notes, name: Seq<char>, key: Seq<char>, value: Notes) -> Notes {
    Notes {
        keys: notes.keys.insert(name, key),
        entries: notes.entries.insert(name, value),
        ..notes
    }
}

/// The notes of a table without an entry.
pub open spec fn without_note(notes: Notes, name: Seq<char>) -> Notes {
    Notes { keys: notes.keys.remove(name), entries: notes.entries.remove(name), ..notes }
}

/// What is noted around a key of a table; nothing where the table has no such
/// entry yet.
pub open spec fn key_note(notes: Notes, node: Node, name: Seq<char>) -> Seq<char> {
    if (node->Table_0).contains_key(name) {
        notes.keys[name]
    } else {
        Seq::empty()
    }
}

/// The notes of an entry of a table; nothing is noted where it has none yet.
pub open spec fn entry_note(notes: Notes, node: Node, name: Seq<char>) -> Notes {
    if (node->Table_0).contains_key(name) {
        notes.entries[name]
    } else {
        fresh()
    }
}

/// The notes of rows, with empty ones added until there is one of that number.
pub open spec fn padded_notes(items: Seq<Notes>, row: nat) -> Seq<Notes> {
    if row < items.len() {
        items
    } else {
        Seq::new(
            row + 1,
            |i: int|
                if i < items.len() {
                    items[i]
                } else {
                    fresh()
                },
        )
    }
}

/// The notes once a value was put in a field.
pub open spec fn placed_notes(
    notes: Notes,
    node: Node,
    levels: Seq<(Seq<char>, Option<usize>)>,
    field: Seq<char>,
    value: Notes,
) -> Notes
    decreases levels.len(),
{
    if levels.len() == 0 {
        with_note(notes, field, Seq::empty(), value)
    } else {
        let (name, row) = levels[0];
        let rest = levels.drop_first();
        let inner = entry_note(notes, node, name);
        let changed = match row {
            None => placed_notes(
                inner,
                entry_or(node->Table_0, name, blank()),
                rest,
                field,
                value,
            ),
            Some(row) => {
                let section = entry_or(node->Table_0, name, Node::Rows(Seq::empty()));
                let items = padded_notes(inner.items, row as nat);
                Notes {
                    items: items.update(
                        row as int,
                        placed_notes(
                            items[row as int],
                            padded(section->Rows_0, row as nat)[row as int],
                            rest,
                            field,
                            value,
                        ),
                    ),
                    ..inner
                }
            },
        };
        with_note(notes, name, key_note(notes, node, name), changed)
    }
}

/// The notes once a field was taken out.
pub open spec fn dropped_notes(
    notes: Notes,
    node: Node,
    levels: Seq<(Seq<char>, Option<usize>)>,
    field: Seq<char>,
) -> Notes
    decreases levels.len(),
{
    if levels.len() == 0 {
        without_note(notes, field)
    } else {
        let name = levels[0].0;
        let rest = levels.drop_first();
        let inner = notes.entries[name];
        match (entry(node, name), levels[0].1) {
            (Some(found), None) => with_note(
                notes,
                name,
                notes.keys[name],
                dropped_notes(inner, found, rest, field),
            ),
            (Some(Node::Rows(rows)), Some(row)) => with_note(
                notes,
                name,
                notes.keys[name],
                Notes {
                    items: inner.items.update(
                        row as int,
                        dropped_notes(inner.items[row as int], rows[row as int], rest, field),
                    ),
                    ..inner
                },
            ),
            _ => notes,
        }
    }
}

/// The notes once every secret that is set was blotted out: what was noted
/// around the secret itself goes with it.
pub open spec fn redacted_notes(notes: Notes, node: Node) -> Notes
    decreases node,
{
    match node {
        Node::Table(entries, _, _) => Notes {
            entries: Map::new(
                |name: Seq<char>| notes.entries.contains_key(name),
                |name: Seq<char>|
                    if !entries.contains_key(name) {
                        notes.entries[name]
                    } else if set_secret(name, entries[name]) {
                        fresh()
                    } else {
                        redacted_notes(notes.entries[name], entries[name])
                    },
            ),
            ..notes
        },
        Node::Rows(rows) => Notes {
            items: Seq::new(
                notes.items.len(),
                |i: int|
                    if 0 <= i < rows.len() {
                        redacted_notes(notes.items[i], rows[i])
                    } else {
                        notes.items[i]
                    },
            ),
            ..notes
        },
        Node::List(items) => Notes {
            items: Seq::new(
                notes.items.len(),
                |i: int|
                    if 0 <= i < items.len() {
                        redacted_notes(notes.items[i], items[i])
                    } else {
                        notes.items[i]
                    },
            ),
            ..notes
        },
        _ => notes,
    }
}

/// The notes once a row without any was appended to a section.
pub open spec fn pushed_notes(notes: Notes, node: Node, section: Seq<char>) -> Notes {
    let inner = entry_note(notes, node, section);
    with_note(
        notes,
        section,
        key_note(notes, node, section),
        Notes { items: inner.items.push(fresh()), ..inner },
    )
}

/// The notes once a row was taken out of a section.
pub open spec fn cut_notes(notes: Notes, section: Seq<char>, index: int) -> Notes {
    let inner = notes.entries[section];
    with_note(
        notes,
        section,
        notes.keys[section],
        Notes { items: inner.items.remove(index), ..inner },
    )
}

/// Putting a value in a field keeps that the notes are of what is there.
pub proof fn setting_keeps_like(
    notes: Notes,
    node: Node,
    levels: Seq<(Seq<char>, Option<usize>)>,
    field: Seq<char>,
    noted: Notes,
    value: Node,
)
    requires
        like(notes, node),
        open_to(node, levels),
        like(noted, value),
    ensures
        like(placed_notes(notes, node, levels, field, noted), placed(node, levels, field, value)),
    decreases levels.len(),
{
    let entries = node->Table_0;
    let after = placed_notes(notes, node, levels, field, noted);
    let then = placed(node, levels, field, value)->Table_0;
    if levels.len() > 0 {
        let (name, row) = levels[0];
        let rest = levels.drop_first();
        let inner = entry_note(notes, node, name);
        if entries.contains_key(name) {
            assert(like(notes.entries[name], entries[name]));
        }
        match row {
            None => {
                setting_keeps_like(
                    inner,
                    entry_or(entries, name, blank()),
                    rest,
                    field,
                    noted,
                    value,
                );
            },
            Some(row) => {
                let rows = entry_or(entries, name, Node::Rows(Seq::empty()))->Rows_0;
                let all = padded(rows, row as nat);
                let items = padded_notes(inner.items, row as nat);
                assert(like(inner, Node::Rows(rows)));
                assert forall|i: int| 0 <= i < all.len() implies like(
                    items[i],
                    #[trigger] all[i],
                ) by {
                    if i < rows.len() {
                        assert(like(inner.items[i], rows[i]));
                    }
                }
                assert(like(items[row as int], all[row as int]));
                setting_keeps_like(items[row as int], all[row as int], rest, field, noted, value);
                assert(like(after.entries[name], then[name]));
            },
        }
        assert(like(after.entries[name], then[name]));
    }
    assert(after.keys.dom() =~= then.dom());
    assert(after.entries.dom() =~= then.dom());
    assert forall|name: Seq<char>| #[trigger] then.contains_key(name) implies like(
        after.entries[name],
        then[name],
    ) by {
        if entries.contains_key(name) {
            assert(like(notes.entries[name], entries[name]));
        }
    }
}

/// Taking out a field keeps that the notes are of what is there.
pub proof fn removing_keeps_like(
    notes: Notes,
    node: Node,
    levels: Seq<(Seq<char>, Option<usize>)>,
    field: Seq<char>,
)
    requires
        like(notes, node),
        reached(node, levels) is Some,
    ensures
        like(dropped_notes(notes, node, levels, field), dropped(node, levels, field)),
    decreases levels.len(),
{
    let entries = node->Table_0;
    let after = dropped_notes(notes, node, levels, field);
    let then = dropped(node, levels, field)->Table_0;
    if levels.len() > 0 {
        let (name, row) = levels[0];
        let rest = levels.drop_first();
        let inner = notes.entries[name];
        assert(entries.contains_key(name));
        assert(like(inner, entries[name]));
        match row {
            None => {
                removing_keeps_like(inner, entries[name], rest, field);
            },
            Some(row) => {
                let rows = entries[name]->Rows_0;
                assert(like(inner.items[row as int], rows[row as int]));
                removing_keeps_like(inner.items[row as int], rows[row as int], rest, field);
                assert(like(after.entries[name], then[name]));
            },
        }
        assert(like(after.entries[name], then[name]));
    }
    assert(after.keys.dom() =~= then.dom());
    assert(after.entries.dom() =~= then.dom());
    assert forall|name: Seq<char>| #[trigger] then.contains_key(name) implies like(
        after.entries[name],
        then[name],
    ) by {
        if entries.contains_key(name) {
            assert(like(notes.entries[name], entries[name]));
        }
    }
}

/// Appending a row keeps that the notes are of what is there.
pub proof fn pushing_keeps_like(notes: Notes, node: Node, section: Seq<char>)
    requires
        like(notes, node),
        node is Table,
        (node->Table_0).contains_key(section) ==> (node->Table_0)[section] is Rows,
    ensures
        like(
            pushed_notes(notes, node, section),
            with_rows(node, section, section_rows(node, section).push(blank())),
        ),
{
    let entries = node->Table_0;
    let rows = section_rows(node, section);
    let after = pushed_notes(notes, node, section);
    let then = with_rows(node, section, rows.push(blank()))->Table_0;
    let inner = entry_note(notes, node, section);
    if entries.contains_key(section) {
        assert(like(notes.entries[section], entries[section]));
    }
    assert(like(inner, Node::Rows(rows)));
    assert forall|i: int| 0 <= i < rows.len() + 1 implies like(
        after.entries[section].items[i],
        #[trigger] rows.push(blank())[i],
    ) by {
        if i < rows.len() {
            assert(like(inner.items[i], rows[i]));
        }
    }
    assert(like(after.entries[section], then[section]));
    assert(after.keys.dom() =~= then.dom());
    assert(after.entries.dom() =~= then.dom());
    assert forall|name: Seq<char>| #[trigger] then.contains_key(name) implies like(
        after.entries[name],
        then[name],
    ) by {
        if entries.contains_key(name) {
            assert(like(notes.entries[name], entries[name]));
        }
    }
}

/// Taking out a row keeps that the notes are of what is there.
pub proof fn cutting_keeps_like(notes: Notes, node: Node, section: Seq<char>, index: int)
    requires
        like(notes, node),
        entry(node, section) matches Some(Node::Rows(rows)) && 0 <= index < rows.len(),
    ensures
        like(
            cut_notes(notes, section, index),
            with_rows(node, section, section_rows(node, section).remove(index)),
        ),
{
    let entries = node->Table_0;
    let rows = section_rows(node, section);
    let after = cut_notes(notes, section, index);
    let then = with_rows(node, section, rows.remove(index))->Table_0;
    let inner = notes.entries[section];
    assert(like(inner, entries[section]));
    assert forall|i: int| 0 <= i < rows.len() - 1 implies like(
        after.entries[section].items[i],
        #[trigger] rows.remove(index)[i],
    ) by {
        let was = if i < index {
            i
        } else {
            i + 1
        };
        assert(like(inner.items[was], rows[was]));
    }
    assert(like(after.entries[section], then[section]));
    assert(after.keys.dom() =~= then.dom());
    assert(after.entries.dom() =~= then.dom());
    assert forall|name: Seq<char>| #[trigger] then.contains_key(name) implies like(
        after.entries[name],
        then[name],
    ) by {
        if entries.contains_key(name) {
            assert(like(notes.entries[name], entries[name]));
        }
    }
}

// ---------------------------------------------------------------------------
// What is kept
// ---------------------------------------------------------------------------

/// The notes of what stands at a place.
pub open spec fn notes_at(notes: Notes, place: Seq<Step>) -> Option<Notes>
    decreases place.len(),
{
    if place.len() == 0 {
        Some(notes)
    } else {
        match place[0] {
            Step::Name(name) => if notes.entries.contains_key(name) {
                notes_at(notes.entries[name], place.drop_first())
            } else {
                None
            },
            Step::Index(index) => if index < notes.items.len() {
                notes_at(notes.items[index as int], place.drop_first())
            } else {
                None
            },
        }
    }
}

/// The place is the field, or lies in what stands there.
pub open spec fn in_field(
    place: Seq<Step>,
    levels: Seq<(Seq<char>, Option<usize>)>,
    field: Seq<char>,
) -> bool
    decreases levels.len(),
{
    if place.len() == 0 {
        false
    } else if levels.len() == 0 {
        place[0] == Step::Name(field)
    } else if place[0] != Step::Name(levels[0].0) {
        false
    } else {
        match levels[0].1 {
            None => in_field(place.drop_first(), levels.drop_first(), field),
            Some(row) => place.len() > 1 && place[1] == Step::Index(row) && in_field(
                place.drop_first().drop_first(),
                levels.drop_first(),
                field,
            ),
        }
    }
}

/// The place is the table that levels lead to.
pub open spec fn is_table_of(place: Seq<Step>, levels: Seq<(Seq<char>, Option<usize>)>) -> bool
    decreases levels.len(),
{
    if levels.len() == 0 {
        place.len() == 0
    } else if place.len() == 0 || place[0] != Step::Name(levels[0].0) {
        false
    } else {
        match levels[0].1 {
            None => is_table_of(place.drop_first(), levels.drop_first()),
            Some(row) => place.len() > 1 && place[1] == Step::Index(row) && is_table_of(
                place.drop_first().drop_first(),
                levels.drop_first(),
            ),
        }
    }
}

/// What was noted at a place is noted there still, around it and around the key
/// of every entry there but one.
pub open spec fn notes_kept(
    before: Notes,
    after: Option<Notes>,
    touched: Option<Seq<char>>,
) -> bool {
    after matches Some(now) && now.own == before.own && forall|name: Seq<char>| #[trigger]
        before.keys.contains_key(name) && touched != Some(name) ==> now.keys.contains_key(name)
            && now.keys[name] == before.keys[name]
}

/// The field, where the place is its table.
pub open spec fn touched_at(
    place: Seq<Step>,
    levels: Seq<(Seq<char>, Option<usize>)>,
    field: Seq<char>,
) -> Option<Seq<char>> {
    if is_table_of(place, levels) {
        Some(field)
    } else {
        None
    }
}

/// Putting a value in a field keeps every comment but those around that key and
/// what stood there.
pub proof fn setting_keeps_the_comments(
    notes: Notes,
    node: Node,
    levels: Seq<(Seq<char>, Option<usize>)>,
    field: Seq<char>,
    value: Notes,
    place: Seq<Step>,
)
    requires
        like(notes, node),
        open_to(node, levels),
        notes_at(notes, place) is Some,
        !in_field(place, levels, field),
    ensures
        notes_kept(
            notes_at(notes, place)->0,
            notes_at(placed_notes(notes, node, levels, field, value), place),
            touched_at(place, levels, field),
        ),
    decreases levels.len(),
{
    if levels.len() > 0 {
        let entries = node->Table_0;
        let (name, row) = levels[0];
        let rest = levels.drop_first();
        let after = placed_notes(notes, node, levels, field, value);
        assert(after.keys =~= notes.keys.insert(name, key_note(notes, node, name)));
        if entries.contains_key(name) {
            assert(like(notes.entries[name], entries[name]));
        }
        if place.len() > 0 && place[0] == Step::Name(name) {
            assert(notes.entries.contains_key(name));
            assert(entries.contains_key(name));
            let inner = notes.entries[name];
            let within = place.drop_first();
            let changed = after.entries[name];
            assert(notes_at(inner, within) is Some);
            assert(notes_at(after, place) == notes_at(changed, within));
            match row {
                None => {
                    setting_keeps_the_comments(inner, entries[name], rest, field, value, within);
                },
                Some(row) => {
                    let rows = entries[name]->Rows_0;
                    assert(inner.items.len() == rows.len());
                    if within.len() > 0 {
                        match within[0] {
                            Step::Index(index) => if index == row {
                                assert(like(inner.items[row as int], rows[row as int]));
                                assert(within.drop_first() == place.drop_first().drop_first());
                                assert(place[1] == within[0]);
                                setting_keeps_the_comments(
                                    inner.items[row as int],
                                    rows[row as int],
                                    rest,
                                    field,
                                    value,
                                    within.drop_first(),
                                );
                            } else {
                                assert(after.entries[name].items[index as int]
                                    == inner.items[index as int]);
                                assert(place[1] == within[0]);
                            },
                            Step::Name(_) => {
                                assert(place[1] == within[0]);
                            },
                        }
                    }
                },
            }
        }
    }
}

/// Taking out a field keeps every comment but those around that key and what
/// stood there.
pub proof fn removing_keeps_the_comments(
    notes: Notes,
    node: Node,
    levels: Seq<(Seq<char>, Option<usize>)>,
    field: Seq<char>,
    place: Seq<Step>,
)
    requires
        like(notes, node),
        reached(node, levels) is Some,
        notes_at(notes, place) is Some,
        !in_field(place, levels, field),
    ensures
        notes_kept(
            notes_at(notes, place)->0,
            notes_at(dropped_notes(notes, node, levels, field), place),
            touched_at(place, levels, field),
        ),
    decreases levels.len(),
{
    if levels.len() > 0 {
        let entries = node->Table_0;
        let (name, row) = levels[0];
        let rest = levels.drop_first();
        let after = dropped_notes(notes, node, levels, field);
        assert(entries.contains_key(name));
        assert(like(notes.entries[name], entries[name]));
        assert(notes.entries.contains_key(name));
        if place.len() > 0 && place[0] == Step::Name(name) {
            let inner = notes.entries[name];
            let within = place.drop_first();
            let changed = after.entries[name];
            assert(notes_at(inner, within) is Some);
            assert(notes_at(after, place) == notes_at(changed, within));
            match row {
                None => {
                    removing_keeps_the_comments(inner, entries[name], rest, field, within);
                },
                Some(row) => {
                    let rows = entries[name]->Rows_0;
                    assert(inner.items.len() == rows.len());
                    if within.len() > 0 {
                        assert(place[1] == within[0]);
                        match within[0] {
                            Step::Index(index) => if index == row {
                                assert(like(inner.items[row as int], rows[row as int]));
                                removing_keeps_the_comments(
                                    inner.items[row as int],
                                    rows[row as int],
                                    rest,
                                    field,
                                    within.drop_first(),
                                );
                            } else {
                                assert(after.entries[name].items[index as int]
                                    == inner.items[index as int]);
                            },
                            Step::Name(_) => {},
                        }
                    }
                },
            }
        }
    }
}

/// Appending a row keeps every comment.
pub proof fn pushing_keeps_the_comments(
    notes: Notes,
    node: Node,
    section: Seq<char>,
    place: Seq<Step>,
)
    requires
        like(notes, node),
        node is Table,
        (node->Table_0).contains_key(section) ==> (node->Table_0)[section] is Rows,
        notes_at(notes, place) is Some,
    ensures
        notes_kept(
            notes_at(notes, place)->0,
            notes_at(pushed_notes(notes, node, section), place),
            None,
        ),
{
    let after = pushed_notes(notes, node, section);
    if place.len() > 0 && place[0] == Step::Name(section) {
        let inner = notes.entries[section];
        let within = place.drop_first();
        let changed = after.entries[section];
        assert(notes_at(inner, within) is Some);
        assert(notes_at(after, place) == notes_at(changed, within));
        if within.len() > 0 && within[0] is Index {
            let index = within[0]->Index_0;
            assert(changed.items[index as int] == inner.items[index as int]);
        }
    }
}

/// Where what stood at a place stands once a row of a section was taken out.
pub open spec fn moved_up(place: Seq<Step>, section: Seq<char>, index: int) -> Seq<Step> {
    if place.len() > 1 && place[0] == Step::Name(section) && (place[1] matches Step::Index(row)
        && row > index) {
        place.update(1, Step::Index((place[1]->Index_0 - 1) as usize))
    } else {
        place
    }
}

/// Taking out a row keeps every comment but those of that row; those of later
/// rows move up with them.
pub proof fn cutting_keeps_the_comments(
    notes: Notes,
    node: Node,
    section: Seq<char>,
    index: int,
    place: Seq<Step>,
)
    requires
        like(notes, node),
        entry(node, section) matches Some(Node::Rows(rows)) && 0 <= index < rows.len(),
        notes_at(notes, place) is Some,
        !(place.len() > 1 && place[0] == Step::Name(section) && (place[1] matches Step::Index(row)
            && row == index)),
    ensures
        notes_kept(
            notes_at(notes, place)->0,
            notes_at(cut_notes(notes, section, index), moved_up(place, section, index)),
            None,
        ),
{
    let after = cut_notes(notes, section, index);
    assert(like(notes.entries[section], (node->Table_0)[section]));
    if place.len() > 0 && place[0] == Step::Name(section) {
        let inner = notes.entries[section];
        let within = place.drop_first();
        let there = moved_up(place, section, index);
        let changed = after.entries[section];
        assert(notes_at(inner, within) is Some);
        assert(notes_at(after, there) == notes_at(changed, there.drop_first()));
        if within.len() > 0 && within[0] is Index {
            let row = within[0]->Index_0;
            assert(place[1] == within[0]);
            assert(there.drop_first().drop_first() =~= within.drop_first());
            if row > index {
                assert(there.drop_first()[0] == Step::Index((row - 1) as usize));
                assert(changed.items[row - 1] == inner.items[row as int]);
            } else {
                assert(changed.items[row as int] == inner.items[row as int]);
            }
        }
    }
}

/// A secret that is set stands at the place, or on the way to it.
pub open spec fn in_secret(node: Node, place: Seq<Step>) -> bool
    decreases place.len(),
{
    if place.len() == 0 {
        false
    } else {
        match (node, place[0]) {
            (Node::Table(entries, _, _), Step::Name(name)) => set_secret(name, entries[name])
                || in_secret(entries[name], place.drop_first()),
            (Node::Rows(rows), Step::Index(index)) => in_secret(
                rows[index as int],
                place.drop_first(),
            ),
            (Node::List(items), Step::Index(index)) => in_secret(
                items[index as int],
                place.drop_first(),
            ),
            _ => false,
        }
    }
}

/// Blotting out keeps every comment but those around the secrets themselves;
/// those around their keys stay.
pub proof fn redaction_keeps_the_comments(notes: Notes, node: Node, place: Seq<Step>)
    requires
        like(notes, node),
        notes_at(notes, place) is Some,
        !in_secret(node, place),
    ensures
        notes_kept(
            notes_at(notes, place)->0,
            notes_at(redacted_notes(notes, node), place),
            None,
        ),
    decreases place.len(),
{
    if place.len() > 0 {
        match (node, place[0]) {
            (Node::Table(entries, _, _), Step::Name(name)) => {
                assert(entries.contains_key(name));
                assert(like(notes.entries[name], entries[name]));
                redaction_keeps_the_comments(
                    notes.entries[name],
                    entries[name],
                    place.drop_first(),
                );
            },
            (Node::Rows(rows), Step::Index(index)) => {
                assert(like(notes.items[index as int], rows[index as int]));
                redaction_keeps_the_comments(
                    notes.items[index as int],
                    rows[index as int],
                    place.drop_first(),
                );
            },
            (Node::List(items), Step::Index(index)) => {
                assert(like(notes.items[index as int], items[index as int]));
                redaction_keeps_the_comments(
                    notes.items[index as int],
                    items[index as int],
                    place.drop_first(),
                );
            },
            _ => {},
        }
    }
}

} // verus!
