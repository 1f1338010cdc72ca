//! What a TOML document holds, as a tree, and how it is read and changed at one
//! place.

use vstd::prelude::*;

verus! {

/// What stands at one place of a document.
pub enum Node {
    /// Nothing.
    Absent,
    Text(Seq<char>),
    Integer(i64),
    Flag(bool),
    /// Values between brackets.
    List(Seq<Node>),
    /// A value of another sort: a number with a fraction, or a moment.
    Other,
    /// Its entries, whether it is written inline, between braces, and the order
    /// in which the entries stand.
    Table(Map<Seq<char>, Node>, bool, Seq<Seq<char>>),
    /// A repeated section.
    Rows(Seq<Node>),
}

/// A table without entries.
pub open spec fn blank() -> Node {
    Node::Table(Map::empty(), false, Seq::empty())
}

/// A table that is not written inline.
pub open spec fn is_section(node: Node) -> bool {
    node matches Node::Table(_, inline, _) && !inline
}

/// A value that holds no entries.
pub open spec fn is_value(node: Node) -> bool {
    node is Text || node is Integer || node is Flag || node is List || node is Other
}

/// The order lists the entries, each once.
pub open spec fn is_order_of(order: Seq<Seq<char>>, entries: Map<Seq<char>, Node>) -> bool {
    &&& order.no_duplicates()
    &&& forall|name: Seq<char>| order.contains(name) <==> #[trigger] entries.contains_key(name)
}

/// The order after something was put under a name: a name that is there keeps
/// its place, and a new one comes last.
pub open spec fn ordered_with(order: Seq<Seq<char>>, name: Seq<char>) -> Seq<Seq<char>> {
    if order.contains(name) {
        order
    } else {
        order.push(name)
    }
}

/// The table with something put under a name.
pub open spec fn with_entry(node: Node, name: Seq<char>, value: Node) -> Node {
    Node::Table(
        (node->Table_0).insert(name, value),
        node->Table_1,
        ordered_with(node->Table_2, name),
    )
}

/// The table without what stood under a name. The others keep their order.
pub open spec fn without_entry(node: Node, name: Seq<char>) -> Node {
    Node::Table(
        (node->Table_0).remove(name),
        node->Table_1,
        (node->Table_2).remove_value(name),
    )
}

/// Every row of a repeated section is a table that is not inline, no entry of a
/// table holds nothing, and every table's order lists its entries.
pub open spec fn sound(node: Node) -> bool
    decreases node,
{
    match node {
        Node::Table(entries, inline, order) => is_order_of(order, entries) && forall|
            name: Seq<char>,
        | #[trigger]
            entries.contains_key(name) ==> !(entries[name] is Absent) && sound(entries[name]),
        Node::Rows(rows) => forall|i: int|
            0 <= i < rows.len() ==> (#[trigger] rows[i] is Table) && !(rows[i]->Table_1) && sound(
                rows[i],
            ),
        Node::List(items) => forall|i: int|
            0 <= i < items.len() ==> !(#[trigger] items[i] is Absent) && sound(items[i]),
        _ => true,
    }
}

/// What a table has under a name; nothing where it is no table.
pub open spec fn entry(node: Node, name: Seq<char>) -> Option<Node> {
    match node {
        Node::Table(entries, _, _) => if entries.contains_key(name) && !(entries[name] is Absent) {
            Some(entries[name])
        } else {
            None
        },
        _ => None,
    }
}

/// What stands under a name, or what is put there first.
pub open spec fn entry_or(entries: Map<Seq<char>, Node>, name: Seq<char>, first: Node) -> Node {
    if entries.contains_key(name) {
        entries[name]
    } else {
        first
    }
}

/// The table that is reached through levels, each a table or, with a number, a
/// row of a repeated section.
pub open spec fn reached(node: Node, levels: Seq<(Seq<char>, Option<usize>)>) -> Option<Node>
    decreases levels.len(),
{
    if levels.len() == 0 {
        if node is Table {
            Some(node)
        } else {
            None
        }
    } else {
        match (entry(node, levels[0].0), levels[0].1) {
            (Some(found), None) => reached(found, levels.drop_first()),
            (Some(Node::Rows(rows)), Some(row)) => if row < rows.len() {
                reached(rows[row as int], levels.drop_first())
            } else {
                None
            },
            _ => None,
        }
    }
}

/// What stands in a field of the table that is reached through levels.
pub open spec fn looked_up(
    node: Node,
    levels: Seq<(Seq<char>, Option<usize>)>,
    field: Seq<char>,
) -> Option<Node> {
    match reached(node, levels) {
        Some(table) => entry(table, field),
        None => None,
    }
}

/// Rows with empty ones added until there is one of that number.
pub open spec fn padded(rows: Seq<Node>, row: nat) -> Seq<Node> {
    if row < rows.len() {
        rows
    } else {
        Seq::new(
            row + 1,
            |i: int|
                if i < rows.len() {
                    rows[i]
                } else {
                    blank()
                },
        )
    }
}

/// Nothing stands in the way of the levels: whatever is there is a table where
/// the levels need one, and a repeated section where they need that.
pub open spec fn open_to(node: Node, levels: Seq<(Seq<char>, Option<usize>)>) -> bool
    decreases levels.len(),
{
    &&& node is Table
    &&& levels.len() > 0 ==> {
        let entries = node->Table_0;
        let (name, row) = levels[0];
        match row {
            None => open_to(entry_or(entries, name, blank()), levels.drop_first()),
            Some(row) => {
                let section = entry_or(entries, name, Node::Rows(Seq::empty()));
                &&& row < usize::MAX
                &&& section is Rows
                &&& open_to(padded(section->Rows_0, row as nat)[row as int], levels.drop_first())
            },
        }
    }
}

/// The node with a value put in a field, and the tables and rows on the way
/// there that were not.
pub open spec fn placed(
    node: Node,
    levels: Seq<(Seq<char>, Option<usize>)>,
    field: Seq<char>,
    value: Node,
) -> Node
    decreases levels.len(),
{
    let entries = node->Table_0;
    if levels.len() == 0 {
        with_entry(node, field, value)
    } else {
        let (name, row) = levels[0];
        let changed = match row {
            None => placed(entry_or(entries, name, blank()), levels.drop_first(), field, value),
            Some(row) => {
                let section = entry_or(entries, name, Node::Rows(Seq::empty()));
                let rows = padded(section->Rows_0, row as nat);
                Node::Rows(
                    rows.update(
                        row as int,
                        placed(rows[row as int], levels.drop_first(), field, value),
                    ),
                )
            },
        };
        with_entry(node, name, changed)
    }
}

/// The node with a field taken out; as it is where the levels do not lead to a
/// table.
pub open spec fn dropped(
    node: Node,
    levels: Seq<(Seq<char>, Option<usize>)>,
    field: Seq<char>,
) -> Node
    decreases levels.len(),
{
    if !(node is Table) {
        node
    } else if levels.len() == 0 {
        without_entry(node, field)
    } else {
        match (entry(node, levels[0].0), levels[0].1) {
            (Some(found), None) => with_entry(
                node,
                levels[0].0,
                dropped(found, levels.drop_first(), field),
            ),
            (Some(Node::Rows(rows)), Some(row)) => if row < rows.len() {
                with_entry(
                    node,
                    levels[0].0,
                    Node::Rows(
                        rows.update(
                            row as int,
                            dropped(rows[row as int], levels.drop_first(), field),
                        ),
                    ),
                )
            } else {
                node
            },
            _ => node,
        }
    }
}

/// The rows of a repeated section; none where the name stands for anything
/// else.
pub open spec fn section_rows(node: Node, section: Seq<char>) -> Seq<Node> {
    match entry(node, section) {
        Some(Node::Rows(rows)) => rows,
        _ => Seq::empty(),
    }
}

/// The node with other rows in a section.
pub open spec fn with_rows(node: Node, section: Seq<char>, rows: Seq<Node>) -> Node {
    with_entry(node, section, Node::Rows(rows))
}

/// The keys that hold a secret, wherever they appear.
pub open spec fn secret_key(key: Seq<char>) -> bool {
    key == "api_key"@ || key == "password"@ || key == "auth_token"@
}

/// A secret that is set: under one of the keys, a text that is not empty.
pub open spec fn set_secret(key: Seq<char>, node: Node) -> bool {
    secret_key(key) && (node matches Node::Text(text) && text.len() > 0)
}

/// What is shown in place of a secret.
pub open spec fn blot() -> Node {
    Node::Text("<redacted>"@)
}

/// The node with every secret in it that is set blotted out.
pub open spec fn redacted(node: Node) -> Node
    decreases node,
{
    match node {
        Node::Table(entries, inline, order) => Node::Table(
            Map::new(
                |name: Seq<char>| entries.contains_key(name),
                |name: Seq<char>|
                    if !entries.contains_key(name) {
                        Node::Absent
                    } else if set_secret(name, entries[name]) {
                        blot()
                    } else {
                        redacted(entries[name])
                    },
            ),
            inline,
            order,
        ),
        Node::List(items) => Node::List(
            Seq::new(
                items.len(),
                |i: int|
                    if 0 <= i < items.len() {
                        redacted(items[i])
                    } else {
                        Node::Absent
                    },
            ),
        ),
        Node::Rows(rows) => Node::Rows(
            Seq::new(
                rows.len(),
                |i: int|
                    if 0 <= i < rows.len() {
                        redacted(rows[i])
                    } else {
                        Node::Absent
                    },
            ),
        ),
        _ => node,
    }
}

/// What an entry becomes when secrets are blotted out.
pub open spec fn redacted_entry(name: Seq<char>, node: Node) -> Node {
    if set_secret(name, node) {
        blot()
    } else {
        redacted(node)
    }
}

// ---------------------------------------------------------------------------
// What reading and changing have to do with each other
// ---------------------------------------------------------------------------

/// Two fields of which neither is on the way to the other, nor the same.
pub open spec fn apart(
    levels: Seq<(Seq<char>, Option<usize>)>,
    field: Seq<char>,
    others: Seq<(Seq<char>, Option<usize>)>,
    other: Seq<char>,
) -> bool
    decreases levels.len(),
{
    if levels.len() == 0 {
        field != if others.len() == 0 {
            other
        } else {
            others[0].0
        }
    } else if others.len() == 0 {
        levels[0].0 != other
    } else {
        levels[0] != others[0] || apart(levels.drop_first(), field, others.drop_first(), other)
    }
}

/// Nothing stands in an empty table.
proof fn nothing_in_a_blank(levels: Seq<(Seq<char>, Option<usize>)>, field: Seq<char>)
    ensures
        looked_up(blank(), levels, field) is None,
{
}

/// Only a table leads on.
proof fn only_tables_lead_on(node: Node, levels: Seq<(Seq<char>, Option<usize>)>)
    requires
        !(node is Table),
    ensures
        reached(node, levels) is None,
{
}

/// The rows of a section that is an entry of a sound table are sound.
proof fn sound_rows(node: Node, name: Seq<char>, rows: Seq<Node>, row: int)
    requires
        sound(node),
        entry(node, name) == Some(Node::Rows(rows)),
        0 <= row < rows.len(),
    ensures
        sound(Node::Rows(rows)),
        is_section(rows[row]),
        sound(rows[row]),
{
    let entries = node->Table_0;
    assert(entries.contains_key(name));
    assert(sound(entries[name]));
}

/// A table stays sound when something sound is put under a name.
proof fn sound_entry(node: Node, name: Seq<char>, value: Node)
    requires
        node is Table,
        sound(node),
        sound(value),
        !(value is Absent),
    ensures
        sound(with_entry(node, name, value)),
{
    let entries = node->Table_0;
    let order = node->Table_2;
    let changed = entries.insert(name, value);
    let after = ordered_with(order, name);
    assert forall|other: Seq<char>| #[trigger] changed.contains_key(other) implies !(changed[other]
        is Absent) && sound(changed[other]) by {
        if other != name {
            assert(entries.contains_key(other));
        }
    }
    assert forall|other: Seq<char>| after.contains(other) <==> #[trigger] changed.contains_key(
        other,
    ) by {
        assert(order.contains(other) <==> entries.contains_key(other));
        if !order.contains(name) {
            assert(after[order.len() as int] == name);
            if order.contains(other) {
                let k = choose|k: int| 0 <= k < order.len() && order[k] == other;
                assert(after[k] == other);
            }
        }
    }
}

/// A table stays sound when an entry is taken out.
proof fn sound_without(node: Node, name: Seq<char>)
    requires
        node is Table,
        sound(node),
    ensures
        sound(without_entry(node, name)),
{
    let entries = node->Table_0;
    let order = node->Table_2;
    let changed = entries.remove(name);
    let after = order.remove_value(name);
    assert forall|other: Seq<char>| #[trigger] changed.contains_key(other) implies !(changed[other]
        is Absent) && sound(changed[other]) by {
        assert(entries.contains_key(other));
    }
    order.index_of_first_ensures(name);
    if order.contains(name) {
        let at = order.index_of_first(name)->0;
        assert forall|other: Seq<char>| after.contains(other) <==> #[trigger] changed.contains_key(
            other,
        ) by {
            assert(order.contains(other) <==> entries.contains_key(other));
            if after.contains(other) {
                let k = choose|k: int| 0 <= k < after.len() && after[k] == other;
                let from = if k < at {
                    k
                } else {
                    k + 1
                };
                assert(order[from] == other);
            }
            if order.contains(other) && other != name {
                let k = choose|k: int| 0 <= k < order.len() && order[k] == other;
                let to = if k < at {
                    k
                } else {
                    k - 1
                };
                assert(after[to] == other);
            }
        }
    } else {
        assert(!entries.contains_key(name));
        assert(changed =~= entries);
    }
}

/// A section stays sound when a row is replaced by a sound table.
proof fn sound_row(rows: Seq<Node>, row: int, node: Node)
    requires
        sound(Node::Rows(rows)),
        0 <= row < rows.len(),
        is_section(node),
        sound(node),
    ensures
        sound(Node::Rows(rows.update(row, node))),
{
    let changed = rows.update(row, node);
    assert forall|i: int| 0 <= i < changed.len() implies is_section(#[trigger] changed[i])
        && sound(changed[i]) by {
        if i != row {
            assert(changed[i] == rows[i]);
        }
    }
}

/// Adding empty rows keeps a section sound.
proof fn sound_padding(rows: Seq<Node>, row: nat)
    requires
        sound(Node::Rows(rows)),
    ensures
        sound(Node::Rows(padded(rows, row))),
{
    assert(sound(blank()));
    assert forall|i: int| 0 <= i < padded(rows, row).len() implies is_section(
        #[trigger] padded(rows, row)[i],
    ) && sound(padded(rows, row)[i]) by {
        if i < rows.len() {
            assert(padded(rows, row)[i] == rows[i]);
        }
    }
}

/// What was put in a field is read back from it.
pub proof fn a_set_field_is_read_back(
    node: Node,
    levels: Seq<(Seq<char>, Option<usize>)>,
    field: Seq<char>,
    value: Node,
)
    requires
        open_to(node, levels),
        !(value is Absent),
    ensures
        looked_up(placed(node, levels, field, value), levels, field) == Some(value),
    decreases levels.len(),
{
    if levels.len() > 0 {
        let entries = node->Table_0;
        let (name, row) = levels[0];
        let rest = levels.drop_first();
        match row {
            None => a_set_field_is_read_back(entry_or(entries, name, blank()), rest, field, value),
            Some(row) => {
                let section = entry_or(entries, name, Node::Rows(Seq::empty()));
                let rows = padded(section->Rows_0, row as nat);
                a_set_field_is_read_back(rows[row as int], rest, field, value);
            },
        }
    }
}

/// Putting a value in one field leaves every other field as it was, one that
/// was not there too, unless one of the two is on the way to the other.
pub proof fn setting_leaves_the_rest(
    node: Node,
    levels: Seq<(Seq<char>, Option<usize>)>,
    field: Seq<char>,
    value: Node,
    others: Seq<(Seq<char>, Option<usize>)>,
    other: Seq<char>,
)
    requires
        open_to(node, levels),
        apart(levels, field, others, other),
    ensures
        looked_up(placed(node, levels, field, value), others, other) == looked_up(
            node,
            others,
            other,
        ),
    decreases levels.len(),
{
    if levels.len() > 0 && others.len() > 0 && levels[0].0 == others[0].0 {
        let entries = node->Table_0;
        let (name, row) = levels[0];
        let rest = levels.drop_first();
        let rest_of_others = others.drop_first();
        nothing_in_a_blank(rest_of_others, other);
        match row {
            None => {
                let child = entry_or(entries, name, blank());
                let changed = placed(child, rest, field, value);
                assert(changed is Table);
                assert(open_to(child, rest));
                if others[0].1 is None {
                    setting_leaves_the_rest(child, rest, field, value, rest_of_others, other);
                }
            },
            Some(row) => {
                let section = entry_or(entries, name, Node::Rows(Seq::empty()));
                let rows = padded(section->Rows_0, row as nat);
                let changed = rows.update(row as int, placed(rows[row as int], rest, field, value));
                only_tables_lead_on(Node::Rows(changed), rest_of_others);
                only_tables_lead_on(section, rest_of_others);
                match others[0].1 {
                    Some(second) => if second == row {
                        setting_leaves_the_rest(
                            rows[row as int],
                            rest,
                            field,
                            value,
                            rest_of_others,
                            other,
                        );
                    } else if second < rows.len() {
                        assert(changed[second as int] == rows[second as int]);
                    },
                    None => {},
                }
            },
        }
    }
}

/// The table is at or below what stands in the field.
pub open spec fn lies_in(
    others: Seq<(Seq<char>, Option<usize>)>,
    levels: Seq<(Seq<char>, Option<usize>)>,
    field: Seq<char>,
) -> bool
    decreases levels.len(),
{
    if others.len() == 0 {
        false
    } else if levels.len() == 0 {
        others[0].0 == field
    } else {
        others[0] == levels[0] && lies_in(others.drop_first(), levels.drop_first(), field)
    }
}

/// Putting a value in a field moves nothing: every table that was there has its
/// entries in the order they had, and what is new behind them. Only a table that
/// the value takes the place of is not there any more.
pub proof fn setting_keeps_the_order(
    node: Node,
    levels: Seq<(Seq<char>, Option<usize>)>,
    field: Seq<char>,
    value: Node,
    others: Seq<(Seq<char>, Option<usize>)>,
)
    requires
        open_to(node, levels),
        reached(node, others) is Some,
        !lies_in(others, levels, field),
    ensures
        reached(placed(node, levels, field, value), others) matches Some(table) && (reached(
            node,
            others,
        )->0->Table_2).is_prefix_of(table->Table_2),
    decreases levels.len(),
{
    if others.len() > 0 && levels.len() > 0 && others[0].0 == levels[0].0 {
        let entries = node->Table_0;
        let (name, row) = levels[0];
        let rest = levels.drop_first();
        match row {
            None => {
                let child = entry_or(entries, name, blank());
                assert(open_to(child, rest));
                assert(placed(child, rest, field, value) is Table);
                if others[0].1 is None {
                    setting_keeps_the_order(child, rest, field, value, others.drop_first());
                }
            },
            Some(row) => {
                let section = entry_or(entries, name, Node::Rows(Seq::empty()));
                let rows = padded(section->Rows_0, row as nat);
                let changed = rows.update(row as int, placed(rows[row as int], rest, field, value));
                only_tables_lead_on(section, others.drop_first());
                match others[0].1 {
                    Some(second) => if second == row {
                        setting_keeps_the_order(
                            rows[row as int],
                            rest,
                            field,
                            value,
                            others.drop_first(),
                        );
                    } else {
                        assert(changed[second as int] == rows[second as int]);
                    },
                    None => {},
                }
            },
        }
    }
}

/// Taking out a field moves nothing: every table that was there, but for one in
/// that field, has its other entries in the order they had.
pub proof fn removing_keeps_the_order(
    node: Node,
    levels: Seq<(Seq<char>, Option<usize>)>,
    field: Seq<char>,
    others: Seq<(Seq<char>, Option<usize>)>,
)
    requires
        sound(node),
        reached(node, others) is Some,
        !lies_in(others, levels, field),
    ensures
        reached(dropped(node, levels, field), others) matches Some(table) && table->Table_2 == if others
            == levels {
            (reached(node, others)->0->Table_2).remove_value(field)
        } else {
            reached(node, others)->0->Table_2
        },
    decreases levels.len(),
{
    if levels.len() == 0 {
        assert(others.len() == 0 ==> others =~= levels);
    } else {
        let entries = node->Table_0;
        let name = levels[0].0;
        let rest = levels.drop_first();
        assert(node is Table);
        assert(entries.contains_key(name) ==> (node->Table_2).contains(name) && sound(
            entries[name],
        ));
        if others.len() > 0 {
            assert(others == levels <==> others[0] == levels[0] && others.drop_first() == rest) by {
                if others[0] == levels[0] && others.drop_first() == rest {
                    assert(others =~= seq![others[0]] + others.drop_first());
                    assert(levels =~= seq![levels[0]] + rest);
                }
            }
            if others[0].0 == name {
                match (entry(node, name), levels[0].1) {
                    (Some(found), None) => {
                        removing_keeps_sound(found, rest, field);
                        if others[0].1 is None {
                            removing_keeps_the_order(found, rest, field, others.drop_first());
                        } else {
                            assert(dropped(found, rest, field) == found);
                        }
                    },
                    (Some(Node::Rows(rows)), Some(row)) => if row < rows.len() {
                        sound_rows(node, name, rows, row as int);
                        only_tables_lead_on(Node::Rows(rows), others.drop_first());
                        match others[0].1 {
                            Some(second) => if second == row {
                                removing_keeps_the_order(
                                    rows[row as int],
                                    rest,
                                    field,
                                    others.drop_first(),
                                );
                            },
                            None => {},
                        }
                    },
                    _ => {},
                }
            }
        }
    }
}

/// A field that was taken out is not there.
pub proof fn a_removed_field_is_gone(
    node: Node,
    levels: Seq<(Seq<char>, Option<usize>)>,
    field: Seq<char>,
)
    ensures
        looked_up(dropped(node, levels, field), levels, field) is None,
    decreases levels.len(),
{
    if levels.len() > 0 {
        match (entry(node, levels[0].0), levels[0].1) {
            (Some(found), None) => a_removed_field_is_gone(found, levels.drop_first(), field),
            (Some(Node::Rows(rows)), Some(row)) => if row < rows.len() {
                a_removed_field_is_gone(rows[row as int], levels.drop_first(), field);
            },
            _ => {},
        }
    }
}

/// Taking out one field leaves every other field as it was, unless one of the
/// two is on the way to the other.
pub proof fn removing_leaves_the_rest(
    node: Node,
    levels: Seq<(Seq<char>, Option<usize>)>,
    field: Seq<char>,
    others: Seq<(Seq<char>, Option<usize>)>,
    other: Seq<char>,
)
    requires
        apart(levels, field, others, other),
    ensures
        looked_up(dropped(node, levels, field), others, other) == looked_up(node, others, other),
    decreases levels.len(),
{
    if levels.len() > 0 && others.len() > 0 && others[0].0 == levels[0].0 {
        let rest = levels.drop_first();
        match (entry(node, levels[0].0), levels[0].1) {
            (Some(found), None) => {
                let changed = dropped(found, rest, field);
                if others[0] == levels[0] {
                    removing_leaves_the_rest(found, rest, field, others.drop_first(), other);
                }
            },
            (Some(Node::Rows(rows)), Some(row)) => if row < rows.len() {
                let changed = rows.update(row as int, dropped(rows[row as int], rest, field));
                only_tables_lead_on(Node::Rows(changed), others.drop_first());
                only_tables_lead_on(Node::Rows(rows), others.drop_first());
                if others[0] == levels[0] {
                    removing_leaves_the_rest(
                        rows[row as int],
                        rest,
                        field,
                        others.drop_first(),
                        other,
                    );
                }
            },
            _ => {},
        }
    }
}

/// Taking out a field that is not there changes nothing.
pub proof fn removing_what_is_absent_changes_nothing(
    node: Node,
    levels: Seq<(Seq<char>, Option<usize>)>,
    field: Seq<char>,
)
    requires
        sound(node),
        looked_up(node, levels, field) is None,
    ensures
        dropped(node, levels, field) == node,
    decreases levels.len(),
{
    if node is Table {
        let entries = node->Table_0;
        if levels.len() == 0 {
            (node->Table_2).index_of_first_ensures(field);
            assert(!entries.contains_key(field));
            assert(entries.remove(field) =~= entries);
        } else {
            let name = levels[0].0;
            assert(entries.contains_key(name) ==> (node->Table_2).contains(name));
            match (entry(node, name), levels[0].1) {
                (Some(found), None) => {
                    removing_what_is_absent_changes_nothing(found, levels.drop_first(), field);
                    assert(entries.insert(name, found) =~= entries);
                },
                (Some(Node::Rows(rows)), Some(row)) => if row < rows.len() {
                    sound_rows(node, name, rows, row as int);
                    removing_what_is_absent_changes_nothing(
                        rows[row as int],
                        levels.drop_first(),
                        field,
                    );
                    assert(rows.update(row as int, rows[row as int]) =~= rows);
                    assert(entries.insert(name, Node::Rows(rows)) =~= entries);
                },
                _ => {},
            }
        }
    }
}

/// Putting a value in a field keeps a document sound, and its root a table.
pub proof fn setting_keeps_sound(
    node: Node,
    levels: Seq<(Seq<char>, Option<usize>)>,
    field: Seq<char>,
    value: Node,
)
    requires
        open_to(node, levels),
        sound(node),
        is_value(value),
        sound(value),
    ensures
        placed(node, levels, field, value) is Table,
        is_section(node) ==> is_section(placed(node, levels, field, value)),
        sound(placed(node, levels, field, value)),
    decreases levels.len(),
{
    let entries = node->Table_0;
    if levels.len() == 0 {
        sound_entry(node, field, value);
    } else {
        let (name, row) = levels[0];
        let rest = levels.drop_first();
        assert(entries.contains_key(name) ==> sound(entries[name]));
        match row {
            None => {
                let child = entry_or(entries, name, blank());
                assert(sound(blank()));
                setting_keeps_sound(child, rest, field, value);
                sound_entry(node, name, placed(child, rest, field, value));
            },
            Some(row) => {
                let section = entry_or(entries, name, Node::Rows(Seq::empty()));
                assert(sound(Node::Rows(Seq::empty())));
                let rows = padded(section->Rows_0, row as nat);
                sound_padding(section->Rows_0, row as nat);
                assert(is_section(rows[row as int]));
                setting_keeps_sound(rows[row as int], rest, field, value);
                let changed = placed(rows[row as int], rest, field, value);
                sound_row(rows, row as int, changed);
                sound_entry(node, name, Node::Rows(rows.update(row as int, changed)));
            },
        }
    }
}

/// Taking out a field keeps a document sound, and its root a table.
pub proof fn removing_keeps_sound(
    node: Node,
    levels: Seq<(Seq<char>, Option<usize>)>,
    field: Seq<char>,
)
    requires
        sound(node),
    ensures
        is_section(node) ==> is_section(dropped(node, levels, field)),
        !(node is Absent) ==> !(dropped(node, levels, field) is Absent),
        sound(dropped(node, levels, field)),
    decreases levels.len(),
{
    if node is Table {
        let entries = node->Table_0;
        if levels.len() == 0 {
            sound_without(node, field);
        } else {
            let name = levels[0].0;
            let rest = levels.drop_first();
            match (entry(node, name), levels[0].1) {
                (Some(found), None) => {
                    assert(entries.contains_key(name));
                    removing_keeps_sound(found, rest, field);
                    sound_entry(node, name, dropped(found, rest, field));
                },
                (Some(Node::Rows(rows)), Some(row)) => if row < rows.len() {
                    sound_rows(node, name, rows, row as int);
                    removing_keeps_sound(rows[row as int], rest, field);
                    let changed = dropped(rows[row as int], rest, field);
                    sound_row(rows, row as int, changed);
                    sound_entry(node, name, Node::Rows(rows.update(row as int, changed)));
                },
                _ => {},
            }
        }
    }
}

/// A new row keeps a document sound.
pub proof fn pushing_keeps_sound(node: Node, section: Seq<char>)
    requires
        sound(node),
        node is Table,
    ensures
        sound(with_rows(node, section, section_rows(node, section).push(blank()))),
{
    let entries = node->Table_0;
    let rows = section_rows(node, section);
    let changed = rows.push(blank());
    assert(sound(blank()));
    assert forall|i: int| 0 <= i < changed.len() implies is_section(#[trigger] changed[i])
        && sound(changed[i]) by {
        if i < rows.len() {
            sound_rows(node, section, rows, i);
            assert(changed[i] == rows[i]);
        }
    }
    sound_entry(node, section, Node::Rows(changed));
}

/// Dropping a row keeps a document sound, and the row was a table.
pub proof fn dropping_a_row_keeps_sound(node: Node, section: Seq<char>, index: int)
    requires
        sound(node),
        node is Table,
        0 <= index < section_rows(node, section).len(),
    ensures
        is_section(section_rows(node, section)[index]),
        sound(with_rows(node, section, section_rows(node, section).remove(index))),
{
    let entries = node->Table_0;
    let rows = section_rows(node, section);
    let changed = rows.remove(index);
    sound_rows(node, section, rows, index);
    assert forall|i: int| 0 <= i < changed.len() implies is_section(#[trigger] changed[i])
        && sound(changed[i]) by {
        let from = if i < index {
            i
        } else {
            i + 1
        };
        assert(changed[i] == rows[from]);
        sound_rows(node, section, rows, from);
    }
    sound_entry(node, section, Node::Rows(changed));
}

/// A row that was just added is the last one and empty; dropping it again
/// leaves the rows as they were.
pub proof fn dropping_undoes_pushing(node: Node, section: Seq<char>)
    ensures
        ({
            let rows = section_rows(node, section);
            let pushed = with_rows(node, section, rows.push(blank()));
            &&& section_rows(pushed, section) == rows.push(blank())
            &&& section_rows(pushed, section).remove(rows.len() as int) == rows
        }),
{
    let rows = section_rows(node, section);
    assert(rows.push(blank()).remove(rows.len() as int) =~= rows);
}

/// No secret that is set stands anywhere, but for what is shown in its place.
pub open spec fn shows_no_secret(node: Node) -> bool
    decreases node,
{
    match node {
        Node::Table(entries, _, _) => forall|name: Seq<char>| #[trigger]
            entries.contains_key(name) ==> (set_secret(name, entries[name]) ==> entries[name]
                == blot()) && shows_no_secret(entries[name]),
        Node::Rows(rows) => forall|i: int|
            0 <= i < rows.len() ==> shows_no_secret(#[trigger] rows[i]),
        Node::List(items) => forall|i: int|
            0 <= i < items.len() ==> shows_no_secret(#[trigger] items[i]),
        _ => true,
    }
}

/// Blotting out leaves no secret that is set.
pub proof fn a_redacted_document_shows_no_secret(node: Node)
    ensures
        shows_no_secret(redacted(node)),
    decreases node,
{
    match node {
        Node::Table(entries, _, _) => {
            assert forall|name: Seq<char>| #[trigger]
                (redacted(node)->Table_0).contains_key(name) implies (set_secret(
                name,
                (redacted(node)->Table_0)[name],
            ) ==> (redacted(node)->Table_0)[name] == blot()) && shows_no_secret(
                (redacted(node)->Table_0)[name],
            ) by {
                a_redacted_document_shows_no_secret(entries[name]);
            }
        },
        Node::Rows(rows) => {
            assert forall|i: int| 0 <= i < rows.len() implies shows_no_secret(
                #[trigger] (redacted(node)->Rows_0)[i],
            ) by {
                a_redacted_document_shows_no_secret(rows[i]);
            }
        },
        Node::List(items) => {
            assert forall|i: int| 0 <= i < items.len() implies shows_no_secret(
                #[trigger] (redacted(node)->List_0)[i],
            ) by {
                a_redacted_document_shows_no_secret(items[i]);
            }
        },
        _ => {},
    }
}

/// Blotting out leaves every field where it was, and what stands in it as it
/// was but for the secrets that are set.
pub proof fn redaction_keeps_the_rest(
    node: Node,
    levels: Seq<(Seq<char>, Option<usize>)>,
    field: Seq<char>,
)
    requires
        sound(node),
    ensures
        looked_up(redacted(node), levels, field) == match looked_up(node, levels, field) {
            Some(found) => Some(redacted_entry(field, found)),
            None => None,
        },
    decreases levels.len(),
{
    if node is Table {
        let entries = node->Table_0;
        let name = if levels.len() == 0 {
            field
        } else {
            levels[0].0
        };
        if entries.contains_key(name) {
            assert(sound(entries[name]));
            redaction_keeps_sound(entries[name]);
            if levels.len() > 0 {
                let rest = levels.drop_first();
                only_tables_lead_on(blot(), rest);
                match (entries[name], levels[0].1) {
                    (found, None) => {
                        redaction_keeps_the_rest(found, rest, field);
                    },
                    (Node::Rows(rows), Some(row)) => if row < rows.len() {
                        sound_rows(node, name, rows, row as int);
                        redaction_keeps_the_rest(rows[row as int], rest, field);
                    },
                    _ => {},
                }
            }
        }
    }
}

/// Blotting out keeps a document sound, and its root a table.
pub proof fn redaction_keeps_sound(node: Node)
    requires
        sound(node),
    ensures
        is_section(node) ==> is_section(redacted(node)),
        !(node is Absent) ==> !(redacted(node) is Absent),
        sound(redacted(node)),
    decreases node,
{
    match node {
        Node::Table(entries, _, _) => {
            assert forall|name: Seq<char>| #[trigger]
                (redacted(node)->Table_0).contains_key(name) implies !((redacted(
                node,
            )->Table_0)[name] is Absent) && sound((redacted(node)->Table_0)[name]) by {
                redaction_keeps_sound(entries[name]);
            }
        },
        Node::Rows(rows) => {
            assert forall|i: int| 0 <= i < rows.len() implies is_section(
                #[trigger] (redacted(node)->Rows_0)[i],
            ) && sound((redacted(node)->Rows_0)[i]) by {
                redaction_keeps_sound(rows[i]);
            }
        },
        Node::List(items) => {
            assert forall|i: int| 0 <= i < items.len() implies !(#[trigger] (redacted(
                node,
            )->List_0)[i] is Absent) && sound((redacted(node)->List_0)[i]) by {
                redaction_keeps_sound(items[i]);
            }
        },
        _ => {},
    }
}

/// In a redacted document a key, a password and a token that are set are blotted
/// out; an unset one and every other value stand as they are.
pub proof fn what_is_blotted_out(node: Node, name: Seq<char>)
    requires
        node is Table,
        (node->Table_0).contains_key(name),
    ensures
        ({
            let was = (node->Table_0)[name];
            let is = (redacted(node)->Table_0)[name];
            let secret = name == "api_key"@ || name == "password"@ || name == "auth_token"@;
            &&& secret && was is Text && (was->Text_0).len() > 0 ==> is == Node::Text(
                "<redacted>"@,
            )
            &&& secret && was is Text && (was->Text_0).len() == 0 ==> is == was
            &&& !secret && (was is Text || was is Integer || was is Flag || was is Other) ==> is
                == was
            &&& (redacted(node)->Table_0).dom() == (node->Table_0).dom()
            &&& redacted(node)->Table_2 == node->Table_2
        }),
{
    reveal_with_fuel(redacted, 2);
    assert((redacted(node)->Table_0).dom() =~= (node->Table_0).dom());
}

} // verus!
