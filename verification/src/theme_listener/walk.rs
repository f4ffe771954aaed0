//! What the option list of a `colors` table is.
//!
//! The list is the outcome of a walk with two stacks, one of tables and one
//! of key prefixes.  The walk is written down here step by step, because on
//! some tables nothing shorter says the same: an array leaves a prefix
//! behind for every element, but queues only the elements that are tables,
//! so that after an array with other elements a table may be met under a
//! prefix that was made for another.  On tables whose arrays hold nothing
//! but tables the outcome has a direct reading, [`table_options`], and
//! [`walk_reads_directly`] proves that the two agree.

use crate::config_tree::Node;
use crate::text::decimal;
use vstd::prelude::*;

verus! {

/// The state of a walk over a configuration tree: the tables still to be
/// visited, the key prefixes waiting for them, and the options written so
/// far.  Both `prefixes` and `tables` are stacks with their top at the end.
pub struct Walk {
    pub prefixes: Seq<Seq<char>>,
    pub tables: Seq<Seq<(Seq<char>, Node)>>,
    pub options: Seq<Seq<char>>,
}

/// `prefix.key`
pub open spec fn dotted(prefix: Seq<char>, key: Seq<char>) -> Seq<char> {
    prefix + seq!['.'] + key
}

/// `prefix.key.[index]`
pub open spec fn indexed(prefix: Seq<char>, key: Seq<char>, index: nat) -> Seq<char> {
    dotted(prefix, key) + seq!['.', '['] + decimal(index) + seq![']']
}

/// `"prefix.key=\"value\""`, quotes and backslashes included.
pub open spec fn option_line(prefix: Seq<char>, key: Seq<char>, value: Seq<char>) -> Seq<char> {
    seq!['"'] + dotted(prefix, key) + seq!['=', '\\', '"'] + value + seq!['\\', '"', '"']
}

/// The walk after the first `count` elements of an array stored under
/// `prefix.key`: every element leaves its indexed prefix behind, and an
/// element that is a table is queued as well.
pub open spec fn visit_items(
    walk: Walk,
    prefix: Seq<char>,
    key: Seq<char>,
    items: Seq<Node>,
    count: nat,
) -> Walk
    decreases count,
{
    if count == 0 {
        walk
    } else {
        let before = visit_items(walk, prefix, key, items, (count - 1) as nat);
        let prefixes = before.prefixes.push(indexed(prefix, key, (count - 1) as nat));
        match items[count - 1] {
            Node::Table(entries) => Walk { prefixes, tables: before.tables.push(entries), ..before },
            _ => Walk { prefixes, ..before },
        }
    }
}

/// The walk after one entry of the table met under `prefix`: a table is
/// queued under `prefix.key`, a string becomes an option, an array is
/// handled element by element, and anything else is passed over.
pub open spec fn visit_entry(walk: Walk, prefix: Seq<char>, key: Seq<char>, node: Node) -> Walk {
    match node {
        Node::Table(entries) => Walk {
            prefixes: walk.prefixes.push(dotted(prefix, key)),
            tables: walk.tables.push(entries),
            ..walk
        },
        Node::Text(value) => Walk {
            options: walk.options.push(option_line(prefix, key, value)),
            ..walk
        },
        Node::List(items) => visit_items(walk, prefix, key, items, items.len()),
        Node::Other => walk,
    }
}

/// The walk after the first `count` entries of a table met under `prefix`.
pub open spec fn visit_entries(
    walk: Walk,
    prefix: Seq<char>,
    entries: Seq<(Seq<char>, Node)>,
    count: nat,
) -> Walk
    decreases count,
{
    if count == 0 {
        walk
    } else {
        let before = visit_entries(walk, prefix, entries, (count - 1) as nat);
        visit_entry(before, prefix, entries[count - 1].0, entries[count - 1].1)
    }
}

/// The number of values in a tree, the tree's root included.
pub open spec fn node_weight(node: Node) -> nat
    decreases node, 0nat,
{
    match node {
        Node::Table(entries) => 1 + entries_weight(entries, entries.len()),
        Node::List(items) => 1 + items_weight(items, items.len()),
        _ => 1,
    }
}

/// The number of values under the first `count` entries of a table.
pub open spec fn entries_weight(entries: Seq<(Seq<char>, Node)>, count: nat) -> nat
    decreases entries, count,
{
    if count == 0 || count > entries.len() {
        0
    } else {
        entries_weight(entries, (count - 1) as nat) + node_weight(entries[count - 1].1)
    }
}

/// The number of values under the first `count` elements of an array.
pub open spec fn items_weight(items: Seq<Node>, count: nat) -> nat
    decreases items, count,
{
    if count == 0 || count > items.len() {
        0
    } else {
        items_weight(items, (count - 1) as nat) + node_weight(items[count - 1])
    }
}

/// The number of values in all queued tables together, each table counted
/// as one value itself.
pub open spec fn stack_weight(tables: Seq<Seq<(Seq<char>, Node)>>) -> nat
    decreases tables.len(),
{
    if tables.len() == 0 {
        0
    } else {
        stack_weight(tables.drop_last()) + 1 + entries_weight(tables.last(), tables.last().len())
    }
}

/// Queueing a table adds its weight to the stack's.
proof fn lemma_stack_weight_push(tables: Seq<Seq<(Seq<char>, Node)>>, entries: Seq<(Seq<char>, Node)>)
    ensures
        stack_weight(tables.push(entries)) == stack_weight(tables) + node_weight(
            Node::Table(entries),
        ),
{
    assert(tables.push(entries).drop_last() =~= tables);
}

/// Visiting elements of an array adds to the stack no more than the
/// elements weigh, and writes no option.
proof fn lemma_visit_items_weight(
    walk: Walk,
    prefix: Seq<char>,
    key: Seq<char>,
    items: Seq<Node>,
    count: nat,
)
    requires
        count <= items.len(),
    ensures
        stack_weight(visit_items(walk, prefix, key, items, count).tables) <= stack_weight(
            walk.tables,
        ) + items_weight(items, count),
        visit_items(walk, prefix, key, items, count).options == walk.options,
    decreases count,
{
    if count > 0 {
        lemma_visit_items_weight(walk, prefix, key, items, (count - 1) as nat);
        let before = visit_items(walk, prefix, key, items, (count - 1) as nat);
        match items[count - 1] {
            Node::Table(entries) => {
                lemma_stack_weight_push(before.tables, entries);
            },
            _ => {},
        }
    }
}

/// Visiting entries of a table adds to the stack no more than the values of
/// the entries weigh.  A table weighs one more than its entries, so every
/// step of a walk makes the stack lighter and the walk comes to an end.
pub proof fn lemma_visit_entries_weight(
    walk: Walk,
    prefix: Seq<char>,
    entries: Seq<(Seq<char>, Node)>,
    count: nat,
)
    requires
        count <= entries.len(),
    ensures
        stack_weight(visit_entries(walk, prefix, entries, count).tables) <= stack_weight(
            walk.tables,
        ) + entries_weight(entries, count),
    decreases count,
{
    if count > 0 {
        lemma_visit_entries_weight(walk, prefix, entries, (count - 1) as nat);
        let before = visit_entries(walk, prefix, entries, (count - 1) as nat);
        let node = entries[count - 1].1;
        let after = visit_entry(before, prefix, entries[count - 1].0, node);
        assert(stack_weight(after.tables) <= stack_weight(before.tables) + node_weight(node)) by {
            match node {
                Node::Table(inner) => {
                    lemma_stack_weight_push(before.tables, inner);
                },
                Node::List(items) => {
                    lemma_visit_items_weight(before, prefix, entries[count - 1].0, items, items.len());
                },
                _ => {},
            }
        }
    }
}

/// The walk with its top table and top prefix taken off.
pub open spec fn popped(walk: Walk) -> Walk {
    Walk { prefixes: walk.prefixes.drop_last(), tables: walk.tables.drop_last(), ..walk }
}

/// The walk after its top table has been visited under its top prefix.
pub open spec fn step(walk: Walk) -> Walk {
    visit_entries(popped(walk), walk.prefixes.last(), walk.tables.last(), walk.tables.last().len())
}

/// The options that a walk ends with: it takes the top table and the top
/// prefix, visits the table's entries in order, and goes on until no table
/// is queued.  Tables queued later are visited earlier.
pub open spec fn finish(walk: Walk) -> Seq<Seq<char>>
    decreases stack_weight(walk.tables),
    via finish_terminates
{
    if walk.tables.len() == 0 || walk.prefixes.len() == 0 {
        walk.options
    } else {
        finish(step(walk))
    }
}

/// Why [`finish`] is well defined: each step makes the stack lighter.
#[via_fn]
proof fn finish_terminates(walk: Walk) {
    if walk.tables.len() != 0 && walk.prefixes.len() != 0 {
        lemma_visit_entries_weight(
            popped(walk),
            walk.prefixes.last(),
            walk.tables.last(),
            walk.tables.last().len(),
        );
    }
}

/// The option lines of a `colors` table: the walk that starts with the
/// table itself queued under the prefix `colors`.
pub open spec fn flatten(entries: Seq<(Seq<char>, Node)>) -> Seq<Seq<char>> {
    finish(
        Walk {
            prefixes: seq![seq!['c', 'o', 'l', 'o', 'r', 's']],
            tables: seq![entries],
            options: Seq::empty(),
        },
    )
}

/// Whether every array in a tree holds nothing but tables.
pub open spec fn regular(node: Node) -> bool
    decreases node, 0nat,
{
    match node {
        Node::Table(entries) => regular_entries(entries, entries.len()),
        Node::List(items) => regular_items(items, items.len()),
        _ => true,
    }
}

/// Whether the values of the first `count` entries of a table are regular.
pub open spec fn regular_entries(entries: Seq<(Seq<char>, Node)>, count: nat) -> bool
    decreases entries, count,
{
    if count == 0 || count > entries.len() {
        true
    } else {
        regular_entries(entries, (count - 1) as nat) && regular(entries[count - 1].1)
    }
}

/// Whether the first `count` elements of an array are regular tables.
pub open spec fn regular_items(items: Seq<Node>, count: nat) -> bool
    decreases items, count,
{
    if count == 0 || count > items.len() {
        true
    } else {
        regular_items(items, (count - 1) as nat) && items[count - 1] is Table && regular(
            items[count - 1],
        )
    }
}

/// The options that the strings among the first `count` entries of a table
/// give, in the order of the entries.
pub open spec fn own_options(
    prefix: Seq<char>,
    entries: Seq<(Seq<char>, Node)>,
    count: nat,
) -> Seq<Seq<char>>
    decreases count,
{
    if count == 0 {
        Seq::empty()
    } else {
        let before = own_options(prefix, entries, (count - 1) as nat);
        match entries[count - 1].1 {
            Node::Text(value) => before.push(option_line(prefix, entries[count - 1].0, value)),
            _ => before,
        }
    }
}

/// The options of a table read under a prefix, said directly: first the
/// table's own strings in the order of their keys, then all that lies under
/// its entries, the last entry first.
pub open spec fn table_options(prefix: Seq<char>, entries: Seq<(Seq<char>, Node)>) -> Seq<
    Seq<char>,
>
    decreases entries, entries.len() + 1,
{
    own_options(prefix, entries, entries.len()) + inner_options(prefix, entries, entries.len())
}

/// All that lies under the first `count` entries of a table, the last of
/// them first: under a table its options read under `prefix.key`, under an
/// array those of its tables, and under anything else nothing.
pub open spec fn inner_options(
    prefix: Seq<char>,
    entries: Seq<(Seq<char>, Node)>,
    count: nat,
) -> Seq<Seq<char>>
    decreases entries, count,
{
    if count == 0 || count > entries.len() {
        Seq::empty()
    } else {
        let key = entries[count - 1].0;
        let under = match entries[count - 1].1 {
            Node::Table(inner) => table_options(dotted(prefix, key), inner),
            Node::List(items) => list_options(prefix, key, items, items.len()),
            _ => Seq::empty(),
        };
        under + inner_options(prefix, entries, (count - 1) as nat)
    }
}

/// All that lies under the tables among the first `count` elements of an
/// array stored under `prefix.key`, the last of them first: each table's
/// options read under `prefix.key.[index]`.
pub open spec fn list_options(
    prefix: Seq<char>,
    key: Seq<char>,
    items: Seq<Node>,
    count: nat,
) -> Seq<Seq<char>>
    decreases items, count,
{
    if count == 0 || count > items.len() {
        Seq::empty()
    } else {
        let under = match items[count - 1] {
            Node::Table(inner) => table_options(indexed(prefix, key, (count - 1) as nat), inner),
            _ => Seq::empty(),
        };
        under + list_options(prefix, key, items, (count - 1) as nat)
    }
}

/// What is still to come from the queued tables if each is read directly
/// under the prefix at its height, the top of the stacks first.
spec fn pending_options(prefixes: Seq<Seq<char>>, tables: Seq<Seq<(Seq<char>, Node)>>) -> Seq<
    Seq<char>,
>
    decreases tables.len(),
{
    if tables.len() == 0 || prefixes.len() == 0 {
        Seq::empty()
    } else {
        table_options(prefixes.last(), tables.last()) + pending_options(
            prefixes.drop_last(),
            tables.drop_last(),
        )
    }
}

/// Whether the two stacks are of one height and every queued table is
/// regular.
spec fn in_step(walk: Walk) -> bool {
    &&& walk.prefixes.len() == walk.tables.len()
    &&& forall|i: int|
        0 <= i < walk.tables.len() ==> regular_entries(
            #[trigger] walk.tables[i],
            walk.tables[i].len(),
        )
}

/// Queueing a regular table under a prefix keeps the stacks in step and
/// puts the table's direct reading in front of what was still to come.
proof fn lemma_queue(walk: Walk, prefix: Seq<char>, entries: Seq<(Seq<char>, Node)>)
    requires
        in_step(walk),
        regular_entries(entries, entries.len()),
    ensures
        ({
            let after = Walk {
                prefixes: walk.prefixes.push(prefix),
                tables: walk.tables.push(entries),
                ..walk
            };
            &&& in_step(after)
            &&& pending_options(after.prefixes, after.tables) == table_options(prefix, entries)
                + pending_options(walk.prefixes, walk.tables)
        }),
{
    assert(walk.prefixes.push(prefix).drop_last() =~= walk.prefixes);
    assert(walk.tables.push(entries).drop_last() =~= walk.tables);
}

/// Visiting elements of an array of regular tables puts their direct
/// reading, last element first, in front of what was still to come.
proof fn lemma_visit_items_direct(
    walk: Walk,
    prefix: Seq<char>,
    key: Seq<char>,
    items: Seq<Node>,
    count: nat,
)
    requires
        count <= items.len(),
        regular_items(items, count),
        in_step(walk),
    ensures
        ({
            let after = visit_items(walk, prefix, key, items, count);
            &&& after.options == walk.options
            &&& in_step(after)
            &&& pending_options(after.prefixes, after.tables) == list_options(
                prefix,
                key,
                items,
                count,
            ) + pending_options(walk.prefixes, walk.tables)
        }),
    decreases count,
{
    if count == 0 {
        assert(Seq::<Seq<char>>::empty() + pending_options(walk.prefixes, walk.tables)
            =~= pending_options(walk.prefixes, walk.tables));
    } else {
        lemma_visit_items_direct(walk, prefix, key, items, (count - 1) as nat);
        let before = visit_items(walk, prefix, key, items, (count - 1) as nat);
        let inner = items[count - 1]->Table_0;
        let name = indexed(prefix, key, (count - 1) as nat);
        assert(regular_entries(inner, inner.len())) by {
            assert(regular(items[count - 1]));
            assert(items[count - 1] == Node::Table(inner));
        }
        lemma_queue(before, name, inner);
        assert(table_options(name, inner) + (list_options(prefix, key, items, (count - 1) as nat)
            + pending_options(walk.prefixes, walk.tables)) =~= (table_options(name, inner)
            + list_options(prefix, key, items, (count - 1) as nat)) + pending_options(
            walk.prefixes,
            walk.tables,
        ));
    }
}

/// Visiting entries of a regular table writes the options of its own
/// strings and puts what lies under the entries, last entry first, in front
/// of what was still to come.
proof fn lemma_visit_entries_direct(
    walk: Walk,
    prefix: Seq<char>,
    entries: Seq<(Seq<char>, Node)>,
    count: nat,
)
    requires
        count <= entries.len(),
        regular_entries(entries, count),
        in_step(walk),
    ensures
        ({
            let after = visit_entries(walk, prefix, entries, count);
            &&& after.options == walk.options + own_options(prefix, entries, count)
            &&& in_step(after)
            &&& pending_options(after.prefixes, after.tables) == inner_options(
                prefix,
                entries,
                count,
            ) + pending_options(walk.prefixes, walk.tables)
        }),
    decreases count,
{
    let rest = pending_options(walk.prefixes, walk.tables);
    if count == 0 {
        assert(walk.options + Seq::<Seq<char>>::empty() =~= walk.options);
        assert(Seq::<Seq<char>>::empty() + rest =~= rest);
    } else {
        lemma_visit_entries_direct(walk, prefix, entries, (count - 1) as nat);
        let before = visit_entries(walk, prefix, entries, (count - 1) as nat);
        let after = visit_entries(walk, prefix, entries, count);
        let key = entries[count - 1].0;
        let earlier = inner_options(prefix, entries, (count - 1) as nat);
        let own = own_options(prefix, entries, (count - 1) as nat);
        assert(regular(entries[count - 1].1));
        match entries[count - 1].1 {
            Node::Table(inner) => {
                let under = table_options(dotted(prefix, key), inner);
                assert(regular_entries(inner, inner.len())) by {
                    assert(regular(Node::Table(inner)));
                }
                lemma_queue(before, dotted(prefix, key), inner);
                assert(under + (earlier + rest) =~= (under + earlier) + rest);
            },
            Node::Text(value) => {
                let line = option_line(prefix, key, value);
                assert(after.options =~= walk.options + own.push(line));
                assert(Seq::<Seq<char>>::empty() + earlier =~= earlier);
            },
            Node::List(items) => {
                let under = list_options(prefix, key, items, items.len());
                assert(regular_items(items, items.len())) by {
                    assert(regular(Node::List(items)));
                }
                lemma_visit_items_direct(before, prefix, key, items, items.len());
                assert(under + (earlier + rest) =~= (under + earlier) + rest);
            },
            Node::Other => {
                assert(Seq::<Seq<char>>::empty() + earlier =~= earlier);
            },
        }
    }
}

/// A walk whose stacks are in step ends with the options it has, followed by
/// the direct reading of every queued table, the top of the stack first.
proof fn lemma_finish_direct(walk: Walk)
    requires
        in_step(walk),
    ensures
        finish(walk) == walk.options + pending_options(walk.prefixes, walk.tables),
    decreases stack_weight(walk.tables),
{
    if walk.tables.len() == 0 {
        assert(walk.options + Seq::<Seq<char>>::empty() =~= walk.options);
    } else {
        let prefix = walk.prefixes.last();
        let table = walk.tables.last();
        let below = popped(walk);
        let rest = pending_options(below.prefixes, below.tables);
        assert(in_step(below)) by {
            assert forall|i: int| 0 <= i < below.tables.len() implies regular_entries(
                #[trigger] below.tables[i],
                below.tables[i].len(),
            ) by {
                assert(below.tables[i] == walk.tables[i]);
            }
        }
        assert(regular_entries(table, table.len())) by {
            assert(table == walk.tables[walk.tables.len() - 1]);
        }
        lemma_visit_entries_direct(below, prefix, table, table.len());
        lemma_visit_entries_weight(below, prefix, table, table.len());
        let after = step(walk);
        lemma_finish_direct(after);
        let own = own_options(prefix, table, table.len());
        let inner = inner_options(prefix, table, table.len());
        assert((walk.options + own) + (inner + rest) =~= walk.options + ((own + inner) + rest));
    }
}

/// On a table whose arrays hold nothing but tables, the walk gives what the
/// direct reading gives.
pub proof fn walk_reads_directly(entries: Seq<(Seq<char>, Node)>)
    requires
        regular_entries(entries, entries.len()),
    ensures
        flatten(entries) == table_options(seq!['c', 'o', 'l', 'o', 'r', 's'], entries),
{
    let colors = seq!['c', 'o', 'l', 'o', 'r', 's'];
    let walk = Walk { prefixes: seq![colors], tables: seq![entries], options: Seq::empty() };
    assert(in_step(walk));
    lemma_finish_direct(walk);
    assert(walk.prefixes.drop_last() =~= Seq::<Seq<char>>::empty());
    assert(walk.tables.drop_last() =~= Seq::<Seq<(Seq<char>, Node)>>::empty());
    assert(pending_options(walk.prefixes.drop_last(), walk.tables.drop_last())
        =~= Seq::<Seq<char>>::empty());
    assert(walk.prefixes.last() == colors && walk.tables.last() == entries);
    assert(pending_options(walk.prefixes, walk.tables) =~= table_options(colors, entries));
    assert(walk.options + table_options(colors, entries) =~= table_options(colors, entries));
}

} // verus!
