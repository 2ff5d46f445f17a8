//! The entry table of a bundle, and what merging a resource does to it.
//!
//! A bundle keeps one table for all of its messages, terms and functions,
//! keyed by identifier.  Merging a resource offers the resource's entries to
//! the table one by one, in the order in which the resource lists them: an
//! identifier that the table does not hold yet is entered, one that it
//! already holds is turned away and reported.  Nothing that is in the table
//! is ever replaced or removed.

use vstd::prelude::*;

verus! {

/// One entry of a resource as merging sees it: the identifier of the message
/// or term that the entry defines, or `None` for an entry that defines
/// nothing.
pub type BodyEntry = Option<Seq<char>>;

/// The entries of a resource, in the order in which the resource lists them.
pub type Body = Seq<BodyEntry>;

/// The entry table of a bundle.  A message or term is mapped to the place of
/// its definition: the number of the resource within the bundle and the
/// position of the entry within that resource.  A function is mapped to
/// `None`.
pub type EntryTable = Map<Seq<char>, Option<(nat, nat)>>;

/// A definition that was turned away because its identifier was taken.
#[derive(Debug)]
pub struct Collision {
    /// The identifier that was already defined.
    pub id: String,
    /// The diagnostic to log for the definition that was dropped.
    pub message: String,
}

/// The identifiers that `collisions` report, in order.
pub open spec fn reported_ids(collisions: Seq<Collision>) -> Seq<Seq<char>> {
    collisions.map_values(|c: Collision| c.id@)
}

/// Whether `entry` defines the identifier `id`.
pub open spec fn defines(entry: BodyEntry, id: Seq<char>) -> bool {
    entry == Some(id)
}

/// Whether `table` turns `entry` away.
pub open spec fn turned_away(table: EntryTable, entry: BodyEntry) -> bool {
    entry matches Some(name) && table.dom().contains(name)
}

/// The table after `entry`, which stands at position `pos` of resource number
/// `res`, has been offered to `table`.
pub open spec fn offer(table: EntryTable, res: nat, pos: nat, entry: BodyEntry) -> EntryTable {
    match entry {
        Some(name) => if table.dom().contains(name) {
            table
        } else {
            table.insert(name, Some((res, pos)))
        },
        None => table,
    }
}

/// The outcome of merging a resource with the entries `body` into `table` as
/// resource number `res`: the table afterwards, and the definitions that were
/// turned away, in the order of `body`.
pub open spec fn merge(table: EntryTable, res: nat, body: Body) -> (EntryTable, Seq<Seq<char>>)
    decreases body.len(),
{
    if body.len() == 0 {
        (table, Seq::empty())
    } else {
        let before = merge(table, res, body.drop_last());
        let last = body.last();
        (
            offer(before.0, res, (body.len() - 1) as nat, last),
            if turned_away(before.0, last) {
                before.1.push(last.unwrap())
            } else {
                before.1
            },
        )
    }
}

/// The number of reports in `rejected` that are about `id`.
pub open spec fn reports_about(rejected: Seq<Seq<char>>, id: Seq<char>) -> nat
    decreases rejected.len(),
{
    if rejected.len() == 0 {
        0
    } else {
        reports_about(rejected.drop_last(), id) + if rejected.last() == id {
            1nat
        } else {
            0nat
        }
    }
}

/// The definitions in `body`, in order, without the entries that define
/// nothing.
pub open spec fn definitions(body: Body) -> Seq<Seq<char>>
    decreases body.len(),
{
    if body.len() == 0 {
        Seq::empty()
    } else if body.last() is Some {
        definitions(body.drop_last()).push(body.last().unwrap())
    } else {
        definitions(body.drop_last())
    }
}

/// Merging keeps what the table holds: every identifier that was defined
/// before the merge is defined afterwards, by the same definition.
pub proof fn lemma_merge_keeps_entries(table: EntryTable, res: nat, body: Body, id: Seq<char>)
    requires
        table.dom().contains(id),
    ensures
        merge(table, res, body).0.dom().contains(id),
        merge(table, res, body).0[id] == table[id],
    decreases body.len(),
{
    if body.len() > 0 {
        lemma_merge_keeps_entries(table, res, body.drop_last(), id);
    }
}

/// Merging defines nothing but what the resource defines: an identifier that
/// neither the table nor any entry of the resource defines is still
/// undefined afterwards, and nothing is reported about it.
pub proof fn lemma_merge_adds_only_definitions(
    table: EntryTable,
    res: nat,
    body: Body,
    id: Seq<char>,
)
    requires
        !table.dom().contains(id),
        forall|i: int| 0 <= i < body.len() ==> !defines(#[trigger] body[i], id),
    ensures
        !merge(table, res, body).0.dom().contains(id),
        reports_about(merge(table, res, body).1, id) == 0,
    decreases body.len(),
{
    lemma_reports_about_defined_only(table, res, body, id);
    if body.len() > 0 {
        let rest = body.drop_last();
        assert forall|i: int| 0 <= i < rest.len() implies !defines(#[trigger] rest[i], id) by {
            assert(rest[i] == body[i]);
        }
        lemma_merge_adds_only_definitions(table, res, rest, id);
        assert(!defines(body[body.len() - 1], id));
    }
}

/// Within one resource the first definition of an identifier is the one that
/// counts: when the table does not define `id` and position `i` is the first
/// of `body` that does, the merged table maps `id` to that position of that
/// resource, and every later definition of `id` in `body` is reported.
pub proof fn lemma_merge_enters_first_definition(
    table: EntryTable,
    res: nat,
    body: Body,
    id: Seq<char>,
    i: int,
)
    requires
        !table.dom().contains(id),
        0 <= i < body.len(),
        defines(body[i], id),
        forall|x: int| 0 <= x < i ==> !defines(#[trigger] body[x], id),
    ensures
        merge(table, res, body).0.dom().contains(id),
        merge(table, res, body).0[id] == Some((res, i as nat)),
    decreases body.len(),
{
    let rest = body.drop_last();
    if i == body.len() - 1 {
        assert forall|x: int| 0 <= x < rest.len() implies !defines(#[trigger] rest[x], id) by {
            assert(rest[x] == body[x]);
        }
        lemma_merge_adds_only_definitions(table, res, rest, id);
    } else {
        assert(rest[i] == body[i]);
        assert forall|x: int| 0 <= x < i implies !defines(#[trigger] rest[x], id) by {
            assert(rest[x] == body[x]);
        }
        lemma_merge_enters_first_definition(table, res, rest, id, i);
    }
}

/// A definition whose identifier the table already holds is reported, and
/// only once: when the table defines `id` and position `j` is the only one
/// of `body` that defines it, exactly one report is about `id`.
pub proof fn lemma_merge_reports_duplicate_once(
    table: EntryTable,
    res: nat,
    body: Body,
    id: Seq<char>,
    j: int,
)
    requires
        table.dom().contains(id),
        0 <= j < body.len(),
        defines(body[j], id),
        forall|x: int| 0 <= x < body.len() && x != j ==> !defines(#[trigger] body[x], id),
    ensures
        reports_about(merge(table, res, body).1, id) == 1,
    decreases body.len(),
{
    let rest = body.drop_last();
    let before = merge(table, res, rest);
    let last = body.last();
    lemma_merge_keeps_entries(table, res, rest, id);
    if j == body.len() - 1 {
        lemma_reports_about_defined_only(table, res, rest, id);
        assert forall|x: int| 0 <= x < rest.len() implies !defines(#[trigger] rest[x], id) by {
            assert(rest[x] == body[x]);
        }
        assert(turned_away(before.0, last));
        assert(before.1.push(last.unwrap()).drop_last() =~= before.1);
    } else {
        assert(rest[j] == body[j]);
        assert forall|x: int| 0 <= x < rest.len() && x != j implies !defines(
            #[trigger] rest[x],
            id,
        ) by {
            assert(rest[x] == body[x]);
        }
        lemma_merge_reports_duplicate_once(table, res, rest, id, j);
        assert(!defines(body[body.len() - 1], id));
        if turned_away(before.0, last) {
            assert(before.1.push(last.unwrap()).drop_last() =~= before.1);
        }
    }
}

/// Nothing is reported about an identifier that no entry of the resource
/// defines, whatever the table holds.
pub proof fn lemma_reports_about_defined_only(
    table: EntryTable,
    res: nat,
    body: Body,
    id: Seq<char>,
)
    requires
        forall|i: int| 0 <= i < body.len() ==> !defines(#[trigger] body[i], id),
    ensures
        reports_about(merge(table, res, body).1, id) == 0,
    decreases body.len(),
{
    if body.len() > 0 {
        let rest = body.drop_last();
        assert forall|i: int| 0 <= i < rest.len() implies !defines(#[trigger] rest[i], id) by {
            assert(rest[i] == body[i]);
        }
        lemma_reports_about_defined_only(table, res, rest, id);
        assert(!defines(body[body.len() - 1], id));
        let before = merge(table, res, rest);
        if turned_away(before.0, body.last()) {
            assert(before.1.push(body.last().unwrap()).drop_last() =~= before.1);
        }
    }
}

/// Of two resources that define the same identifier, the one merged first
/// wins.  When the table does not define `id`, position `i` is the first of
/// `first` that defines it and position `j` the only one of `second` that
/// does, then after `first` and `second` have been merged in this order the
/// table maps `id` to position `i` of `first`, and the merge of `second`
/// reports `id` exactly once.
pub proof fn lemma_first_resource_wins(
    table: EntryTable,
    first_res: nat,
    first: Body,
    second_res: nat,
    second: Body,
    id: Seq<char>,
    i: int,
    j: int,
)
    requires
        !table.dom().contains(id),
        0 <= i < first.len(),
        defines(first[i], id),
        forall|x: int| 0 <= x < i ==> !defines(#[trigger] first[x], id),
        0 <= j < second.len(),
        defines(second[j], id),
        forall|x: int| 0 <= x < second.len() && x != j ==> !defines(#[trigger] second[x], id),
    ensures
        ({
            let one = merge(table, first_res, first);
            let two = merge(one.0, second_res, second);
            &&& two.0.dom().contains(id)
            &&& two.0[id] == Some((first_res, i as nat))
            &&& reports_about(two.1, id) == 1
        }),
{
    let one = merge(table, first_res, first);
    lemma_merge_enters_first_definition(table, first_res, first, id, i);
    lemma_merge_keeps_entries(one.0, second_res, second, id);
    lemma_merge_reports_duplicate_once(one.0, second_res, second, id, j);
}

/// Every identifier that a resource defines is defined in the table once the
/// resource has been merged.
pub proof fn lemma_merge_covers_body(table: EntryTable, res: nat, body: Body, i: int)
    requires
        0 <= i < body.len(),
        body[i] is Some,
    ensures
        merge(table, res, body).0.dom().contains(body[i].unwrap()),
    decreases body.len(),
{
    let rest = body.drop_last();
    if i < body.len() - 1 {
        assert(rest[i] == body[i]);
        lemma_merge_covers_body(table, res, rest, i);
        let before = merge(table, res, rest).0;
        assert(offer(before, res, (body.len() - 1) as nat, body.last()).dom().contains(
            body[i].unwrap(),
        ));
    }
}

/// Merging a resource whose every identifier the table already defines
/// changes nothing and reports every definition of the resource, in order.
pub proof fn lemma_merge_of_known_body(table: EntryTable, res: nat, body: Body)
    requires
        forall|i: int|
            0 <= i < body.len() && (#[trigger] body[i]) is Some ==> table.dom().contains(
                body[i].unwrap(),
            ),
    ensures
        merge(table, res, body).0 == table,
        merge(table, res, body).1 == definitions(body),
    decreases body.len(),
{
    if body.len() > 0 {
        let rest = body.drop_last();
        assert forall|i: int| 0 <= i < rest.len() && (#[trigger] rest[i]) is Some implies table.dom().contains(
            rest[i].unwrap(),
        ) by {
            assert(rest[i] == body[i]);
        }
        lemma_merge_of_known_body(table, res, rest);
        assert(body.last() == body[body.len() - 1]);
    }
}

/// A resource that is merged a second time leaves the bundle as the first
/// merge made it: the table does not change, and every definition of the
/// resource is reported, in order.
pub proof fn lemma_merge_again_changes_nothing(
    table: EntryTable,
    first_res: nat,
    second_res: nat,
    body: Body,
)
    ensures
        ({
            let one = merge(table, first_res, body);
            let two = merge(one.0, second_res, body);
            &&& two.0 == one.0
            &&& two.1 == definitions(body)
        }),
{
    let one = merge(table, first_res, body);
    assert forall|i: int| 0 <= i < body.len() && (#[trigger] body[i]) is Some implies one.0.dom().contains(
        body[i].unwrap(),
    ) by {
        lemma_merge_covers_body(table, first_res, body, i);
    }
    lemma_merge_of_known_body(one.0, second_res, body);
}

/// The table after the resources with the entries `bodies` have been merged
/// into `table`, one after the other in the order of `bodies`, the first of
/// them as resource number `first_res`.
pub open spec fn merge_all(table: EntryTable, first_res: nat, bodies: Seq<Body>) -> EntryTable
    decreases bodies.len(),
{
    if bodies.len() == 0 {
        table
    } else {
        merge(
            merge_all(table, first_res, bodies.drop_last()),
            (first_res + bodies.len() - 1) as nat,
            bodies.last(),
        ).0
    }
}

/// What the table holds before the first resource is merged is there after
/// the last, however many resources follow.
pub proof fn lemma_merge_all_keeps_entries(
    table: EntryTable,
    first_res: nat,
    bodies: Seq<Body>,
    id: Seq<char>,
)
    requires
        table.dom().contains(id),
    ensures
        merge_all(table, first_res, bodies).dom().contains(id),
        merge_all(table, first_res, bodies)[id] == table[id],
    decreases bodies.len(),
{
    if bodies.len() > 0 {
        lemma_merge_all_keeps_entries(table, first_res, bodies.drop_last(), id);
        lemma_merge_keeps_entries(
            merge_all(table, first_res, bodies.drop_last()),
            (first_res + bodies.len() - 1) as nat,
            bodies.last(),
            id,
        );
    }
}

/// Among any number of resources the first that defines an identifier wins:
/// when the table does not define `id`, `bodies[k]` is the first resource
/// that defines it and position `i` the first of that resource that does,
/// the table maps `id` to that position of that resource once all are
/// merged.
pub proof fn lemma_merge_all_first_wins(
    table: EntryTable,
    first_res: nat,
    bodies: Seq<Body>,
    id: Seq<char>,
    k: int,
    i: int,
)
    requires
        !table.dom().contains(id),
        0 <= k < bodies.len(),
        0 <= i < bodies[k].len(),
        defines(bodies[k][i], id),
        forall|x: int| 0 <= x < i ==> !defines(#[trigger] bodies[k][x], id),
        forall|r: int, x: int|
            0 <= r < k && 0 <= x < bodies[r].len() ==> !defines(#[trigger] bodies[r][x], id),
    ensures
        merge_all(table, first_res, bodies).dom().contains(id),
        merge_all(table, first_res, bodies)[id] == Some(((first_res + k) as nat, i as nat)),
    decreases bodies.len(),
{
    let rest = bodies.drop_last();
    let before = merge_all(table, first_res, rest);
    let res = (first_res + bodies.len() - 1) as nat;
    if k == bodies.len() - 1 {
        lemma_merge_all_adds_only_definitions(table, first_res, rest, id);
        lemma_merge_enters_first_definition(before, res, bodies.last(), id, i);
    } else {
        assert(rest[k] == bodies[k]);
        assert forall|r: int, x: int| 0 <= r < k && 0 <= x < rest[r].len() implies !defines(
            #[trigger] rest[r][x],
            id,
        ) by {
            assert(rest[r] == bodies[r]);
        }
        lemma_merge_all_first_wins(table, first_res, rest, id, k, i);
        lemma_merge_keeps_entries(before, res, bodies.last(), id);
    }
}

/// An identifier that neither the table nor any of the resources defines is
/// undefined after all of them are merged.
pub proof fn lemma_merge_all_adds_only_definitions(
    table: EntryTable,
    first_res: nat,
    bodies: Seq<Body>,
    id: Seq<char>,
)
    requires
        !table.dom().contains(id),
        forall|r: int, x: int|
            0 <= r < bodies.len() && 0 <= x < bodies[r].len() ==> !defines(
                #[trigger] bodies[r][x],
                id,
            ),
    ensures
        !merge_all(table, first_res, bodies).dom().contains(id),
    decreases bodies.len(),
{
    if bodies.len() > 0 {
        let rest = bodies.drop_last();
        assert forall|r: int, x: int| 0 <= r < rest.len() && 0 <= x < rest[r].len() implies !defines(
            #[trigger] rest[r][x],
            id,
        ) by {
            assert(rest[r] == bodies[r]);
        }
        lemma_merge_all_adds_only_definitions(table, first_res, rest, id);
        let last = bodies.last();
        assert forall|x: int| 0 <= x < last.len() implies !defines(#[trigger] last[x], id) by {
            assert(last == bodies[bodies.len() - 1]);
        }
        lemma_merge_adds_only_definitions(
            merge_all(table, first_res, rest),
            (first_res + bodies.len() - 1) as nat,
            last,
            id,
        );
    }
}

} // verus!
