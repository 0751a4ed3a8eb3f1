//! Laws of the operations: what holds of every store that keeps the store's
//! contract, whatever keys it hands out and in whatever order it lists.
use crate::command::{CommandView, LinkRules, OutcomeView};
use crate::effect::{effect, lemma_same_elements, store_failure};
use crate::error::{DataErrorView, FailureView, Missing, Operation};
use crate::model::{
    deleted, in_project, is_free, joins, link_key, link_keys, links_of_order, links_of_pair,
    links_of_project,
    order_key,
    order_keys, project_key, project_keys, replaced, Tables,
};
use crate::record::{is_number, LinkRow, OrderRowView, ProjectRow};
use vstd::prelude::*;

verus! {

/// A listing of the product orders of `tables` returned `listed`.
pub open spec fn orders_listed(rules: LinkRules, tables: Tables, listed: Seq<OrderRowView>) -> bool {
    effect(
        CommandView::GetProductOrders,
        rules,
        tables,
        Ok::<OutcomeView, FailureView>(OutcomeView::Orders(listed)),
        tables,
    )
}

/// A listing of the projects of `tables` returned `listed`.
pub open spec fn projects_listed(rules: LinkRules, tables: Tables, listed: Seq<ProjectRow>) -> bool {
    effect(
        CommandView::GetProjects,
        rules,
        tables,
        Ok::<OutcomeView, FailureView>(OutcomeView::Projects(listed)),
        tables,
    )
}

/// A listing of the links of project `project_id` in `tables` returned
/// `listed`.
pub open spec fn links_listed(
    rules: LinkRules,
    tables: Tables,
    project_id: u32,
    listed: Seq<LinkRow>,
) -> bool {
    effect(
        CommandView::LinksForProject { project_id },
        rules,
        tables,
        Ok::<OutcomeView, FailureView>(OutcomeView::Links(listed)),
        tables,
    )
}

/// Whether `command` updates or deletes by a key that no row of its table
/// has.
pub open spec fn names_absent_row(command: CommandView, tables: Tables) -> bool {
    match command {
        CommandView::UpdateProductOrder(order) => !tables.has_order(order.id),
        CommandView::DeleteProductOrder { id } => !tables.has_order(id as i64),
        CommandView::UpdateProject(project) => !tables.has_project(project.id),
        CommandView::DeleteProject { id } => !tables.has_project(id as i64),
        CommandView::RemoveProductOrderFromProject { id } => !tables.has_link(id as i64),
        _ => false,
    }
}

/// In a table with unique keys, a listed row is a row of the table, and the
/// only one under its key.
proof fn lemma_listed_row<R>(rows: Seq<R>, key_of: spec_fn(R) -> i64, listed: Seq<R>, i: int) -> (j:
    int)
    requires
        rows.map_values(key_of).no_duplicates(),
        listed.to_multiset() == rows.to_multiset(),
        0 <= i < listed.len(),
    ensures
        0 <= j < rows.len(),
        rows[j] == listed[i],
        rows.map_values(key_of)[j] == key_of(listed[i]),
        forall|k: int|
            0 <= k < rows.len() && #[trigger] rows.map_values(key_of)[k] == key_of(listed[i]) ==> k
                == j,
{
    lemma_same_elements(listed, rows);
    assert(listed.contains(listed[i]));
    choose|j: int| 0 <= j < rows.len() && rows[j] == listed[i]
}

/// Deleting by the key of a listed row takes that row out of every later
/// listing, and nothing else.
proof fn lemma_deleted_listed<R>(
    rows: Seq<R>,
    key_of: spec_fn(R) -> i64,
    listed: Seq<R>,
    i: int,
    after: Seq<R>,
    affected: u64,
    listed_after: Seq<R>,
)
    requires
        rows.map_values(key_of).no_duplicates(),
        listed.to_multiset() == rows.to_multiset(),
        0 <= i < listed.len(),
        deleted(rows, rows.map_values(key_of), key_of(listed[i]), after, affected),
        listed_after.to_multiset() == after.to_multiset(),
    ensures
        affected == 1,
        listed_after.to_multiset() == listed.to_multiset().remove(listed[i]),
        !after.map_values(key_of).contains(key_of(listed[i])),
{
    broadcast use vstd::seq_lib::group_to_multiset_ensures;

    let keys = rows.map_values(key_of);
    let key = key_of(listed[i]);
    let j = lemma_listed_row(rows, key_of, listed, i);
    assert(keys[j] == key);
    assert(after == rows.remove(j));
    let keys_after = after.map_values(key_of);
    if keys_after.contains(key) {
        let k = choose|k: int| 0 <= k < keys_after.len() && keys_after[k] == key;
        let k0 = if k < j {
            k
        } else {
            k + 1
        };
        assert(keys_after[k] == keys[k0]);
    }
}

/// Overwriting by the key of a listed row puts the new row in the place of
/// that row in every later listing, and changes nothing else.
proof fn lemma_replaced_listed<R>(
    rows: Seq<R>,
    key_of: spec_fn(R) -> i64,
    listed: Seq<R>,
    i: int,
    row: R,
    after: Seq<R>,
    affected: u64,
    listed_after: Seq<R>,
)
    requires
        rows.map_values(key_of).no_duplicates(),
        listed.to_multiset() == rows.to_multiset(),
        0 <= i < listed.len(),
        replaced(rows, rows.map_values(key_of), key_of(listed[i]), row, after, affected),
        listed_after.to_multiset() == after.to_multiset(),
    ensures
        affected == 1,
        listed_after.to_multiset() == listed.to_multiset().insert(row).remove(listed[i]),
        listed_after.contains(row),
{
    broadcast use vstd::seq_lib::group_to_multiset_ensures;

    let keys = rows.map_values(key_of);
    let j = lemma_listed_row(rows, key_of, listed, i);
    assert(keys[j] == key_of(listed[i]));
    assert(after == rows.update(j, row));
    assert(after[j] == row);
    assert(after.contains(row));
    lemma_same_elements(listed_after, after);
}

/// Whatever an operation does, no two rows of a table come to share a key.
pub proof fn law_keys_stay_unique(
    command: CommandView,
    rules: LinkRules,
    before: Tables,
    result: Result<OutcomeView, FailureView>,
    after: Tables,
)
    requires
        before.wf(),
        effect(command, rules, before, result, after) || store_failure(
            command,
            before,
            result,
            after,
        ),
    ensures
        after.wf(),
{
    if after != before {
        lemma_written_keys(before.orders, order_key(), after.orders);
        lemma_written_keys(before.projects, project_key(), after.projects);
        lemma_written_keys(before.links, link_key(), after.links);
    }
}

/// A table keeps its keys unique when a row is added under a free key, when
/// a row is overwritten by one of the same key, and when a row is removed.
proof fn lemma_written_keys<R>(rows: Seq<R>, key_of: spec_fn(R) -> i64, after: Seq<R>)
    requires
        rows.map_values(key_of).no_duplicates(),
        ({
            ||| after == rows
            ||| exists|row: R|
                is_free(rows.map_values(key_of), key_of(row)) && after == #[trigger] rows.push(row)
            ||| exists|i: int, row: R|
                0 <= i < rows.len() && key_of(row) == key_of(rows[i]) && after
                    == #[trigger] rows.update(i, row)
            ||| exists|i: int| 0 <= i < rows.len() && after == #[trigger] rows.remove(i)
        }),
    ensures
        after.map_values(key_of).no_duplicates(),
{
    let keys = rows.map_values(key_of);
    let keys_after = after.map_values(key_of);
    if exists|row: R|
        is_free(rows.map_values(key_of), key_of(row)) && after == #[trigger] rows.push(row) {
        let row = choose|row: R|
            is_free(rows.map_values(key_of), key_of(row)) && after == #[trigger] rows.push(row);
        assert(keys_after =~= keys.push(key_of(row)));
    } else if exists|i: int, row: R|
        0 <= i < rows.len() && key_of(row) == key_of(rows[i]) && after == #[trigger] rows.update(
            i,
            row,
        ) {
        assert(keys_after =~= keys);
    } else if exists|i: int| 0 <= i < rows.len() && after == #[trigger] rows.remove(i) {
        let i = choose|i: int| 0 <= i < rows.len() && after == #[trigger] rows.remove(i);
        assert(keys_after =~= keys.remove(i));
        assert forall|a: int, b: int|
            0 <= a < keys_after.len() && 0 <= b < keys_after.len() && a != b implies keys_after[a]
            != keys_after[b] by {
            let a0 = if a < i {
                a
            } else {
                a + 1
            };
            let b0 = if b < i {
                b
            } else {
                b + 1
            };
            assert(keys_after[a] == keys[a0]);
            assert(keys_after[b] == keys[b0]);
        }
    }
}

/// An operation that ends in an error has changed nothing.
pub proof fn law_errors_change_nothing(
    command: CommandView,
    rules: LinkRules,
    before: Tables,
    result: Result<OutcomeView, FailureView>,
    after: Tables,
)
    requires
        effect(command, rules, before, result, after) || store_failure(
            command,
            before,
            result,
            after,
        ),
        result is Err,
    ensures
        after == before,
{
}

/// Adding a product order whose numbers fit succeeds, and every later
/// listing holds exactly one record more than a listing before: the order as
/// it was given, under a key that no listed record had.
pub proof fn law_added_order_is_listed(
    rules: LinkRules,
    start: Tables,
    listed: Seq<OrderRowView>,
    order_number: i64,
    purchaser: Seq<char>,
    item: Seq<char>,
    quantity: i64,
    date_of_order: Seq<char>,
    result: Result<OutcomeView, FailureView>,
    added: Tables,
    listed_after: Seq<OrderRowView>,
)
    requires
        is_number(order_number),
        is_number(quantity),
        orders_listed(rules, start, listed),
        effect(
            CommandView::AddProductOrder { order_number, purchaser, item, quantity, date_of_order },
            rules,
            start,
            result,
            added,
        ),
        orders_listed(rules, added, listed_after),
    ensures
        result == Ok::<OutcomeView, FailureView>(OutcomeView::Created),
        exists|id: i64|
            #[trigger] is_free(order_keys(listed), id) && listed_after.to_multiset()
                == listed.to_multiset().insert(
                OrderRowView { id, order_number, purchaser, item, quantity, date_of_order },
            ),
{
    broadcast use vstd::seq_lib::group_to_multiset_ensures;

    let id = choose|id: i64|
        #[trigger] is_free(order_keys(start.orders), id) && added.orders == start.orders.push(
            OrderRowView { id, order_number, purchaser, item, quantity, date_of_order },
        );
    lemma_same_elements(listed, start.orders);
    if order_keys(listed).contains(id) {
        let k = choose|k: int| 0 <= k < listed.len() && order_keys(listed)[k] == id;
        assert(listed.contains(listed[k]));
        let j = choose|j: int| 0 <= j < start.orders.len() && start.orders[j] == listed[k];
        assert(order_keys(start.orders)[j] == id);
    }
    assert(is_free(order_keys(listed), id));
}

/// Updating a product order by the key of a listed record succeeds, and
/// every later listing holds the new record in the place of the old one and
/// is otherwise the same.
pub proof fn law_updated_order_is_listed(
    rules: LinkRules,
    start: Tables,
    listed: Seq<OrderRowView>,
    i: int,
    order: OrderRowView,
    result: Result<OutcomeView, FailureView>,
    updated: Tables,
    listed_after: Seq<OrderRowView>,
)
    requires
        start.wf(),
        orders_listed(rules, start, listed),
        0 <= i < listed.len(),
        order.id == listed[i].id,
        effect(CommandView::UpdateProductOrder(order), rules, start, result, updated),
        orders_listed(rules, updated, listed_after),
    ensures
        result == Ok::<OutcomeView, FailureView>(OutcomeView::Changed),
        listed_after.contains(order),
        listed_after.to_multiset() == listed.to_multiset().insert(order).remove(listed[i]),
{
    lemma_replaced_listed(
        start.orders,
        order_key(),
        listed,
        i,
        order,
        updated.orders,
        if result == Ok::<OutcomeView, FailureView>(OutcomeView::Changed) {
            1
        } else {
            0
        },
        listed_after,
    );
}

/// Updating a project by the key of a listed record succeeds, and every
/// later listing holds the new record in the place of the old one and is
/// otherwise the same.
pub proof fn law_updated_project_is_listed(
    rules: LinkRules,
    start: Tables,
    listed: Seq<ProjectRow>,
    i: int,
    project: ProjectRow,
    result: Result<OutcomeView, FailureView>,
    updated: Tables,
    listed_after: Seq<ProjectRow>,
)
    requires
        start.wf(),
        projects_listed(rules, start, listed),
        0 <= i < listed.len(),
        project.id == listed[i].id,
        effect(CommandView::UpdateProject(project), rules, start, result, updated),
        projects_listed(rules, updated, listed_after),
    ensures
        result == Ok::<OutcomeView, FailureView>(OutcomeView::Changed),
        listed_after.contains(project),
        listed_after.to_multiset() == listed.to_multiset().insert(project).remove(listed[i]),
{
    lemma_replaced_listed(
        start.projects,
        project_key(),
        listed,
        i,
        project,
        updated.projects,
        if result == Ok::<OutcomeView, FailureView>(OutcomeView::Changed) {
            1
        } else {
            0
        },
        listed_after,
    );
}

/// Updating or deleting by a key that no row has succeeds, reports that
/// nothing was found, and leaves every table as it was.
pub proof fn law_absent_key_changes_nothing(
    command: CommandView,
    rules: LinkRules,
    before: Tables,
    result: Result<OutcomeView, FailureView>,
    after: Tables,
)
    requires
        names_absent_row(command, before),
        effect(command, rules, before, result, after),
    ensures
        result == Ok::<OutcomeView, FailureView>(OutcomeView::NotFound),
        after == before,
{
}

/// Deleting a product order by the key of a listed record succeeds and takes
/// that record, and no other, out of every later listing.  Deleting it once
/// more succeeds too, finds nothing and changes nothing.
pub proof fn law_deleted_order_is_gone(
    rules: LinkRules,
    start: Tables,
    listed: Seq<OrderRowView>,
    i: int,
    id: u32,
    result: Result<OutcomeView, FailureView>,
    after: Tables,
    listed_after: Seq<OrderRowView>,
    again: Result<OutcomeView, FailureView>,
    end: Tables,
)
    requires
        start.wf(),
        orders_listed(rules, start, listed),
        0 <= i < listed.len(),
        id as i64 == listed[i].id,
        effect(CommandView::DeleteProductOrder { id }, rules, start, result, after),
        orders_listed(rules, after, listed_after),
        effect(CommandView::DeleteProductOrder { id }, rules, after, again, end),
    ensures
        result == Ok::<OutcomeView, FailureView>(OutcomeView::Changed),
        listed_after.to_multiset() == listed.to_multiset().remove(listed[i]),
        again == Ok::<OutcomeView, FailureView>(OutcomeView::NotFound),
        end == after,
{
    lemma_deleted_listed(
        start.orders,
        order_key(),
        listed,
        i,
        after.orders,
        if result == Ok::<OutcomeView, FailureView>(OutcomeView::Changed) {
            1
        } else {
            0
        },
        listed_after,
    );
}

/// Deleting a project by the key of a listed record succeeds and takes that
/// record, and no other, out of every later listing.  Deleting it once more
/// succeeds too, finds nothing and changes nothing.
pub proof fn law_deleted_project_is_gone(
    rules: LinkRules,
    start: Tables,
    listed: Seq<ProjectRow>,
    i: int,
    id: u32,
    result: Result<OutcomeView, FailureView>,
    after: Tables,
    listed_after: Seq<ProjectRow>,
    again: Result<OutcomeView, FailureView>,
    end: Tables,
)
    requires
        start.wf(),
        projects_listed(rules, start, listed),
        0 <= i < listed.len(),
        id as i64 == listed[i].id,
        effect(CommandView::DeleteProject { id }, rules, start, result, after),
        projects_listed(rules, after, listed_after),
        effect(CommandView::DeleteProject { id }, rules, after, again, end),
    ensures
        result == Ok::<OutcomeView, FailureView>(OutcomeView::Changed),
        listed_after.to_multiset() == listed.to_multiset().remove(listed[i]),
        again == Ok::<OutcomeView, FailureView>(OutcomeView::NotFound),
        end == after,
{
    lemma_deleted_listed(
        start.projects,
        project_key(),
        listed,
        i,
        after.projects,
        if result == Ok::<OutcomeView, FailureView>(OutcomeView::Changed) {
            1
        } else {
            0
        },
        listed_after,
    );
}

/// Deleting a project or a product order leaves every link in place, also
/// those that name the deleted row.
pub proof fn law_delete_keeps_links(
    command: CommandView,
    rules: LinkRules,
    before: Tables,
    result: Result<OutcomeView, FailureView>,
    after: Tables,
)
    requires
        command is DeleteProject || command is DeleteProductOrder,
        effect(command, rules, before, result, after),
    ensures
        after.links == before.links,
        command is DeleteProject ==> after.orders == before.orders,
        command is DeleteProductOrder ==> after.projects == before.projects,
{
}

/// A link is made only between a project and a product order that are both
/// there.  Where one is not, the operation says which, the project first,
/// and changes nothing.
pub proof fn law_link_needs_both_rows(
    rules: LinkRules,
    before: Tables,
    project_id: u32,
    product_order_id: u32,
    result: Result<OutcomeView, FailureView>,
    after: Tables,
)
    requires
        effect(
            CommandView::AddProductOrderToProject { project_id, product_order_id },
            rules,
            before,
            result,
            after,
        ),
    ensures
        result is Ok <==> before.has_project(project_id as i64) && before.has_order(
            product_order_id as i64,
        ),
        !before.has_project(project_id as i64) ==> after == before && result == Err::<
            OutcomeView,
            FailureView,
        >(
            FailureView {
                operation: Operation::AddProductOrderToProject,
                error: DataErrorView::Referential(Missing::Project),
            },
        ),
        before.has_project(project_id as i64) && !before.has_order(product_order_id as i64)
            ==> after == before && result == Err::<OutcomeView, FailureView>(
            FailureView {
                operation: Operation::AddProductOrderToProject,
                error: DataErrorView::Referential(Missing::ProductOrder),
            },
        ),
{
}

/// Where duplicates are not allowed, no operation makes a second link
/// between a project and a product order that have one.
pub proof fn law_no_duplicate_links(
    rules: LinkRules,
    before: Tables,
    project_id: u32,
    product_order_id: u32,
    result: Result<OutcomeView, FailureView>,
    after: Tables,
)
    requires
        !rules.allow_duplicate_links,
        before.has_pair(project_id as i64, product_order_id as i64),
        effect(
            CommandView::AddProductOrderToProject { project_id, product_order_id },
            rules,
            before,
            result,
            after,
        ),
    ensures
        after == before,
        result is Ok ==> result == Ok::<OutcomeView, FailureView>(OutcomeView::AlreadyLinked),
{
}

/// Linking a product order to a project that it was not linked to, and then
/// unlinking by the key of a link between the two that a listing of the
/// project's links returned, leaves no link between the two, and the link
/// table as it was before.
pub proof fn law_link_then_unlink(
    rules: LinkRules,
    start: Tables,
    project_id: u32,
    product_order_id: u32,
    linked: Tables,
    listed: Seq<LinkRow>,
    i: int,
    link_id: u32,
    result: Result<OutcomeView, FailureView>,
    end: Tables,
)
    requires
        start.wf(),
        !start.has_pair(project_id as i64, product_order_id as i64),
        effect(
            CommandView::AddProductOrderToProject { project_id, product_order_id },
            rules,
            start,
            Ok::<OutcomeView, FailureView>(OutcomeView::Created),
            linked,
        ),
        links_listed(rules, linked, project_id, listed),
        0 <= i < listed.len(),
        listed[i].product_order == product_order_id as i64,
        listed[i].id == link_id as i64,
        effect(
            CommandView::RemoveProductOrderFromProject { id: link_id },
            rules,
            linked,
            result,
            end,
        ),
    ensures
        result == Ok::<OutcomeView, FailureView>(OutcomeView::Changed),
        !end.has_pair(project_id as i64, product_order_id as i64),
        end.links == start.links,
{
    let project = project_id as i64;
    let product_order = product_order_id as i64;
    let id = choose|id: i64|
        #[trigger] is_free(link_keys(start.links), id) && linked.links == start.links.push(
            LinkRow { id, project, product_order },
        );
    let made = LinkRow { id, project, product_order };
    let of_project = links_of_project(linked.links, project);
    lemma_same_elements(listed, of_project);
    assert(listed.contains(listed[i]));
    let at = choose|at: int| 0 <= at < of_project.len() && of_project[at] == listed[i];
    linked.links.lemma_filter_pred(in_project(project), at);
    linked.links.lemma_filter_contains_rev(in_project(project), listed[i]);
    let j = choose|j: int| 0 <= j < linked.links.len() && linked.links[j] == listed[i];
    if j < start.links.len() {
        start.links.lemma_filter_contains(joins(project, product_order), j);
        assert(false);
    }
    assert(listed[i] == made);
    assert(link_keys(linked.links) =~= link_keys(start.links).push(id));
    assert(link_keys(linked.links)[j] == id);
    assert forall|k: int|
        0 <= k < linked.links.len() && #[trigger] link_keys(linked.links)[k] == id implies k
        == j by {
        if k < start.links.len() {
            assert(link_keys(start.links)[k] == id);
        }
    }
    assert(end.links =~= start.links);
}

/// Taking an element that passes a test out of a list leaves one element
/// fewer that passes it.
proof fn lemma_filter_remove<A>(list: Seq<A>, test: spec_fn(A) -> bool, i: int)
    requires
        0 <= i < list.len(),
        test(list[i]),
    ensures
        list.remove(i).filter(test).len() + 1 == list.filter(test).len(),
    decreases list.len(),
{
    reveal(Seq::filter);
    if i == list.len() - 1 {
        assert(list.remove(i) =~= list.drop_last());
    } else {
        assert(list.remove(i).drop_last() =~= list.drop_last().remove(i));
        assert(list.remove(i).last() == list.last());
        lemma_filter_remove(list.drop_last(), test, i);
    }
}

/// Linking a product order to a project and then unlinking by the key of
/// any link between the two that a listing of the project's links returned
/// leaves as many links between the two as there were before.
pub proof fn law_link_then_unlink_restores_count(
    rules: LinkRules,
    start: Tables,
    project_id: u32,
    product_order_id: u32,
    linked: Tables,
    listed: Seq<LinkRow>,
    i: int,
    link_id: u32,
    result: Result<OutcomeView, FailureView>,
    end: Tables,
)
    requires
        start.wf(),
        effect(
            CommandView::AddProductOrderToProject { project_id, product_order_id },
            rules,
            start,
            Ok::<OutcomeView, FailureView>(OutcomeView::Created),
            linked,
        ),
        links_listed(rules, linked, project_id, listed),
        0 <= i < listed.len(),
        listed[i].product_order == product_order_id as i64,
        listed[i].id == link_id as i64,
        effect(
            CommandView::RemoveProductOrderFromProject { id: link_id },
            rules,
            linked,
            result,
            end,
        ),
    ensures
        result == Ok::<OutcomeView, FailureView>(OutcomeView::Changed),
        links_of_pair(end.links, project_id as i64, product_order_id as i64).len() == links_of_pair(
            start.links,
            project_id as i64,
            product_order_id as i64,
        ).len(),
{
    let project = project_id as i64;
    let product_order = product_order_id as i64;
    let id = choose|id: i64|
        #[trigger] is_free(link_keys(start.links), id) && linked.links == start.links.push(
            LinkRow { id, project, product_order },
        );
    let made = LinkRow { id, project, product_order };
    law_keys_stay_unique(
        CommandView::AddProductOrderToProject { project_id, product_order_id },
        rules,
        start,
        Ok::<OutcomeView, FailureView>(OutcomeView::Created),
        linked,
    );
    let of_project = links_of_project(linked.links, project);
    lemma_same_elements(listed, of_project);
    assert(listed.contains(listed[i]));
    let at = choose|at: int| 0 <= at < of_project.len() && of_project[at] == listed[i];
    linked.links.lemma_filter_pred(in_project(project), at);
    linked.links.lemma_filter_contains_rev(in_project(project), listed[i]);
    let j = choose|j: int| 0 <= j < linked.links.len() && linked.links[j] == listed[i];
    assert(link_keys(linked.links)[j] == link_id as i64);
    assert(end.links == linked.links.remove(j));
    start.links.lemma_filter_push(made, joins(project, product_order));
    lemma_filter_remove(linked.links, joins(project, product_order), j);
}

/// A store that holds nothing lists nothing, for every kind of record.
pub proof fn law_empty_store_lists_nothing(
    command: CommandView,
    rules: LinkRules,
    result: Result<OutcomeView, FailureView>,
    after: Tables,
)
    requires
        command is GetProductOrders || command is GetProjects || command is LinksForProject
            || command is LinksForOrder,
        effect(command, rules, Tables::empty(), result, after),
    ensures
        after == Tables::empty(),
        command is GetProductOrders ==> result == Ok::<OutcomeView, FailureView>(
            OutcomeView::Orders(Seq::empty()),
        ),
        command is GetProjects ==> result == Ok::<OutcomeView, FailureView>(
            OutcomeView::Projects(Seq::empty()),
        ),
        command is LinksForProject || command is LinksForOrder ==> result == Ok::<
            OutcomeView,
            FailureView,
        >(OutcomeView::Links(Seq::empty())),
{
    broadcast use vstd::seq_lib::group_to_multiset_ensures;

    reveal(Seq::filter);
    let none = Tables::empty();
    if let CommandView::LinksForProject { project_id } = command {
        assert(links_of_project(none.links, project_id as i64).len() == 0);
    }
    if let CommandView::LinksForOrder { product_order_id } = command {
        assert(links_of_order(none.links, product_order_id as i64).len() == 0);
    }
    match result {
        Ok(OutcomeView::Orders(rows)) => {
            assert(rows.to_multiset().len() == none.orders.len());
            assert(rows =~= Seq::empty());
        },
        Ok(OutcomeView::Projects(rows)) => {
            assert(rows.to_multiset().len() == none.projects.len());
            assert(rows =~= Seq::empty());
        },
        Ok(OutcomeView::Links(rows)) => {
            assert(rows.to_multiset().len() == 0);
            assert(rows =~= Seq::empty());
        },
        _ => {},
    }
}

} // verus!
