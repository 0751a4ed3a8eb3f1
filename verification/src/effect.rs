//! What each operation does to the tables, and the proof that the steps of
//! `command` do just that against any store that keeps the store's contract.
//!
//! An operation that links runs up to four statements, and nothing holds the
//! store between them.  What is proved here is proved of an operation that
//! no other caller's write falls into; where one does, the link may come to
//! name a row that was deleted a moment before.
use crate::command::{
    links_typed, orders_typed, projects_typed, CommandView, LinkRules, OutcomeView, Pending,
    StepView,
};
use crate::error::{out_of_range, DataErrorView, FailureView, Missing};
use crate::model::{
    deleted, is_free, is_key, link_keys, links_of_order, links_of_project, occurrences, order_keys,
    project_keys, replaced, store_step, Tables,
};
use crate::record::{LinkRow, OrderRowView, ProjectRow};
use crate::reply::ReplyView;
use crate::statement::StatementView;
use vstd::prelude::*;

verus! {

/// The error with which the library itself ends `command` on the tables
/// `before`, whatever the store does: a number that does not fit, a link to
/// a row that is not there (the project is looked for first), or rows to
/// list that no typed record can carry.
pub open spec fn refusal(command: CommandView, before: Tables) -> Option<DataErrorView> {
    match command.rejected_field() {
        Some(field) => Some(DataErrorView::Validation(field)),
        None => match command {
            CommandView::GetProductOrders => if orders_typed(before.orders) {
                None
            } else {
                Some(DataErrorView::Store(out_of_range()))
            },
            CommandView::GetProjects => if projects_typed(before.projects) {
                None
            } else {
                Some(DataErrorView::Store(out_of_range()))
            },
            CommandView::LinksForProject { project_id } => if links_typed(
                links_of_project(before.links, project_id as i64),
            ) {
                None
            } else {
                Some(DataErrorView::Store(out_of_range()))
            },
            CommandView::LinksForOrder { product_order_id } => if links_typed(
                links_of_order(before.links, product_order_id as i64),
            ) {
                None
            } else {
                Some(DataErrorView::Store(out_of_range()))
            },
            CommandView::AddProductOrderToProject { project_id, product_order_id } => {
                if !before.has_project(project_id as i64) {
                    Some(DataErrorView::Referential(Missing::Project))
                } else if !before.has_order(product_order_id as i64) {
                    Some(DataErrorView::Referential(Missing::ProductOrder))
                } else {
                    None
                }
            },
            _ => None,
        },
    }
}

/// The number of rows that an update or a delete with this outcome wrote.
pub open spec fn rows_written(outcome: OutcomeView) -> u64 {
    if outcome == OutcomeView::Changed {
        1
    } else {
        0
    }
}

/// What `command` does when the store runs every statement: the tables go
/// from `before` to `after` and the caller gets `result`.
///
/// An operation that is refused changes nothing.  Adding inserts one row
/// under a key that no row of the table had.  Updating and deleting touch
/// the row with the given key and no other, and report `NotFound` where
/// there is none.  Deleting a project or a product order leaves the links
/// that name it in place.  Listing changes nothing and returns every row
/// once, in an order of the store's choosing.
pub open spec fn effect(
    command: CommandView,
    rules: LinkRules,
    before: Tables,
    result: Result<OutcomeView, FailureView>,
    after: Tables,
) -> bool {
    match refusal(command, before) {
        Some(error) => after == before && result == Err::<OutcomeView, FailureView>(
            FailureView { operation: command.operation(), error },
        ),
        None => match command {
            CommandView::AddProductOrder { order_number, purchaser, item, quantity, date_of_order } => {
                &&& result == Ok::<OutcomeView, FailureView>(OutcomeView::Created)
                &&& after.projects == before.projects
                &&& after.links == before.links
                &&& exists|id: i64|
                    #[trigger] is_free(order_keys(before.orders), id) && after.orders
                        == before.orders.push(
                        OrderRowView { id, order_number, purchaser, item, quantity, date_of_order },
                    )
            },
            CommandView::GetProductOrders => {
                &&& after == before
                &&& result matches Ok(OutcomeView::Orders(orders))
                &&& orders.to_multiset() == before.orders.to_multiset()
            },
            CommandView::UpdateProductOrder(order) => {
                &&& after.projects == before.projects
                &&& after.links == before.links
                &&& result matches Ok(outcome)
                &&& outcome == OutcomeView::Changed || outcome == OutcomeView::NotFound
                &&& replaced(
                    before.orders,
                    order_keys(before.orders),
                    order.id,
                    order,
                    after.orders,
                    rows_written(outcome),
                )
            },
            CommandView::DeleteProductOrder { id } => {
                &&& after.projects == before.projects
                &&& after.links == before.links
                &&& result matches Ok(outcome)
                &&& outcome == OutcomeView::Changed || outcome == OutcomeView::NotFound
                &&& deleted(
                    before.orders,
                    order_keys(before.orders),
                    id as i64,
                    after.orders,
                    rows_written(outcome),
                )
            },
            CommandView::AddProject { project_number } => {
                &&& result == Ok::<OutcomeView, FailureView>(OutcomeView::Created)
                &&& after.orders == before.orders
                &&& after.links == before.links
                &&& exists|id: i64|
                    #[trigger] is_free(project_keys(before.projects), id) && after.projects
                        == before.projects.push(ProjectRow { id, project_number })
            },
            CommandView::GetProjects => {
                &&& after == before
                &&& result matches Ok(OutcomeView::Projects(projects))
                &&& projects.to_multiset() == before.projects.to_multiset()
            },
            CommandView::UpdateProject(project) => {
                &&& after.orders == before.orders
                &&& after.links == before.links
                &&& result matches Ok(outcome)
                &&& outcome == OutcomeView::Changed || outcome == OutcomeView::NotFound
                &&& replaced(
                    before.projects,
                    project_keys(before.projects),
                    project.id,
                    project,
                    after.projects,
                    rows_written(outcome),
                )
            },
            CommandView::DeleteProject { id } => {
                &&& after.orders == before.orders
                &&& after.links == before.links
                &&& result matches Ok(outcome)
                &&& outcome == OutcomeView::Changed || outcome == OutcomeView::NotFound
                &&& deleted(
                    before.projects,
                    project_keys(before.projects),
                    id as i64,
                    after.projects,
                    rows_written(outcome),
                )
            },
            CommandView::AddProductOrderToProject { project_id, product_order_id } => {
                if !rules.allow_duplicate_links && before.has_pair(
                    project_id as i64,
                    product_order_id as i64,
                ) {
                    after == before && result == Ok::<OutcomeView, FailureView>(
                        OutcomeView::AlreadyLinked,
                    )
                } else {
                    &&& result == Ok::<OutcomeView, FailureView>(OutcomeView::Created)
                    &&& after.orders == before.orders
                    &&& after.projects == before.projects
                    &&& exists|id: i64|
                        #[trigger] is_free(link_keys(before.links), id) && after.links
                            == before.links.push(
                            LinkRow {
                                id,
                                project: project_id as i64,
                                product_order: product_order_id as i64,
                            },
                        )
                }
            },
            CommandView::RemoveProductOrderFromProject { id } => {
                &&& after.orders == before.orders
                &&& after.projects == before.projects
                &&& result matches Ok(outcome)
                &&& outcome == OutcomeView::Changed || outcome == OutcomeView::NotFound
                &&& deleted(
                    before.links,
                    link_keys(before.links),
                    id as i64,
                    after.links,
                    rows_written(outcome),
                )
            },
            CommandView::LinksForProject { project_id } => {
                &&& after == before
                &&& result matches Ok(OutcomeView::Links(links))
                &&& links.to_multiset() == links_of_project(
                    before.links,
                    project_id as i64,
                ).to_multiset()
            },
            CommandView::LinksForOrder { product_order_id } => {
                &&& after == before
                &&& result matches Ok(OutcomeView::Links(links))
                &&& links.to_multiset() == links_of_order(
                    before.links,
                    product_order_id as i64,
                ).to_multiset()
            },
        },
    }
}

/// Whether `command`, run on the tables `before`, comes to insert a row:
/// it is an operation that adds, it is not refused, and it is not a link
/// that exists already where duplicates are not allowed.
pub open spec fn reaches_insert(command: CommandView, rules: LinkRules, before: Tables) -> bool {
    &&& command.inserts_into() is Some
    &&& refusal(command, before) is None
    &&& command matches CommandView::AddProductOrderToProject { project_id, product_order_id }
        ==> rules.allow_duplicate_links || !before.has_pair(
        project_id as i64,
        product_order_id as i64,
    )
}

/// The store failed while it ran `command`: nothing changed, and the caller
/// is told what the store said.
pub open spec fn store_failure(
    command: CommandView,
    before: Tables,
    result: Result<OutcomeView, FailureView>,
    after: Tables,
) -> bool {
    &&& after == before
    &&& result matches Err(failure)
    &&& failure.operation == command.operation()
    &&& failure.error is Store
}

/// Whether `command`, begun on the tables `before`, can have come to the
/// point of running `statement` and waiting as `pending` says.
pub open spec fn in_progress(
    command: CommandView,
    rules: LinkRules,
    before: Tables,
    statement: StatementView,
    pending: Pending,
) -> bool {
    &&& command.rejected_field() is None
    &&& pending.operation() == command.operation()
    &&& statement.inserts_into() is Some ==> statement.inserts_into() == command.inserts_into()
    &&& {
        ||| (statement, pending) == command.opening(rules)
        ||| {
            &&& command matches CommandView::AddProductOrderToProject { project_id, product_order_id }
            &&& before.has_project(project_id as i64)
            &&& {
                ||| {
                    &&& statement == StatementView::CountOrders { id: product_order_id }
                    &&& pending == Pending::OrderCounted {
                        project_id,
                        product_order_id,
                        allow_duplicates: rules.allow_duplicate_links,
                    }
                }
                ||| {
                    &&& before.has_order(product_order_id as i64)
                    &&& !rules.allow_duplicate_links
                    &&& statement == StatementView::CountLinks {
                        project: project_id,
                        product_order: product_order_id,
                    }
                    &&& pending == Pending::PairCounted { project_id, product_order_id }
                }
                ||| {
                    &&& before.has_order(product_order_id as i64)
                    &&& rules.allow_duplicate_links || !before.has_pair(
                        project_id as i64,
                        product_order_id as i64,
                    )
                    &&& statement == StatementView::InsertLink {
                        project: project_id,
                        product_order: product_order_id,
                    }
                    &&& pending == Pending::Created(command.operation())
                }
            }
        }
    }
}

/// A key occurs in a list of keys just when it is counted at least once.
pub proof fn lemma_occurrences(keys: Seq<i64>, key: i64)
    ensures
        occurrences(keys, key) > 0 <==> keys.contains(key),
{
    let test = is_key(key);
    let found = keys.filter(test);
    if keys.contains(key) {
        let i = choose|i: int| 0 <= i < keys.len() && keys[i] == key;
        keys.lemma_filter_contains(test, i);
    }
    if found.len() > 0 {
        keys.lemma_filter_pred(test, 0);
        assert(found.contains(found[0]));
        keys.lemma_filter_contains_rev(test, found[0]);
    }
}

/// Two lists with the same elements, each as often as in the other, hold
/// the same elements.
pub proof fn lemma_same_elements<A>(a: Seq<A>, b: Seq<A>)
    requires
        a.to_multiset() == b.to_multiset(),
    ensures
        forall|x: A| a.contains(x) <==> b.contains(x),
{
    broadcast use vstd::seq_lib::group_to_multiset_ensures;

    assert forall|x: A| a.contains(x) <==> b.contains(x) by {
        assert(a.contains(x) <==> a.to_multiset().count(x) > 0);
        assert(b.contains(x) <==> b.to_multiset().count(x) > 0);
    }
}

/// Two lists with the same elements pass a test together or not at all.
pub proof fn lemma_same_typed<A>(a: Seq<A>, b: Seq<A>, test: spec_fn(A) -> bool)
    requires
        a.to_multiset() == b.to_multiset(),
    ensures
        (forall|i: int| 0 <= i < a.len() ==> test(#[trigger] a[i])) <==> (forall|i: int|
            0 <= i < b.len() ==> test(#[trigger] b[i])),
{
    lemma_same_elements(a, b);
    if forall|i: int| 0 <= i < a.len() ==> test(#[trigger] a[i]) {
        assert forall|i: int| 0 <= i < b.len() implies test(#[trigger] b[i]) by {
            assert(b.contains(b[i]));
            assert(a.contains(b[i]));
        }
    }
    if forall|i: int| 0 <= i < b.len() ==> test(#[trigger] b[i]) {
        assert forall|i: int| 0 <= i < a.len() implies test(#[trigger] a[i]) by {
            assert(a.contains(a[i]));
            assert(b.contains(a[i]));
        }
    }
}

/// The first step of a command is its refusal, or a statement that the
/// command can have come to.
pub proof fn lemma_begin(command: CommandView, rules: LinkRules, before: Tables)
    ensures
        (match command.first_step(rules) {
            StepView::Finish(result) => effect(command, rules, before, result, before),
            StepView::Execute(statement, pending) => in_progress(
                command,
                rules,
                before,
                statement,
                pending,
            ),
        }),
{
}

/// One round of an operation keeps it on course: where the store has kept
/// its contract for the statement, the step that follows the reply either
/// ends the operation as `effect` says (or as a failure of the store), or
/// names a statement that the command can have come to, nothing having
/// changed, and with fewer rounds left.
pub proof fn lemma_resume(
    command: CommandView,
    rules: LinkRules,
    before: Tables,
    statement: StatementView,
    pending: Pending,
    reply: ReplyView,
    after: Tables,
)
    requires
        before.wf(),
        in_progress(command, rules, before, statement, pending),
        store_step(before, statement, reply, after),
    ensures
        (match pending.next_step(reply) {
            StepView::Finish(result) => if reply is Failed {
                store_failure(command, before, result, after)
            } else {
                effect(command, rules, before, result, after)
            },
            StepView::Execute(next, waiting) => {
                &&& after == before
                &&& !(reply is Failed)
                &&& statement.inserts_into() is None
                &&& in_progress(command, rules, before, next, waiting)
                &&& waiting.rank() < pending.rank()
            },
        }),
        statement.inserts_into() is Some ==> reaches_insert(command, rules, before),
        reaches_insert(command, rules, before) && statement.inserts_into() is None && !(reply
            is Failed) ==> pending.next_step(reply) is Execute,
{
    match statement {
        StatementView::CountProjects { id } => {
            lemma_occurrences(project_keys(before.projects), id as i64);
        },
        StatementView::CountOrders { id } => {
            lemma_occurrences(order_keys(before.orders), id as i64);
        },
        StatementView::SelectOrders => {
            if let ReplyView::Orders(rows) = reply {
                lemma_same_typed(rows, before.orders, |row: OrderRowView| row.is_typed());
            }
        },
        StatementView::SelectProjects => {
            if let ReplyView::Projects(rows) = reply {
                lemma_same_typed(rows, before.projects, |row: ProjectRow| row.is_typed());
            }
        },
        StatementView::SelectLinksOfProject { project } => {
            if let ReplyView::Links(rows) = reply {
                lemma_same_typed(
                    rows,
                    links_of_project(before.links, project as i64),
                    |row: LinkRow| row.is_typed(),
                );
            }
        },
        StatementView::SelectLinksOfOrder { product_order } => {
            if let ReplyView::Links(rows) = reply {
                lemma_same_typed(
                    rows,
                    links_of_order(before.links, product_order as i64),
                    |row: LinkRow| row.is_typed(),
                );
            }
        },
        _ => {},
    }
}

} // verus!
