//! What the store is expected to do with each statement.
//!
//! The tables are sequences of rows; the position of a row in its table is
//! not observable, because a query returns the rows in an order of the
//! store's choosing.  The key of a row is assigned by the store when the row
//! is inserted, and no two rows of a table share a key.
use crate::record::{LinkRow, OrderRowView, ProjectRow};
use crate::reply::ReplyView;
use crate::statement::StatementView;
use vstd::prelude::*;

verus! {

/// The contents of the store.
pub struct Tables {
    pub orders: Seq<OrderRowView>,
    pub projects: Seq<ProjectRow>,
    pub links: Seq<LinkRow>,
}

/// The key of a product order row.
pub open spec fn order_key() -> spec_fn(OrderRowView) -> i64 {
    |row: OrderRowView| row.id
}

/// The key of a project row.
pub open spec fn project_key() -> spec_fn(ProjectRow) -> i64 {
    |row: ProjectRow| row.id
}

/// The key of a link row.
pub open spec fn link_key() -> spec_fn(LinkRow) -> i64 {
    |row: LinkRow| row.id
}

/// The keys of the product order table, row by row.
pub open spec fn order_keys(rows: Seq<OrderRowView>) -> Seq<i64> {
    rows.map_values(order_key())
}

/// The keys of the project table, row by row.
pub open spec fn project_keys(rows: Seq<ProjectRow>) -> Seq<i64> {
    rows.map_values(project_key())
}

/// The keys of the link table, row by row.
pub open spec fn link_keys(rows: Seq<LinkRow>) -> Seq<i64> {
    rows.map_values(link_key())
}

/// The test "belongs to project `project`".
pub open spec fn in_project(project: i64) -> spec_fn(LinkRow) -> bool {
    |link: LinkRow| link.project == project
}

/// The test "attaches product order `product_order`".
pub open spec fn with_order(product_order: i64) -> spec_fn(LinkRow) -> bool {
    |link: LinkRow| link.product_order == product_order
}

/// The test "attaches `product_order` to `project`".
pub open spec fn joins(project: i64, product_order: i64) -> spec_fn(LinkRow) -> bool {
    |link: LinkRow| link.project == project && link.product_order == product_order
}

/// The test "equals `key`".
pub open spec fn is_key(key: i64) -> spec_fn(i64) -> bool {
    |k: i64| k == key
}

/// The links that belong to project `project`.
pub open spec fn links_of_project(links: Seq<LinkRow>, project: i64) -> Seq<LinkRow> {
    links.filter(in_project(project))
}

/// The links that attach product order `product_order` to some project.
pub open spec fn links_of_order(links: Seq<LinkRow>, product_order: i64) -> Seq<LinkRow> {
    links.filter(with_order(product_order))
}

/// The links that attach `product_order` to `project`.
pub open spec fn links_of_pair(links: Seq<LinkRow>, project: i64, product_order: i64) -> Seq<
    LinkRow,
> {
    links.filter(joins(project, product_order))
}

/// Whether no row has the key `key`, so that the store may hand it out.
pub open spec fn is_free(keys: Seq<i64>, key: i64) -> bool {
    !keys.contains(key)
}

/// `after` is `before` with the row of key `key` overwritten by `row`, and
/// `affected` says whether there was such a row.
pub open spec fn replaced<R>(
    before: Seq<R>,
    keys: Seq<i64>,
    key: i64,
    row: R,
    after: Seq<R>,
    affected: u64,
) -> bool {
    if keys.contains(key) {
        affected == 1 && exists|i: int|
            0 <= i < keys.len() && #[trigger] keys[i] == key && after == before.update(i, row)
    } else {
        affected == 0 && after == before
    }
}

/// `after` is `before` without the row of key `key`, and `affected` says
/// whether there was such a row.
pub open spec fn deleted<R>(
    before: Seq<R>,
    keys: Seq<i64>,
    key: i64,
    after: Seq<R>,
    affected: u64,
) -> bool {
    if keys.contains(key) {
        affected == 1 && exists|i: int|
            0 <= i < keys.len() && #[trigger] keys[i] == key && after == before.remove(i)
    } else {
        affected == 0 && after == before
    }
}

/// How many of `keys` equal `key`.
pub open spec fn occurrences(keys: Seq<i64>, key: i64) -> nat {
    keys.filter(is_key(key)).len()
}

impl Tables {
    /// The store before anything was inserted.
    pub open spec fn empty() -> Tables {
        Tables { orders: Seq::empty(), projects: Seq::empty(), links: Seq::empty() }
    }

    /// No two rows of a table share a key.
    pub open spec fn wf(self) -> bool {
        &&& order_keys(self.orders).no_duplicates()
        &&& project_keys(self.projects).no_duplicates()
        &&& link_keys(self.links).no_duplicates()
    }

    pub open spec fn has_order(self, id: i64) -> bool {
        order_keys(self.orders).contains(id)
    }

    pub open spec fn has_project(self, id: i64) -> bool {
        project_keys(self.projects).contains(id)
    }

    pub open spec fn has_link(self, id: i64) -> bool {
        link_keys(self.links).contains(id)
    }

    /// Whether some link attaches `product_order` to `project`.
    pub open spec fn has_pair(self, project: i64, product_order: i64) -> bool {
        links_of_pair(self.links, project, product_order).len() > 0
    }
}

/// The contract of the store: running `statement` on the tables `before` may
/// answer `reply` and leave the tables `after`.
///
/// A statement that fails changes nothing.  One that succeeds does what its
/// SQL text says on tables whose keys are unique; the key of an inserted row
/// and the order of the rows of a query are the store's choice.
pub open spec fn store_step(
    before: Tables,
    statement: StatementView,
    reply: ReplyView,
    after: Tables,
) -> bool {
    if reply is Failed {
        after == before
    } else {
        match statement {
            StatementView::InsertOrder { order_number, purchaser, item, quantity, date_of_order } => {
                &&& reply == ReplyView::Affected(1)
                &&& after.projects == before.projects
                &&& after.links == before.links
                &&& exists|id: i64|
                    #[trigger] is_free(order_keys(before.orders), id) && after.orders
                        == before.orders.push(
                        OrderRowView {
                            id,
                            order_number: order_number as i64,
                            purchaser,
                            item,
                            quantity: quantity as i64,
                            date_of_order,
                        },
                    )
            },
            StatementView::SelectOrders => {
                &&& after == before
                &&& reply matches ReplyView::Orders(rows)
                &&& rows.to_multiset() == before.orders.to_multiset()
            },
            StatementView::UpdateOrder(order) => {
                &&& after.projects == before.projects
                &&& after.links == before.links
                &&& reply matches ReplyView::Affected(n)
                &&& replaced(
                    before.orders,
                    order_keys(before.orders),
                    order.id,
                    order,
                    after.orders,
                    n,
                )
            },
            StatementView::DeleteOrder { id } => {
                &&& after.projects == before.projects
                &&& after.links == before.links
                &&& reply matches ReplyView::Affected(n)
                &&& deleted(before.orders, order_keys(before.orders), id as i64, after.orders, n)
            },
            StatementView::InsertProject { project_number } => {
                &&& reply == ReplyView::Affected(1)
                &&& after.orders == before.orders
                &&& after.links == before.links
                &&& exists|id: i64|
                    #[trigger] is_free(project_keys(before.projects), id) && after.projects
                        == before.projects.push(
                        ProjectRow { id, project_number: project_number as i64 },
                    )
            },
            StatementView::SelectProjects => {
                &&& after == before
                &&& reply matches ReplyView::Projects(rows)
                &&& rows.to_multiset() == before.projects.to_multiset()
            },
            StatementView::UpdateProject(project) => {
                &&& after.orders == before.orders
                &&& after.links == before.links
                &&& reply matches ReplyView::Affected(n)
                &&& replaced(
                    before.projects,
                    project_keys(before.projects),
                    project.id,
                    project,
                    after.projects,
                    n,
                )
            },
            StatementView::DeleteProject { id } => {
                &&& after.orders == before.orders
                &&& after.links == before.links
                &&& reply matches ReplyView::Affected(n)
                &&& deleted(
                    before.projects,
                    project_keys(before.projects),
                    id as i64,
                    after.projects,
                    n,
                )
            },
            StatementView::InsertLink { project, product_order } => {
                &&& reply == ReplyView::Affected(1)
                &&& after.orders == before.orders
                &&& after.projects == before.projects
                &&& exists|id: i64|
                    #[trigger] is_free(link_keys(before.links), id) && after.links
                        == before.links.push(
                        LinkRow { id, project: project as i64, product_order: product_order as i64 },
                    )
            },
            StatementView::DeleteLink { id } => {
                &&& after.orders == before.orders
                &&& after.projects == before.projects
                &&& reply matches ReplyView::Affected(n)
                &&& deleted(before.links, link_keys(before.links), id as i64, after.links, n)
            },
            StatementView::SelectLinksOfProject { project } => {
                &&& after == before
                &&& reply matches ReplyView::Links(rows)
                &&& rows.to_multiset() == links_of_project(before.links, project as i64).to_multiset()
            },
            StatementView::SelectLinksOfOrder { product_order } => {
                &&& after == before
                &&& reply matches ReplyView::Links(rows)
                &&& rows.to_multiset() == links_of_order(
                    before.links,
                    product_order as i64,
                ).to_multiset()
            },
            StatementView::CountProjects { id } => {
                &&& after == before
                &&& reply matches ReplyView::Count(n)
                &&& n == occurrences(project_keys(before.projects), id as i64)
            },
            StatementView::CountOrders { id } => {
                &&& after == before
                &&& reply matches ReplyView::Count(n)
                &&& n == occurrences(order_keys(before.orders), id as i64)
            },
            StatementView::CountLinks { project, product_order } => {
                &&& after == before
                &&& reply matches ReplyView::Count(n)
                &&& n == links_of_pair(before.links, project as i64, product_order as i64).len()
            },
        }
    }
}

} // verus!
