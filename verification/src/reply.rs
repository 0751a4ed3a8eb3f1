//! What the store hands back for one statement.
use crate::record::{LinkRow, OrderRow, OrderRowView, ProjectRow};
use vstd::prelude::*;

verus! {

/// The store's answer to one statement.
#[derive(Debug, PartialEq, Eq)]
pub enum Reply {
    /// The statement ran and wrote this many rows.
    Affected(u64),
    /// The single integer of a counting query.
    Count(i64),
    /// The rows of a query on the product order table, in the store's order.
    Orders(Vec<OrderRow>),
    /// The rows of a query on the project table, in the store's order.
    Projects(Vec<ProjectRow>),
    /// The rows of a query on the link table, in the store's order.
    Links(Vec<LinkRow>),
    /// The store rejected the statement or could not run it; the text is its
    /// own description of the cause.
    Failed(String),
}

/// Mathematical content of a [`Reply`].
pub enum ReplyView {
    Affected(u64),
    Count(i64),
    Orders(Seq<OrderRowView>),
    Projects(Seq<ProjectRow>),
    Links(Seq<LinkRow>),
    Failed(Seq<char>),
}

/// The contents of a list of product order rows, position by position.
pub open spec fn order_rows_view(rows: Seq<OrderRow>) -> Seq<OrderRowView> {
    rows.map_values(|row: OrderRow| row@)
}

impl View for Reply {
    type V = ReplyView;

    open spec fn view(&self) -> ReplyView {
        match self {
            Reply::Affected(n) => ReplyView::Affected(*n),
            Reply::Count(n) => ReplyView::Count(*n),
            Reply::Orders(rows) => ReplyView::Orders(order_rows_view(rows@)),
            Reply::Projects(rows) => ReplyView::Projects(rows@),
            Reply::Links(rows) => ReplyView::Links(rows@),
            Reply::Failed(cause) => ReplyView::Failed(cause@),
        }
    }
}

} // verus!
