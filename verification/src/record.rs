//! The three kinds of record, as the store holds them and as callers see them.
//!
//! A *row* is what a table holds: 64-bit integers and text.  A typed record
//! (`ProductOrder`, `Project`, `ProductOrderProjectLink`) is a row whose
//! integers all fit in 32 unsigned bits.
use vstd::prelude::*;

verus! {

/// Largest integer a typed record can carry.
pub const MAX_NUMBER: i64 = 4_294_967_295;

/// Whether `value` can stand in a typed record.
pub open spec fn is_number(value: i64) -> bool {
    0 <= value <= MAX_NUMBER
}

/// Narrows `value` to the 32 unsigned bits of a typed record.
pub fn to_number(value: i64) -> (number: Option<u32>)
    ensures
        is_number(value) ==> number == Some(value as u32) && number.unwrap() as i64 == value,
        !is_number(value) ==> number is None,
{
    if 0 <= value && value <= MAX_NUMBER {
        Some(value as u32)
    } else {
        None
    }
}

/// Mathematical content of a product order row.
pub struct OrderRowView {
    pub id: i64,
    pub order_number: i64,
    pub purchaser: Seq<char>,
    pub item: Seq<char>,
    pub quantity: i64,
    pub date_of_order: Seq<char>,
}

impl OrderRowView {
    /// Whether every integer of the row fits a typed record.
    pub open spec fn is_typed(self) -> bool {
        is_number(self.id) && is_number(self.order_number) && is_number(self.quantity)
    }
}

/// A product order row as the store holds it.
#[derive(Debug, PartialEq, Eq)]
pub struct OrderRow {
    pub id: i64,
    pub order_number: i64,
    pub purchaser: String,
    pub item: String,
    pub quantity: i64,
    pub date_of_order: String,
}

impl View for OrderRow {
    type V = OrderRowView;

    open spec fn view(&self) -> OrderRowView {
        OrderRowView {
            id: self.id,
            order_number: self.order_number,
            purchaser: self.purchaser@,
            item: self.item@,
            quantity: self.quantity,
            date_of_order: self.date_of_order@,
        }
    }
}

impl Clone for OrderRow {
    fn clone(&self) -> (copy: Self)
        ensures
            copy@ == self@,
    {
        OrderRow {
            id: self.id,
            order_number: self.order_number,
            purchaser: self.purchaser.clone(),
            item: self.item.clone(),
            quantity: self.quantity,
            date_of_order: self.date_of_order.clone(),
        }
    }
}

impl OrderRow {
    /// The typed record that this row holds, if its integers fit one.
    pub fn into_record(self) -> (record: Option<ProductOrder>)
        ensures
            self@.is_typed() ==> record is Some && record.unwrap()@ == self@,
            !self@.is_typed() ==> record is None,
    {
        let id = to_number(self.id);
        let order_number = to_number(self.order_number);
        let quantity = to_number(self.quantity);
        match (id, order_number, quantity) {
            (Some(id), Some(order_number), Some(quantity)) => Some(
                ProductOrder {
                    id,
                    order_number,
                    purchaser: self.purchaser,
                    item: self.item,
                    quantity,
                    date_of_order: self.date_of_order,
                },
            ),
            _ => None,
        }
    }
}

/// A purchase order.  `id` is assigned by the store and never changes.
#[derive(Debug, PartialEq, Eq)]
pub struct ProductOrder {
    pub id: u32,
    pub order_number: u32,
    pub purchaser: String,
    pub item: String,
    pub quantity: u32,
    pub date_of_order: String,
}

impl View for ProductOrder {
    type V = OrderRowView;

    open spec fn view(&self) -> OrderRowView {
        OrderRowView {
            id: self.id as i64,
            order_number: self.order_number as i64,
            purchaser: self.purchaser@,
            item: self.item@,
            quantity: self.quantity as i64,
            date_of_order: self.date_of_order@,
        }
    }
}

impl Clone for ProductOrder {
    fn clone(&self) -> (copy: Self)
        ensures
            copy@ == self@,
    {
        ProductOrder {
            id: self.id,
            order_number: self.order_number,
            purchaser: self.purchaser.clone(),
            item: self.item.clone(),
            quantity: self.quantity,
            date_of_order: self.date_of_order.clone(),
        }
    }
}

/// A project row as the store holds it.
#[derive(Clone, Copy, Debug, PartialEq, Eq)]
pub struct ProjectRow {
    pub id: i64,
    pub project_number: i64,
}

impl ProjectRow {
    /// Whether every integer of the row fits a typed record.
    pub open spec fn is_typed(self) -> bool {
        is_number(self.id) && is_number(self.project_number)
    }

    /// The typed record that this row holds, if its integers fit one.
    pub fn into_record(self) -> (record: Option<Project>)
        ensures
            self.is_typed() ==> record is Some && record.unwrap()@ == self,
            !self.is_typed() ==> record is None,
    {
        match (to_number(self.id), to_number(self.project_number)) {
            (Some(id), Some(project_number)) => Some(Project { id, project_number }),
            _ => None,
        }
    }
}

/// A project.  `id` is assigned by the store and never changes.
#[derive(Clone, Copy, Debug, PartialEq, Eq)]
pub struct Project {
    pub id: u32,
    pub project_number: u32,
}

impl View for Project {
    type V = ProjectRow;

    open spec fn view(&self) -> ProjectRow {
        ProjectRow { id: self.id as i64, project_number: self.project_number as i64 }
    }
}

/// A link row as the store holds it.
#[derive(Clone, Copy, Debug, PartialEq, Eq)]
pub struct LinkRow {
    pub id: i64,
    pub project: i64,
    pub product_order: i64,
}

impl LinkRow {
    /// Whether every integer of the row fits a typed record.
    pub open spec fn is_typed(self) -> bool {
        is_number(self.id) && is_number(self.project) && is_number(self.product_order)
    }

    /// The typed record that this row holds, if its integers fit one.
    pub fn into_record(self) -> (record: Option<ProductOrderProjectLink>)
        ensures
            self.is_typed() ==> record is Some && record.unwrap()@ == self,
            !self.is_typed() ==> record is None,
    {
        match (to_number(self.id), to_number(self.project), to_number(self.product_order)) {
            (Some(id), Some(project), Some(product_order)) => Some(
                ProductOrderProjectLink { id, project, product_order },
            ),
            _ => None,
        }
    }
}

/// One edge of the many-to-many association: `product_order` belongs to
/// `project`.  Both are keys; neither is checked again after the link exists.
#[derive(Clone, Copy, Debug, PartialEq, Eq)]
pub struct ProductOrderProjectLink {
    pub id: u32,
    pub project: u32,
    pub product_order: u32,
}

impl View for ProductOrderProjectLink {
    type V = LinkRow;

    open spec fn view(&self) -> LinkRow {
        LinkRow {
            id: self.id as i64,
            project: self.project as i64,
            product_order: self.product_order as i64,
        }
    }
}

} // verus!
