//! The statements that the operations send to the store: each is an SQL text
//! with positional parameters, and names the shape of the reply it expects.
use crate::record::{OrderRowView, Project, ProductOrder, ProjectRow};
use vstd::prelude::*;

verus! {

/// A value bound to a positional parameter.
#[derive(Debug, PartialEq, Eq)]
pub enum SqlValue {
    Integer(i64),
    Text(String),
}

/// Mathematical content of a [`SqlValue`].
pub enum SqlValueView {
    Integer(i64),
    Text(Seq<char>),
}

impl View for SqlValue {
    type V = SqlValueView;

    open spec fn view(&self) -> SqlValueView {
        match self {
            SqlValue::Integer(n) => SqlValueView::Integer(*n),
            SqlValue::Text(t) => SqlValueView::Text(t@),
        }
    }
}

/// The contents of a list of bound values, position by position.
pub open spec fn values_view(values: Seq<SqlValue>) -> Seq<SqlValueView> {
    values.map_values(|v: SqlValue| v@)
}

/// What a statement hands back when the store has run it.
#[derive(Clone, Copy, Debug, PartialEq, Eq)]
pub enum Shape {
    /// Nothing but the number of rows written.
    Affected,
    /// One row holding one integer.
    Count,
    /// Rows of the product order table.
    Orders,
    /// Rows of the project table.
    Projects,
    /// Rows of the link table.
    Links,
}

/// The three tables of the store.
#[derive(Clone, Copy, Debug, PartialEq, Eq)]
pub enum Table {
    ProductOrders,
    Projects,
    Links,
}

/// One statement for the store.
#[derive(Debug, PartialEq, Eq)]
pub enum Statement {
    InsertOrder {
        order_number: u32,
        purchaser: String,
        item: String,
        quantity: u32,
        date_of_order: String,
    },
    SelectOrders,
    UpdateOrder(ProductOrder),
    DeleteOrder { id: u32 },
    InsertProject { project_number: u32 },
    SelectProjects,
    UpdateProject(Project),
    DeleteProject { id: u32 },
    InsertLink { project: u32, product_order: u32 },
    DeleteLink { id: u32 },
    SelectLinksOfProject { project: u32 },
    SelectLinksOfOrder { product_order: u32 },
    CountProjects { id: u32 },
    CountOrders { id: u32 },
    CountLinks { project: u32, product_order: u32 },
}

/// Mathematical content of a [`Statement`].
pub enum StatementView {
    InsertOrder {
        order_number: u32,
        purchaser: Seq<char>,
        item: Seq<char>,
        quantity: u32,
        date_of_order: Seq<char>,
    },
    SelectOrders,
    UpdateOrder(OrderRowView),
    DeleteOrder { id: u32 },
    InsertProject { project_number: u32 },
    SelectProjects,
    UpdateProject(ProjectRow),
    DeleteProject { id: u32 },
    InsertLink { project: u32, product_order: u32 },
    DeleteLink { id: u32 },
    SelectLinksOfProject { project: u32 },
    SelectLinksOfOrder { product_order: u32 },
    CountProjects { id: u32 },
    CountOrders { id: u32 },
    CountLinks { project: u32, product_order: u32 },
}

impl View for Statement {
    type V = StatementView;

    open spec fn view(&self) -> StatementView {
        match self {
            Statement::InsertOrder { order_number, purchaser, item, quantity, date_of_order } => {
                StatementView::InsertOrder {
                    order_number: *order_number,
                    purchaser: purchaser@,
                    item: item@,
                    quantity: *quantity,
                    date_of_order: date_of_order@,
                }
            },
            Statement::SelectOrders => StatementView::SelectOrders,
            Statement::UpdateOrder(order) => StatementView::UpdateOrder(order@),
            Statement::DeleteOrder { id } => StatementView::DeleteOrder { id: *id },
            Statement::InsertProject { project_number } => StatementView::InsertProject {
                project_number: *project_number,
            },
            Statement::SelectProjects => StatementView::SelectProjects,
            Statement::UpdateProject(project) => StatementView::UpdateProject(project@),
            Statement::DeleteProject { id } => StatementView::DeleteProject { id: *id },
            Statement::InsertLink { project, product_order } => StatementView::InsertLink {
                project: *project,
                product_order: *product_order,
            },
            Statement::DeleteLink { id } => StatementView::DeleteLink { id: *id },
            Statement::SelectLinksOfProject { project } => StatementView::SelectLinksOfProject {
                project: *project,
            },
            Statement::SelectLinksOfOrder { product_order } => StatementView::SelectLinksOfOrder {
                product_order: *product_order,
            },
            Statement::CountProjects { id } => StatementView::CountProjects { id: *id },
            Statement::CountOrders { id } => StatementView::CountOrders { id: *id },
            Statement::CountLinks { project, product_order } => StatementView::CountLinks {
                project: *project,
                product_order: *product_order,
            },
        }
    }
}

impl StatementView {
    /// The SQL text of the statement.
    pub open spec fn sql(self) -> Seq<char> {
        match self {
            StatementView::InsertOrder { .. } =>
                "INSERT INTO product_orders (order_number, purchaser, item, quantity, date_of_order) VALUES (?1, ?2, ?3, ?4, ?5)"@,
            StatementView::SelectOrders => "SELECT * FROM product_orders"@,
            StatementView::UpdateOrder(_) =>
                "UPDATE product_orders SET order_number = ?1, purchaser = ?2, item = ?3, quantity = ?4, date_of_order = ?5 WHERE id = ?6"@,
            StatementView::DeleteOrder { .. } => "DELETE FROM product_orders WHERE id = ?1"@,
            StatementView::InsertProject { .. } =>
                "INSERT INTO projects (project_number) VALUES (?1)"@,
            StatementView::SelectProjects => "SELECT * FROM projects"@,
            StatementView::UpdateProject(_) =>
                "UPDATE projects SET project_number = ?1 WHERE id = ?2"@,
            StatementView::DeleteProject { .. } => "DELETE FROM projects WHERE id = ?1"@,
            StatementView::InsertLink { .. } =>
                "INSERT INTO product_order_project_links (project, product_order) VALUES (?1, ?2)"@,
            StatementView::DeleteLink { .. } =>
                "DELETE FROM product_order_project_links WHERE id = ?1"@,
            StatementView::SelectLinksOfProject { .. } =>
                "SELECT * FROM product_order_project_links WHERE project = ?1"@,
            StatementView::SelectLinksOfOrder { .. } =>
                "SELECT * FROM product_order_project_links WHERE product_order = ?1"@,
            StatementView::CountProjects { .. } => "SELECT COUNT(*) FROM projects WHERE id = ?1"@,
            StatementView::CountOrders { .. } =>
                "SELECT COUNT(*) FROM product_orders WHERE id = ?1"@,
            StatementView::CountLinks { .. } =>
                "SELECT COUNT(*) FROM product_order_project_links WHERE project = ?1 AND product_order = ?2"@,
        }
    }

    /// The values bound to `?1`, `?2`, ... in that order.
    pub open spec fn parameters(self) -> Seq<SqlValueView> {
        match self {
            StatementView::InsertOrder { order_number, purchaser, item, quantity, date_of_order } =>
                seq![
                    SqlValueView::Integer(order_number as i64),
                    SqlValueView::Text(purchaser),
                    SqlValueView::Text(item),
                    SqlValueView::Integer(quantity as i64),
                    SqlValueView::Text(date_of_order),
                ],
            StatementView::UpdateOrder(order) => seq![
                SqlValueView::Integer(order.order_number),
                SqlValueView::Text(order.purchaser),
                SqlValueView::Text(order.item),
                SqlValueView::Integer(order.quantity),
                SqlValueView::Text(order.date_of_order),
                SqlValueView::Integer(order.id),
            ],
            StatementView::InsertProject { project_number } => seq![
                SqlValueView::Integer(project_number as i64),
            ],
            StatementView::UpdateProject(project) => seq![
                SqlValueView::Integer(project.project_number),
                SqlValueView::Integer(project.id),
            ],
            StatementView::InsertLink { project, product_order } => seq![
                SqlValueView::Integer(project as i64),
                SqlValueView::Integer(product_order as i64),
            ],
            StatementView::CountLinks { project, product_order } => seq![
                SqlValueView::Integer(project as i64),
                SqlValueView::Integer(product_order as i64),
            ],
            StatementView::DeleteOrder { id } => seq![SqlValueView::Integer(id as i64)],
            StatementView::DeleteProject { id } => seq![SqlValueView::Integer(id as i64)],
            StatementView::DeleteLink { id } => seq![SqlValueView::Integer(id as i64)],
            StatementView::CountProjects { id } => seq![SqlValueView::Integer(id as i64)],
            StatementView::CountOrders { id } => seq![SqlValueView::Integer(id as i64)],
            StatementView::SelectLinksOfProject { project } => seq![
                SqlValueView::Integer(project as i64),
            ],
            StatementView::SelectLinksOfOrder { product_order } => seq![
                SqlValueView::Integer(product_order as i64),
            ],
            StatementView::SelectOrders => seq![],
            StatementView::SelectProjects => seq![],
        }
    }

    /// The table that the statement adds a row to, if it adds one.
    pub open spec fn inserts_into(self) -> Option<Table> {
        match self {
            StatementView::InsertOrder { .. } => Some(Table::ProductOrders),
            StatementView::InsertProject { .. } => Some(Table::Projects),
            StatementView::InsertLink { .. } => Some(Table::Links),
            _ => None,
        }
    }

    /// What the store hands back for the statement.
    pub open spec fn shape(self) -> Shape {
        match self {
            StatementView::SelectOrders => Shape::Orders,
            StatementView::SelectProjects => Shape::Projects,
            StatementView::SelectLinksOfProject { .. } => Shape::Links,
            StatementView::SelectLinksOfOrder { .. } => Shape::Links,
            StatementView::CountProjects { .. } => Shape::Count,
            StatementView::CountOrders { .. } => Shape::Count,
            StatementView::CountLinks { .. } => Shape::Count,
            _ => Shape::Affected,
        }
    }
}

impl Statement {
    /// The SQL text to prepare.
    pub fn sql(&self) -> (text: &'static str)
        ensures
            text@ == self@.sql(),
    {
        match self {
            Statement::InsertOrder { .. } =>
                "INSERT INTO product_orders (order_number, purchaser, item, quantity, date_of_order) VALUES (?1, ?2, ?3, ?4, ?5)",
            Statement::SelectOrders => "SELECT * FROM product_orders",
            Statement::UpdateOrder(_) =>
                "UPDATE product_orders SET order_number = ?1, purchaser = ?2, item = ?3, quantity = ?4, date_of_order = ?5 WHERE id = ?6",
            Statement::DeleteOrder { .. } => "DELETE FROM product_orders WHERE id = ?1",
            Statement::InsertProject { .. } => "INSERT INTO projects (project_number) VALUES (?1)",
            Statement::SelectProjects => "SELECT * FROM projects",
            Statement::UpdateProject(_) => "UPDATE projects SET project_number = ?1 WHERE id = ?2",
            Statement::DeleteProject { .. } => "DELETE FROM projects WHERE id = ?1",
            Statement::InsertLink { .. } =>
                "INSERT INTO product_order_project_links (project, product_order) VALUES (?1, ?2)",
            Statement::DeleteLink { .. } => "DELETE FROM product_order_project_links WHERE id = ?1",
            Statement::SelectLinksOfProject { .. } =>
                "SELECT * FROM product_order_project_links WHERE project = ?1",
            Statement::SelectLinksOfOrder { .. } =>
                "SELECT * FROM product_order_project_links WHERE product_order = ?1",
            Statement::CountProjects { .. } => "SELECT COUNT(*) FROM projects WHERE id = ?1",
            Statement::CountOrders { .. } => "SELECT COUNT(*) FROM product_orders WHERE id = ?1",
            Statement::CountLinks { .. } =>
                "SELECT COUNT(*) FROM product_order_project_links WHERE project = ?1 AND product_order = ?2",
        }
    }

    /// The values to bind, in the order of their positions.
    pub fn parameters(&self) -> (values: Vec<SqlValue>)
        ensures
            values_view(values@) == self@.parameters(),
    {
        let mut values: Vec<SqlValue> = Vec::new();
        match self {
            Statement::InsertOrder { order_number, purchaser, item, quantity, date_of_order } => {
                values.push(SqlValue::Integer(*order_number as i64));
                values.push(SqlValue::Text(purchaser.clone()));
                values.push(SqlValue::Text(item.clone()));
                values.push(SqlValue::Integer(*quantity as i64));
                values.push(SqlValue::Text(date_of_order.clone()));
            },
            Statement::UpdateOrder(order) => {
                values.push(SqlValue::Integer(order.order_number as i64));
                values.push(SqlValue::Text(order.purchaser.clone()));
                values.push(SqlValue::Text(order.item.clone()));
                values.push(SqlValue::Integer(order.quantity as i64));
                values.push(SqlValue::Text(order.date_of_order.clone()));
                values.push(SqlValue::Integer(order.id as i64));
            },
            Statement::InsertProject { project_number } => {
                values.push(SqlValue::Integer(*project_number as i64));
            },
            Statement::UpdateProject(project) => {
                values.push(SqlValue::Integer(project.project_number as i64));
                values.push(SqlValue::Integer(project.id as i64));
            },
            Statement::InsertLink { project, product_order } => {
                values.push(SqlValue::Integer(*project as i64));
                values.push(SqlValue::Integer(*product_order as i64));
            },
            Statement::CountLinks { project, product_order } => {
                values.push(SqlValue::Integer(*project as i64));
                values.push(SqlValue::Integer(*product_order as i64));
            },
            Statement::DeleteOrder { id } => {
                values.push(SqlValue::Integer(*id as i64));
            },
            Statement::DeleteProject { id } => {
                values.push(SqlValue::Integer(*id as i64));
            },
            Statement::DeleteLink { id } => {
                values.push(SqlValue::Integer(*id as i64));
            },
            Statement::CountProjects { id } => {
                values.push(SqlValue::Integer(*id as i64));
            },
            Statement::CountOrders { id } => {
                values.push(SqlValue::Integer(*id as i64));
            },
            Statement::SelectLinksOfProject { project } => {
                values.push(SqlValue::Integer(*project as i64));
            },
            Statement::SelectLinksOfOrder { product_order } => {
                values.push(SqlValue::Integer(*product_order as i64));
            },
            Statement::SelectOrders => {},
            Statement::SelectProjects => {},
        }
        assert(values_view(values@) =~= self@.parameters());
        values
    }

    /// The shape of the reply to read back.
    pub fn shape(&self) -> (shape: Shape)
        ensures
            shape == self@.shape(),
    {
        match self {
            Statement::SelectOrders => Shape::Orders,
            Statement::SelectProjects => Shape::Projects,
            Statement::SelectLinksOfProject { .. } => Shape::Links,
            Statement::SelectLinksOfOrder { .. } => Shape::Links,
            Statement::CountProjects { .. } => Shape::Count,
            Statement::CountOrders { .. } => Shape::Count,
            Statement::CountLinks { .. } => Shape::Count,
            _ => Shape::Affected,
        }
    }
}

} // verus!
