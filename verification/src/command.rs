//! The operations, each as a short conversation with the store.
//!
//! [`Command::begin`] gives the first step of an operation and
//! [`Pending::resume`] the step that follows a reply.  A step either names
//! the next statement to run or ends the operation.  Nothing here waits,
//! retries or remembers anything between operations.
use crate::error::{
    out_of_range, unexpected_reply, DataError, DataErrorView, Failure, FailureView, Field, Missing,
    Operation,
};
use crate::record::{
    is_number, to_number, LinkRow, OrderRow, OrderRowView, Project, ProductOrder,
    ProductOrderProjectLink, ProjectRow,
};
use crate::reply::{order_rows_view, Reply, ReplyView};
use crate::statement::{Statement, StatementView, Table};
use vstd::prelude::*;
use vstd::string::*;

verus! {

/// The choices that the link operations leave to whoever sets the library up.
#[derive(Clone, Copy, Debug, PartialEq, Eq)]
pub struct LinkRules {
    /// Whether an order may be linked to a project that it is linked to
    /// already.  Where it may not, linking again changes nothing and is
    /// reported as `Outcome::AlreadyLinked`.
    pub allow_duplicate_links: bool,
}

/// One request of a caller.
#[derive(Debug, PartialEq, Eq)]
pub enum Command {
    AddProductOrder {
        order_number: i64,
        purchaser: String,
        item: String,
        quantity: i64,
        date_of_order: String,
    },
    GetProductOrders,
    UpdateProductOrder(ProductOrder),
    DeleteProductOrder { id: u32 },
    AddProject { project_number: i64 },
    GetProjects,
    UpdateProject(Project),
    DeleteProject { id: u32 },
    AddProductOrderToProject { project_id: u32, product_order_id: u32 },
    RemoveProductOrderFromProject { id: u32 },
    LinksForProject { project_id: u32 },
    LinksForOrder { product_order_id: u32 },
}

/// Mathematical content of a [`Command`].
pub enum CommandView {
    AddProductOrder {
        order_number: i64,
        purchaser: Seq<char>,
        item: Seq<char>,
        quantity: i64,
        date_of_order: Seq<char>,
    },
    GetProductOrders,
    UpdateProductOrder(OrderRowView),
    DeleteProductOrder { id: u32 },
    AddProject { project_number: i64 },
    GetProjects,
    UpdateProject(ProjectRow),
    DeleteProject { id: u32 },
    AddProductOrderToProject { project_id: u32, product_order_id: u32 },
    RemoveProductOrderFromProject { id: u32 },
    LinksForProject { project_id: u32 },
    LinksForOrder { product_order_id: u32 },
}

impl View for Command {
    type V = CommandView;

    open spec fn view(&self) -> CommandView {
        match self {
            Command::AddProductOrder { order_number, purchaser, item, quantity, date_of_order } => {
                CommandView::AddProductOrder {
                    order_number: *order_number,
                    purchaser: purchaser@,
                    item: item@,
                    quantity: *quantity,
                    date_of_order: date_of_order@,
                }
            },
            Command::GetProductOrders => CommandView::GetProductOrders,
            Command::UpdateProductOrder(order) => CommandView::UpdateProductOrder(order@),
            Command::DeleteProductOrder { id } => CommandView::DeleteProductOrder { id: *id },
            Command::AddProject { project_number } => CommandView::AddProject {
                project_number: *project_number,
            },
            Command::GetProjects => CommandView::GetProjects,
            Command::UpdateProject(project) => CommandView::UpdateProject(project@),
            Command::DeleteProject { id } => CommandView::DeleteProject { id: *id },
            Command::AddProductOrderToProject { project_id, product_order_id } => {
                CommandView::AddProductOrderToProject {
                    project_id: *project_id,
                    product_order_id: *product_order_id,
                }
            },
            Command::RemoveProductOrderFromProject { id } => {
                CommandView::RemoveProductOrderFromProject { id: *id }
            },
            Command::LinksForProject { project_id } => CommandView::LinksForProject {
                project_id: *project_id,
            },
            Command::LinksForOrder { product_order_id } => CommandView::LinksForOrder {
                product_order_id: *product_order_id,
            },
        }
    }
}

/// What an operation that succeeded has done or found.
#[derive(Debug, PartialEq, Eq)]
pub enum Outcome {
    /// A row was inserted.
    Created,
    /// The link existed already and duplicates are not allowed: nothing was
    /// inserted.
    AlreadyLinked,
    /// The row with the given key was overwritten or deleted.
    Changed,
    /// No row has the given key: nothing was changed.
    NotFound,
    Orders(Vec<ProductOrder>),
    Projects(Vec<Project>),
    Links(Vec<ProductOrderProjectLink>),
}

/// Mathematical content of an [`Outcome`].
pub enum OutcomeView {
    Created,
    AlreadyLinked,
    Changed,
    NotFound,
    Orders(Seq<OrderRowView>),
    Projects(Seq<ProjectRow>),
    Links(Seq<LinkRow>),
}

/// The contents of a list of product orders, position by position.
pub open spec fn orders_view(orders: Seq<ProductOrder>) -> Seq<OrderRowView> {
    orders.map_values(|order: ProductOrder| order@)
}

/// The contents of a list of projects, position by position.
pub open spec fn projects_view(projects: Seq<Project>) -> Seq<ProjectRow> {
    projects.map_values(|project: Project| project@)
}

/// The contents of a list of links, position by position.
pub open spec fn links_view(links: Seq<ProductOrderProjectLink>) -> Seq<LinkRow> {
    links.map_values(|link: ProductOrderProjectLink| link@)
}

impl View for Outcome {
    type V = OutcomeView;

    open spec fn view(&self) -> OutcomeView {
        match self {
            Outcome::Created => OutcomeView::Created,
            Outcome::AlreadyLinked => OutcomeView::AlreadyLinked,
            Outcome::Changed => OutcomeView::Changed,
            Outcome::NotFound => OutcomeView::NotFound,
            Outcome::Orders(orders) => OutcomeView::Orders(orders_view(orders@)),
            Outcome::Projects(projects) => OutcomeView::Projects(projects_view(projects@)),
            Outcome::Links(links) => OutcomeView::Links(links_view(links@)),
        }
    }
}

/// The contents of the result of an operation.
pub open spec fn result_view(result: Result<Outcome, Failure>) -> Result<OutcomeView, FailureView> {
    match result {
        Ok(outcome) => Ok(outcome@),
        Err(failure) => Err(failure@),
    }
}

/// What an operation is waiting for while the store runs its statement.
#[derive(Clone, Copy, Debug, PartialEq, Eq)]
pub enum Pending {
    /// The insert of the operation.
    Created(Operation),
    /// The update or delete of the operation.
    Changed(Operation),
    /// The rows of the product order table.
    Orders,
    /// The rows of the project table.
    Projects,
    /// The link rows that the operation asked for.
    Links(Operation),
    /// The number of projects with the key `project_id`, before a link.
    ProjectCounted { project_id: u32, product_order_id: u32, allow_duplicates: bool },
    /// The number of product orders with the key `product_order_id`, before a
    /// link to a project that is known to exist.
    OrderCounted { project_id: u32, product_order_id: u32, allow_duplicates: bool },
    /// The number of links between the two, both of which are known to exist.
    PairCounted { project_id: u32, product_order_id: u32 },
}

/// What to do next in an operation.
#[derive(Debug, PartialEq, Eq)]
pub enum Step {
    /// Run the statement, and hand its reply to `Pending::resume`.
    Execute(Statement, Pending),
    /// The operation is over.
    Finish(Result<Outcome, Failure>),
}

/// Mathematical content of a [`Step`].
pub enum StepView {
    Execute(StatementView, Pending),
    Finish(Result<OutcomeView, FailureView>),
}

impl View for Step {
    type V = StepView;

    open spec fn view(&self) -> StepView {
        match self {
            Step::Execute(statement, pending) => StepView::Execute(statement@, *pending),
            Step::Finish(result) => StepView::Finish(result_view(*result)),
        }
    }
}

/// Whether every product order row fits a typed record.
pub open spec fn orders_typed(rows: Seq<OrderRowView>) -> bool {
    forall|i: int| 0 <= i < rows.len() ==> (#[trigger] rows[i]).is_typed()
}

/// Whether every project row fits a typed record.
pub open spec fn projects_typed(rows: Seq<ProjectRow>) -> bool {
    forall|i: int| 0 <= i < rows.len() ==> (#[trigger] rows[i]).is_typed()
}

/// Whether every link row fits a typed record.
pub open spec fn links_typed(rows: Seq<LinkRow>) -> bool {
    forall|i: int| 0 <= i < rows.len() ==> (#[trigger] rows[i]).is_typed()
}

/// The end of an operation that failed.
pub open spec fn failed(operation: Operation, error: DataErrorView) -> StepView {
    StepView::Finish(Err(FailureView { operation, error }))
}

/// The end of an operation that succeeded.
pub open spec fn done(outcome: OutcomeView) -> StepView {
    StepView::Finish(Ok(outcome))
}

impl CommandView {
    /// The operation that the command asks for.
    pub open spec fn operation(self) -> Operation {
        match self {
            CommandView::AddProductOrder { .. } => Operation::AddProductOrder,
            CommandView::GetProductOrders => Operation::GetProductOrders,
            CommandView::UpdateProductOrder(_) => Operation::UpdateProductOrder,
            CommandView::DeleteProductOrder { .. } => Operation::DeleteProductOrder,
            CommandView::AddProject { .. } => Operation::AddProject,
            CommandView::GetProjects => Operation::GetProjects,
            CommandView::UpdateProject(_) => Operation::UpdateProject,
            CommandView::DeleteProject { .. } => Operation::DeleteProject,
            CommandView::AddProductOrderToProject { .. } => Operation::AddProductOrderToProject,
            CommandView::RemoveProductOrderFromProject { .. } =>
                Operation::RemoveProductOrderFromProject,
            CommandView::LinksForProject { .. } => Operation::LinksForProject,
            CommandView::LinksForOrder { .. } => Operation::LinksForOrder,
        }
    }

    /// The table that the operation adds a row to, if it can add one.
    pub open spec fn inserts_into(self) -> Option<Table> {
        match self {
            CommandView::AddProductOrder { .. } => Some(Table::ProductOrders),
            CommandView::AddProject { .. } => Some(Table::Projects),
            CommandView::AddProductOrderToProject { .. } => Some(Table::Links),
            _ => None,
        }
    }

    /// The number of the command that no typed record can carry, if any.
    pub open spec fn rejected_field(self) -> Option<Field> {
        match self {
            CommandView::AddProductOrder { order_number, quantity, .. } => {
                if !is_number(order_number) {
                    Some(Field::OrderNumber)
                } else if !is_number(quantity) {
                    Some(Field::Quantity)
                } else {
                    None
                }
            },
            CommandView::AddProject { project_number } => {
                if !is_number(project_number) {
                    Some(Field::ProjectNumber)
                } else {
                    None
                }
            },
            _ => None,
        }
    }

    /// The first statement of a command whose numbers are all accepted, and
    /// what the operation then waits for.
    pub open spec fn opening(self, rules: LinkRules) -> (StatementView, Pending) {
        match self {
            CommandView::AddProductOrder { order_number, purchaser, item, quantity, date_of_order } => (
                StatementView::InsertOrder {
                    order_number: order_number as u32,
                    purchaser,
                    item,
                    quantity: quantity as u32,
                    date_of_order,
                },
                Pending::Created(Operation::AddProductOrder),
            ),
            CommandView::GetProductOrders => (StatementView::SelectOrders, Pending::Orders),
            CommandView::UpdateProductOrder(order) => (
                StatementView::UpdateOrder(order),
                Pending::Changed(Operation::UpdateProductOrder),
            ),
            CommandView::DeleteProductOrder { id } => (
                StatementView::DeleteOrder { id },
                Pending::Changed(Operation::DeleteProductOrder),
            ),
            CommandView::AddProject { project_number } => (
                StatementView::InsertProject { project_number: project_number as u32 },
                Pending::Created(Operation::AddProject),
            ),
            CommandView::GetProjects => (StatementView::SelectProjects, Pending::Projects),
            CommandView::UpdateProject(project) => (
                StatementView::UpdateProject(project),
                Pending::Changed(Operation::UpdateProject),
            ),
            CommandView::DeleteProject { id } => (
                StatementView::DeleteProject { id },
                Pending::Changed(Operation::DeleteProject),
            ),
            CommandView::AddProductOrderToProject { project_id, product_order_id } => (
                StatementView::CountProjects { id: project_id },
                Pending::ProjectCounted {
                    project_id,
                    product_order_id,
                    allow_duplicates: rules.allow_duplicate_links,
                },
            ),
            CommandView::RemoveProductOrderFromProject { id } => (
                StatementView::DeleteLink { id },
                Pending::Changed(Operation::RemoveProductOrderFromProject),
            ),
            CommandView::LinksForProject { project_id } => (
                StatementView::SelectLinksOfProject { project: project_id },
                Pending::Links(Operation::LinksForProject),
            ),
            CommandView::LinksForOrder { product_order_id } => (
                StatementView::SelectLinksOfOrder { product_order: product_order_id },
                Pending::Links(Operation::LinksForOrder),
            ),
        }
    }

    /// The first step of the command: a rejection where a number does not
    /// fit, else the opening statement.
    pub open spec fn first_step(self, rules: LinkRules) -> StepView {
        match self.rejected_field() {
            Some(field) => failed(self.operation(), DataErrorView::Validation(field)),
            None => StepView::Execute(self.opening(rules).0, self.opening(rules).1),
        }
    }
}

impl Pending {
    /// The operation that is waiting.
    pub open spec fn operation(self) -> Operation {
        match self {
            Pending::Created(operation) => operation,
            Pending::Changed(operation) => operation,
            Pending::Orders => Operation::GetProductOrders,
            Pending::Projects => Operation::GetProjects,
            Pending::Links(operation) => operation,
            Pending::ProjectCounted { .. } => Operation::AddProductOrderToProject,
            Pending::OrderCounted { .. } => Operation::AddProductOrderToProject,
            Pending::PairCounted { .. } => Operation::AddProductOrderToProject,
        }
    }

    /// How many statements the operation may still run, this one included.
    pub open spec fn rank(self) -> nat {
        match self {
            Pending::ProjectCounted { .. } => 4,
            Pending::OrderCounted { .. } => 3,
            Pending::PairCounted { .. } => 2,
            _ => 1,
        }
    }

    /// The step that follows `reply`.
    ///
    /// A failure of the store ends the operation with the store's own words.
    /// So does a reply of the wrong kind, and rows that no typed record can
    /// carry.  A link is refused where the project or the product order is
    /// not there, the project being looked for first.
    pub open spec fn next_step(self, reply: ReplyView) -> StepView {
        match (self, reply) {
            (_, ReplyView::Failed(cause)) => failed(self.operation(), DataErrorView::Store(cause)),
            (Pending::Created(_), ReplyView::Affected(_)) => done(OutcomeView::Created),
            (Pending::Changed(_), ReplyView::Affected(n)) => if n == 0 {
                done(OutcomeView::NotFound)
            } else {
                done(OutcomeView::Changed)
            },
            (Pending::Orders, ReplyView::Orders(rows)) => if orders_typed(rows) {
                done(OutcomeView::Orders(rows))
            } else {
                failed(self.operation(), DataErrorView::Store(out_of_range()))
            },
            (Pending::Projects, ReplyView::Projects(rows)) => if projects_typed(rows) {
                done(OutcomeView::Projects(rows))
            } else {
                failed(self.operation(), DataErrorView::Store(out_of_range()))
            },
            (Pending::Links(_), ReplyView::Links(rows)) => if links_typed(rows) {
                done(OutcomeView::Links(rows))
            } else {
                failed(self.operation(), DataErrorView::Store(out_of_range()))
            },
            (
                Pending::ProjectCounted { project_id, product_order_id, allow_duplicates },
                ReplyView::Count(n),
            ) => if n <= 0 {
                failed(self.operation(), DataErrorView::Referential(Missing::Project))
            } else {
                StepView::Execute(
                    StatementView::CountOrders { id: product_order_id },
                    Pending::OrderCounted { project_id, product_order_id, allow_duplicates },
                )
            },
            (
                Pending::OrderCounted { project_id, product_order_id, allow_duplicates },
                ReplyView::Count(n),
            ) => if n <= 0 {
                failed(self.operation(), DataErrorView::Referential(Missing::ProductOrder))
            } else if allow_duplicates {
                StepView::Execute(
                    StatementView::InsertLink { project: project_id, product_order: product_order_id },
                    Pending::Created(Operation::AddProductOrderToProject),
                )
            } else {
                StepView::Execute(
                    StatementView::CountLinks { project: project_id, product_order: product_order_id },
                    Pending::PairCounted { project_id, product_order_id },
                )
            },
            (Pending::PairCounted { project_id, product_order_id }, ReplyView::Count(n)) => if n
                > 0 {
                done(OutcomeView::AlreadyLinked)
            } else {
                StepView::Execute(
                    StatementView::InsertLink { project: project_id, product_order: product_order_id },
                    Pending::Created(Operation::AddProductOrderToProject),
                )
            },
            _ => failed(self.operation(), DataErrorView::Store(unexpected_reply())),
        }
    }
}

/// The typed records that `rows` hold, if every row fits one.
pub fn decode_orders(rows: &Vec<OrderRow>) -> (orders: Option<Vec<ProductOrder>>)
    ensures
        orders_typed(order_rows_view(rows@)) ==> orders is Some && orders_view(orders.unwrap()@)
            == order_rows_view(rows@),
        !orders_typed(order_rows_view(rows@)) ==> orders is None,
{
    let mut orders: Vec<ProductOrder> = Vec::new();
    let mut i: usize = 0;
    while i < rows.len()
        invariant
            i <= rows@.len(),
            orders@.len() == i,
            forall|j: int| 0 <= j < i ==> (#[trigger] rows@[j])@.is_typed(),
            forall|j: int| 0 <= j < i ==> (#[trigger] orders@[j])@ == rows@[j]@,
        decreases rows@.len() - i,
    {
        match rows[i].clone().into_record() {
            Some(order) => orders.push(order),
            None => {
                assert(!order_rows_view(rows@)[i as int].is_typed());
                return None;
            },
        }
        i += 1;
    }
    assert(orders_view(orders@) =~= order_rows_view(rows@));
    Some(orders)
}

/// The typed records that `rows` hold, if every row fits one.
pub fn decode_projects(rows: &Vec<ProjectRow>) -> (projects: Option<Vec<Project>>)
    ensures
        projects_typed(rows@) ==> projects is Some && projects_view(projects.unwrap()@) == rows@,
        !projects_typed(rows@) ==> projects is None,
{
    let mut projects: Vec<Project> = Vec::new();
    let mut i: usize = 0;
    while i < rows.len()
        invariant
            i <= rows@.len(),
            projects@.len() == i,
            forall|j: int| 0 <= j < i ==> (#[trigger] rows@[j]).is_typed(),
            forall|j: int| 0 <= j < i ==> (#[trigger] projects@[j])@ == rows@[j],
        decreases rows@.len() - i,
    {
        match rows[i].into_record() {
            Some(project) => projects.push(project),
            None => {
                return None;
            },
        }
        i += 1;
    }
    assert(projects_view(projects@) =~= rows@);
    Some(projects)
}

/// The typed records that `rows` hold, if every row fits one.
pub fn decode_links(rows: &Vec<LinkRow>) -> (links: Option<Vec<ProductOrderProjectLink>>)
    ensures
        links_typed(rows@) ==> links is Some && links_view(links.unwrap()@) == rows@,
        !links_typed(rows@) ==> links is None,
{
    let mut links: Vec<ProductOrderProjectLink> = Vec::new();
    let mut i: usize = 0;
    while i < rows.len()
        invariant
            i <= rows@.len(),
            links@.len() == i,
            forall|j: int| 0 <= j < i ==> (#[trigger] rows@[j]).is_typed(),
            forall|j: int| 0 <= j < i ==> (#[trigger] links@[j])@ == rows@[j],
        decreases rows@.len() - i,
    {
        match rows[i].into_record() {
            Some(link) => links.push(link),
            None => {
                return None;
            },
        }
        i += 1;
    }
    assert(links_view(links@) =~= rows@);
    Some(links)
}

fn fail(operation: Operation, error: DataError) -> (step: Step)
    ensures
        step@ == failed(operation, error@),
{
    Step::Finish(Err(Failure { operation, error }))
}

impl Command {
    /// The first step of the operation that the command asks for.
    pub fn begin(self, rules: &LinkRules) -> (step: Step)
        ensures
            step@ == self@.first_step(*rules),
    {
        match self {
            Command::AddProductOrder { order_number, purchaser, item, quantity, date_of_order } => {
                match (to_number(order_number), to_number(quantity)) {
                    (None, _) => fail(
                        Operation::AddProductOrder,
                        DataError::Validation(Field::OrderNumber),
                    ),
                    (Some(_), None) => fail(
                        Operation::AddProductOrder,
                        DataError::Validation(Field::Quantity),
                    ),
                    (Some(order_number), Some(quantity)) => Step::Execute(
                        Statement::InsertOrder {
                            order_number,
                            purchaser,
                            item,
                            quantity,
                            date_of_order,
                        },
                        Pending::Created(Operation::AddProductOrder),
                    ),
                }
            },
            Command::GetProductOrders => Step::Execute(Statement::SelectOrders, Pending::Orders),
            Command::UpdateProductOrder(order) => Step::Execute(
                Statement::UpdateOrder(order),
                Pending::Changed(Operation::UpdateProductOrder),
            ),
            Command::DeleteProductOrder { id } => Step::Execute(
                Statement::DeleteOrder { id },
                Pending::Changed(Operation::DeleteProductOrder),
            ),
            Command::AddProject { project_number } => match to_number(project_number) {
                None => fail(Operation::AddProject, DataError::Validation(Field::ProjectNumber)),
                Some(project_number) => Step::Execute(
                    Statement::InsertProject { project_number },
                    Pending::Created(Operation::AddProject),
                ),
            },
            Command::GetProjects => Step::Execute(Statement::SelectProjects, Pending::Projects),
            Command::UpdateProject(project) => Step::Execute(
                Statement::UpdateProject(project),
                Pending::Changed(Operation::UpdateProject),
            ),
            Command::DeleteProject { id } => Step::Execute(
                Statement::DeleteProject { id },
                Pending::Changed(Operation::DeleteProject),
            ),
            Command::AddProductOrderToProject { project_id, product_order_id } => Step::Execute(
                Statement::CountProjects { id: project_id },
                Pending::ProjectCounted {
                    project_id,
                    product_order_id,
                    allow_duplicates: rules.allow_duplicate_links,
                },
            ),
            Command::RemoveProductOrderFromProject { id } => Step::Execute(
                Statement::DeleteLink { id },
                Pending::Changed(Operation::RemoveProductOrderFromProject),
            ),
            Command::LinksForProject { project_id } => Step::Execute(
                Statement::SelectLinksOfProject { project: project_id },
                Pending::Links(Operation::LinksForProject),
            ),
            Command::LinksForOrder { product_order_id } => Step::Execute(
                Statement::SelectLinksOfOrder { product_order: product_order_id },
                Pending::Links(Operation::LinksForOrder),
            ),
        }
    }
}

impl Pending {
    /// The operation that is waiting.
    pub fn waiting_operation(&self) -> (operation: Operation)
        ensures
            operation == self.operation(),
    {
        match self {
            Pending::Created(operation) => *operation,
            Pending::Changed(operation) => *operation,
            Pending::Orders => Operation::GetProductOrders,
            Pending::Projects => Operation::GetProjects,
            Pending::Links(operation) => *operation,
            Pending::ProjectCounted { .. } => Operation::AddProductOrderToProject,
            Pending::OrderCounted { .. } => Operation::AddProductOrderToProject,
            Pending::PairCounted { .. } => Operation::AddProductOrderToProject,
        }
    }

    /// The step that follows the store's reply to the statement that the
    /// operation was waiting for.
    pub fn resume(self, reply: Reply) -> (step: Step)
        ensures
            step@ == self.next_step(reply@),
    {
        let operation = self.waiting_operation();
        match (self, reply) {
            (_, Reply::Failed(cause)) => fail(operation, DataError::Store(cause)),
            (Pending::Created(_), Reply::Affected(_)) => Step::Finish(Ok(Outcome::Created)),
            (Pending::Changed(_), Reply::Affected(n)) => if n == 0 {
                Step::Finish(Ok(Outcome::NotFound))
            } else {
                Step::Finish(Ok(Outcome::Changed))
            },
            (Pending::Orders, Reply::Orders(rows)) => match decode_orders(&rows) {
                Some(orders) => Step::Finish(Ok(Outcome::Orders(orders))),
                None => fail(
                    operation,
                    DataError::Store(String::from_str("a stored number does not fit the record")),
                ),
            },
            (Pending::Projects, Reply::Projects(rows)) => match decode_projects(&rows) {
                Some(projects) => Step::Finish(Ok(Outcome::Projects(projects))),
                None => fail(
                    operation,
                    DataError::Store(String::from_str("a stored number does not fit the record")),
                ),
            },
            (Pending::Links(_), Reply::Links(rows)) => match decode_links(&rows) {
                Some(links) => Step::Finish(Ok(Outcome::Links(links))),
                None => fail(
                    operation,
                    DataError::Store(String::from_str("a stored number does not fit the record")),
                ),
            },
            (
                Pending::ProjectCounted { project_id, product_order_id, allow_duplicates },
                Reply::Count(n),
            ) => if n <= 0 {
                fail(operation, DataError::Referential(Missing::Project))
            } else {
                Step::Execute(
                    Statement::CountOrders { id: product_order_id },
                    Pending::OrderCounted { project_id, product_order_id, allow_duplicates },
                )
            },
            (
                Pending::OrderCounted { project_id, product_order_id, allow_duplicates },
                Reply::Count(n),
            ) => if n <= 0 {
                fail(operation, DataError::Referential(Missing::ProductOrder))
            } else if allow_duplicates {
                Step::Execute(
                    Statement::InsertLink { project: project_id, product_order: product_order_id },
                    Pending::Created(Operation::AddProductOrderToProject),
                )
            } else {
                Step::Execute(
                    Statement::CountLinks { project: project_id, product_order: product_order_id },
                    Pending::PairCounted { project_id, product_order_id },
                )
            },
            (Pending::PairCounted { project_id, product_order_id }, Reply::Count(n)) => if n > 0 {
                Step::Finish(Ok(Outcome::AlreadyLinked))
            } else {
                Step::Execute(
                    Statement::InsertLink { project: project_id, product_order: product_order_id },
                    Pending::Created(Operation::AddProductOrderToProject),
                )
            },
            _ => fail(
                operation,
                DataError::Store(
                    String::from_str("the store answered with the wrong kind of reply"),
                ),
            ),
        }
    }
}

} // verus!
