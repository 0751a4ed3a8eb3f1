//! Failures of an operation, and the message that the caller is shown.
use vstd::prelude::*;
use vstd::string::*;

verus! {

/// The operations that a caller can ask for.
#[derive(Clone, Copy, Debug, PartialEq, Eq)]
pub enum Operation {
    AddProductOrder,
    GetProductOrders,
    UpdateProductOrder,
    DeleteProductOrder,
    AddProject,
    GetProjects,
    UpdateProject,
    DeleteProject,
    AddProductOrderToProject,
    RemoveProductOrderFromProject,
    LinksForProject,
    LinksForOrder,
}

/// A number that the caller supplies and that has to fit a typed record.
#[derive(Clone, Copy, Debug, PartialEq, Eq)]
pub enum Field {
    OrderNumber,
    Quantity,
    ProjectNumber,
}

/// The side of a link that has no row.
#[derive(Clone, Copy, Debug, PartialEq, Eq)]
pub enum Missing {
    Project,
    ProductOrder,
}

/// Why an operation failed.
#[derive(Debug, PartialEq, Eq)]
pub enum DataError {
    /// The caller's data was rejected before the store was touched.
    Validation(Field),
    /// The store failed, or held something that no record can carry; the
    /// text says what.
    Store(String),
    /// A link was asked for to a row that does not exist.
    Referential(Missing),
}

/// Mathematical content of a [`DataError`].
pub enum DataErrorView {
    Validation(Field),
    Store(Seq<char>),
    Referential(Missing),
}

impl View for DataError {
    type V = DataErrorView;

    open spec fn view(&self) -> DataErrorView {
        match self {
            DataError::Validation(field) => DataErrorView::Validation(*field),
            DataError::Store(cause) => DataErrorView::Store(cause@),
            DataError::Referential(missing) => DataErrorView::Referential(*missing),
        }
    }
}

/// The cause reported when a stored number does not fit a typed record.
pub open spec fn out_of_range() -> Seq<char> {
    "a stored number does not fit the record"@
}

/// The cause reported when the store answers with the wrong kind of reply.
pub open spec fn unexpected_reply() -> Seq<char> {
    "the store answered with the wrong kind of reply"@
}

impl Operation {
    /// The words that open the message of a failure of this operation.
    pub open spec fn prefix(self) -> Seq<char> {
        match self {
            Operation::AddProductOrder => "Error saving product order: "@,
            Operation::GetProductOrders => "Failed to get product orders "@,
            Operation::UpdateProductOrder => "could not update product order "@,
            Operation::DeleteProductOrder => "could not delete product order "@,
            Operation::AddProject => "Error saving project: "@,
            Operation::GetProjects => "Failed to get projects "@,
            Operation::UpdateProject => "could not update project "@,
            Operation::DeleteProject => "could not delete project "@,
            Operation::AddProductOrderToProject => "Error saving product order-project link: "@,
            Operation::RemoveProductOrderFromProject =>
                "Error removing product order-project link: "@,
            Operation::LinksForProject => "Failed to get links of project "@,
            Operation::LinksForOrder => "Failed to get links of product order "@,
        }
    }

    /// The words that open the message of a failure of this operation.
    pub fn describe(&self) -> (text: &'static str)
        ensures
            text@ == self.prefix(),
    {
        match self {
            Operation::AddProductOrder => "Error saving product order: ",
            Operation::GetProductOrders => "Failed to get product orders ",
            Operation::UpdateProductOrder => "could not update product order ",
            Operation::DeleteProductOrder => "could not delete product order ",
            Operation::AddProject => "Error saving project: ",
            Operation::GetProjects => "Failed to get projects ",
            Operation::UpdateProject => "could not update project ",
            Operation::DeleteProject => "could not delete project ",
            Operation::AddProductOrderToProject => "Error saving product order-project link: ",
            Operation::RemoveProductOrderFromProject =>
                "Error removing product order-project link: ",
            Operation::LinksForProject => "Failed to get links of project ",
            Operation::LinksForOrder => "Failed to get links of product order ",
        }
    }
}

impl DataErrorView {
    /// The cause in words.
    pub open spec fn cause(self) -> Seq<char> {
        match self {
            DataErrorView::Validation(Field::OrderNumber) =>
                "order number must be a whole number from 0 to 4294967295"@,
            DataErrorView::Validation(Field::Quantity) =>
                "quantity must be a whole number from 0 to 4294967295"@,
            DataErrorView::Validation(Field::ProjectNumber) =>
                "project number must be a whole number from 0 to 4294967295"@,
            DataErrorView::Store(cause) => cause,
            DataErrorView::Referential(Missing::Project) => "the project does not exist"@,
            DataErrorView::Referential(Missing::ProductOrder) =>
                "the product order does not exist"@,
        }
    }
}

/// The step of startup that failed.
#[derive(Clone, Copy, Debug, PartialEq, Eq)]
pub enum InitStage {
    /// Making the directory that holds the store's file.
    Directory,
    /// Creating the store's file.
    Create,
    /// Opening the store.
    Open,
    /// Bringing the schema up to date.
    Migrate,
}

impl InitStage {
    /// The words that open the message of a failure at this stage.
    pub open spec fn prefix(self) -> Seq<char> {
        match self {
            InitStage::Directory => "error creating directory "@,
            InitStage::Create => "failed to create database: "@,
            InitStage::Open => "failed to open database: "@,
            InitStage::Migrate => "failed to apply migrations: "@,
        }
    }
}

/// The store could not be made ready.  Nothing may be asked of a store
/// after this: startup ends here.
#[derive(Debug, PartialEq, Eq)]
pub struct StoreInitError {
    pub stage: InitStage,
    pub cause: String,
}

impl StoreInitError {
    /// The message to end startup with: the stage's opening words, then the
    /// cause.
    pub fn message(&self) -> (text: String)
        ensures
            text@ == self.stage.prefix() + self.cause@,
    {
        let opening = match self.stage {
            InitStage::Directory => "error creating directory ",
            InitStage::Create => "failed to create database: ",
            InitStage::Open => "failed to open database: ",
            InitStage::Migrate => "failed to apply migrations: ",
        };
        String::from_str(opening).concat(self.cause.as_str())
    }
}

/// An operation that failed, and why.
#[derive(Debug, PartialEq, Eq)]
pub struct Failure {
    pub operation: Operation,
    pub error: DataError,
}

/// Mathematical content of a [`Failure`].
pub struct FailureView {
    pub operation: Operation,
    pub error: DataErrorView,
}

impl View for Failure {
    type V = FailureView;

    open spec fn view(&self) -> FailureView {
        FailureView { operation: self.operation, error: self.error@ }
    }
}

impl FailureView {
    /// The message shown to the caller: the operation's opening words, then
    /// the cause.
    pub open spec fn message(self) -> Seq<char> {
        self.operation.prefix() + self.error.cause()
    }
}

impl Failure {
    /// The message shown to the caller.
    pub fn message(&self) -> (text: String)
        ensures
            text@ == self@.message(),
    {
        let mut text = String::from_str(self.operation.describe());
        match &self.error {
            DataError::Validation(Field::OrderNumber) => text.append(
                "order number must be a whole number from 0 to 4294967295",
            ),
            DataError::Validation(Field::Quantity) => text.append(
                "quantity must be a whole number from 0 to 4294967295",
            ),
            DataError::Validation(Field::ProjectNumber) => text.append(
                "project number must be a whole number from 0 to 4294967295",
            ),
            DataError::Store(cause) => text.append(cause.as_str()),
            DataError::Referential(Missing::Project) => text.append("the project does not exist"),
            DataError::Referential(Missing::ProductOrder) => text.append(
                "the product order does not exist",
            ),
        }
        text
    }
}

} // verus!
