use order_store::command::{decode_links, decode_orders, decode_projects, Pending};
use order_store::error::{InitStage, Operation, StoreInitError};
use order_store::record::{
    LinkRow, OrderRow, Project, ProductOrder, ProductOrderProjectLink, ProjectRow,
};
use order_store::schema::{migrations, store_file_name, store_url};
use order_store::statement::{Shape, SqlValue, Statement};

fn sample_order() -> ProductOrder {
    ProductOrder {
        id: 11,
        order_number: 7,
        purchaser: "Acme".to_string(),
        item: "Widget".to_string(),
        quantity: 3,
        date_of_order: "2024-01-01".to_string(),
    }
}

#[test]
fn insert_order_binds_the_five_fields_in_order() {
    let statement = Statement::InsertOrder {
        order_number: 7,
        purchaser: "Acme".to_string(),
        item: "Widget".to_string(),
        quantity: 3,
        date_of_order: "2024-01-01".to_string(),
    };
    assert_eq!(
        statement.sql(),
        "INSERT INTO product_orders (order_number, purchaser, item, quantity, date_of_order) VALUES (?1, ?2, ?3, ?4, ?5)"
    );
    assert_eq!(
        statement.parameters(),
        vec![
            SqlValue::Integer(7),
            SqlValue::Text("Acme".to_string()),
            SqlValue::Text("Widget".to_string()),
            SqlValue::Integer(3),
            SqlValue::Text("2024-01-01".to_string()),
        ]
    );
    assert_eq!(statement.shape(), Shape::Affected);
}

#[test]
fn update_order_binds_the_key_last() {
    let statement = Statement::UpdateOrder(sample_order());
    assert_eq!(
        statement.sql(),
        "UPDATE product_orders SET order_number = ?1, purchaser = ?2, item = ?3, quantity = ?4, date_of_order = ?5 WHERE id = ?6"
    );
    assert_eq!(
        statement.parameters(),
        vec![
            SqlValue::Integer(7),
            SqlValue::Text("Acme".to_string()),
            SqlValue::Text("Widget".to_string()),
            SqlValue::Integer(3),
            SqlValue::Text("2024-01-01".to_string()),
            SqlValue::Integer(11),
        ]
    );
    assert_eq!(statement.shape(), Shape::Affected);
}

#[test]
fn order_statements_have_their_texts() {
    assert_eq!(Statement::SelectOrders.sql(), "SELECT * FROM product_orders");
    assert_eq!(Statement::SelectOrders.parameters(), vec![]);
    assert_eq!(Statement::SelectOrders.shape(), Shape::Orders);
    let delete = Statement::DeleteOrder { id: 4294967295 };
    assert_eq!(delete.sql(), "DELETE FROM product_orders WHERE id = ?1");
    assert_eq!(delete.parameters(), vec![SqlValue::Integer(4294967295)]);
    assert_eq!(delete.shape(), Shape::Affected);
    let count = Statement::CountOrders { id: 5 };
    assert_eq!(count.sql(), "SELECT COUNT(*) FROM product_orders WHERE id = ?1");
    assert_eq!(count.parameters(), vec![SqlValue::Integer(5)]);
    assert_eq!(count.shape(), Shape::Count);
}

#[test]
fn project_statements_have_their_texts() {
    let insert = Statement::InsertProject { project_number: 42 };
    assert_eq!(insert.sql(), "INSERT INTO projects (project_number) VALUES (?1)");
    assert_eq!(insert.parameters(), vec![SqlValue::Integer(42)]);
    assert_eq!(Statement::SelectProjects.sql(), "SELECT * FROM projects");
    assert_eq!(Statement::SelectProjects.shape(), Shape::Projects);
    let update = Statement::UpdateProject(Project { id: 3, project_number: 43 });
    assert_eq!(update.sql(), "UPDATE projects SET project_number = ?1 WHERE id = ?2");
    assert_eq!(update.parameters(), vec![SqlValue::Integer(43), SqlValue::Integer(3)]);
    let delete = Statement::DeleteProject { id: 3 };
    assert_eq!(delete.sql(), "DELETE FROM projects WHERE id = ?1");
    assert_eq!(delete.parameters(), vec![SqlValue::Integer(3)]);
    let count = Statement::CountProjects { id: 3 };
    assert_eq!(count.sql(), "SELECT COUNT(*) FROM projects WHERE id = ?1");
    assert_eq!(count.shape(), Shape::Count);
}

#[test]
fn link_statements_have_their_texts() {
    let insert = Statement::InsertLink { project: 1, product_order: 2 };
    assert_eq!(
        insert.sql(),
        "INSERT INTO product_order_project_links (project, product_order) VALUES (?1, ?2)"
    );
    assert_eq!(insert.parameters(), vec![SqlValue::Integer(1), SqlValue::Integer(2)]);
    let delete = Statement::DeleteLink { id: 9 };
    assert_eq!(delete.sql(), "DELETE FROM product_order_project_links WHERE id = ?1");
    assert_eq!(delete.parameters(), vec![SqlValue::Integer(9)]);
    let of_project = Statement::SelectLinksOfProject { project: 1 };
    assert_eq!(of_project.sql(), "SELECT * FROM product_order_project_links WHERE project = ?1");
    assert_eq!(of_project.parameters(), vec![SqlValue::Integer(1)]);
    assert_eq!(of_project.shape(), Shape::Links);
    let of_order = Statement::SelectLinksOfOrder { product_order: 2 };
    assert_eq!(
        of_order.sql(),
        "SELECT * FROM product_order_project_links WHERE product_order = ?1"
    );
    assert_eq!(of_order.parameters(), vec![SqlValue::Integer(2)]);
    assert_eq!(of_order.shape(), Shape::Links);
    let count = Statement::CountLinks { project: 1, product_order: 2 };
    assert_eq!(
        count.sql(),
        "SELECT COUNT(*) FROM product_order_project_links WHERE project = ?1 AND product_order = ?2"
    );
    assert_eq!(count.parameters(), vec![SqlValue::Integer(1), SqlValue::Integer(2)]);
    assert_eq!(count.shape(), Shape::Count);
}

#[test]
fn store_is_addressed_by_its_path() {
    assert_eq!(store_file_name(), "db.sqlite");
    assert_eq!(store_url("/data/app/db.sqlite"), "sqlite:/data/app/db.sqlite");
    assert_eq!(store_url(""), "sqlite:");
}

#[test]
fn schema_has_three_migrations_in_order() {
    let list = migrations();
    assert_eq!(list.len(), 3);
    assert_eq!(list[0].version, 1);
    assert_eq!(list[1].version, 2);
    assert_eq!(list[2].version, 3);
    assert_eq!(list[0].description, "create product orders");
    assert!(list[0].sql.starts_with("CREATE TABLE product_orders ("));
    assert!(list[1].sql.starts_with("CREATE TABLE projects ("));
    assert!(list[2].sql.starts_with("CREATE TABLE product_order_project_links ("));
}

#[test]
fn startup_failures_name_their_stage() {
    let cases = [
        (InitStage::Directory, "error creating directory permission denied"),
        (InitStage::Create, "failed to create database: permission denied"),
        (InitStage::Open, "failed to open database: permission denied"),
        (InitStage::Migrate, "failed to apply migrations: permission denied"),
    ];
    for (stage, expected) in cases {
        let error = StoreInitError { stage, cause: "permission denied".to_string() };
        assert_eq!(error.message(), expected);
    }
}

#[test]
fn waiting_operation_is_the_one_that_began() {
    assert_eq!(Pending::Orders.waiting_operation(), Operation::GetProductOrders);
    assert_eq!(Pending::Projects.waiting_operation(), Operation::GetProjects);
    assert_eq!(
        Pending::Links(Operation::LinksForOrder).waiting_operation(),
        Operation::LinksForOrder
    );
    assert_eq!(
        Pending::Created(Operation::AddProject).waiting_operation(),
        Operation::AddProject
    );
    assert_eq!(
        Pending::Changed(Operation::DeleteProductOrder).waiting_operation(),
        Operation::DeleteProductOrder
    );
    assert_eq!(
        Pending::PairCounted { project_id: 1, product_order_id: 2 }.waiting_operation(),
        Operation::AddProductOrderToProject
    );
}

#[test]
fn rows_are_decoded_in_their_order_or_not_at_all() {
    let rows = vec![
        ProjectRow { id: 2, project_number: 20 },
        ProjectRow { id: 1, project_number: 10 },
    ];
    assert_eq!(
        decode_projects(&rows),
        Some(vec![Project { id: 2, project_number: 20 }, Project { id: 1, project_number: 10 }])
    );
    let rows = vec![
        ProjectRow { id: 2, project_number: 20 },
        ProjectRow { id: 4294967296, project_number: 10 },
    ];
    assert_eq!(decode_projects(&rows), None);
    assert_eq!(decode_projects(&vec![]), Some(vec![]));
    let rows = vec![LinkRow { id: 3, project: 2, product_order: 1 }];
    assert_eq!(
        decode_links(&rows),
        Some(vec![ProductOrderProjectLink { id: 3, project: 2, product_order: 1 }])
    );
    assert_eq!(decode_links(&vec![LinkRow { id: 3, project: -2, product_order: 1 }]), None);
    let row = OrderRow {
        id: 1,
        order_number: 7,
        purchaser: "Acme".to_string(),
        item: "Widget".to_string(),
        quantity: 3,
        date_of_order: "2024-01-01".to_string(),
    };
    assert_eq!(decode_orders(&vec![row.clone()]), Some(vec![sample_order_with_key(1)]));
    assert_eq!(decode_orders(&vec![row.clone(), OrderRow { id: -1, ..row }]), None);
}

fn sample_order_with_key(id: u32) -> ProductOrder {
    ProductOrder { id, ..sample_order() }
}
