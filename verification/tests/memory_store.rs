use order_store::command::{Command, LinkRules, Outcome, Pending, Step};
use order_store::error::{DataError, Failure, Field, Missing, Operation};
use order_store::memory::MemoryStore;
use order_store::record::{
    to_number, LinkRow, OrderRow, Project, ProductOrder, ProductOrderProjectLink, ProjectRow,
};
use order_store::reply::Reply;
use order_store::statement::Statement;

fn strict() -> LinkRules {
    LinkRules { allow_duplicate_links: false }
}

fn lenient() -> LinkRules {
    LinkRules { allow_duplicate_links: true }
}

fn widget(order_number: i64, quantity: i64) -> Command {
    Command::AddProductOrder {
        order_number,
        purchaser: "Acme".to_string(),
        item: "Widget".to_string(),
        quantity,
        date_of_order: "2024-01-01".to_string(),
    }
}

fn orders_in(store: &mut MemoryStore) -> Vec<ProductOrder> {
    match store.perform(Command::GetProductOrders, &strict()) {
        Ok(Outcome::Orders(orders)) => orders,
        other => panic!("listing product orders gave {:?}", other),
    }
}

fn projects_in(store: &mut MemoryStore) -> Vec<Project> {
    match store.perform(Command::GetProjects, &strict()) {
        Ok(Outcome::Projects(projects)) => projects,
        other => panic!("listing projects gave {:?}", other),
    }
}

fn links_of_project_in(store: &mut MemoryStore, project_id: u32) -> Vec<ProductOrderProjectLink> {
    match store.perform(Command::LinksForProject { project_id }, &strict()) {
        Ok(Outcome::Links(links)) => links,
        other => panic!("listing links gave {:?}", other),
    }
}

fn links_of_order_in(store: &mut MemoryStore, product_order_id: u32) -> Vec<ProductOrderProjectLink> {
    match store.perform(Command::LinksForOrder { product_order_id }, &strict()) {
        Ok(Outcome::Links(links)) => links,
        other => panic!("listing links gave {:?}", other),
    }
}

#[test]
fn empty_store_lists_nothing() {
    let mut store = MemoryStore::new();
    assert_eq!(orders_in(&mut store), vec![]);
    assert_eq!(projects_in(&mut store), vec![]);
    assert_eq!(links_of_project_in(&mut store, 1), vec![]);
    assert_eq!(links_of_order_in(&mut store, 1), vec![]);
}

#[test]
fn added_order_is_the_one_new_record() {
    let mut store = MemoryStore::new();
    assert_eq!(store.perform(widget(1, 1), &strict()), Ok(Outcome::Created));
    let before = orders_in(&mut store);
    assert_eq!(store.perform(widget(7, 3), &strict()), Ok(Outcome::Created));
    let after = orders_in(&mut store);
    assert_eq!(after.len(), before.len() + 1);
    for order in &before {
        assert!(after.contains(order));
    }
    let new: Vec<&ProductOrder> = after.iter().filter(|order| !before.contains(order)).collect();
    assert_eq!(new.len(), 1);
    assert_eq!(new[0].order_number, 7);
    assert_eq!(new[0].purchaser, "Acme");
    assert_eq!(new[0].item, "Widget");
    assert_eq!(new[0].quantity, 3);
    assert_eq!(new[0].date_of_order, "2024-01-01");
    assert!(before.iter().all(|order| order.id != new[0].id));
}

#[test]
fn first_keys_are_one_two_three() {
    let mut store = MemoryStore::new();
    for n in 0..3 {
        assert_eq!(store.perform(widget(n, n), &strict()), Ok(Outcome::Created));
    }
    let ids: Vec<u32> = orders_in(&mut store).iter().map(|order| order.id).collect();
    assert_eq!(ids, vec![1, 2, 3]);
}

#[test]
fn largest_quantity_is_kept() {
    let mut store = MemoryStore::new();
    assert_eq!(store.perform(widget(4294967295, 4294967295), &strict()), Ok(Outcome::Created));
    let orders = orders_in(&mut store);
    assert_eq!(orders[0].quantity, 4294967295);
    assert_eq!(orders[0].order_number, 4294967295);
}

#[test]
fn zero_quantity_is_kept() {
    let mut store = MemoryStore::new();
    assert_eq!(store.perform(widget(0, 0), &strict()), Ok(Outcome::Created));
    assert_eq!(orders_in(&mut store)[0].quantity, 0);
}

#[test]
fn negative_quantity_is_rejected_before_the_store() {
    let step = widget(7, -1).begin(&strict());
    assert_eq!(
        step,
        Step::Finish(Err(Failure {
            operation: Operation::AddProductOrder,
            error: DataError::Validation(Field::Quantity),
        }))
    );
    let mut store = MemoryStore::new();
    let result = store.perform(widget(7, -1), &strict());
    assert_eq!(
        result.unwrap_err().message(),
        "Error saving product order: quantity must be a whole number from 0 to 4294967295"
    );
    assert_eq!(orders_in(&mut store), vec![]);
}

#[test]
fn too_large_quantity_is_rejected() {
    let mut store = MemoryStore::new();
    assert_eq!(
        store.perform(widget(7, 4294967296), &strict()),
        Err(Failure {
            operation: Operation::AddProductOrder,
            error: DataError::Validation(Field::Quantity),
        })
    );
}

#[test]
fn order_number_is_checked_before_quantity() {
    let mut store = MemoryStore::new();
    let failure = store.perform(widget(-5, -1), &strict()).unwrap_err();
    assert_eq!(failure.error, DataError::Validation(Field::OrderNumber));
    assert_eq!(
        failure.message(),
        "Error saving product order: order number must be a whole number from 0 to 4294967295"
    );
}

#[test]
fn project_number_that_does_not_fit_is_rejected() {
    let mut store = MemoryStore::new();
    let failure =
        store.perform(Command::AddProject { project_number: -42 }, &strict()).unwrap_err();
    assert_eq!(failure.operation, Operation::AddProject);
    assert_eq!(failure.error, DataError::Validation(Field::ProjectNumber));
    assert_eq!(
        failure.message(),
        "Error saving project: project number must be a whole number from 0 to 4294967295"
    );
    assert_eq!(projects_in(&mut store), vec![]);
}

#[test]
fn update_is_seen_by_the_next_listing() {
    let mut store = MemoryStore::new();
    store.perform(widget(1, 1), &strict()).unwrap();
    store.perform(widget(2, 2), &strict()).unwrap();
    let listed = orders_in(&mut store);
    let changed = ProductOrder {
        id: listed[1].id,
        order_number: 20,
        purchaser: "Bolt & Co".to_string(),
        item: "Gear".to_string(),
        quantity: 200,
        date_of_order: "2024-02-02".to_string(),
    };
    assert_eq!(
        store.perform(Command::UpdateProductOrder(changed.clone()), &strict()),
        Ok(Outcome::Changed)
    );
    let after = orders_in(&mut store);
    assert_eq!(after.len(), 2);
    assert!(after.contains(&changed));
    assert!(after.contains(&listed[0]));
    assert!(!after.contains(&listed[1]));
}

#[test]
fn project_update_is_seen_by_the_next_listing() {
    let mut store = MemoryStore::new();
    store.perform(Command::AddProject { project_number: 42 }, &strict()).unwrap();
    let id = projects_in(&mut store)[0].id;
    assert_eq!(
        store.perform(Command::UpdateProject(Project { id, project_number: 43 }), &strict()),
        Ok(Outcome::Changed)
    );
    assert_eq!(projects_in(&mut store), vec![Project { id, project_number: 43 }]);
}

#[test]
fn update_of_absent_key_changes_nothing() {
    let mut store = MemoryStore::new();
    store.perform(widget(1, 1), &strict()).unwrap();
    store.perform(Command::AddProject { project_number: 42 }, &strict()).unwrap();
    let orders = orders_in(&mut store);
    let projects = projects_in(&mut store);
    let ghost_order = ProductOrder {
        id: 999,
        order_number: 9,
        purchaser: "Nobody".to_string(),
        item: "Nothing".to_string(),
        quantity: 9,
        date_of_order: "1999-09-09".to_string(),
    };
    assert_eq!(
        store.perform(Command::UpdateProductOrder(ghost_order), &strict()),
        Ok(Outcome::NotFound)
    );
    assert_eq!(
        store.perform(Command::UpdateProject(Project { id: 999, project_number: 1 }), &strict()),
        Ok(Outcome::NotFound)
    );
    assert_eq!(orders_in(&mut store), orders);
    assert_eq!(projects_in(&mut store), projects);
}

#[test]
fn delete_of_absent_key_changes_nothing() {
    let mut store = MemoryStore::new();
    store.perform(widget(1, 1), &strict()).unwrap();
    store.perform(Command::AddProject { project_number: 42 }, &strict()).unwrap();
    store
        .perform(Command::AddProductOrderToProject { project_id: 1, product_order_id: 1 }, &strict())
        .unwrap();
    let orders = orders_in(&mut store);
    let projects = projects_in(&mut store);
    let links = links_of_project_in(&mut store, 1);
    assert_eq!(
        store.perform(Command::DeleteProductOrder { id: 999 }, &strict()),
        Ok(Outcome::NotFound)
    );
    assert_eq!(store.perform(Command::DeleteProject { id: 999 }, &strict()), Ok(Outcome::NotFound));
    assert_eq!(
        store.perform(Command::RemoveProductOrderFromProject { id: 999 }, &strict()),
        Ok(Outcome::NotFound)
    );
    assert_eq!(orders_in(&mut store), orders);
    assert_eq!(projects_in(&mut store), projects);
    assert_eq!(links_of_project_in(&mut store, 1), links);
}

#[test]
fn delete_removes_one_record_and_is_idempotent() {
    let mut store = MemoryStore::new();
    for n in 1..=3 {
        store.perform(widget(n, n), &strict()).unwrap();
    }
    let before = orders_in(&mut store);
    let gone = before[1].clone();
    assert_eq!(
        store.perform(Command::DeleteProductOrder { id: gone.id }, &strict()),
        Ok(Outcome::Changed)
    );
    let after = orders_in(&mut store);
    assert_eq!(after, vec![before[0].clone(), before[2].clone()]);
    assert_eq!(
        store.perform(Command::DeleteProductOrder { id: gone.id }, &strict()),
        Ok(Outcome::NotFound)
    );
    assert_eq!(orders_in(&mut store), after);
}

#[test]
fn deleted_key_is_not_handed_out_again() {
    let mut store = MemoryStore::new();
    store.perform(widget(1, 1), &strict()).unwrap();
    store.perform(widget(2, 2), &strict()).unwrap();
    store.perform(Command::DeleteProductOrder { id: 2 }, &strict()).unwrap();
    store.perform(widget(3, 3), &strict()).unwrap();
    let ids: Vec<u32> = orders_in(&mut store).iter().map(|order| order.id).collect();
    assert_eq!(ids, vec![1, 3]);
}

#[test]
fn link_then_unlink_leaves_no_link() {
    let mut store = MemoryStore::new();
    store.perform(Command::AddProject { project_number: 42 }, &strict()).unwrap();
    store.perform(widget(7, 3), &strict()).unwrap();
    let project_id = projects_in(&mut store)[0].id;
    let product_order_id = orders_in(&mut store)[0].id;
    assert_eq!(
        store.perform(Command::AddProductOrderToProject { project_id, product_order_id }, &strict()),
        Ok(Outcome::Created)
    );
    let links = links_of_project_in(&mut store, project_id);
    assert_eq!(links.len(), 1);
    assert_eq!(
        store.perform(Command::RemoveProductOrderFromProject { id: links[0].id }, &strict()),
        Ok(Outcome::Changed)
    );
    assert_eq!(links_of_project_in(&mut store, project_id), vec![]);
    assert_eq!(links_of_order_in(&mut store, product_order_id), vec![]);
}

#[test]
fn deleting_a_project_leaves_order_and_link() {
    let mut store = MemoryStore::new();
    assert_eq!(
        store.perform(Command::AddProject { project_number: 42 }, &strict()),
        Ok(Outcome::Created)
    );
    assert_eq!(store.perform(widget(7, 3), &strict()), Ok(Outcome::Created));
    let projects = projects_in(&mut store);
    let orders = orders_in(&mut store);
    assert_eq!(projects.len(), 1);
    assert_eq!(projects[0].project_number, 42);
    assert_eq!(orders.len(), 1);
    let pid = projects[0].id;
    let oid = orders[0].id;
    assert_eq!(
        orders[0],
        ProductOrder {
            id: oid,
            order_number: 7,
            purchaser: "Acme".to_string(),
            item: "Widget".to_string(),
            quantity: 3,
            date_of_order: "2024-01-01".to_string(),
        }
    );
    assert_eq!(
        store.perform(
            Command::AddProductOrderToProject { project_id: pid, product_order_id: oid },
            &strict()
        ),
        Ok(Outcome::Created)
    );
    let links = links_of_project_in(&mut store, pid);
    assert_eq!(links.len(), 1);
    assert_eq!(links[0].project, pid);
    assert_eq!(links[0].product_order, oid);
    assert_eq!(store.perform(Command::DeleteProject { id: pid }, &strict()), Ok(Outcome::Changed));
    assert_eq!(projects_in(&mut store), vec![]);
    assert_eq!(orders_in(&mut store), orders);
    assert_eq!(links_of_project_in(&mut store, pid), links);
    assert_eq!(links_of_order_in(&mut store, oid), links);
}

#[test]
fn deleting_an_order_leaves_project_and_link() {
    let mut store = MemoryStore::new();
    store.perform(Command::AddProject { project_number: 42 }, &strict()).unwrap();
    store.perform(widget(7, 3), &strict()).unwrap();
    store
        .perform(Command::AddProductOrderToProject { project_id: 1, product_order_id: 1 }, &strict())
        .unwrap();
    assert_eq!(
        store.perform(Command::DeleteProductOrder { id: 1 }, &strict()),
        Ok(Outcome::Changed)
    );
    assert_eq!(projects_in(&mut store), vec![Project { id: 1, project_number: 42 }]);
    assert_eq!(
        links_of_order_in(&mut store, 1),
        vec![ProductOrderProjectLink { id: 1, project: 1, product_order: 1 }]
    );
}

#[test]
fn link_to_a_missing_project_is_refused() {
    let mut store = MemoryStore::new();
    store.perform(widget(7, 3), &strict()).unwrap();
    let failure = store
        .perform(Command::AddProductOrderToProject { project_id: 5, product_order_id: 1 }, &strict())
        .unwrap_err();
    assert_eq!(failure.operation, Operation::AddProductOrderToProject);
    assert_eq!(failure.error, DataError::Referential(Missing::Project));
    assert_eq!(
        failure.message(),
        "Error saving product order-project link: the project does not exist"
    );
    assert_eq!(links_of_order_in(&mut store, 1), vec![]);
}

#[test]
fn link_to_a_missing_order_is_refused() {
    let mut store = MemoryStore::new();
    store.perform(Command::AddProject { project_number: 42 }, &strict()).unwrap();
    let failure = store
        .perform(Command::AddProductOrderToProject { project_id: 1, product_order_id: 5 }, &strict())
        .unwrap_err();
    assert_eq!(failure.error, DataError::Referential(Missing::ProductOrder));
    assert_eq!(
        failure.message(),
        "Error saving product order-project link: the product order does not exist"
    );
    assert_eq!(links_of_project_in(&mut store, 1), vec![]);
}

#[test]
fn link_with_both_missing_names_the_project() {
    let mut store = MemoryStore::new();
    let failure = store
        .perform(Command::AddProductOrderToProject { project_id: 1, product_order_id: 1 }, &lenient())
        .unwrap_err();
    assert_eq!(failure.error, DataError::Referential(Missing::Project));
}

#[test]
fn second_link_is_not_made_where_duplicates_are_forbidden() {
    let mut store = MemoryStore::new();
    store.perform(Command::AddProject { project_number: 42 }, &strict()).unwrap();
    store.perform(widget(7, 3), &strict()).unwrap();
    let link = Command::AddProductOrderToProject { project_id: 1, product_order_id: 1 };
    assert_eq!(store.perform(link, &strict()), Ok(Outcome::Created));
    let link = Command::AddProductOrderToProject { project_id: 1, product_order_id: 1 };
    assert_eq!(store.perform(link, &strict()), Ok(Outcome::AlreadyLinked));
    assert_eq!(links_of_project_in(&mut store, 1).len(), 1);
}

#[test]
fn second_link_is_made_where_duplicates_are_allowed() {
    let mut store = MemoryStore::new();
    store.perform(Command::AddProject { project_number: 42 }, &lenient()).unwrap();
    store.perform(widget(7, 3), &lenient()).unwrap();
    let link = Command::AddProductOrderToProject { project_id: 1, product_order_id: 1 };
    assert_eq!(store.perform(link, &lenient()), Ok(Outcome::Created));
    let link = Command::AddProductOrderToProject { project_id: 1, product_order_id: 1 };
    assert_eq!(store.perform(link, &lenient()), Ok(Outcome::Created));
    assert_eq!(
        links_of_project_in(&mut store, 1),
        vec![
            ProductOrderProjectLink { id: 1, project: 1, product_order: 1 },
            ProductOrderProjectLink { id: 2, project: 1, product_order: 1 },
        ]
    );
    store.perform(Command::RemoveProductOrderFromProject { id: 1 }, &lenient()).unwrap();
    assert_eq!(
        links_of_project_in(&mut store, 1),
        vec![ProductOrderProjectLink { id: 2, project: 1, product_order: 1 }]
    );
}

#[test]
fn links_are_listed_by_either_end() {
    let mut store = MemoryStore::new();
    store.perform(Command::AddProject { project_number: 1 }, &strict()).unwrap();
    store.perform(Command::AddProject { project_number: 2 }, &strict()).unwrap();
    store.perform(widget(1, 1), &strict()).unwrap();
    store.perform(widget(2, 2), &strict()).unwrap();
    for (project_id, product_order_id) in [(1, 1), (1, 2), (2, 2)] {
        store
            .perform(Command::AddProductOrderToProject { project_id, product_order_id }, &strict())
            .unwrap();
    }
    assert_eq!(
        links_of_project_in(&mut store, 1),
        vec![
            ProductOrderProjectLink { id: 1, project: 1, product_order: 1 },
            ProductOrderProjectLink { id: 2, project: 1, product_order: 2 },
        ]
    );
    assert_eq!(
        links_of_order_in(&mut store, 2),
        vec![
            ProductOrderProjectLink { id: 2, project: 1, product_order: 2 },
            ProductOrderProjectLink { id: 3, project: 2, product_order: 2 },
        ]
    );
    assert_eq!(links_of_project_in(&mut store, 3), vec![]);
}

#[test]
fn link_asks_for_project_then_order_then_pair_then_inserts() {
    let rules = strict();
    let step = Command::AddProductOrderToProject { project_id: 4, product_order_id: 9 }.begin(&rules);
    let pending = match step {
        Step::Execute(Statement::CountProjects { id: 4 }, pending) => pending,
        other => panic!("unexpected first step {:?}", other),
    };
    let pending = match pending.resume(Reply::Count(1)) {
        Step::Execute(Statement::CountOrders { id: 9 }, pending) => pending,
        other => panic!("unexpected second step {:?}", other),
    };
    let pending = match pending.resume(Reply::Count(1)) {
        Step::Execute(Statement::CountLinks { project: 4, product_order: 9 }, pending) => pending,
        other => panic!("unexpected third step {:?}", other),
    };
    let pending = match pending.resume(Reply::Count(0)) {
        Step::Execute(Statement::InsertLink { project: 4, product_order: 9 }, pending) => pending,
        other => panic!("unexpected fourth step {:?}", other),
    };
    assert_eq!(pending.resume(Reply::Affected(1)), Step::Finish(Ok(Outcome::Created)));
}

#[test]
fn link_skips_the_pair_count_where_duplicates_are_allowed() {
    let step =
        Command::AddProductOrderToProject { project_id: 4, product_order_id: 9 }.begin(&lenient());
    let pending = match step {
        Step::Execute(Statement::CountProjects { id: 4 }, pending) => pending,
        other => panic!("unexpected first step {:?}", other),
    };
    let pending = match pending.resume(Reply::Count(1)) {
        Step::Execute(Statement::CountOrders { id: 9 }, pending) => pending,
        other => panic!("unexpected second step {:?}", other),
    };
    assert_eq!(
        pending.resume(Reply::Count(1)),
        Step::Execute(
            Statement::InsertLink { project: 4, product_order: 9 },
            Pending::Created(Operation::AddProductOrderToProject)
        )
    );
}

#[test]
fn store_failure_is_reported_with_the_operation() {
    let step = Pending::Created(Operation::AddProductOrder)
        .resume(Reply::Failed("database is locked".to_string()));
    match step {
        Step::Finish(Err(failure)) => {
            assert_eq!(failure.operation, Operation::AddProductOrder);
            assert_eq!(failure.error, DataError::Store("database is locked".to_string()));
            assert_eq!(failure.message(), "Error saving product order: database is locked");
        },
        other => panic!("unexpected step {:?}", other),
    }
}

#[test]
fn store_failure_ends_a_link_at_any_round() {
    let pending =
        Pending::ProjectCounted { project_id: 1, product_order_id: 2, allow_duplicates: false };
    match pending.resume(Reply::Failed("disk I/O error".to_string())) {
        Step::Finish(Err(failure)) => assert_eq!(
            failure.message(),
            "Error saving product order-project link: disk I/O error"
        ),
        other => panic!("unexpected step {:?}", other),
    }
}

#[test]
fn every_operation_opens_its_message_in_its_own_words() {
    let cases = [
        (Operation::AddProductOrder, "Error saving product order: boom"),
        (Operation::GetProductOrders, "Failed to get product orders boom"),
        (Operation::UpdateProductOrder, "could not update product order boom"),
        (Operation::DeleteProductOrder, "could not delete product order boom"),
        (Operation::AddProject, "Error saving project: boom"),
        (Operation::GetProjects, "Failed to get projects boom"),
        (Operation::UpdateProject, "could not update project boom"),
        (Operation::DeleteProject, "could not delete project boom"),
        (Operation::AddProductOrderToProject, "Error saving product order-project link: boom"),
        (
            Operation::RemoveProductOrderFromProject,
            "Error removing product order-project link: boom",
        ),
        (Operation::LinksForProject, "Failed to get links of project boom"),
        (Operation::LinksForOrder, "Failed to get links of product order boom"),
    ];
    for (operation, expected) in cases {
        let failure = Failure { operation, error: DataError::Store("boom".to_string()) };
        assert_eq!(failure.message(), expected);
    }
}

#[test]
fn stored_number_that_does_not_fit_fails_the_listing() {
    let rows = vec![OrderRow {
        id: 1,
        order_number: 1,
        purchaser: "Acme".to_string(),
        item: "Widget".to_string(),
        quantity: 4294967296,
        date_of_order: "2024-01-01".to_string(),
    }];
    match Pending::Orders.resume(Reply::Orders(rows)) {
        Step::Finish(Err(failure)) => {
            assert_eq!(failure.operation, Operation::GetProductOrders);
            assert_eq!(
                failure.message(),
                "Failed to get product orders a stored number does not fit the record"
            );
        },
        other => panic!("unexpected step {:?}", other),
    }
    let rows = vec![ProjectRow { id: -1, project_number: 1 }];
    match Pending::Projects.resume(Reply::Projects(rows)) {
        Step::Finish(Err(failure)) => assert_eq!(
            failure.message(),
            "Failed to get projects a stored number does not fit the record"
        ),
        other => panic!("unexpected step {:?}", other),
    }
    let rows = vec![LinkRow { id: 1, project: 1, product_order: 1 << 40 }];
    match Pending::Links(Operation::LinksForOrder).resume(Reply::Links(rows)) {
        Step::Finish(Err(failure)) => assert_eq!(
            failure.message(),
            "Failed to get links of product order a stored number does not fit the record"
        ),
        other => panic!("unexpected step {:?}", other),
    }
}

#[test]
fn reply_of_the_wrong_kind_fails_the_operation() {
    match Pending::Orders.resume(Reply::Affected(1)) {
        Step::Finish(Err(failure)) => assert_eq!(
            failure.message(),
            "Failed to get product orders the store answered with the wrong kind of reply"
        ),
        other => panic!("unexpected step {:?}", other),
    }
    match Pending::Changed(Operation::DeleteProject).resume(Reply::Count(1)) {
        Step::Finish(Err(failure)) => assert_eq!(
            failure.message(),
            "could not delete project the store answered with the wrong kind of reply"
        ),
        other => panic!("unexpected step {:?}", other),
    }
}

#[test]
fn rows_written_decide_between_changed_and_not_found() {
    let pending = Pending::Changed(Operation::UpdateProject);
    assert_eq!(pending.resume(Reply::Affected(0)), Step::Finish(Ok(Outcome::NotFound)));
    assert_eq!(pending.resume(Reply::Affected(1)), Step::Finish(Ok(Outcome::Changed)));
}

#[test]
fn numbers_fit_from_zero_to_the_largest() {
    assert_eq!(to_number(-1), None);
    assert_eq!(to_number(0), Some(0));
    assert_eq!(to_number(4294967295), Some(4294967295));
    assert_eq!(to_number(4294967296), None);
    assert_eq!(to_number(i64::MIN), None);
    assert_eq!(to_number(i64::MAX), None);
}

#[test]
fn rows_turn_into_records_when_they_fit() {
    assert_eq!(
        ProjectRow { id: 3, project_number: 42 }.into_record(),
        Some(Project { id: 3, project_number: 42 })
    );
    assert_eq!(ProjectRow { id: 3, project_number: -42 }.into_record(), None);
    assert_eq!(
        LinkRow { id: 1, project: 2, product_order: 3 }.into_record(),
        Some(ProductOrderProjectLink { id: 1, project: 2, product_order: 3 })
    );
    assert_eq!(LinkRow { id: 4294967296, project: 2, product_order: 3 }.into_record(), None);
    let row = OrderRow {
        id: 1,
        order_number: 7,
        purchaser: "Acme".to_string(),
        item: "Widget".to_string(),
        quantity: 3,
        date_of_order: "2024-01-01".to_string(),
    };
    assert_eq!(
        row.clone().into_record(),
        Some(ProductOrder {
            id: 1,
            order_number: 7,
            purchaser: "Acme".to_string(),
            item: "Widget".to_string(),
            quantity: 3,
            date_of_order: "2024-01-01".to_string(),
        })
    );
    assert_eq!(OrderRow { order_number: -7, ..row }.into_record(), None);
}

#[test]
fn memory_store_counts_and_filters_through_statements() {
    let mut store = MemoryStore::new();
    assert_eq!(store.execute(&Statement::InsertProject { project_number: 42 }), Reply::Affected(1));
    assert_eq!(store.execute(&Statement::CountProjects { id: 1 }), Reply::Count(1));
    assert_eq!(store.execute(&Statement::CountProjects { id: 2 }), Reply::Count(0));
    assert_eq!(store.execute(&Statement::CountOrders { id: 1 }), Reply::Count(0));
    assert_eq!(
        store.execute(&Statement::InsertLink { project: 1, product_order: 8 }),
        Reply::Affected(1)
    );
    assert_eq!(
        store.execute(&Statement::InsertLink { project: 1, product_order: 8 }),
        Reply::Affected(1)
    );
    assert_eq!(
        store.execute(&Statement::CountLinks { project: 1, product_order: 8 }),
        Reply::Count(2)
    );
    assert_eq!(
        store.execute(&Statement::CountLinks { project: 8, product_order: 1 }),
        Reply::Count(0)
    );
    assert_eq!(
        store.execute(&Statement::SelectProjects),
        Reply::Projects(vec![ProjectRow { id: 1, project_number: 42 }])
    );
    assert_eq!(store.execute(&Statement::DeleteLink { id: 1 }), Reply::Affected(1));
    assert_eq!(store.execute(&Statement::DeleteLink { id: 1 }), Reply::Affected(0));
    assert_eq!(
        store.execute(&Statement::SelectLinksOfOrder { product_order: 8 }),
        Reply::Links(vec![LinkRow { id: 2, project: 1, product_order: 8 }])
    );
}
