//! A store that lives in memory and follows the store's contract to the
//! letter.  It assigns keys from a counter per table, starting at one, and
//! answers queries in the order of insertion.
use crate::command::{
    result_view, Command, CommandView, LinkRules, Outcome, OutcomeView, Step, StepView,
};
use crate::effect::{effect, in_progress, lemma_begin, lemma_resume, reaches_insert};
use crate::error::{DataErrorView, Failure, FailureView};
use crate::model::{
    deleted, in_project, is_free, is_key, joins, link_keys, occurrences, order_keys, project_keys,
    replaced, store_step, with_order, Tables,
};
use crate::record::{LinkRow, OrderRow, OrderRowView, Project, ProductOrder, ProjectRow};
use crate::reply::{order_rows_view, Reply, ReplyView};
use crate::statement::{Statement, StatementView, Table};
use vstd::prelude::*;

verus! {

/// The three tables, held in vectors.
pub struct MemoryStore {
    orders: Vec<OrderRow>,
    projects: Vec<ProjectRow>,
    links: Vec<LinkRow>,
    next_order: i64,
    next_project: i64,
    next_link: i64,
}

impl View for MemoryStore {
    type V = Tables;

    closed spec fn view(&self) -> Tables {
        Tables {
            orders: order_rows_view(self.orders@),
            projects: self.projects@,
            links: self.links@,
        }
    }
}

/// What the store says when a table has no key left to hand out.
pub open spec fn no_key_left() -> Seq<char> {
    "no key is left in the table"@
}

/// Removing an element keeps a sequence free of duplicates.
proof fn lemma_remove_keeps_distinct(keys: Seq<i64>, i: int)
    requires
        keys.no_duplicates(),
        0 <= i < keys.len(),
    ensures
        keys.remove(i).no_duplicates(),
{
    let rest = keys.remove(i);
    assert forall|a: int, b: int| 0 <= a < rest.len() && 0 <= b < rest.len() && a != b implies rest[a]
        != rest[b] by {
        let a0 = if a < i { a } else { a + 1 };
        let b0 = if b < i { b } else { b + 1 };
        assert(rest[a] == keys[a0]);
        assert(rest[b] == keys[b0]);
    }
}

/// Adding a key larger than all others keeps a sequence free of duplicates.
proof fn lemma_push_keeps_distinct(keys: Seq<i64>, key: i64)
    requires
        keys.no_duplicates(),
        forall|i: int| 0 <= i < keys.len() ==> #[trigger] keys[i] < key,
    ensures
        keys.push(key).no_duplicates(),
        !keys.contains(key),
{
}

impl MemoryStore {
    /// Keys are unique, and the counters lie above every key handed out.
    pub closed spec fn wf(&self) -> bool {
        &&& self@.wf()
        &&& self.orders@.len() < self.next_order
        &&& self.projects@.len() < self.next_project
        &&& self.links@.len() < self.next_link
        &&& forall|i: int|
            0 <= i < self.orders@.len() ==> (#[trigger] self.orders@[i]).id < self.next_order
        &&& forall|i: int|
            0 <= i < self.projects@.len() ==> (#[trigger] self.projects@[i]).id < self.next_project
        &&& forall|i: int|
            0 <= i < self.links@.len() ==> (#[trigger] self.links@[i]).id < self.next_link
    }

    /// The next key of each table.
    spec fn counters(&self) -> (i64, i64, i64) {
        (self.next_order, self.next_project, self.next_link)
    }

    /// Whether every key that `table` can hand out has been handed out.
    pub closed spec fn is_full(&self, table: Table) -> bool {
        match table {
            Table::ProductOrders => self.next_order == i64::MAX,
            Table::Projects => self.next_project == i64::MAX,
            Table::Links => self.next_link == i64::MAX,
        }
    }

    /// Whether `command` comes to insert a row into a table that is full.
    pub open spec fn blocks(&self, command: CommandView, rules: LinkRules) -> bool {
        &&& reaches_insert(command, rules, self@)
        &&& command.inserts_into() matches Some(table)
        &&& self.is_full(table)
    }

    /// Whether `statement` adds a row to a table that is full.
    pub open spec fn refuses(&self, statement: StatementView) -> bool {
        statement.inserts_into() matches Some(table) && self.is_full(table)
    }

    /// A well-formed store has unique keys.
    pub proof fn lemma_wf(&self)
        requires
            self.wf(),
        ensures
            self@.wf(),
    {
    }

    /// An empty store.
    pub fn new() -> (store: MemoryStore)
        ensures
            store.wf(),
            store@ == Tables::empty(),
            forall|table: Table| !store.is_full(table),
    {
        let store = MemoryStore {
            orders: Vec::new(),
            projects: Vec::new(),
            links: Vec::new(),
            next_order: 1,
            next_project: 1,
            next_link: 1,
        };
        assert(store@.orders =~= Seq::empty());
        store
    }

    fn find_order(&self, id: i64) -> (found: Option<usize>)
        ensures
            (match found {
                Some(i) => i < self.orders@.len() && order_keys(self@.orders)[i as int] == id,
                None => !order_keys(self@.orders).contains(id),
            }),
    {
        let mut i: usize = 0;
        while i < self.orders.len()
            invariant
                i <= self.orders@.len(),
                forall|j: int| 0 <= j < i ==> (#[trigger] self.orders@[j]).id != id,
            decreases self.orders@.len() - i,
        {
            if self.orders[i].id == id {
                return Some(i);
            }
            i += 1;
        }
        proof {
            let keys = order_keys(self@.orders);
            assert forall|j: int| 0 <= j < keys.len() implies keys[j] != id by {
                assert(keys[j] == self.orders@[j].id);
            }
        }
        None
    }

    fn find_project(&self, id: i64) -> (found: Option<usize>)
        ensures
            (match found {
                Some(i) => i < self.projects@.len() && project_keys(self@.projects)[i as int] == id,
                None => !project_keys(self@.projects).contains(id),
            }),
    {
        let mut i: usize = 0;
        while i < self.projects.len()
            invariant
                i <= self.projects@.len(),
                forall|j: int| 0 <= j < i ==> (#[trigger] self.projects@[j]).id != id,
            decreases self.projects@.len() - i,
        {
            if self.projects[i].id == id {
                return Some(i);
            }
            i += 1;
        }
        proof {
            let keys = project_keys(self@.projects);
            assert forall|j: int| 0 <= j < keys.len() implies keys[j] != id by {
                assert(keys[j] == self.projects@[j].id);
            }
        }
        None
    }

    fn find_link(&self, id: i64) -> (found: Option<usize>)
        ensures
            (match found {
                Some(i) => i < self.links@.len() && link_keys(self@.links)[i as int] == id,
                None => !link_keys(self@.links).contains(id),
            }),
    {
        let mut i: usize = 0;
        while i < self.links.len()
            invariant
                i <= self.links@.len(),
                forall|j: int| 0 <= j < i ==> (#[trigger] self.links@[j]).id != id,
            decreases self.links@.len() - i,
        {
            if self.links[i].id == id {
                return Some(i);
            }
            i += 1;
        }
        proof {
            let keys = link_keys(self@.links);
            assert forall|j: int| 0 <= j < keys.len() implies keys[j] != id by {
                assert(keys[j] == self.links@[j].id);
            }
        }
        None
    }

    fn insert_order(&mut self, row: OrderRow) -> (reply: Reply)
        requires
            old(self).wf(),
        ensures
            final(self).wf(),
            final(self).next_project == old(self).next_project,
            final(self).next_link == old(self).next_link,
            reply is Failed <==> old(self).next_order == i64::MAX,
            reply is Failed ==> final(self)@ == old(self)@ && reply@ == ReplyView::Failed(
                no_key_left(),
            ),
            !(reply is Failed) ==> ({
                &&& reply@ == ReplyView::Affected(1)
                &&& final(self)@.projects == old(self)@.projects
                &&& final(self)@.links == old(self)@.links
                &&& exists|id: i64|
                    #[trigger] is_free(order_keys(old(self)@.orders), id) && final(self)@.orders
                        == old(self)@.orders.push(Self::keyed(row@, id))
            }),
    {
        if self.next_order == i64::MAX {
            return Reply::Failed(String::from_str("no key is left in the table"));
        }
        let id = self.next_order;
        let ghost before = self@;
        let ghost keys = order_keys(self@.orders);
        let stored = OrderRow { id, ..row };
        proof {
            assert forall|i: int| 0 <= i < keys.len() implies #[trigger] keys[i] < id by {
                assert(keys[i] == self.orders@[i].id);
            }
            lemma_push_keeps_distinct(keys, id);
        }
        self.orders.push(stored);
        self.next_order = id + 1;
        proof {
            assert(self@.orders =~= before.orders.push(Self::keyed(row@, id)));
            assert(order_keys(self@.orders) =~= keys.push(id));
            assert(is_free(keys, id));
        }
        Reply::Affected(1)
    }

    fn select_orders(&self) -> (rows: Vec<OrderRow>)
        ensures
            order_rows_view(rows@) == self@.orders,
    {
        let mut rows: Vec<OrderRow> = Vec::new();
        let mut i: usize = 0;
        while i < self.orders.len()
            invariant
                i <= self.orders@.len(),
                rows@.len() == i,
                forall|j: int| 0 <= j < i ==> (#[trigger] rows@[j])@ == self.orders@[j]@,
            decreases self.orders@.len() - i,
        {
            rows.push(self.orders[i].clone());
            i += 1;
        }
        assert(order_rows_view(rows@) =~= self@.orders);
        rows
    }

    fn update_order(&mut self, order: &ProductOrder) -> (affected: u64)
        requires
            old(self).wf(),
        ensures
            final(self).wf(),
            final(self).counters() == old(self).counters(),
            final(self)@.projects == old(self)@.projects,
            final(self)@.links == old(self)@.links,
            replaced(
                old(self)@.orders,
                order_keys(old(self)@.orders),
                order@.id,
                order@,
                final(self)@.orders,
                affected,
            ),
    {
        let ghost before = self@;
        let ghost keys = order_keys(self@.orders);
        match self.find_order(order.id as i64) {
            Some(i) => {
                let row = OrderRow {
                    id: order.id as i64,
                    order_number: order.order_number as i64,
                    purchaser: order.purchaser.clone(),
                    item: order.item.clone(),
                    quantity: order.quantity as i64,
                    date_of_order: order.date_of_order.clone(),
                };
                self.orders.set(i, row);
                proof {
                    assert(self@.orders =~= before.orders.update(i as int, order@));
                    assert(order_keys(self@.orders) =~= keys);
                    assert(keys[i as int] == order@.id);
                }
                1
            },
            None => 0,
        }
    }

    fn delete_order(&mut self, id: i64) -> (affected: u64)
        requires
            old(self).wf(),
        ensures
            final(self).wf(),
            final(self).counters() == old(self).counters(),
            final(self)@.projects == old(self)@.projects,
            final(self)@.links == old(self)@.links,
            deleted(old(self)@.orders, order_keys(old(self)@.orders), id, final(self)@.orders, affected),
    {
        let ghost before = self@;
        let ghost keys = order_keys(self@.orders);
        match self.find_order(id) {
            Some(i) => {
                self.orders.remove(i);
                proof {
                    assert(self@.orders =~= before.orders.remove(i as int));
                    assert(order_keys(self@.orders) =~= keys.remove(i as int));
                    lemma_remove_keeps_distinct(keys, i as int);
                    assert(keys[i as int] == id);
                }
                1
            },
            None => 0,
        }
    }

    fn count_orders(&self, id: i64) -> (n: i64)
        requires
            self.wf(),
        ensures
            n == occurrences(order_keys(self@.orders), id),
    {
        let ghost keys = order_keys(self@.orders);
        let mut n: i64 = 0;
        let mut i: usize = 0;
        assert(keys.take(0) =~= Seq::empty());
        proof {
            reveal(Seq::filter);
        }
        while i < self.orders.len()
            invariant
                i <= self.orders@.len(),
                keys == order_keys(self@.orders),
                self.orders@.len() < i64::MAX,
                0 <= n <= i,
                n == occurrences(keys.take(i as int), id),
            decreases self.orders@.len() - i,
        {
            proof {
                assert(keys.take(i + 1) =~= keys.take(i as int).push(keys[i as int]));
                keys.take(i as int).lemma_filter_push(keys[i as int], is_key(id));
                assert(keys[i as int] == self.orders@[i as int].id);
            }
            if self.orders[i].id == id {
                n += 1;
            }
            i += 1;
        }
        assert(keys.take(i as int) =~= keys);
        n
    }

    fn insert_project(&mut self, project_number: i64) -> (reply: Reply)
        requires
            old(self).wf(),
        ensures
            final(self).wf(),
            final(self).next_order == old(self).next_order,
            final(self).next_link == old(self).next_link,
            reply is Failed <==> old(self).next_project == i64::MAX,
            reply is Failed ==> final(self)@ == old(self)@ && reply@ == ReplyView::Failed(
                no_key_left(),
            ),
            !(reply is Failed) ==> ({
                &&& reply@ == ReplyView::Affected(1)
                &&& final(self)@.orders == old(self)@.orders
                &&& final(self)@.links == old(self)@.links
                &&& exists|id: i64|
                    #[trigger] is_free(project_keys(old(self)@.projects), id)
                        && final(self)@.projects == old(self)@.projects.push(
                        ProjectRow { id, project_number },
                    )
            }),
    {
        if self.next_project == i64::MAX {
            return Reply::Failed(String::from_str("no key is left in the table"));
        }
        let id = self.next_project;
        let ghost before = self@;
        let ghost keys = project_keys(self@.projects);
        proof {
            assert forall|i: int| 0 <= i < keys.len() implies #[trigger] keys[i] < id by {
                assert(keys[i] == self.projects@[i].id);
            }
            lemma_push_keeps_distinct(keys, id);
        }
        self.projects.push(ProjectRow { id, project_number });
        self.next_project = id + 1;
        proof {
            assert(project_keys(self@.projects) =~= keys.push(id));
            assert(is_free(keys, id));
        }
        Reply::Affected(1)
    }

    fn select_projects(&self) -> (rows: Vec<ProjectRow>)
        ensures
            rows@ == self@.projects,
    {
        let mut rows: Vec<ProjectRow> = Vec::new();
        let mut i: usize = 0;
        while i < self.projects.len()
            invariant
                i <= self.projects@.len(),
                rows@ == self.projects@.take(i as int),
            decreases self.projects@.len() - i,
        {
            rows.push(self.projects[i]);
            assert(self.projects@.take(i + 1) =~= self.projects@.take(i as int).push(
                self.projects@[i as int],
            ));
            i += 1;
        }
        assert(self.projects@.take(i as int) =~= self.projects@);
        rows
    }

    fn update_project(&mut self, project: &Project) -> (affected: u64)
        requires
            old(self).wf(),
        ensures
            final(self).wf(),
            final(self).counters() == old(self).counters(),
            final(self)@.orders == old(self)@.orders,
            final(self)@.links == old(self)@.links,
            replaced(
                old(self)@.projects,
                project_keys(old(self)@.projects),
                project@.id,
                project@,
                final(self)@.projects,
                affected,
            ),
    {
        let ghost before = self@;
        let ghost keys = project_keys(self@.projects);
        match self.find_project(project.id as i64) {
            Some(i) => {
                self.projects.set(
                    i,
                    ProjectRow { id: project.id as i64, project_number: project.project_number as i64 },
                );
                proof {
                    assert(self@.projects =~= before.projects.update(i as int, project@));
                    assert(project_keys(self@.projects) =~= keys);
                    assert(keys[i as int] == project@.id);
                }
                1
            },
            None => 0,
        }
    }

    fn delete_project(&mut self, id: i64) -> (affected: u64)
        requires
            old(self).wf(),
        ensures
            final(self).wf(),
            final(self).counters() == old(self).counters(),
            final(self)@.orders == old(self)@.orders,
            final(self)@.links == old(self)@.links,
            deleted(
                old(self)@.projects,
                project_keys(old(self)@.projects),
                id,
                final(self)@.projects,
                affected,
            ),
    {
        let ghost before = self@;
        let ghost keys = project_keys(self@.projects);
        match self.find_project(id) {
            Some(i) => {
                self.projects.remove(i);
                proof {
                    assert(project_keys(self@.projects) =~= keys.remove(i as int));
                    lemma_remove_keeps_distinct(keys, i as int);
                    assert(keys[i as int] == id);
                }
                1
            },
            None => 0,
        }
    }

    fn count_projects(&self, id: i64) -> (n: i64)
        requires
            self.wf(),
        ensures
            n == occurrences(project_keys(self@.projects), id),
    {
        let ghost keys = project_keys(self@.projects);
        let mut n: i64 = 0;
        let mut i: usize = 0;
        assert(keys.take(0) =~= Seq::empty());
        proof {
            reveal(Seq::filter);
        }
        while i < self.projects.len()
            invariant
                i <= self.projects@.len(),
                keys == project_keys(self@.projects),
                self.projects@.len() < i64::MAX,
                0 <= n <= i,
                n == occurrences(keys.take(i as int), id),
            decreases self.projects@.len() - i,
        {
            proof {
                assert(keys.take(i + 1) =~= keys.take(i as int).push(keys[i as int]));
                keys.take(i as int).lemma_filter_push(keys[i as int], is_key(id));
                assert(keys[i as int] == self.projects@[i as int].id);
            }
            if self.projects[i].id == id {
                n += 1;
            }
            i += 1;
        }
        assert(keys.take(i as int) =~= keys);
        n
    }

    fn insert_link(&mut self, project: i64, product_order: i64) -> (reply: Reply)
        requires
            old(self).wf(),
        ensures
            final(self).wf(),
            final(self).next_order == old(self).next_order,
            final(self).next_project == old(self).next_project,
            reply is Failed <==> old(self).next_link == i64::MAX,
            reply is Failed ==> final(self)@ == old(self)@ && reply@ == ReplyView::Failed(
                no_key_left(),
            ),
            !(reply is Failed) ==> ({
                &&& reply@ == ReplyView::Affected(1)
                &&& final(self)@.orders == old(self)@.orders
                &&& final(self)@.projects == old(self)@.projects
                &&& exists|id: i64|
                    #[trigger] is_free(link_keys(old(self)@.links), id) && final(self)@.links
                        == old(self)@.links.push(LinkRow { id, project, product_order })
            }),
    {
        if self.next_link == i64::MAX {
            return Reply::Failed(String::from_str("no key is left in the table"));
        }
        let id = self.next_link;
        let ghost before = self@;
        let ghost keys = link_keys(self@.links);
        proof {
            assert forall|i: int| 0 <= i < keys.len() implies #[trigger] keys[i] < id by {
                assert(keys[i] == self.links@[i].id);
            }
            lemma_push_keeps_distinct(keys, id);
        }
        self.links.push(LinkRow { id, project, product_order });
        self.next_link = id + 1;
        proof {
            assert(link_keys(self@.links) =~= keys.push(id));
            assert(is_free(keys, id));
        }
        Reply::Affected(1)
    }

    fn delete_link(&mut self, id: i64) -> (affected: u64)
        requires
            old(self).wf(),
        ensures
            final(self).wf(),
            final(self).counters() == old(self).counters(),
            final(self)@.orders == old(self)@.orders,
            final(self)@.projects == old(self)@.projects,
            deleted(old(self)@.links, link_keys(old(self)@.links), id, final(self)@.links, affected),
    {
        let ghost before = self@;
        let ghost keys = link_keys(self@.links);
        match self.find_link(id) {
            Some(i) => {
                self.links.remove(i);
                proof {
                    assert(link_keys(self@.links) =~= keys.remove(i as int));
                    lemma_remove_keeps_distinct(keys, i as int);
                    assert(keys[i as int] == id);
                }
                1
            },
            None => 0,
        }
    }

    /// The links that pass `project` and `product_order`, where `None` lets
    /// every value pass.
    fn select_links(&self, project: Option<i64>, product_order: Option<i64>) -> (rows: Vec<LinkRow>)
        ensures
            rows@ == self@.links.filter(Self::passes(project, product_order)),
    {
        let ghost test = Self::passes(project, product_order);
        let mut rows: Vec<LinkRow> = Vec::new();
        let mut i: usize = 0;
        assert(self.links@.take(0) =~= Seq::empty());
        proof {
            reveal(Seq::filter);
        }
        while i < self.links.len()
            invariant
                i <= self.links@.len(),
                test == Self::passes(project, product_order),
                rows@ == self.links@.take(i as int).filter(test),
            decreases self.links@.len() - i,
        {
            let link = self.links[i];
            proof {
                assert(self.links@.take(i + 1) =~= self.links@.take(i as int).push(link));
                self.links@.take(i as int).lemma_filter_push(link, test);
            }
            let project_passes = match project {
                Some(p) => link.project == p,
                None => true,
            };
            let order_passes = match product_order {
                Some(o) => link.product_order == o,
                None => true,
            };
            if project_passes && order_passes {
                rows.push(link);
            }
            i += 1;
        }
        assert(self.links@.take(i as int) =~= self.links@);
        rows
    }

    /// `row` under the key `id`.
    spec fn keyed(row: OrderRowView, id: i64) -> OrderRowView {
        OrderRowView {
            id,
            order_number: row.order_number,
            purchaser: row.purchaser,
            item: row.item,
            quantity: row.quantity,
            date_of_order: row.date_of_order,
        }
    }

    /// The test that `select_links` applies.
    spec fn passes(project: Option<i64>, product_order: Option<i64>) -> spec_fn(LinkRow) -> bool {
        |link: LinkRow|
            (project matches Some(p) ==> link.project == p) && (product_order matches Some(o)
                ==> link.product_order == o)
    }

    /// Runs one statement.
    pub fn execute(&mut self, statement: &Statement) -> (reply: Reply)
        requires
            old(self).wf(),
        ensures
            final(self).wf(),
            store_step(old(self)@, statement@, reply@, final(self)@),
            reply is Failed <==> old(self).refuses(statement@),
            reply is Failed ==> reply@ == ReplyView::Failed(no_key_left()),
            forall|table: Table|
                statement@.inserts_into() != Some(table) ==> (final(self).is_full(table) <==> old(
                    self,
                ).is_full(table)),
    {
        let ghost before = self@;
        match statement {
            Statement::InsertOrder { order_number, purchaser, item, quantity, date_of_order } => {
                let row = OrderRow {
                    id: 0,
                    order_number: *order_number as i64,
                    purchaser: purchaser.clone(),
                    item: item.clone(),
                    quantity: *quantity as i64,
                    date_of_order: date_of_order.clone(),
                };
                let ghost content = row@;
                let reply = self.insert_order(row);
                proof {
                    if !(reply is Failed) {
                        let id = choose|id: i64|
                            #[trigger] is_free(order_keys(before.orders), id) && self@.orders
                                == before.orders.push(Self::keyed(content, id));
                        assert(is_free(order_keys(before.orders), id));
                    }
                }
                reply
            },
            Statement::SelectOrders => Reply::Orders(self.select_orders()),
            Statement::UpdateOrder(order) => Reply::Affected(self.update_order(order)),
            Statement::DeleteOrder { id } => Reply::Affected(self.delete_order(*id as i64)),
            Statement::CountOrders { id } => Reply::Count(self.count_orders(*id as i64)),
            Statement::InsertProject { project_number } => self.insert_project(
                *project_number as i64,
            ),
            Statement::SelectProjects => Reply::Projects(self.select_projects()),
            Statement::UpdateProject(project) => Reply::Affected(self.update_project(project)),
            Statement::DeleteProject { id } => Reply::Affected(self.delete_project(*id as i64)),
            Statement::CountProjects { id } => Reply::Count(self.count_projects(*id as i64)),
            Statement::InsertLink { project, product_order } => self.insert_link(
                *project as i64,
                *product_order as i64,
            ),
            Statement::DeleteLink { id } => Reply::Affected(self.delete_link(*id as i64)),
            Statement::SelectLinksOfProject { project } => {
                let rows = self.select_links(Some(*project as i64), None);
                proof {
                    assert(Self::passes(Some(*project as i64), None) =~= in_project(*project as i64));
                }
                Reply::Links(rows)
            },
            Statement::SelectLinksOfOrder { product_order } => {
                let rows = self.select_links(None, Some(*product_order as i64));
                proof {
                    assert(Self::passes(None, Some(*product_order as i64)) =~= with_order(
                        *product_order as i64,
                    ));
                }
                Reply::Links(rows)
            },
            Statement::CountLinks { project, product_order } => {
                let rows = self.select_links(Some(*project as i64), Some(*product_order as i64));
                proof {
                    assert(Self::passes(Some(*project as i64), Some(*product_order as i64)) =~= joins(
                        *project as i64,
                        *product_order as i64,
                    ));
                    self.links@.lemma_filter_len(joins(*project as i64, *product_order as i64));
                }
                Reply::Count(rows.len() as i64)
            },
        }
    }

    /// Runs `command` to its end: every statement that its steps name is
    /// executed here, in turn.
    ///
    /// The operation does what `effect` says.  The one exception is an
    /// insert into a table that has handed out its last key: it fails and
    /// changes nothing.
    #[verifier::loop_isolation(false)]
    pub fn perform(&mut self, command: Command, rules: &LinkRules) -> (result: Result<
        Outcome,
        Failure,
    >)
        requires
            old(self).wf(),
        ensures
            final(self).wf(),
            (if old(self).blocks(command@, *rules) {
                &&& final(self)@ == old(self)@
                &&& result_view(result) == Err::<OutcomeView, FailureView>(
                    FailureView {
                        operation: command@.operation(),
                        error: DataErrorView::Store(no_key_left()),
                    },
                )
            } else {
                effect(command@, *rules, old(self)@, result_view(result), final(self)@)
            }),
    {
        let ghost start = *self;
        let ghost before = self@;
        let ghost asked = command@;
        proof {
            lemma_begin(asked, *rules, before);
            self.lemma_wf();
        }
        let mut step = command.begin(rules);
        loop
            invariant
                self.wf(),
                match step@ {
                    StepView::Execute(statement, pending) => {
                        &&& self@ == before
                        &&& in_progress(asked, *rules, before, statement, pending)
                        &&& forall|table: Table| self.is_full(table) == start.is_full(table)
                    },
                    StepView::Finish(result) => if start.blocks(asked, *rules) {
                        &&& self@ == before
                        &&& result == Err::<OutcomeView, FailureView>(
                            FailureView {
                                operation: asked.operation(),
                                error: DataErrorView::Store(no_key_left()),
                            },
                        )
                    } else {
                        effect(asked, *rules, before, result, self@)
                    },
                },
            decreases Self::rounds_left(step@),
        {
            match step {
                Step::Finish(result) => {
                    return result;
                },
                Step::Execute(statement, pending) => {
                    let reply = self.execute(&statement);
                    proof {
                        lemma_resume(asked, *rules, before, statement@, pending, reply@, self@);
                    }
                    step = pending.resume(reply);
                },
            }
        }
    }

    /// How many statements an operation at `step` may still run.
    spec fn rounds_left(step: StepView) -> nat {
        match step {
            StepView::Execute(_, pending) => pending.rank(),
            StepView::Finish(_) => 0,
        }
    }
}

} // verus!
