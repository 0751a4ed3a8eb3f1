//! Where the store lives and what its tables look like.
//!
//! The schema is a list of migrations in the order in which they are to be
//! applied.  A migration, once released, is never edited or removed: the
//! list only grows at its end.
use vstd::prelude::*;
use vstd::string::*;

verus! {

/// One step of the schema's history.
#[derive(Clone, Copy, Debug, PartialEq, Eq)]
pub struct Migration {
    pub version: i64,
    pub description: &'static str,
    pub sql: &'static str,
}

/// Mathematical content of a [`Migration`].
pub struct MigrationView {
    pub version: i64,
    pub description: Seq<char>,
    pub sql: Seq<char>,
}

impl View for Migration {
    type V = MigrationView;

    open spec fn view(&self) -> MigrationView {
        MigrationView { version: self.version, description: self.description@, sql: self.sql@ }
    }
}

/// The contents of a list of migrations, position by position.
pub open spec fn migrations_view(migrations: Seq<Migration>) -> Seq<MigrationView> {
    migrations.map_values(|migration: Migration| migration@)
}

/// The schema: one table per kind of record, each with a key that the store
/// assigns and never hands out twice.  Links name their project and their
/// product order by key, and the store does not check those keys.
pub open spec fn schema() -> Seq<MigrationView> {
    seq![
        MigrationView {
            version: 1,
            description: "create product orders"@,
            sql: "CREATE TABLE product_orders (id INTEGER PRIMARY KEY AUTOINCREMENT, order_number INTEGER NOT NULL, purchaser TEXT NOT NULL, item TEXT NOT NULL, quantity INTEGER NOT NULL, date_of_order TEXT NOT NULL)"@,
        },
        MigrationView {
            version: 2,
            description: "create projects"@,
            sql: "CREATE TABLE projects (id INTEGER PRIMARY KEY AUTOINCREMENT, project_number INTEGER NOT NULL)"@,
        },
        MigrationView {
            version: 3,
            description: "create product order project links"@,
            sql: "CREATE TABLE product_order_project_links (id INTEGER PRIMARY KEY AUTOINCREMENT, project INTEGER NOT NULL, product_order INTEGER NOT NULL)"@,
        },
    ]
}

/// The migrations of the schema, oldest first.
pub fn migrations() -> (list: Vec<Migration>)
    ensures
        migrations_view(list@) == schema(),
        forall|i: int, j: int| 0 <= i < j < list@.len() ==> list@[i].version < list@[j].version,
{
    let mut list: Vec<Migration> = Vec::new();
    list.push(
        Migration {
            version: 1,
            description: "create product orders",
            sql: "CREATE TABLE product_orders (id INTEGER PRIMARY KEY AUTOINCREMENT, order_number INTEGER NOT NULL, purchaser TEXT NOT NULL, item TEXT NOT NULL, quantity INTEGER NOT NULL, date_of_order TEXT NOT NULL)",
        },
    );
    list.push(
        Migration {
            version: 2,
            description: "create projects",
            sql: "CREATE TABLE projects (id INTEGER PRIMARY KEY AUTOINCREMENT, project_number INTEGER NOT NULL)",
        },
    );
    list.push(
        Migration {
            version: 3,
            description: "create product order project links",
            sql: "CREATE TABLE product_order_project_links (id INTEGER PRIMARY KEY AUTOINCREMENT, project INTEGER NOT NULL, product_order INTEGER NOT NULL)",
        },
    );
    assert(migrations_view(list@) =~= schema());
    list
}

/// Name of the store's file inside the application's data directory.
pub fn store_file_name() -> (name: &'static str)
    ensures
        name@ == "db.sqlite"@,
{
    "db.sqlite"
}

/// The address under which the store at `path` is created and opened.
pub fn store_url(path: &str) -> (url: String)
    ensures
        url@ == "sqlite:"@ + path@,
{
    String::from_str("sqlite:").concat(path)
}

} // verus!
