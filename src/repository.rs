use vstd::prelude::*;
use vstd::string::StringExecFns;

verus! {

/// Where the registration of an item came from.
#[derive(Debug, Clone, PartialEq, Eq)]
pub enum ItemRegisterSource {
    Manual,
    QrCode,
    Api,
    Other(String),
}

/// Location and statements of an item table in a SQLite database.
pub struct SqliteRepository {
    db_path: String,
    table_name: String,
    sql_get_by_id: String,
    sql_get_by_sku: String,
    sql_add: String,
    sql_delete: String,
    sql_list: String,
}

/// `head`, then `table`, then `tail`.
pub open spec fn statement(head: Seq<char>, table: Seq<char>, tail: Seq<char>) -> Seq<char> {
    head + table + tail
}

fn build_statement(head: &str, table: &str, tail: &str) -> (r: String)
    ensures
        r@ == statement(head@, table@, tail@),
{
    let mut s = String::from_str(head);
    s.append(table);
    s.append(tail);
    s
}

impl SqliteRepository {
    pub closed spec fn db_path_view(&self) -> Seq<char> {
        self.db_path@
    }

    pub closed spec fn table_name_view(&self) -> Seq<char> {
        self.table_name@
    }

    pub closed spec fn sql_get_by_id_view(&self) -> Seq<char> {
        self.sql_get_by_id@
    }

    pub closed spec fn sql_get_by_sku_view(&self) -> Seq<char> {
        self.sql_get_by_sku@
    }

    pub closed spec fn sql_add_view(&self) -> Seq<char> {
        self.sql_add@
    }

    pub closed spec fn sql_delete_view(&self) -> Seq<char> {
        self.sql_delete@
    }

    pub closed spec fn sql_list_view(&self) -> Seq<char> {
        self.sql_list@
    }

    /// A repository over table `table_name` of the database file at `db_path`,
    /// with its statements written for that table.
    pub fn new(db_path: &str, table_name: String) -> (r: SqliteRepository)
        ensures
            r.db_path_view() == db_path@,
            r.table_name_view() == table_name@,
            r.sql_get_by_id_view() == statement(
                "SELECT id, sku, metadata FROM "@,
                table_name@,
                " WHERE id = ?1"@,
            ),
            r.sql_get_by_sku_view() == statement(
                "SELECT id, sku, metadata FROM "@,
                table_name@,
                " WHERE sku = ?1"@,
            ),
            r.sql_add_view() == statement(
                "INSERT INTO "@,
                table_name@,
                " (id, sku, metadata) VALUES (?1, ?2, ?3)"@,
            ),
            r.sql_delete_view() == statement("DELETE FROM "@, table_name@, " WHERE id = ?1"@),
            r.sql_list_view() == statement("SELECT id, sku, metadata FROM "@, table_name@, ""@),
    {
        let t = table_name.as_str();
        let sql_get_by_id = build_statement("SELECT id, sku, metadata FROM ", t, " WHERE id = ?1");
        let sql_get_by_sku = build_statement("SELECT id, sku, metadata FROM ", t, " WHERE sku = ?1");
        let sql_add = build_statement("INSERT INTO ", t, " (id, sku, metadata) VALUES (?1, ?2, ?3)");
        let sql_delete = build_statement("DELETE FROM ", t, " WHERE id = ?1");
        let sql_list = build_statement("SELECT id, sku, metadata FROM ", t, "");
        SqliteRepository {
            db_path: String::from_str(db_path),
            table_name,
            sql_get_by_id,
            sql_get_by_sku,
            sql_add,
            sql_delete,
            sql_list,
        }
    }

    /// The statement that creates the table if it does not exist yet.
    pub fn create_table_sql(&self) -> (r: String)
        ensures
            r@ == statement(
                "CREATE TABLE IF NOT EXISTS "@,
                self.table_name_view(),
                " (id TEXT PRIMARY KEY, sku TEXT NOT NULL UNIQUE, metadata TEXT NOT NULL)"@,
            ),
    {
        build_statement(
            "CREATE TABLE IF NOT EXISTS ",
            self.table_name.as_str(),
            " (id TEXT PRIMARY KEY, sku TEXT NOT NULL UNIQUE, metadata TEXT NOT NULL)",
        )
    }

    pub fn db_path(&self) -> (r: &str)
        ensures
            r@ == self.db_path_view(),
    {
        self.db_path.as_str()
    }

    pub fn table_name(&self) -> (r: &str)
        ensures
            r@ == self.table_name_view(),
    {
        self.table_name.as_str()
    }

    pub fn sql_get_by_id(&self) -> (r: &str)
        ensures
            r@ == self.sql_get_by_id_view(),
    {
        self.sql_get_by_id.as_str()
    }

    pub fn sql_get_by_sku(&self) -> (r: &str)
        ensures
            r@ == self.sql_get_by_sku_view(),
    {
        self.sql_get_by_sku.as_str()
    }

    pub fn sql_add(&self) -> (r: &str)
        ensures
            r@ == self.sql_add_view(),
    {
        self.sql_add.as_str()
    }

    pub fn sql_delete(&self) -> (r: &str)
        ensures
            r@ == self.sql_delete_view(),
    {
        self.sql_delete.as_str()
    }

    pub fn sql_list(&self) -> (r: &str)
        ensures
            r@ == self.sql_list_view(),
    {
        self.sql_list.as_str()
    }
}

} // verus!
