//! Entity database schema, as introspected from the database.
use vstd::prelude::*;

verus! {

/// One column of a table.
pub struct ColumnInfo {
    /// Column name.
    pub name: String,
    /// Declared type (`TEXT`, `INTEGER`, ...).
    pub col_type: String,
    /// Part of the primary key.
    pub is_pk: bool,
    /// Declared `NOT NULL`.
    pub is_not_null: bool,
}

/// One foreign key of a table.
pub struct ForeignKeyInfo {
    /// Referencing column.
    pub from_col: String,
    /// Referenced table.
    pub to_table: String,
    /// Referenced column.
    pub to_col: String,
}

/// One user table.
pub struct TableInfo {
    /// Table name.
    pub name: String,
    /// Number of rows.
    pub row_count: u64,
    /// Columns, in declaration order.
    pub columns: Vec<ColumnInfo>,
    /// Foreign keys.
    pub foreign_keys: Vec<ForeignKeyInfo>,
}

/// The introspected schema of the entity database.
pub struct SchemaCache {
    /// User tables.
    pub tables: Vec<TableInfo>,
    /// Size of the database file in bytes.
    pub db_size_bytes: u64,
}

/// Sum of the row counts of `tables`.
pub open spec fn rows_total(tables: Seq<TableInfo>) -> int
    decreases tables.len(),
{
    if tables.len() == 0 {
        0
    } else {
        rows_total(tables.drop_last()) + tables.last().row_count
    }
}

} // verus!
