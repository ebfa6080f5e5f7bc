use vstd::prelude::*;

use crate::schema::{
    ColumnDef, ColumnName, ColumnType, CommandSpec, SchemaCommand, TableDef, TableName, TableSpec,
};

verus! {

/// The Users table: an auto-increment key and a required username.
pub open spec fn users_table() -> TableSpec {
    TableSpec {
        name: TableName::Users,
        columns: seq![
            ColumnDef {
                name: ColumnName::Id,
                col_type: ColumnType::Integer,
                nullable: false,
                auto_increment_key: true,
            },
            ColumnDef {
                name: ColumnName::Username,
                col_type: ColumnType::Text,
                nullable: false,
                auto_increment_key: false,
            },
        ],
        foreign_keys: seq![],
    }
}

/// Creates the Users table.
pub struct Migration;

impl Migration {
    /// Creates the table unless it is already there.
    pub fn up(&self) -> (r: SchemaCommand)
        ensures
            r@ == (CommandSpec::CreateTable { table: users_table(), if_not_exists: true }),
    {
        let table = TableDef {
            name: TableName::Users,
            columns: vec![
                ColumnDef {
                    name: ColumnName::Id,
                    col_type: ColumnType::Integer,
                    nullable: false,
                    auto_increment_key: true,
                },
                ColumnDef {
                    name: ColumnName::Username,
                    col_type: ColumnType::Text,
                    nullable: false,
                    auto_increment_key: false,
                },
            ],
            foreign_keys: Vec::new(),
        };
        proof {
            assert(table@.columns =~= users_table().columns);
            assert(table@.foreign_keys =~= users_table().foreign_keys);
        }
        SchemaCommand::CreateTable { table, if_not_exists: true }
    }

    /// Drops the table.
    pub fn down(&self) -> (r: SchemaCommand)
        ensures
            r@ == (CommandSpec::DropTable { name: TableName::Users }),
    {
        SchemaCommand::DropTable { name: TableName::Users }
    }
}

} // verus!
