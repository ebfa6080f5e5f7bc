use vstd::prelude::*;

use crate::schema::{
    ColumnDef, ColumnName, ColumnType, CommandSpec, ForeignKeyAction, ForeignKeyDef,
    SchemaCommand, TableDef, TableName, TableSpec,
};

verus! {

/// The foreign key from a post to its author: updates cascade, deletes are refused.
pub open spec fn author_key() -> ForeignKeyDef {
    ForeignKeyDef {
        from_column: ColumnName::UserId,
        to_table: TableName::Users,
        to_column: ColumnName::Id,
        on_update: ForeignKeyAction::Cascade,
        on_delete: ForeignKeyAction::NoAction,
    }
}

/// The Posts table: an auto-increment key, a required message and a nullable
/// reference to the author.
pub open spec fn posts_table() -> TableSpec {
    TableSpec {
        name: TableName::Posts,
        columns: seq![
            ColumnDef {
                name: ColumnName::Id,
                col_type: ColumnType::Integer,
                nullable: false,
                auto_increment_key: true,
            },
            ColumnDef {
                name: ColumnName::Message,
                col_type: ColumnType::Text,
                nullable: false,
                auto_increment_key: false,
            },
            ColumnDef {
                name: ColumnName::UserId,
                col_type: ColumnType::Integer,
                nullable: true,
                auto_increment_key: false,
            },
        ],
        foreign_keys: seq![author_key()],
    }
}

/// Creates the Posts table, which refers to the Users table.
pub struct Migration;

impl Migration {
    /// Creates the table unless it is already there.
    pub fn up(&self) -> (r: SchemaCommand)
        ensures
            r@ == (CommandSpec::CreateTable { table: posts_table(), if_not_exists: true }),
    {
        let table = TableDef {
            name: TableName::Posts,
            columns: vec![
                ColumnDef {
                    name: ColumnName::Id,
                    col_type: ColumnType::Integer,
                    nullable: false,
                    auto_increment_key: true,
                },
                ColumnDef {
                    name: ColumnName::Message,
                    col_type: ColumnType::Text,
                    nullable: false,
                    auto_increment_key: false,
                },
                ColumnDef {
                    name: ColumnName::UserId,
                    col_type: ColumnType::Integer,
                    nullable: true,
                    auto_increment_key: false,
                },
            ],
            foreign_keys: vec![
                ForeignKeyDef {
                    from_column: ColumnName::UserId,
                    to_table: TableName::Users,
                    to_column: ColumnName::Id,
                    on_update: ForeignKeyAction::Cascade,
                    on_delete: ForeignKeyAction::NoAction,
                },
            ],
        };
        proof {
            assert(table@.columns =~= posts_table().columns);
            assert(table@.foreign_keys =~= posts_table().foreign_keys);
        }
        SchemaCommand::CreateTable { table, if_not_exists: true }
    }

    /// Drops the table.
    pub fn down(&self) -> (r: SchemaCommand)
        ensures
            r@ == (CommandSpec::DropTable { name: TableName::Posts }),
    {
        SchemaCommand::DropTable { name: TableName::Posts }
    }
}

} // verus!
