use user_posts::migration::m20240820_000001_create_user_table as create_user_table;
use user_posts::migration::m20240820_000002_create_post_table::Migration;
use user_posts::migrator::{MigrationError, Migrator, SchemaStore, MIGRATION_COUNT};
use user_posts::schema::{ColumnName, SchemaCommand, SchemaError, TableName};

#[test]
fn fresh_store_gets_both_tables() {
    let mut store = SchemaStore::new();
    assert_eq!(Migrator::up(&mut store), Ok(()));
    assert!(store.has_table(TableName::Users));
    assert!(store.has_table(TableName::Posts));
    assert_eq!(store.applied(), MIGRATION_COUNT);
    assert_eq!(MIGRATION_COUNT, 2);
}

#[test]
fn second_run_is_a_no_op() {
    let mut store = SchemaStore::new();
    assert_eq!(Migrator::up(&mut store), Ok(()));
    assert_eq!(Migrator::up(&mut store), Ok(()));
    assert!(store.has_table(TableName::Users));
    assert!(store.has_table(TableName::Posts));
    assert_eq!(store.applied(), 2);
}

#[test]
fn posts_step_fails_without_users_table() {
    let mut store = SchemaStore::new();
    assert_eq!(
        store.execute(Migration.up()),
        Err(SchemaError::MissingReferencedTable)
    );
    assert!(!store.has_table(TableName::Posts));
}

#[test]
fn posts_step_succeeds_after_users_table() {
    let mut store = SchemaStore::new();
    assert_eq!(store.execute(create_user_table::Migration.up()), Ok(()));
    assert_eq!(store.execute(Migration.up()), Ok(()));
    assert!(store.has_table(TableName::Posts));
}

#[test]
fn create_is_guarded_against_existing_table() {
    let mut store = SchemaStore::new();
    assert_eq!(store.execute(create_user_table::Migration.up()), Ok(()));
    assert_eq!(store.execute(create_user_table::Migration.up()), Ok(()));
    let SchemaCommand::CreateTable { table, .. } = create_user_table::Migration.up() else {
        panic!("the users migration creates a table");
    };
    assert_eq!(
        store.execute(SchemaCommand::CreateTable { table, if_not_exists: false }),
        Err(SchemaError::AlreadyExists)
    );
}

#[test]
fn rerun_after_lost_record_keeps_schema() {
    let mut store = SchemaStore::new();
    assert_eq!(store.execute(create_user_table::Migration.up()), Ok(()));
    assert_eq!(store.execute(Migration.up()), Ok(()));
    assert_eq!(store.applied(), 0);
    assert_eq!(Migrator::up(&mut store), Ok(()));
    assert_eq!(store.applied(), 2);
    assert!(store.has_table(TableName::Users));
    assert!(store.has_table(TableName::Posts));
}

#[test]
fn down_reverts_in_descending_order() {
    let mut store = SchemaStore::new();
    assert_eq!(Migrator::up(&mut store), Ok(()));
    assert_eq!(Migrator::down(&mut store, 1), Ok(()));
    assert_eq!(store.applied(), 1);
    assert!(store.has_table(TableName::Users));
    assert!(!store.has_table(TableName::Posts));
    assert_eq!(Migrator::down(&mut store, 0), Ok(()));
    assert_eq!(store.applied(), 0);
    assert!(!store.has_table(TableName::Users));
    assert_eq!(Migrator::up(&mut store), Ok(()));
    assert_eq!(store.applied(), 2);
}

#[test]
fn dropping_referenced_table_is_refused() {
    let mut store = SchemaStore::new();
    assert_eq!(Migrator::up(&mut store), Ok(()));
    assert_eq!(
        store.execute(create_user_table::Migration.down()),
        Err(SchemaError::TableReferenced)
    );
    assert!(store.has_table(TableName::Users));
}

#[test]
fn dropping_missing_table_fails() {
    let mut store = SchemaStore::new();
    assert_eq!(store.execute(Migration.down()), Err(SchemaError::NoSuchTable));
}

#[test]
fn failed_down_reports_step() {
    let mut store = SchemaStore::new();
    assert_eq!(Migrator::up(&mut store), Ok(()));
    assert_eq!(store.execute(Migration.down()), Ok(()));
    assert_eq!(
        Migrator::down(&mut store, 0),
        Err(MigrationError { step: 1, error: SchemaError::NoSuchTable })
    );
    assert_eq!(store.applied(), 2);
}

#[test]
fn sql_names() {
    assert_eq!(TableName::Users.sql_name(), "users");
    assert_eq!(TableName::Posts.sql_name(), "posts");
    assert_eq!(ColumnName::UserId.sql_name(), "user_id");
    assert_eq!(ColumnName::Username.sql_name(), "username");
}
