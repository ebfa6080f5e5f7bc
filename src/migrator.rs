use vstd::prelude::*;

use crate::migration::m20240820_000001_create_user_table as create_user_table;
use crate::migration::m20240820_000002_create_post_table as create_post_table;
use crate::schema::{
    apply_command, execute_command, has_table, references_resolved, schema_wf, tables_view,
    CommandSpec, SchemaCommand, SchemaError, TableDef, TableName, TableSpec,
};

verus! {

/// How many migrations there are.
pub const MIGRATION_COUNT: usize = 2;

/// The forward command of the migration at `index`, in definition order.
pub open spec fn step_up(index: nat) -> CommandSpec {
    if index == 0 {
        CommandSpec::CreateTable { table: create_user_table::users_table(), if_not_exists: true }
    } else {
        CommandSpec::CreateTable { table: create_post_table::posts_table(), if_not_exists: true }
    }
}

/// The reverse command of the migration at `index`.
pub open spec fn step_down(index: nat) -> CommandSpec {
    if index == 0 {
        CommandSpec::DropTable { name: TableName::Users }
    } else {
        CommandSpec::DropTable { name: TableName::Posts }
    }
}

/// The schema and the number of migrations recorded as applied.
pub struct SchemaState {
    pub tables: Seq<TableSpec>,
    pub applied: nat,
}

/// What a run of the migrations ends in: the state, and the error that stopped it.
pub struct RunOutcome {
    pub state: SchemaState,
    pub error: Option<SchemaError>,
}

/// Applies every migration from `applied` on in ascending order, recording each
/// after it succeeds, and stops at the first that fails.
pub open spec fn run_up(tables: Seq<TableSpec>, applied: nat) -> RunOutcome
    decreases MIGRATION_COUNT - applied,
{
    if applied >= MIGRATION_COUNT {
        RunOutcome { state: SchemaState { tables, applied }, error: None }
    } else {
        match apply_command(tables, step_up(applied)) {
            Ok(next) => run_up(next, applied + 1),
            Err(e) => RunOutcome { state: SchemaState { tables, applied }, error: Some(e) },
        }
    }
}

/// Reverts the applied migrations in descending order until `target` remain,
/// and stops at the first that fails.
pub open spec fn run_down(tables: Seq<TableSpec>, applied: nat, target: nat) -> RunOutcome
    decreases applied,
{
    if applied <= target {
        RunOutcome { state: SchemaState { tables, applied }, error: None }
    } else {
        match apply_command(tables, step_down((applied - 1) as nat)) {
            Ok(next) => run_down(next, (applied - 1) as nat, target),
            Err(e) => RunOutcome { state: SchemaState { tables, applied }, error: Some(e) },
        }
    }
}

/// A migration that failed, and why.
#[derive(Clone, Copy, Debug, PartialEq, Eq, Structural)]
pub struct MigrationError {
    /// The position of the migration in definition order.
    pub step: usize,
    pub error: SchemaError,
}

/// A store's schema together with the record of applied migrations.
pub struct SchemaStore {
    tables: Vec<TableDef>,
    applied: usize,
}

impl View for SchemaStore {
    type V = SchemaState;

    closed spec fn view(&self) -> SchemaState {
        SchemaState { tables: tables_view(self.tables@), applied: self.applied as nat }
    }
}

impl SchemaStore {
    pub closed spec fn wf(&self) -> bool {
        &&& schema_wf(tables_view(self.tables@))
        &&& self.applied <= MIGRATION_COUNT
    }

    /// An empty store with nothing applied.
    pub fn new() -> (r: SchemaStore)
        ensures
            r.wf(),
            r@.tables == Seq::<TableSpec>::empty(),
            r@.applied == 0,
    {
        let r = SchemaStore { tables: Vec::new(), applied: 0 };
        assert(tables_view(r.tables@) =~= Seq::<TableSpec>::empty());
        r
    }

    /// Whether the store has a table of that name.
    pub fn has_table(&self, name: TableName) -> (r: bool)
        ensures
            r == has_table(self@.tables, name),
    {
        crate::schema::find_table(&self.tables, name).is_some()
    }

    /// How many migrations are recorded as applied.
    pub fn applied(&self) -> (r: usize)
        ensures
            r == self@.applied,
    {
        self.applied
    }

    /// Carries out one schema command outside the migration record.
    pub fn execute(&mut self, cmd: SchemaCommand) -> (r: Result<(), SchemaError>)
        requires
            old(self).wf(),
        ensures
            final(self).wf(),
            final(self)@.applied == old(self)@.applied,
            match apply_command(old(self)@.tables, cmd@) {
                Ok(next) => r is Ok && final(self)@.tables == next,
                Err(e) => r == Err::<(), SchemaError>(e) && final(self)@.tables == old(self)@.tables,
            },
    {
        execute_command(&mut self.tables, cmd)
    }
}

fn migration_up(index: usize) -> (r: SchemaCommand)
    requires
        index < MIGRATION_COUNT,
    ensures
        r@ == step_up(index as nat),
{
    if index == 0 {
        create_user_table::Migration.up()
    } else {
        create_post_table::Migration.up()
    }
}

fn migration_down(index: usize) -> (r: SchemaCommand)
    requires
        index < MIGRATION_COUNT,
    ensures
        r@ == step_down(index as nat),
{
    if index == 0 {
        create_user_table::Migration.down()
    } else {
        create_post_table::Migration.down()
    }
}

/// Runs the migrations of this service against a schema store.
pub struct Migrator;

impl Migrator {
    /// Applies every migration not yet recorded, in ascending order; a store
    /// that is up to date is left as it is.
    pub fn up(store: &mut SchemaStore) -> (r: Result<(), MigrationError>)
        requires
            old(store).wf(),
        ensures
            final(store).wf(),
            ({
                let out = run_up(old(store)@.tables, old(store)@.applied);
                &&& final(store)@ == out.state
                &&& match out.error {
                    None => r is Ok,
                    Some(e) => r == Err::<(), MigrationError>(
                        MigrationError { step: out.state.applied as usize, error: e },
                    ),
                }
            }),
    {
        while store.applied < MIGRATION_COUNT
            invariant
                store.wf(),
                run_up(store@.tables, store@.applied) == run_up(
                    old(store)@.tables,
                    old(store)@.applied,
                ),
            decreases MIGRATION_COUNT - store.applied,
        {
            let index = store.applied;
            let cmd = migration_up(index);
            match execute_command(&mut store.tables, cmd) {
                Ok(()) => {
                    store.applied = index + 1;
                },
                Err(e) => {
                    return Err(MigrationError { step: index, error: e });
                },
            }
        }
        Ok(())
    }

    /// Reverts applied migrations in descending order until `target` remain.
    pub fn down(store: &mut SchemaStore, target: usize) -> (r: Result<(), MigrationError>)
        requires
            old(store).wf(),
        ensures
            final(store).wf(),
            ({
                let out = run_down(old(store)@.tables, old(store)@.applied, target as nat);
                &&& final(store)@ == out.state
                &&& match out.error {
                    None => r is Ok,
                    Some(e) => r == Err::<(), MigrationError>(
                        MigrationError { step: (out.state.applied - 1) as usize, error: e },
                    ),
                }
            }),
    {
        while store.applied > target
            invariant
                store.wf(),
                run_down(store@.tables, store@.applied, target as nat) == run_down(
                    old(store)@.tables,
                    old(store)@.applied,
                    target as nat,
                ),
            decreases store.applied,
        {
            let index = store.applied - 1;
            let cmd = migration_down(index);
            match execute_command(&mut store.tables, cmd) {
                Ok(()) => {
                    store.applied = index;
                },
                Err(e) => {
                    return Err(MigrationError { step: index, error: e });
                },
            }
        }
        Ok(())
    }
}

/// A successful run records every migration as applied.
proof fn lemma_run_up_complete(tables: Seq<TableSpec>, applied: nat)
    requires
        run_up(tables, applied).error is None,
    ensures
        run_up(tables, applied).state.applied == if applied >= MIGRATION_COUNT {
            applied
        } else {
            MIGRATION_COUNT as nat
        },
    decreases MIGRATION_COUNT - applied,
{
    if applied < MIGRATION_COUNT {
        if let Ok(next) = apply_command(tables, step_up(applied)) {
            lemma_run_up_complete(next, applied + 1);
        }
    }
}

/// Running the migrations again on the store that a successful run left
/// yields the same schema and record, and no error.
pub proof fn lemma_up_idempotent(tables: Seq<TableSpec>, applied: nat)
    requires
        run_up(tables, applied).error is None,
    ensures
        ({
            let first = run_up(tables, applied).state;
            run_up(first.tables, first.applied) == (RunOutcome { state: first, error: None })
        }),
{
    lemma_run_up_complete(tables, applied);
}

/// Every forward step guards against an existing table: on a schema that has
/// both tables, running all migrations from the start, as after a lost
/// record, changes nothing and fails nowhere.
pub proof fn lemma_rerun_from_start(tables: Seq<TableSpec>)
    requires
        has_table(tables, TableName::Users),
        has_table(tables, TableName::Posts),
    ensures
        run_up(tables, 0) == (RunOutcome {
            state: SchemaState { tables, applied: MIGRATION_COUNT as nat },
            error: None,
        }),
{
    assert(apply_command(tables, step_up(0)) == Ok::<Seq<TableSpec>, SchemaError>(tables));
    assert(apply_command(tables, step_up(1)) == Ok::<Seq<TableSpec>, SchemaError>(tables));
    assert(run_up(tables, 2) == (RunOutcome {
        state: SchemaState { tables, applied: 2 },
        error: None,
    }));
    assert(run_up(tables, 1) == run_up(tables, 2));
}

/// On an empty store the migrations create Users, then Posts.
pub proof fn lemma_fresh_store()
    ensures
        run_up(Seq::<TableSpec>::empty(), 0) == (RunOutcome {
            state: SchemaState {
                tables: seq![create_user_table::users_table(), create_post_table::posts_table()],
                applied: MIGRATION_COUNT as nat,
            },
            error: None,
        }),
{
    let empty = Seq::<TableSpec>::empty();
    let users = create_user_table::users_table();
    let posts = create_post_table::posts_table();
    let one = empty.push(users);
    let two = one.push(posts);
    assert(!has_table(empty, TableName::Users));
    assert(references_resolved(empty, users));
    assert(apply_command(empty, step_up(0)) == Ok::<Seq<TableSpec>, SchemaError>(one));
    assert(one[0].name == TableName::Users);
    assert(has_table(one, TableName::Users));
    assert(!has_table(one, TableName::Posts)) by {
        assert forall|i: int| 0 <= i < one.len() implies one[i].name != TableName::Posts by {
            assert(i == 0);
        }
    }
    assert(posts.foreign_keys[0] == create_post_table::author_key());
    assert(references_resolved(one, posts));
    assert(apply_command(one, step_up(1)) == Ok::<Seq<TableSpec>, SchemaError>(two));
    assert(two =~= seq![users, posts]);
    assert(run_up(two, 2).error is None);
    assert(run_up(one, 1) == run_up(two, 2));
}

/// The step that creates Posts fails while the Users table does not exist.
pub proof fn lemma_posts_need_users(tables: Seq<TableSpec>)
    requires
        !has_table(tables, TableName::Users),
        !has_table(tables, TableName::Posts),
    ensures
        apply_command(tables, step_up(1)) == Err::<Seq<TableSpec>, SchemaError>(
            SchemaError::MissingReferencedTable,
        ),
{
    let posts = create_post_table::posts_table();
    assert(posts.foreign_keys[0] == create_post_table::author_key());
    assert(posts.foreign_keys[0].to_table == TableName::Users);
    assert(!references_resolved(tables, posts));
}

/// A command keeps a well-formed schema well formed.
pub proof fn lemma_apply_keeps_wf(tables: Seq<TableSpec>, cmd: CommandSpec)
    requires
        schema_wf(tables),
    ensures
        apply_command(tables, cmd) matches Ok(next) ==> schema_wf(next),
{
    match cmd {
        CommandSpec::CreateTable { table, if_not_exists } => {
            if !has_table(tables, table.name) && references_resolved(tables, table) {
                crate::schema::lemma_push_keeps_wf(tables, table);
            }
        },
        CommandSpec::DropTable { name } => {
            if has_table(tables, name) && !crate::schema::referenced_by_other(tables, name) {
                let i = crate::schema::table_position(tables, name);
                crate::schema::lemma_remove_keeps_wf(tables, name, i);
            }
        },
    }
}

/// The runner never leaves Posts standing without Users: a run on a
/// well-formed schema leaves it well formed, so a table with the author key
/// exists only beside the Users table.
pub proof fn lemma_up_keeps_order(tables: Seq<TableSpec>, applied: nat)
    requires
        schema_wf(tables),
    ensures
        ({
            let out = run_up(tables, applied).state.tables;
            &&& schema_wf(out)
            &&& forall|i: int|
                0 <= i < out.len() && out[i] == create_post_table::posts_table() ==> has_table(
                    out,
                    TableName::Users,
                )
        }),
    decreases MIGRATION_COUNT - applied,
{
    if applied < MIGRATION_COUNT {
        lemma_apply_keeps_wf(tables, step_up(applied));
        if let Ok(next) = apply_command(tables, step_up(applied)) {
            lemma_up_keeps_order(next, applied + 1);
        }
    }
    let out = run_up(tables, applied).state.tables;
    assert forall|i: int|
        0 <= i < out.len() && out[i] == create_post_table::posts_table() implies has_table(
        out,
        TableName::Users,
    ) by {
        assert(references_resolved(out, out[i]));
        assert(out[i].foreign_keys[0] == create_post_table::author_key());
        assert(out[i].foreign_keys[0].to_table == TableName::Users);
    }
}

} // verus!
