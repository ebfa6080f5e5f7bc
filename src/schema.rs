use vstd::prelude::*;

verus! {

/// The tables this service knows.
#[derive(Clone, Copy, Debug, PartialEq, Eq, Structural)]
pub enum TableName {
    Users,
    Posts,
}

/// The columns of those tables.
#[derive(Clone, Copy, Debug, PartialEq, Eq, Structural)]
pub enum ColumnName {
    Id,
    Username,
    Message,
    UserId,
}

impl TableName {
    /// The table's name in SQL.
    pub fn sql_name(&self) -> (r: &'static str)
        ensures
            r@ == match self {
                TableName::Users => "users"@,
                TableName::Posts => "posts"@,
            },
    {
        match self {
            TableName::Users => "users",
            TableName::Posts => "posts",
        }
    }
}

impl ColumnName {
    /// The column's name in SQL.
    pub fn sql_name(&self) -> (r: &'static str)
        ensures
            r@ == match self {
                ColumnName::Id => "id"@,
                ColumnName::Username => "username"@,
                ColumnName::Message => "message"@,
                ColumnName::UserId => "user_id"@,
            },
    {
        match self {
            ColumnName::Id => "id",
            ColumnName::Username => "username",
            ColumnName::Message => "message",
            ColumnName::UserId => "user_id",
        }
    }
}

#[derive(Clone, Copy, Debug, PartialEq, Eq, Structural)]
pub enum ColumnType {
    Integer,
    Text,
}

/// What happens to referencing rows when the referenced row changes.
#[derive(Clone, Copy, Debug, PartialEq, Eq, Structural)]
pub enum ForeignKeyAction {
    Cascade,
    NoAction,
}

#[derive(Clone, Copy, Debug, PartialEq, Eq, Structural)]
pub struct ColumnDef {
    pub name: ColumnName,
    pub col_type: ColumnType,
    pub nullable: bool,
    pub auto_increment_key: bool,
}

#[derive(Clone, Copy, Debug, PartialEq, Eq, Structural)]
pub struct ForeignKeyDef {
    pub from_column: ColumnName,
    pub to_table: TableName,
    pub to_column: ColumnName,
    pub on_update: ForeignKeyAction,
    pub on_delete: ForeignKeyAction,
}

#[derive(Debug)]
pub struct TableDef {
    pub name: TableName,
    pub columns: Vec<ColumnDef>,
    pub foreign_keys: Vec<ForeignKeyDef>,
}

/// What a table definition says, as a value.
pub struct TableSpec {
    pub name: TableName,
    pub columns: Seq<ColumnDef>,
    pub foreign_keys: Seq<ForeignKeyDef>,
}

impl View for TableDef {
    type V = TableSpec;

    open spec fn view(&self) -> TableSpec {
        TableSpec { name: self.name, columns: self.columns@, foreign_keys: self.foreign_keys@ }
    }
}

/// One change to the schema.
#[derive(Debug)]
pub enum SchemaCommand {
    CreateTable { table: TableDef, if_not_exists: bool },
    DropTable { name: TableName },
}

pub enum CommandSpec {
    CreateTable { table: TableSpec, if_not_exists: bool },
    DropTable { name: TableName },
}

impl View for SchemaCommand {
    type V = CommandSpec;

    open spec fn view(&self) -> CommandSpec {
        match self {
            SchemaCommand::CreateTable { table, if_not_exists } => CommandSpec::CreateTable {
                table: table@,
                if_not_exists: *if_not_exists,
            },
            SchemaCommand::DropTable { name } => CommandSpec::DropTable { name: *name },
        }
    }
}

/// The tables of a schema, as values.
pub open spec fn tables_view(tables: Seq<TableDef>) -> Seq<TableSpec> {
    tables.map_values(|t: TableDef| t@)
}

#[derive(Clone, Copy, Debug, PartialEq, Eq, Structural)]
pub enum SchemaError {
    /// The table to create is already there.
    AlreadyExists,
    /// A foreign key names a table that does not exist yet.
    MissingReferencedTable,
    /// The table to drop does not exist.
    NoSuchTable,
    /// Another table still has a foreign key to the table to drop.
    TableReferenced,
}

pub open spec fn has_table(tables: Seq<TableSpec>, name: TableName) -> bool {
    exists|i: int| 0 <= i < tables.len() && tables[i].name == name
}

/// Every foreign key of `def` points at a table already in `tables`, or at `def` itself.
pub open spec fn references_resolved(tables: Seq<TableSpec>, def: TableSpec) -> bool {
    forall|k: int|
        0 <= k < def.foreign_keys.len() ==> {
            let target = #[trigger] def.foreign_keys[k].to_table;
            target == def.name || has_table(tables, target)
        }
}

/// Some table of `tables` other than `name` has a foreign key to `name`.
pub open spec fn referenced_by_other(tables: Seq<TableSpec>, name: TableName) -> bool {
    exists|i: int, k: int|
        0 <= i < tables.len() && tables[i].name != name && 0 <= k < tables[i].foreign_keys.len()
            && #[trigger] tables[i].foreign_keys[k].to_table == name
}

/// Table names are unique and every foreign key resolves.
pub open spec fn schema_wf(tables: Seq<TableSpec>) -> bool {
    &&& forall|i: int, j: int|
        0 <= i < tables.len() && 0 <= j < tables.len() && i != j ==> tables[i].name
            != tables[j].name
    &&& forall|i: int| 0 <= i < tables.len() ==> references_resolved(tables, #[trigger] tables[i])
}

pub open spec fn table_position(tables: Seq<TableSpec>, name: TableName) -> int {
    choose|i: int| 0 <= i < tables.len() && tables[i].name == name
}

/// The schema after one command, or the reason the command fails.
pub open spec fn apply_command(tables: Seq<TableSpec>, cmd: CommandSpec) -> Result<
    Seq<TableSpec>,
    SchemaError,
> {
    match cmd {
        CommandSpec::CreateTable { table, if_not_exists } => {
            if has_table(tables, table.name) {
                if if_not_exists {
                    Ok(tables)
                } else {
                    Err(SchemaError::AlreadyExists)
                }
            } else if !references_resolved(tables, table) {
                Err(SchemaError::MissingReferencedTable)
            } else {
                Ok(tables.push(table))
            }
        },
        CommandSpec::DropTable { name } => {
            if !has_table(tables, name) {
                Err(SchemaError::NoSuchTable)
            } else if referenced_by_other(tables, name) {
                Err(SchemaError::TableReferenced)
            } else {
                Ok(tables.remove(table_position(tables, name)))
            }
        },
    }
}

/// The position of the table `name` in `tables`, if it is there.
pub fn find_table(tables: &Vec<TableDef>, name: TableName) -> (r: Option<usize>)
    ensures
        r is None <==> !has_table(tables_view(tables@), name),
        r matches Some(i) ==> i < tables@.len() && tables@[i as int].name == name,
{
    let ghost tv = tables_view(tables@);
    let mut i: usize = 0;
    while i < tables.len()
        invariant
            tv == tables_view(tables@),
            i <= tables@.len(),
            forall|j: int| 0 <= j < i ==> tv[j].name != name,
        decreases tables@.len() - i,
    {
        if tables[i].name == name {
            assert(tv[i as int].name == name);
            return Some(i);
        }
        i = i + 1;
    }
    None
}

/// Whether every foreign key of `def` resolves against `tables`.
fn check_references(tables: &Vec<TableDef>, def: &TableDef) -> (r: bool)
    ensures
        r == references_resolved(tables_view(tables@), def@),
{
    let ghost tv = tables_view(tables@);
    let mut k: usize = 0;
    while k < def.foreign_keys.len()
        invariant
            tv == tables_view(tables@),
            k <= def.foreign_keys@.len(),
            forall|m: int|
                0 <= m < k ==> {
                    let target = #[trigger] def@.foreign_keys[m].to_table;
                    target == def.name || has_table(tv, target)
                },
        decreases def.foreign_keys@.len() - k,
    {
        let target = def.foreign_keys[k].to_table;
        if target != def.name && find_table(tables, target).is_none() {
            assert(def@.foreign_keys[k as int].to_table == target);
            return false;
        }
        k = k + 1;
    }
    true
}

/// Whether a table other than `name` has a foreign key to `name`.
fn check_referenced(tables: &Vec<TableDef>, name: TableName) -> (r: bool)
    ensures
        r == referenced_by_other(tables_view(tables@), name),
{
    let ghost tv = tables_view(tables@);
    let mut i: usize = 0;
    while i < tables.len()
        invariant
            tv == tables_view(tables@),
            i <= tables@.len(),
            forall|a: int, k: int|
                0 <= a < i && tv[a].name != name && 0 <= k < tv[a].foreign_keys.len()
                    ==> #[trigger] tv[a].foreign_keys[k].to_table != name,
        decreases tables@.len() - i,
    {
        if tables[i].name != name {
            let fks = &tables[i].foreign_keys;
            assert(tv[i as int].foreign_keys == fks@);
            let mut k: usize = 0;
            while k < fks.len()
                invariant
                    tv == tables_view(tables@),
                    i < tables@.len(),
                    tv[i as int].name != name,
                    tv[i as int].foreign_keys == fks@,
                    k <= fks@.len(),
                    forall|m: int| 0 <= m < k ==> #[trigger] fks@[m].to_table != name,
                    forall|a: int, m: int|
                        0 <= a < i && tv[a].name != name && 0 <= m < tv[a].foreign_keys.len()
                            ==> #[trigger] tv[a].foreign_keys[m].to_table != name,
                decreases fks@.len() - k,
            {
                if fks[k].to_table == name {
                    assert(tv[i as int].foreign_keys[k as int].to_table == name);
                    return true;
                }
                k = k + 1;
            }
        }
        i = i + 1;
    }
    false
}

/// Carries out one command on the tables; on failure they stay as they were.
pub fn execute_command(tables: &mut Vec<TableDef>, cmd: SchemaCommand) -> (r: Result<(), SchemaError>)
    requires
        schema_wf(tables_view(old(tables)@)),
    ensures
        schema_wf(tables_view(final(tables)@)),
        match apply_command(tables_view(old(tables)@), cmd@) {
            Ok(next) => r is Ok && tables_view(final(tables)@) == next,
            Err(e) => r == Err::<(), SchemaError>(e) && final(tables)@ == old(tables)@,
        },
{
    match cmd {
        SchemaCommand::CreateTable { table, if_not_exists } => {
            if find_table(tables, table.name).is_some() {
                if if_not_exists {
                    Ok(())
                } else {
                    Err(SchemaError::AlreadyExists)
                }
            } else if !check_references(tables, &table) {
                Err(SchemaError::MissingReferencedTable)
            } else {
                let ghost before = tables@;
                let ghost t = table@;
                tables.push(table);
                proof {
                    assert(tables_view(tables@) =~= tables_view(before).push(t));
                    lemma_push_keeps_wf(tables_view(before), t);
                }
                Ok(())
            }
        },
        SchemaCommand::DropTable { name } => {
            match find_table(tables, name) {
                None => Err(SchemaError::NoSuchTable),
                Some(i) => {
                    if check_referenced(tables, name) {
                        Err(SchemaError::TableReferenced)
                    } else {
                        let ghost before = tables@;
                        proof {
                            lemma_position_unique(tables_view(before), name, i as int);
                        }
                        tables.remove(i);
                        proof {
                            assert(tables_view(tables@) =~= tables_view(before).remove(i as int));
                            lemma_remove_keeps_wf(tables_view(before), name, i as int);
                        }
                        Ok(())
                    }
                },
            }
        },
    }
}

proof fn lemma_position_unique(tables: Seq<TableSpec>, name: TableName, i: int)
    requires
        schema_wf(tables),
        0 <= i < tables.len(),
        tables[i].name == name,
    ensures
        table_position(tables, name) == i,
{
    let p = table_position(tables, name);
    assert(0 <= p < tables.len() && tables[p].name == name);
}

pub proof fn lemma_push_keeps_wf(tables: Seq<TableSpec>, def: TableSpec)
    requires
        schema_wf(tables),
        !has_table(tables, def.name),
        references_resolved(tables, def),
    ensures
        schema_wf(tables.push(def)),
{
    let grown = tables.push(def);
    assert forall|i: int| 0 <= i < grown.len() implies references_resolved(
        grown,
        #[trigger] grown[i],
    ) by {
        let t = grown[i];
        assert forall|k: int| 0 <= k < t.foreign_keys.len() implies {
            let target = #[trigger] t.foreign_keys[k].to_table;
            target == t.name || has_table(grown, target)
        } by {
            let target = t.foreign_keys[k].to_table;
            if target == def.name {
                assert(grown[tables.len() as int].name == target);
            } else if target != t.name {
                if i < tables.len() {
                    assert(references_resolved(tables, tables[i]));
                }
                let j = choose|j: int| 0 <= j < tables.len() && tables[j].name == target;
                assert(grown[j].name == target);
            }
        }
    }
}

pub proof fn lemma_remove_keeps_wf(tables: Seq<TableSpec>, name: TableName, i: int)
    requires
        schema_wf(tables),
        0 <= i < tables.len(),
        tables[i].name == name,
        !referenced_by_other(tables, name),
    ensures
        schema_wf(tables.remove(i)),
{
    let rest = tables.remove(i);
    assert forall|a: int| 0 <= a < rest.len() implies references_resolved(
        rest,
        #[trigger] rest[a],
    ) by {
        let src = if a < i {
            a
        } else {
            a + 1
        };
        assert(rest[a] == tables[src]);
        let t = rest[a];
        assert(references_resolved(tables, tables[src]));
        assert forall|k: int| 0 <= k < t.foreign_keys.len() implies {
            let target = #[trigger] t.foreign_keys[k].to_table;
            target == t.name || has_table(rest, target)
        } by {
            let target = t.foreign_keys[k].to_table;
            if target != t.name {
                assert(tables[src].name != name);
                assert(target != name);
                let j = choose|j: int| 0 <= j < tables.len() && tables[j].name == target;
                assert(j != i);
                let jr = if j < i {
                    j
                } else {
                    j - 1
                };
                assert(rest[jr].name == target);
            }
        }
    }
}

} // verus!
