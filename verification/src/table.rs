//! The typed façade: a schema registry bound to a database URL, table
//! handles, and materialized records with instance-scoped update and
//! delete.
//!
//! Everything here builds statements; executing them against a live
//! connection, and turning typed application records into the structured
//! values these factories take, is the surrounding application's part.

use vstd::prelude::*;
use crate::codec::Param;
use crate::codec::ParamModel;
use crate::codec::bind_model;
use crate::codec::encode_for_write;
use crate::codec::param_of_value;
use crate::codec::spec_encode_for_write;
use crate::error::OrmError;
use crate::idgen::fresh_uuid_text;
use crate::idgen::is_uuid_text;
use crate::query::Query;
use crate::query::QueryModel;
use crate::query_builder::QueryBuilder;
use crate::query_builder::QueryBuilderModel;
use crate::schema::ColumnModel;
use crate::schema::TableModel;
use crate::schema::TableSchema;
use crate::sql::Statement;
use crate::sql::create_table_sql;
use crate::sql::create_table_text;
use crate::sql::delete_sql;
use crate::sql::delete_text;
use crate::sql::exists_sql;
use crate::sql::exists_text;
use crate::sql::insert_sql;
use crate::sql::insert_text;
use crate::sql::params_model;
use crate::sql::placeholder_text;
use crate::sql::select_all_sql;
use crate::sql::select_all_text;
use crate::sql::select_first_sql;
use crate::sql::select_first_text;
use crate::sql::select_where_sql;
use crate::sql::select_where_text;
use crate::sql::set_assign_text;
use crate::sql::update_sql;
use crate::sql::update_text;
use crate::value::DynValue;
use crate::value::ValueModel;
use crate::value::entry_seq_model;
use crate::value::lemma_entry_seq_model;

verus! {

/// Mathematical view of an [`OrmStruct`].
pub ghost struct OrmModel {
    pub database_url: Seq<char>,
    pub schemas: Seq<TableModel>,
}

/// The held schema that first matches `name`, if any (linear scan).
pub open spec fn first_schema_match(ss: Seq<TableModel>, name: Seq<char>) -> Option<TableModel>
    decreases ss.len(),
{
    if ss.len() == 0 {
        None
    } else if ss[0].name == name {
        Some(ss[0])
    } else {
        first_schema_match(ss.drop_first(), name)
    }
}

/// The schema registry bound to one database URL.  Statements built here
/// reference a held schema; an unknown table name is reported as
/// SchemaNotFound rather than aborting.
#[derive(Debug)]
pub struct OrmStruct {
    /// The connection string the surrounding application connects with.
    pub database_url: String,
    /// The table schemas this registry serves, derived once at start.
    pub schemas: Vec<TableSchema>,
}

impl View for OrmStruct {
    type V = OrmModel;

    open spec fn view(&self) -> OrmModel {
        OrmModel {
            database_url: self.database_url@,
            schemas: Seq::new(self.schemas@.len(), |i: int| self.schemas@[i]@),
        }
    }
}

/// The parameters an insertion binds: the encoded value of each schema
/// column, in schema order, bound by dynamic type.
pub open spec fn insert_params(
    item: ValueModel,
    schema: TableModel,
    fresh_id: Seq<char>,
) -> Seq<ParamModel> {
    Seq::new(
        schema.columns.len(),
        |i: int| bind_model(spec_encode_for_write(item, schema, fresh_id)[i].1),
    )
}

/// The SET fragments of an update: one `column = $n` per column that the
/// payload supplies, in schema order, numbered from `next` upward.
pub open spec fn update_set_texts(
    item: ValueModel,
    cols: Seq<ColumnModel>,
    next: int,
) -> Seq<Seq<char>>
    decreases cols.len(),
{
    if cols.len() == 0 {
        Seq::empty()
    } else if item.field(cols[0].name) is Some {
        seq![set_assign_text(cols[0].name, next)] + update_set_texts(
            item,
            cols.drop_first(),
            next + 1,
        )
    } else {
        update_set_texts(item, cols.drop_first(), next)
    }
}

/// The parameters an update binds for its SET fragments: the payload's
/// value for each supplied column, in schema order, bound by dynamic
/// type.
pub open spec fn update_param_list(item: ValueModel, cols: Seq<ColumnModel>) -> Seq<ParamModel>
    decreases cols.len(),
{
    if cols.len() == 0 {
        Seq::empty()
    } else if item.field(cols[0].name) is Some {
        seq![bind_model(item.field(cols[0].name)->0)] + update_param_list(item, cols.drop_first())
    } else {
        update_param_list(item, cols.drop_first())
    }
}

/// Bind the encoded column values as placeholder parameters, in order.
fn params_for_values(values: &Vec<(String, DynValue)>) -> (r: Vec<Param>)
    ensures
        params_model(r@) == Seq::new(
            values@.len(),
            |i: int| bind_model(entry_seq_model(values@)[i].1),
        ),
{
    let n: usize = values.len();
    let mut out: Vec<Param> = Vec::new();
    for i in 0..n
        invariant
            n == values.len(),
            out@.len() == i,
            forall|j: int| 0 <= j < i ==> #[trigger] out@[j]@ == bind_model(values@[j].1@),
    {
        out.push(param_of_value(&values[i].1));
    }
    proof {
        lemma_entry_seq_model(values@);
        assert(params_model(out@) =~= Seq::new(
            values@.len(),
            |i: int| bind_model(entry_seq_model(values@)[i].1),
        ));
    }
    out
}

impl OrmStruct {
    /// A registry over the given database URL and schema list.
    pub fn new(database_url: String, schemas: Vec<TableSchema>) -> (r: OrmStruct)
        ensures
            r@.database_url == database_url@,
            r@.schemas == Seq::new(schemas@.len(), |i: int| schemas@[i]@),
    {
        OrmStruct { database_url, schemas }
    }

    /// A copy of this registry.
    pub fn duplicate(&self) -> (r: OrmStruct)
        ensures
            r@ == self@,
    {
        let n: usize = self.schemas.len();
        let mut schemas: Vec<TableSchema> = Vec::new();
        for i in 0..n
            invariant
                n == self.schemas.len(),
                schemas@.len() == i,
                forall|j: int| 0 <= j < i ==> #[trigger] schemas@[j]@ == self.schemas@[j]@,
        {
            schemas.push(self.schemas[i].duplicate());
        }
        let r = OrmStruct { database_url: self.database_url.clone(), schemas };
        proof {
            assert(r@.schemas =~= self@.schemas);
        }
        r
    }

    /// The first held schema whose name matches, or SchemaNotFound.
    pub fn find_schema(&self, table_name: &str) -> (r: Result<&TableSchema, OrmError>)
        ensures
            match r {
                Ok(s) => first_schema_match(self@.schemas, table_name@) == Some(s@),
                Err(e) => first_schema_match(self@.schemas, table_name@) is None && e
                    == OrmError::SchemaNotFound,
            },
    {
        let ghost m = self@.schemas;
        let n: usize = self.schemas.len();
        proof {
            assert(m.skip(0) =~= m);
        }
        for i in 0..n
            invariant
                n == self.schemas.len(),
                m == self@.schemas,
                m.len() == n,
                forall|j: int| 0 <= j < n ==> #[trigger] m[j] == self.schemas@[j]@,
                first_schema_match(m, table_name@) == first_schema_match(
                    m.skip(i as int),
                    table_name@,
                ),
        {
            proof {
                assert(m.skip(i as int).len() == n - i);
                assert(m.skip(i as int)[0] == m[i as int]);
            }
            if string_eq_str(&self.schemas[i].name, table_name) {
                return Ok(&self.schemas[i]);
            }
            proof {
                assert(m.skip(i as int).drop_first() =~= m.skip(i + 1));
            }
        }
        proof {
            assert(m.skip(n as int) =~= Seq::<TableModel>::empty());
        }
        Err(OrmError::SchemaNotFound)
    }

    /// One idempotent CREATE TABLE statement per held schema, in order.
    pub fn create_table_statements(&self) -> (r: Vec<String>)
        ensures
            r@.len() == self@.schemas.len(),
            forall|i: int|
                0 <= i < r@.len() ==> #[trigger] r@[i]@ == create_table_text(self@.schemas[i]),
    {
        let n: usize = self.schemas.len();
        let mut out: Vec<String> = Vec::new();
        for i in 0..n
            invariant
                n == self.schemas.len(),
                out@.len() == i,
                forall|j: int| 0 <= j < i ==> #[trigger] out@[j]@ == create_table_text(
                    self@.schemas[j],
                ),
        {
            out.push(create_table_sql(&self.schemas[i]));
        }
        out
    }

    /// The insertion statement for `item`, with the supplied identifier
    /// substituted for an unset generated-key column.
    pub fn insert_statement_with(
        &self,
        table_name: &str,
        item: &DynValue,
        fresh_id: &String,
    ) -> (r: Result<Statement, OrmError>)
        ensures
            match r {
                Ok(stmt) => match first_schema_match(self@.schemas, table_name@) {
                    Some(schema) => stmt.sql@ == insert_text(schema) && params_model(stmt.params@)
                        == insert_params(item@, schema, fresh_id@),
                    None => false,
                },
                Err(e) => first_schema_match(self@.schemas, table_name@) is None && e
                    == OrmError::SchemaNotFound,
            },
    {
        let schema = match self.find_schema(table_name) {
            Ok(s) => s,
            Err(e) => {
                return Err(e);
            },
        };
        let values = encode_for_write(item, schema, fresh_id);
        let params = params_for_values(&values);
        let sql = insert_sql(schema);
        proof {
            lemma_entry_seq_model(values@);
            assert(params_model(params@) =~= insert_params(item@, schema@, fresh_id@));
        }
        Ok(Statement { sql, params })
    }

    /// The insertion statement for `item`: a fresh generated identifier
    /// is substituted for an unset generated-key column.
    pub fn insert_statement(&self, table_name: &str, item: &DynValue) -> (r: Result<
        Statement,
        OrmError,
    >)
        ensures
            match r {
                Ok(stmt) => match first_schema_match(self@.schemas, table_name@) {
                    Some(schema) => exists|id: Seq<char>|
                        #![auto]
                        is_uuid_text(id) && stmt.sql@ == insert_text(schema) && params_model(
                            stmt.params@,
                        ) == insert_params(item@, schema, id),
                    None => false,
                },
                Err(e) => first_schema_match(self@.schemas, table_name@) is None && e
                    == OrmError::SchemaNotFound,
            },
    {
        let fresh_id = fresh_uuid_text();
        self.insert_statement_with(table_name, item, &fresh_id)
    }

    /// The single-row lookup by column equality, capped at one row.
    pub fn first_statement(&self, table_name: &str, column: &str, value: &str) -> (r: Result<
        Statement,
        OrmError,
    >)
        ensures
            match r {
                Ok(stmt) => first_schema_match(self@.schemas, table_name@) is Some && stmt.sql@
                    == select_first_text(table_name@, column@) && params_model(stmt.params@)
                    == seq![ParamModel::Text(value@)],
                Err(e) => first_schema_match(self@.schemas, table_name@) is None && e
                    == OrmError::SchemaNotFound,
            },
    {
        match self.find_schema(table_name) {
            Ok(_) => {},
            Err(e) => {
                return Err(e);
            },
        }
        let sql = select_first_sql(table_name, column);
        let mut params: Vec<Param> = Vec::new();
        params.push(Param::Text(value.to_owned()));
        proof {
            assert(params_model(params@) =~= seq![ParamModel::Text(value@)]);
        }
        Ok(Statement { sql, params })
    }

    /// The multi-row lookup by column equality.
    pub fn find_statement(&self, table_name: &str, column: &str, filter: &str) -> (r: Result<
        Statement,
        OrmError,
    >)
        ensures
            match r {
                Ok(stmt) => first_schema_match(self@.schemas, table_name@) is Some && stmt.sql@
                    == select_where_text(table_name@, column@) && params_model(stmt.params@)
                    == seq![ParamModel::Text(filter@)],
                Err(e) => first_schema_match(self@.schemas, table_name@) is None && e
                    == OrmError::SchemaNotFound,
            },
    {
        match self.find_schema(table_name) {
            Ok(_) => {},
            Err(e) => {
                return Err(e);
            },
        }
        let sql = select_where_sql(table_name, column);
        let mut params: Vec<Param> = Vec::new();
        params.push(Param::Text(filter.to_owned()));
        proof {
            assert(params_model(params@) =~= seq![ParamModel::Text(filter@)]);
        }
        Ok(Statement { sql, params })
    }

    /// The whole-table selection.
    pub fn get_all_statement(&self, table_name: &str) -> (r: Result<Statement, OrmError>)
        ensures
            match r {
                Ok(stmt) => first_schema_match(self@.schemas, table_name@) is Some && stmt.sql@
                    == select_all_text(table_name@) && params_model(stmt.params@)
                    == Seq::<ParamModel>::empty(),
                Err(e) => first_schema_match(self@.schemas, table_name@) is None && e
                    == OrmError::SchemaNotFound,
            },
    {
        match self.find_schema(table_name) {
            Ok(_) => {},
            Err(e) => {
                return Err(e);
            },
        }
        let sql = select_all_sql(table_name);
        let params: Vec<Param> = Vec::new();
        proof {
            assert(params_model(params@) =~= Seq::<ParamModel>::empty());
        }
        Ok(Statement { sql, params })
    }

    /// The update by column equality: a SET assignment for each schema
    /// column the payload supplies, in schema order, then the filter
    /// value as the last bound parameter.
    pub fn update_statement(
        &self,
        table_name: &str,
        column: &str,
        value: &str,
        item: &DynValue,
    ) -> (r: Result<Statement, OrmError>)
        requires
            (match first_schema_match(self@.schemas, table_name@) {
                Some(schema) => schema.columns.len() < usize::MAX,
                None => true,
            }),
        ensures
            match r {
                Ok(stmt) => match first_schema_match(self@.schemas, table_name@) {
                    Some(schema) => {
                        let sets = update_set_texts(item@, schema.columns, 1);
                        let ps = update_param_list(item@, schema.columns);
                        stmt.sql@ == update_text(table_name@, sets, column@, ps.len() as int + 1)
                            && params_model(stmt.params@) == ps.push(ParamModel::Text(value@))
                    },
                    None => false,
                },
                Err(e) => first_schema_match(self@.schemas, table_name@) is None && e
                    == OrmError::SchemaNotFound,
            },
    {
        let schema = match self.find_schema(table_name) {
            Ok(s) => s,
            Err(e) => {
                return Err(e);
            },
        };
        let ghost cols = schema@.columns;
        let n: usize = schema.columns.len();
        let mut sets: Vec<String> = Vec::new();
        let mut params: Vec<Param> = Vec::new();
        proof {
            assert(cols.skip(0) =~= cols);
        }
        for i in 0..n
            invariant
                n == schema.columns.len(),
                cols == schema@.columns,
                cols.len() == n,
                forall|j: int| 0 <= j < n ==> #[trigger] cols[j] == schema.columns@[j]@,
                params@.len() == sets@.len(),
                sets@.len() <= i,
                update_set_texts(item@, cols, 1) == sets.deep_view() + update_set_texts(
                    item@,
                    cols.skip(i as int),
                    sets@.len() as int + 1,
                ),
                update_param_list(item@, cols) == params_model(params@) + update_param_list(
                    item@,
                    cols.skip(i as int),
                ),
        {
            proof {
                assert(cols.skip(i as int).len() == n - i);
                assert(cols.skip(i as int)[0] == cols[i as int]);
                assert(cols.skip(i as int).drop_first() =~= cols.skip(i + 1));
            }
            let col = &schema.columns[i];
            match item.get_field(&col.name) {
                Some(v) => {
                    let mut s = col.name.clone();
                    s.append(" = ");
                    s.append(placeholder_text(sets.len() + 1).as_str());
                    let ghost pre_sets = sets;
                    let ghost pre_params = params;
                    sets.push(s);
                    params.push(param_of_value(v));
                    proof {
                        assert(sets.deep_view() =~= pre_sets.deep_view().push(
                            set_assign_text(cols[i as int].name, pre_sets@.len() as int + 1),
                        ));
                        assert(params_model(params@) =~= params_model(pre_params@).push(
                            bind_model(v@),
                        ));
                        assert(update_set_texts(item@, cols, 1) =~= sets.deep_view()
                            + update_set_texts(item@, cols.skip(i + 1), sets@.len() as int + 1));
                        assert(update_param_list(item@, cols) =~= params_model(params@)
                            + update_param_list(item@, cols.skip(i + 1)));
                    }
                },
                None => {
                    proof {
                        assert(update_set_texts(item@, cols, 1) =~= sets.deep_view()
                            + update_set_texts(item@, cols.skip(i + 1), sets@.len() as int + 1));
                        assert(update_param_list(item@, cols) =~= params_model(params@)
                            + update_param_list(item@, cols.skip(i + 1)));
                    }
                },
            }
        }
        proof {
            assert(cols.skip(n as int) =~= Seq::<ColumnModel>::empty());
            assert(update_set_texts(item@, cols, 1) =~= sets.deep_view());
            assert(update_param_list(item@, cols) =~= params_model(params@));
        }
        let key_placeholder = params.len() + 1;
        let sql = update_sql(table_name, &sets, column, key_placeholder);
        let ghost pre_params = params;
        params.push(Param::Text(value.to_owned()));
        proof {
            assert(params_model(params@) =~= params_model(pre_params@).push(
                ParamModel::Text(value@),
            ));
        }
        Ok(Statement { sql, params })
    }

    /// The single-criterion deletion.
    pub fn delete_statement(&self, table_name: &str, column: &str, value: &str) -> (r: Result<
        Statement,
        OrmError,
    >)
        ensures
            match r {
                Ok(stmt) => first_schema_match(self@.schemas, table_name@) is Some && stmt.sql@
                    == delete_text(table_name@, column@) && params_model(stmt.params@)
                    == seq![ParamModel::Text(value@)],
                Err(e) => first_schema_match(self@.schemas, table_name@) is None && e
                    == OrmError::SchemaNotFound,
            },
    {
        match self.find_schema(table_name) {
            Ok(_) => {},
            Err(e) => {
                return Err(e);
            },
        }
        let sql = delete_sql(table_name, column);
        let mut params: Vec<Param> = Vec::new();
        params.push(Param::Text(value.to_owned()));
        proof {
            assert(params_model(params@) =~= seq![ParamModel::Text(value@)]);
        }
        Ok(Statement { sql, params })
    }

    /// The existence probe by column equality.
    pub fn exists_statement(&self, table_name: &str, column: &str, value: &str) -> (r: Result<
        Statement,
        OrmError,
    >)
        ensures
            match r {
                Ok(stmt) => first_schema_match(self@.schemas, table_name@) is Some && stmt.sql@
                    == exists_text(table_name@, column@) && params_model(stmt.params@)
                    == seq![ParamModel::Text(value@)],
                Err(e) => first_schema_match(self@.schemas, table_name@) is None && e
                    == OrmError::SchemaNotFound,
            },
    {
        match self.find_schema(table_name) {
            Ok(_) => {},
            Err(e) => {
                return Err(e);
            },
        }
        let sql = exists_sql(table_name, column);
        let mut params: Vec<Param> = Vec::new();
        params.push(Param::Text(value.to_owned()));
        proof {
            assert(params_model(params@) =~= seq![ParamModel::Text(value@)]);
        }
        Ok(Statement { sql, params })
    }

    /// A fresh low-level builder scoped to `table`.
    pub fn query(&self, table: &str) -> (r: QueryBuilder)
        ensures
            r@ == (QueryBuilderModel {
                table: table@,
                selects: seq!["*"@],
                wheres: Seq::empty(),
                joins: Seq::empty(),
                groups: Seq::empty(),
                havings: Seq::empty(),
                limit_clause: None,
                offset_clause: None,
                order_clause: None,
                params: Seq::empty(),
            }),
    {
        QueryBuilder::new(table)
    }
}

/// Compare a held string against a borrowed slice.
fn string_eq_str(a: &String, b: &str) -> (r: bool)
    ensures
        r == (a@ == b@),
{
    let b_owned: String = b.to_owned();
    a.eq(&b_owned)
}

/// Mathematical view of a [`Table`] handle.
pub ghost struct TableHandleModel {
    pub orm: OrmModel,
    pub name: Seq<char>,
    pub key_column: Seq<char>,
}

/// A handle to one database table: a registry, the table's name, and its
/// designated key column.
#[derive(Debug)]
pub struct Table {
    orm: OrmStruct,
    name: String,
    key_column: String,
}

impl View for Table {
    type V = TableHandleModel;

    closed spec fn view(&self) -> TableHandleModel {
        TableHandleModel { orm: self.orm@, name: self.name@, key_column: self.key_column@ }
    }
}

/// The single `(column, text value)` pair of a well-formed filter
/// object: exactly one field, holding text.  Any other filter is
/// malformed.
pub open spec fn single_text_filter(f: ValueModel) -> Option<(Seq<char>, Seq<char>)> {
    match f {
        ValueModel::Object(es) => if es.len() == 1 {
            match es[0].1 {
                ValueModel::Text(t) => Some((es[0].0, t)),
                _ => None,
            }
        } else {
            None
        },
        _ => None,
    }
}

impl Table {
    /// A handle over a copy of the registry.
    pub fn new(orm: &OrmStruct, name: &str, key_column: &str) -> (r: Table)
        ensures
            r@ == (TableHandleModel { orm: orm@, name: name@, key_column: key_column@ }),
    {
        Table::with_key(orm.duplicate(), name, key_column)
    }

    /// A handle that takes ownership of the registry.
    pub fn with_key(orm: OrmStruct, name: &str, key_column: &str) -> (r: Table)
        ensures
            r@ == (TableHandleModel { orm: orm@, name: name@, key_column: key_column@ }),
    {
        Table { orm, name: name.to_owned(), key_column: key_column.to_owned() }
    }

    /// The insertion statement for `item` into this table.
    pub fn insert_statement(&self, item: &DynValue) -> (r: Result<Statement, OrmError>)
        ensures
            match r {
                Ok(stmt) => match first_schema_match(self@.orm.schemas, self@.name) {
                    Some(schema) => exists|id: Seq<char>|
                        #![auto]
                        is_uuid_text(id) && stmt.sql@ == insert_text(schema) && params_model(
                            stmt.params@,
                        ) == insert_params(item@, schema, id),
                    None => false,
                },
                Err(e) => first_schema_match(self@.orm.schemas, self@.name) is None && e
                    == OrmError::SchemaNotFound,
            },
    {
        self.orm.insert_statement(self.name.as_str(), item)
    }

    /// The single-row lookup for a filter object.  The filter must hold
    /// exactly one field, and its value must be text: anything else is a
    /// precondition violation, detected before any statement is built.
    pub fn get_statement(&self, filter: &DynValue) -> (r: Result<Statement, OrmError>)
        ensures
            match r {
                Ok(stmt) => match single_text_filter(filter@) {
                    Some(f) => first_schema_match(self@.orm.schemas, self@.name) is Some
                        && stmt.sql@ == select_first_text(self@.name, f.0) && params_model(
                        stmt.params@,
                    ) == seq![ParamModel::Text(f.1)],
                    None => false,
                },
                Err(e) => match single_text_filter(filter@) {
                    Some(_) => first_schema_match(self@.orm.schemas, self@.name) is None && e
                        == OrmError::SchemaNotFound,
                    None => e == OrmError::PreconditionViolation,
                },
            },
    {
        match filter {
            DynValue::Object(entries) => {
                proof {
                    lemma_entry_seq_model(entries@);
                }
                if entries.len() == 1 {
                    match &entries[0].1 {
                        DynValue::Text(t) => self.orm.first_statement(
                            self.name.as_str(),
                            entries[0].0.as_str(),
                            t.as_str(),
                        ),
                        _ => Err(OrmError::PreconditionViolation),
                    }
                } else {
                    Err(OrmError::PreconditionViolation)
                }
            },
            _ => Err(OrmError::PreconditionViolation),
        }
    }

    /// The whole-table selection for this table.
    pub fn get_all_statement(&self) -> (r: Result<Statement, OrmError>)
        ensures
            match r {
                Ok(stmt) => first_schema_match(self@.orm.schemas, self@.name) is Some && stmt.sql@
                    == select_all_text(self@.name) && params_model(stmt.params@)
                    == Seq::<ParamModel>::empty(),
                Err(e) => first_schema_match(self@.orm.schemas, self@.name) is None && e
                    == OrmError::SchemaNotFound,
            },
    {
        self.orm.get_all_statement(self.name.as_str())
    }

    /// A fresh fluent query scoped to this table and its key column.
    pub fn query(&self) -> (r: Query)
        ensures
            r@ == (QueryModel {
                table_name: self@.name,
                key_column: self@.key_column,
                wheres: Seq::empty(),
                limit: None,
                offset: None,
                order_by: None,
                distinct: false,
                group_by: Seq::empty(),
                havings: Seq::empty(),
            }),
    {
        Query::new(self.name.clone(), self.key_column.clone())
    }
}

/// Mathematical view of a [`Record`].
pub ghost struct RecordModel {
    pub table_name: Seq<char>,
    pub value: ValueModel,
    pub key_column: Seq<char>,
    pub id: Seq<char>,
}

/// A materialized row with its origin: the table it came from, the
/// designated key column, and a snapshot of the key value taken at
/// construction.  Update and delete statements target the snapshotted
/// key, so updating the key column itself leaves the snapshot stale.
#[derive(Debug)]
pub struct Record {
    /// The table this record came from.
    pub table_name: String,
    /// The materialized value.
    pub value: DynValue,
    key_column: String,
    id: String,
}

impl View for Record {
    type V = RecordModel;

    closed spec fn view(&self) -> RecordModel {
        RecordModel {
            table_name: self.table_name@,
            value: self.value@,
            key_column: self.key_column@,
            id: self.id@,
        }
    }
}

/// The SET fragments of a record update: one `key = $n` per payload
/// field, in payload order, numbered from 1.
pub open spec fn record_set_texts(es: Seq<(Seq<char>, ValueModel)>) -> Seq<Seq<char>> {
    Seq::new(es.len(), |i: int| set_assign_text(es[i].0, i + 1))
}

/// Every payload field holds text: record updates support string values
/// only.
pub open spec fn all_text_values(es: Seq<(Seq<char>, ValueModel)>) -> bool {
    forall|i: int| 0 <= i < es.len() ==> (#[trigger] es[i].1) is Text
}

/// The parameters a record update binds for its SET fragments.
pub open spec fn record_param_list(es: Seq<(Seq<char>, ValueModel)>) -> Seq<ParamModel> {
    Seq::new(
        es.len(),
        |i: int|
            match es[i].1 {
                ValueModel::Text(t) => ParamModel::Text(t),
                _ => ParamModel::Null,
            },
    )
}

impl Record {
    /// Wrap a decoded value, snapshotting its key: the key column's field
    /// must be present as text, else the record is refused.
    pub fn new(table_name: String, value: DynValue, key_column: String) -> (r: Result<
        Record,
        OrmError,
    >)
        ensures
            match r {
                Ok(rec) => value@.field(key_column@) == Some(ValueModel::Text(rec@.id))
                    && rec@.table_name == table_name@ && rec@.value == value@ && rec@.key_column
                    == key_column@,
                Err(e) => e == OrmError::PreconditionViolation && (match value@.field(
                    key_column@,
                ) {
                    Some(ValueModel::Text(_)) => false,
                    _ => true,
                }),
            },
    {
        let id = match value.get_field(&key_column) {
            Some(DynValue::Text(t)) => t.clone(),
            _ => {
                return Err(OrmError::PreconditionViolation);
            },
        };
        Ok(Record { table_name, value, key_column, id })
    }

    /// The update statement for a payload of string-valued fields: one
    /// positional SET assignment per payload field, in payload order,
    /// with the snapshotted key value as the last bound parameter.  A
    /// payload that is not an object, or holds a non-string value, is a
    /// precondition violation.
    pub fn update_statement(&self, updates: &DynValue) -> (r: Result<Statement, OrmError>)
        requires
            updates@.fields().len() < usize::MAX,
        ensures
            match r {
                Ok(stmt) => {
                    let es = updates@.fields();
                    updates@ is Object && all_text_values(es) && stmt.sql@ == update_text(
                        self@.table_name,
                        record_set_texts(es),
                        self@.key_column,
                        es.len() as int + 1,
                    ) && params_model(stmt.params@) == record_param_list(es).push(
                        ParamModel::Text(self@.id),
                    )
                },
                Err(e) => e == OrmError::PreconditionViolation && !(updates@ is Object
                    && all_text_values(updates@.fields())),
            },
    {
        let entries = match updates {
            DynValue::Object(entries) => entries,
            _ => {
                return Err(OrmError::PreconditionViolation);
            },
        };
        let ghost es = updates@.fields();
        proof {
            lemma_entry_seq_model(entries@);
        }
        let n: usize = entries.len();
        let mut sets: Vec<String> = Vec::new();
        let mut params: Vec<Param> = Vec::new();
        for i in 0..n
            invariant
                n == entries.len(),
                es == entry_seq_model(entries@),
                es == updates@.fields(),
                updates@ is Object,
                es.len() == n,
                forall|j: int| 0 <= j < n ==> #[trigger] es[j] == (
                    entries@[j].0@,
                    entries@[j].1@,
                ),
                sets@.len() == i,
                params@.len() == i,
                forall|j: int| 0 <= j < i ==> (#[trigger] es[j].1) is Text,
                forall|j: int| 0 <= j < i ==> #[trigger] sets@[j]@ == set_assign_text(
                    es[j].0,
                    j + 1,
                ),
                forall|j: int| 0 <= j < i ==> #[trigger] params@[j]@ == ParamModel::Text(
                    es[j].1->Text_0,
                ),
        {
            let t = match &entries[i].1 {
                DynValue::Text(t) => t,
                _ => {
                    proof {
                        assert(!(es[i as int].1 is Text));
                        assert(!all_text_values(es));
                    }
                    return Err(OrmError::PreconditionViolation);
                },
            };
            let mut s = entries[i].0.clone();
            s.append(" = ");
            s.append(placeholder_text(i + 1).as_str());
            sets.push(s);
            params.push(Param::Text(t.clone()));
        }
        let sql = update_sql(
            self.table_name.as_str(),
            &sets,
            self.key_column.as_str(),
            n + 1,
        );
        let ghost pre_params = params;
        params.push(Param::Text(self.id.clone()));
        proof {
            assert forall|j: int| 0 <= j < n implies sets.deep_view()[j] == record_set_texts(
                es,
            )[j] by {
                assert(sets.deep_view()[j] == sets@[j]@);
            }
            assert(sets.deep_view() =~= record_set_texts(es));
            assert(params_model(pre_params@) =~= record_param_list(es));
            assert(params_model(params@) =~= record_param_list(es).push(
                ParamModel::Text(self@.id),
            ));
        }
        Ok(Statement { sql, params })
    }

    /// The re-fetch of this record's row by its snapshotted key.
    pub fn refetch_statement(&self) -> (r: Statement)
        ensures
            r.sql@ == select_where_text(self@.table_name, self@.key_column),
            params_model(r.params@) == seq![ParamModel::Text(self@.id)],
    {
        let sql = select_where_sql(self.table_name.as_str(), self.key_column.as_str());
        let mut params: Vec<Param> = Vec::new();
        params.push(Param::Text(self.id.clone()));
        proof {
            assert(params_model(params@) =~= seq![ParamModel::Text(self@.id)]);
        }
        Statement { sql, params }
    }

    /// The deletion of this record's row by its snapshotted key.
    pub fn delete_statement(&self) -> (r: Statement)
        ensures
            r.sql@ == delete_text(self@.table_name, self@.key_column),
            params_model(r.params@) == seq![ParamModel::Text(self@.id)],
    {
        let sql = delete_sql(self.table_name.as_str(), self.key_column.as_str());
        let mut params: Vec<Param> = Vec::new();
        params.push(Param::Text(self.id.clone()));
        proof {
            assert(params_model(params@) =~= seq![ParamModel::Text(self@.id)]);
        }
        Statement { sql, params }
    }
}

} // verus!
