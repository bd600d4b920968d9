//! The fluent query builder: chainable clause accumulation, and the exact
//! selection statement the accumulated clauses produce.
//!
//! A builder is mutated only while chaining; a terminal call consumes it
//! by value, so it cannot be reused afterwards.  Chaining does no I/O and
//! cannot fail; executing the produced statement is the caller's part.

use vstd::prelude::*;
use crate::codec::Param;
use crate::codec::ParamModel;
use crate::error::OrmError;
use crate::lex::dec_rep;
use crate::lex::u64_to_dec;
use crate::sql::Statement;
use crate::sql::join_seq;
use crate::sql::join_with;
use crate::sql::keyword_join_part;
use crate::sql::params_model;
use crate::sql::placeholder;
use crate::sql::placeholder_text;
use crate::value::DynValue;

verus! {

/// Mathematical view of a [`Query`]: a clause is `(column, op, value)`.
pub ghost struct QueryModel {
    pub table_name: Seq<char>,
    pub key_column: Seq<char>,
    pub wheres: Seq<(Seq<char>, Seq<char>, Seq<char>)>,
    pub limit: Option<u32>,
    pub offset: Option<u32>,
    pub order_by: Option<(Seq<char>, Seq<char>)>,
    pub distinct: bool,
    pub group_by: Seq<Seq<char>>,
    pub havings: Seq<(Seq<char>, Seq<char>, Seq<char>)>,
}

/// The views of a sequence of `(column, op, value)` clause triples.
pub open spec fn clauses_model(cs: Seq<(String, String, String)>) -> Seq<
    (Seq<char>, Seq<char>, Seq<char>),
> {
    Seq::new(cs.len(), |i: int| (cs[i].0@, cs[i].1@, cs[i].2@))
}

/// A chainable selection query scoped to one table.
pub struct Query {
    table_name: String,
    key_column: String,
    wheres: Vec<(String, String, String)>,
    limit: Option<u32>,
    offset: Option<u32>,
    order_by: Option<(String, String)>,
    distinct: bool,
    group_by: Vec<String>,
    havings: Vec<(String, String, String)>,
}

impl View for Query {
    type V = QueryModel;

    closed spec fn view(&self) -> QueryModel {
        QueryModel {
            table_name: self.table_name@,
            key_column: self.key_column@,
            wheres: clauses_model(self.wheres@),
            limit: self.limit,
            offset: self.offset,
            order_by: match self.order_by {
                Some(o) => Some((o.0@, o.1@)),
                None => None,
            },
            distinct: self.distinct,
            group_by: self.group_by.deep_view(),
            havings: clauses_model(self.havings@),
        }
    }
}

/// The comparison texts of the clauses, with placeholders numbered from
/// `start`: the i-th clause reads `column op $(start + i)`.
pub open spec fn cond_texts(
    cs: Seq<(Seq<char>, Seq<char>, Seq<char>)>,
    start: int,
) -> Seq<Seq<char>> {
    Seq::new(cs.len(), |i: int| cs[i].0 + " "@ + cs[i].1 + " "@ + placeholder(start + i))
}

/// The SQL text that a query's accumulated clauses produce.  An empty
/// clause list omits its keyword entirely; WHERE placeholders are
/// numbered from 1 and HAVING placeholders continue from
/// `wheres.len() + 1`.
pub open spec fn select_text(q: QueryModel) -> Seq<char> {
    (if q.distinct {
        "SELECT DISTINCT *"@
    } else {
        "SELECT *"@
    }) + " FROM "@ + q.table_name + (if q.wheres.len() > 0 {
        " WHERE "@ + join_seq(cond_texts(q.wheres, 1), " AND "@)
    } else {
        Seq::empty()
    }) + (if q.group_by.len() > 0 {
        " GROUP BY "@ + join_seq(q.group_by, ", "@)
    } else {
        Seq::empty()
    }) + (if q.havings.len() > 0 {
        " HAVING "@ + join_seq(cond_texts(q.havings, q.wheres.len() as int + 1), " AND "@)
    } else {
        Seq::empty()
    }) + (match q.order_by {
        Some(o) => " ORDER BY "@ + o.0 + " "@ + o.1,
        None => Seq::empty(),
    }) + (match q.limit {
        Some(n) => " LIMIT "@ + dec_rep(n as int),
        None => Seq::empty(),
    }) + (match q.offset {
        Some(n) => " OFFSET "@ + dec_rep(n as int),
        None => Seq::empty(),
    })
}

/// The parameters a query binds: every WHERE value in clause order, then
/// every HAVING value in clause order, all as text.
pub open spec fn select_params(q: QueryModel) -> Seq<ParamModel> {
    Seq::new(
        q.wheres.len() + q.havings.len(),
        |i: int|
            ParamModel::Text(
                if i < q.wheres.len() {
                    q.wheres[i].2
                } else {
                    q.havings[i - q.wheres.len()].2
                },
            ),
    )
}

/// `q` with its limit replaced.
pub open spec fn with_limit(q: QueryModel, n: u32) -> QueryModel {
    QueryModel { limit: Some(n), ..q }
}

impl Query {
    /// A fresh query against `table_name` with no clauses accumulated.
    pub fn new(table_name: String, key_column: String) -> (r: Query)
        ensures
            r@ == (QueryModel {
                table_name: table_name@,
                key_column: key_column@,
                wheres: Seq::empty(),
                limit: None,
                offset: None,
                order_by: None,
                distinct: false,
                group_by: Seq::empty(),
                havings: Seq::empty(),
            }),
    {
        let r = Query {
            table_name,
            key_column,
            wheres: Vec::new(),
            limit: None,
            offset: None,
            order_by: None,
            distinct: false,
            group_by: Vec::new(),
            havings: Vec::new(),
        };
        proof {
            assert(clauses_model(r.wheres@) =~= Seq::<(Seq<char>, Seq<char>, Seq<char>)>::empty());
            assert(clauses_model(r.havings@) =~= Seq::<(Seq<char>, Seq<char>, Seq<char>)>::empty());
            assert(r.group_by.deep_view() =~= Seq::<Seq<char>>::empty());
        }
        r
    }

    /// Append one WHERE clause `column op value`.
    pub fn where_clause(self, column: &str, op: &str, value: &str) -> (r: Query)
        ensures
            r@ == (QueryModel { wheres: self@.wheres.push((column@, op@, value@)), ..self@ }),
    {
        let mut q = self;
        q.wheres.push((column.to_owned(), op.to_owned(), value.to_owned()));
        proof {
            assert(clauses_model(q.wheres@) =~= self@.wheres.push((column@, op@, value@)));
        }
        q
    }

    /// Cap the number of returned rows.
    pub fn limit(self, n: u32) -> (r: Query)
        ensures
            r@ == with_limit(self@, n),
    {
        let mut q = self;
        q.limit = Some(n);
        q
    }

    /// Order the result by one column in the given direction.
    pub fn order_by(self, column: &str, direction: &str) -> (r: Query)
        ensures
            r@ == (QueryModel { order_by: Some((column@, direction@)), ..self@ }),
    {
        let mut q = self;
        q.order_by = Some((column.to_owned(), direction.to_owned()));
        q
    }

    /// Skip the first `n` rows of the result.
    pub fn offset(self, n: u32) -> (r: Query)
        ensures
            r@ == (QueryModel { offset: Some(n), ..self@ }),
    {
        let mut q = self;
        q.offset = Some(n);
        q
    }

    /// Request distinct rows only.
    pub fn distinct(self) -> (r: Query)
        ensures
            r@ == (QueryModel { distinct: true, ..self@ }),
    {
        let mut q = self;
        q.distinct = true;
        q
    }

    /// Replace the GROUP BY column list.
    pub fn group_by(self, columns: Vec<String>) -> (r: Query)
        ensures
            r@ == (QueryModel { group_by: columns.deep_view(), ..self@ }),
    {
        let mut q = self;
        q.group_by = columns;
        q
    }

    /// Append one HAVING clause `column op value`.
    pub fn having(self, column: &str, op: &str, value: &str) -> (r: Query)
        ensures
            r@ == (QueryModel { havings: self@.havings.push((column@, op@, value@)), ..self@ }),
    {
        let mut q = self;
        q.havings.push((column.to_owned(), op.to_owned(), value.to_owned()));
        proof {
            assert(clauses_model(q.havings@) =~= self@.havings.push((column@, op@, value@)));
        }
        q
    }

    /// The selection statement the accumulated clauses produce.  Consumes
    /// the builder: a query cannot be reused after its terminal call.
    pub fn get_statement(self) -> (r: Statement)
        requires
            self@.wheres.len() + self@.havings.len() + 1 <= usize::MAX,
        ensures
            r.sql@ == select_text(self@),
            params_model(r.params@) == select_params(self@),
    {
        let ghost q = self@;
        let mut sql = if self.distinct {
            String::from_str("SELECT DISTINCT *")
        } else {
            String::from_str("SELECT *")
        };
        sql.append(" FROM ");
        sql.append(self.table_name.as_str());
        let where_conds = clause_texts(&self.wheres, 1);
        sql.append(keyword_join_part(" WHERE ", &where_conds, " AND ").as_str());
        sql.append(keyword_join_part(" GROUP BY ", &self.group_by, ", ").as_str());
        let having_conds = clause_texts(&self.havings, self.wheres.len() + 1);
        sql.append(keyword_join_part(" HAVING ", &having_conds, " AND ").as_str());
        sql.append(order_part(&self.order_by).as_str());
        sql.append(number_part(" LIMIT ", self.limit).as_str());
        sql.append(number_part(" OFFSET ", self.offset).as_str());
        proof {
            assert(sql@ == select_text(q));
        }
        let mut params: Vec<Param> = Vec::new();
        let nw: usize = self.wheres.len();
        for i in 0..nw
            invariant
                nw == self.wheres.len(),
                params@.len() == i,
                forall|j: int| 0 <= j < i ==> #[trigger] params@[j]@ == ParamModel::Text(
                    self.wheres@[j].2@,
                ),
        {
            params.push(Param::Text(self.wheres[i].2.clone()));
        }
        let nh: usize = self.havings.len();
        for i in 0..nh
            invariant
                nw == self.wheres.len(),
                nh == self.havings.len(),
                params@.len() == nw + i,
                forall|j: int| 0 <= j < nw ==> #[trigger] params@[j]@ == ParamModel::Text(
                    self.wheres@[j].2@,
                ),
                forall|j: int| nw <= j < nw + i ==> #[trigger] params@[j]@ == ParamModel::Text(
                    self.havings@[j - nw].2@,
                ),
        {
            params.push(Param::Text(self.havings[i].2.clone()));
        }
        proof {
            assert(params_model(params@) =~= select_params(q));
        }
        Statement { sql, params }
    }

    /// Cap the result at one row and build the selection statement.
    pub fn first_statement(self) -> (r: Statement)
        requires
            self@.wheres.len() + self@.havings.len() + 1 <= usize::MAX,
        ensures
            r.sql@ == select_text(with_limit(self@, 1)),
            params_model(r.params@) == select_params(with_limit(self@, 1)),
    {
        self.limit(1).get_statement()
    }
}

/// The formatted comparison texts of the clauses, with placeholders
/// numbered from `start`.
fn clause_texts(cs: &Vec<(String, String, String)>, start: usize) -> (r: Vec<String>)
    requires
        start + cs@.len() <= usize::MAX,
    ensures
        r.deep_view() == cond_texts(clauses_model(cs@), start as int),
{
    let n: usize = cs.len();
    let mut out: Vec<String> = Vec::new();
    for i in 0..n
        invariant
            n == cs.len(),
            start + n <= usize::MAX,
            out@.len() == i,
            forall|j: int| 0 <= j < i ==> #[trigger] out@[j]@ == cs@[j].0@ + " "@ + cs@[j].1@ + " "@
                + placeholder(start + j),
    {
        let c = &cs[i];
        let mut t = c.0.clone();
        t.append(" ");
        t.append(c.1.as_str());
        t.append(" ");
        t.append(placeholder_text(start + i).as_str());
        out.push(t);
    }
    proof {
        assert forall|j: int| 0 <= j < n implies out.deep_view()[j] == cond_texts(
            clauses_model(cs@),
            start as int,
        )[j] by {
            assert(out.deep_view()[j] == out@[j]@);
        }
        assert(out.deep_view() =~= cond_texts(clauses_model(cs@), start as int));
    }
    out
}

/// With no clauses accumulated, the selection is exactly
/// `SELECT * FROM <table>`, with nothing bound: no WHERE, GROUP BY,
/// HAVING, ORDER BY, LIMIT, or OFFSET suffix appears.
pub proof fn lemma_plain_query_select(q: QueryModel)
    requires
        q.wheres.len() == 0,
        q.group_by.len() == 0,
        q.havings.len() == 0,
        q.order_by is None,
        q.limit is None,
        q.offset is None,
        !q.distinct,
    ensures
        select_text(q) == "SELECT * FROM "@ + q.table_name,
        select_params(q).len() == 0,
{
    reveal_strlit("SELECT *");
    reveal_strlit(" FROM ");
    reveal_strlit("SELECT * FROM ");
    assert(select_text(q) =~= "SELECT * FROM "@ + q.table_name);
}

/// Placeholder numbering is continuous across WHERE and then HAVING: the
/// WHERE clauses bind markers `$1` through `$len(wheres)`, and the i-th
/// HAVING clause binds marker number `len(wheres) + 1 + i`.
pub proof fn lemma_placeholder_numbering(q: QueryModel)
    ensures
        forall|i: int|
            0 <= i < q.wheres.len() ==> #[trigger] cond_texts(q.wheres, 1)[i] == q.wheres[i].0
                + " "@ + q.wheres[i].1 + " "@ + placeholder(1 + i),
        forall|i: int|
            0 <= i < q.havings.len() ==> #[trigger] cond_texts(
                q.havings,
                q.wheres.len() as int + 1,
            )[i] == q.havings[i].0 + " "@ + q.havings[i].1 + " "@ + placeholder(
                q.wheres.len() as int + 1 + i,
            ),
{
}

/// The ORDER BY section, or nothing when no order was requested.
fn order_part(order_by: &Option<(String, String)>) -> (r: String)
    ensures
        r@ == match order_by {
            Some(o) => " ORDER BY "@ + o.0@ + " "@ + o.1@,
            None => Seq::<char>::empty(),
        },
{
    match order_by {
        Some(o) => {
            let mut out = String::from_str(" ORDER BY ");
            out.append(o.0.as_str());
            out.append(" ");
            out.append(o.1.as_str());
            out
        },
        None => String::new(),
    }
}

/// A numeric section such as LIMIT or OFFSET, or nothing when absent.
fn number_part(keyword: &str, n: Option<u32>) -> (r: String)
    ensures
        r@ == match n {
            Some(v) => keyword@ + dec_rep(v as int),
            None => Seq::<char>::empty(),
        },
{
    match n {
        Some(v) => {
            let mut out = String::from_str(keyword);
            out.append(u64_to_dec(v as u64).as_str());
            out
        },
        None => String::new(),
    }
}

/// The first decoded result, if any: an empty result set is a legitimate
/// outcome, not an error.
pub fn first_result(results: Vec<DynValue>) -> (r: Option<DynValue>)
    ensures
        match r {
            Some(v) => results@.len() > 0 && v@ == results@[0]@,
            None => results@.len() == 0,
        },
{
    let mut results = results;
    if results.len() == 0 {
        None
    } else {
        Some(results.remove(0))
    }
}

/// The first decoded result, with absence escalated to an error: an
/// empty result set is reported as NotFound.
pub fn first_value_result(results: Vec<DynValue>) -> (r: Result<DynValue, OrmError>)
    ensures
        match r {
            Ok(v) => results@.len() > 0 && v@ == results@[0]@,
            Err(e) => results@.len() == 0 && e == OrmError::NotFound,
        },
{
    let mut results = results;
    if results.len() == 0 {
        Err(OrmError::NotFound)
    } else {
        Ok(results.remove(0))
    }
}

} // verus!
