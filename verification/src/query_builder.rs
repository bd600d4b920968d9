//! The low-level query builder: clauses kept as preformatted SQL
//! fragments beside a growing parameter list.
//!
//! Unlike the fluent [`crate::query::Query`], this builder formats each
//! clause the moment it is added, numbering the placeholder after the
//! parameters already accumulated.  The LIKE and ILIKE helpers wrap the
//! supplied pattern in `%...%` before binding it, so callers must not
//! pre-wrap.

use vstd::prelude::*;
use crate::codec::Param;
use crate::codec::ParamModel;
use crate::error::OrmError;
use crate::lex::int_rep;
use crate::lex::i64_to_dec;
use crate::sql::Statement;
use crate::sql::join_seq;
use crate::sql::join_with;
use crate::sql::keyword_join_part;
use crate::sql::params_model;
use crate::sql::placeholder;
use crate::sql::placeholder_text;
use crate::value::DynValue;

verus! {

/// Mathematical view of a [`QueryBuilder`].
pub ghost struct QueryBuilderModel {
    pub table: Seq<char>,
    pub selects: Seq<Seq<char>>,
    pub wheres: Seq<Seq<char>>,
    pub joins: Seq<Seq<char>>,
    pub groups: Seq<Seq<char>>,
    pub havings: Seq<Seq<char>>,
    pub limit_clause: Option<Seq<char>>,
    pub offset_clause: Option<Seq<char>>,
    pub order_clause: Option<Seq<char>>,
    pub params: Seq<Seq<char>>,
}

/// A chainable selection builder over preformatted clause fragments.
pub struct QueryBuilder {
    table: String,
    selects: Vec<String>,
    wheres: Vec<String>,
    joins: Vec<String>,
    groups: Vec<String>,
    havings: Vec<String>,
    limit_clause: Option<String>,
    offset_clause: Option<String>,
    order_clause: Option<String>,
    params: Vec<String>,
}

impl View for QueryBuilder {
    type V = QueryBuilderModel;

    closed spec fn view(&self) -> QueryBuilderModel {
        QueryBuilderModel {
            table: self.table@,
            selects: self.selects.deep_view(),
            wheres: self.wheres.deep_view(),
            joins: self.joins.deep_view(),
            groups: self.groups.deep_view(),
            havings: self.havings.deep_view(),
            limit_clause: match self.limit_clause {
                Some(l) => Some(l@),
                None => None,
            },
            offset_clause: match self.offset_clause {
                Some(o) => Some(o@),
                None => None,
            },
            order_clause: match self.order_clause {
                Some(o) => Some(o@),
                None => None,
            },
            params: self.params.deep_view(),
        }
    }
}

/// The SQL text a builder's fragments produce: the selected columns, the
/// table, then each non-empty clause list joined under its keyword.
pub open spec fn builder_sql_text(b: QueryBuilderModel) -> Seq<char> {
    "SELECT "@ + join_seq(b.selects, ","@) + " FROM "@ + b.table + (if b.joins.len() > 0 {
        " "@ + join_seq(b.joins, " "@)
    } else {
        Seq::empty()
    }) + (if b.wheres.len() > 0 {
        " WHERE "@ + join_seq(b.wheres, " AND "@)
    } else {
        Seq::empty()
    }) + (if b.groups.len() > 0 {
        " GROUP BY "@ + join_seq(b.groups, ", "@)
    } else {
        Seq::empty()
    }) + (if b.havings.len() > 0 {
        " HAVING "@ + join_seq(b.havings, " AND "@)
    } else {
        Seq::empty()
    }) + (match b.order_clause {
        Some(o) => " "@ + o,
        None => Seq::empty(),
    }) + (match b.limit_clause {
        Some(l) => " "@ + l,
        None => Seq::empty(),
    }) + (match b.offset_clause {
        Some(o) => " "@ + o,
        None => Seq::empty(),
    })
}

impl QueryBuilder {
    /// A fresh builder selecting every column of `table`.
    pub fn new(table: &str) -> (r: QueryBuilder)
        ensures
            r@ == (QueryBuilderModel {
                table: table@,
                selects: seq!["*"@],
                wheres: Seq::empty(),
                joins: Seq::empty(),
                groups: Seq::empty(),
                havings: Seq::empty(),
                limit_clause: None,
                offset_clause: None,
                order_clause: None,
                params: Seq::empty(),
            }),
    {
        let mut selects: Vec<String> = Vec::new();
        selects.push(String::from_str("*"));
        let r = QueryBuilder {
            table: table.to_owned(),
            selects,
            wheres: Vec::new(),
            joins: Vec::new(),
            groups: Vec::new(),
            havings: Vec::new(),
            limit_clause: None,
            offset_clause: None,
            order_clause: None,
            params: Vec::new(),
        };
        proof {
            assert(r.selects.deep_view() =~= seq!["*"@]);
            assert(r.wheres.deep_view() =~= Seq::<Seq<char>>::empty());
            assert(r.joins.deep_view() =~= Seq::<Seq<char>>::empty());
            assert(r.groups.deep_view() =~= Seq::<Seq<char>>::empty());
            assert(r.havings.deep_view() =~= Seq::<Seq<char>>::empty());
            assert(r.params.deep_view() =~= Seq::<Seq<char>>::empty());
        }
        r
    }

    /// Replace the selected column list.
    pub fn select(self, columns: Vec<String>) -> (r: QueryBuilder)
        ensures
            r@ == (QueryBuilderModel { selects: columns.deep_view(), ..self@ }),
    {
        let mut b = self;
        b.selects = columns;
        b
    }

    /// Append the filter `column op value`, binding the value to the next
    /// free placeholder.
    pub fn where_clause(self, column: &str, op: &str, value: &str) -> (r: QueryBuilder)
        requires
            self@.params.len() < usize::MAX,
        ensures
            r@ == (QueryBuilderModel {
                wheres: self@.wheres.push(
                    column@ + " "@ + op@ + " "@ + placeholder(self@.params.len() as int + 1),
                ),
                params: self@.params.push(value@),
                ..self@
            }),
    {
        let mut b = self;
        let mut w = column.to_owned();
        w.append(" ");
        w.append(op);
        w.append(" ");
        w.append(placeholder_text(b.params.len() + 1).as_str());
        let ghost w_model = w@;
        b.wheres.push(w);
        let value_owned = value.to_owned();
        let ghost v_model = value_owned@;
        b.params.push(value_owned);
        proof {
            lemma_push_deep_view(self.wheres, b.wheres, b.wheres@.last());
            lemma_push_deep_view(self.params, b.params, b.params@.last());
            assert(b.wheres@.last()@ == w_model);
            assert(b.params@.last()@ == v_model);
        }
        b
    }

    /// Append a LIKE filter; the pattern is wrapped in `%...%` before it
    /// is bound, never passed through raw.
    pub fn like(self, column: &str, pattern: &str) -> (r: QueryBuilder)
        requires
            self@.params.len() < usize::MAX,
        ensures
            r@ == (QueryBuilderModel {
                wheres: self@.wheres.push(
                    column@ + " LIKE "@ + placeholder(self@.params.len() as int + 1),
                ),
                params: self@.params.push("%"@ + pattern@ + "%"@),
                ..self@
            }),
    {
        let mut b = self;
        let mut w = column.to_owned();
        w.append(" LIKE ");
        w.append(placeholder_text(b.params.len() + 1).as_str());
        let mut p = String::from_str("%");
        p.append(pattern);
        p.append("%");
        let ghost w_model = w@;
        let ghost p_model = p@;
        b.wheres.push(w);
        b.params.push(p);
        proof {
            lemma_push_deep_view(self.wheres, b.wheres, b.wheres@.last());
            lemma_push_deep_view(self.params, b.params, b.params@.last());
            assert(b.wheres@.last()@ == w_model);
            assert(b.params@.last()@ == p_model);
        }
        b
    }

    /// Append a case-insensitive ILIKE filter; the pattern is wrapped in
    /// `%...%` before it is bound, never passed through raw.
    pub fn ilike(self, column: &str, pattern: &str) -> (r: QueryBuilder)
        requires
            self@.params.len() < usize::MAX,
        ensures
            r@ == (QueryBuilderModel {
                wheres: self@.wheres.push(
                    column@ + " ILIKE "@ + placeholder(self@.params.len() as int + 1),
                ),
                params: self@.params.push("%"@ + pattern@ + "%"@),
                ..self@
            }),
    {
        let mut b = self;
        let mut w = column.to_owned();
        w.append(" ILIKE ");
        w.append(placeholder_text(b.params.len() + 1).as_str());
        let mut p = String::from_str("%");
        p.append(pattern);
        p.append("%");
        let ghost w_model = w@;
        let ghost p_model = p@;
        b.wheres.push(w);
        b.params.push(p);
        proof {
            lemma_push_deep_view(self.wheres, b.wheres, b.wheres@.last());
            lemma_push_deep_view(self.params, b.params, b.params@.last());
            assert(b.wheres@.last()@ == w_model);
            assert(b.params@.last()@ == p_model);
        }
        b
    }

    /// Append an inner join of `table` on `left = right`.
    pub fn join(self, table: &str, left: &str, right: &str) -> (r: QueryBuilder)
        ensures
            r@ == (QueryBuilderModel {
                joins: self@.joins.push("JOIN "@ + table@ + " ON "@ + left@ + " = "@ + right@),
                ..self@
            }),
    {
        let mut b = self;
        let mut j = String::from_str("JOIN ");
        j.append(table);
        j.append(" ON ");
        j.append(left);
        j.append(" = ");
        j.append(right);
        let ghost j_model = j@;
        b.joins.push(j);
        proof {
            lemma_push_deep_view(self.joins, b.joins, b.joins@.last());
            assert(b.joins@.last()@ == j_model);
        }
        b
    }

    /// Append a left outer join of `table` on `left = right`.
    pub fn left_join(self, table: &str, left: &str, right: &str) -> (r: QueryBuilder)
        ensures
            r@ == (QueryBuilderModel {
                joins: self@.joins.push(
                    "LEFT JOIN "@ + table@ + " ON "@ + left@ + " = "@ + right@,
                ),
                ..self@
            }),
    {
        let mut b = self;
        let mut j = String::from_str("LEFT JOIN ");
        j.append(table);
        j.append(" ON ");
        j.append(left);
        j.append(" = ");
        j.append(right);
        let ghost j_model = j@;
        b.joins.push(j);
        proof {
            lemma_push_deep_view(self.joins, b.joins, b.joins@.last());
            assert(b.joins@.last()@ == j_model);
        }
        b
    }

    /// Cap the number of returned rows.
    pub fn limit(self, n: i64) -> (r: QueryBuilder)
        ensures
            r@ == (QueryBuilderModel {
                limit_clause: Some("LIMIT "@ + int_rep(n as int)),
                ..self@
            }),
    {
        let mut b = self;
        let mut l = String::from_str("LIMIT ");
        l.append(i64_to_dec(n).as_str());
        b.limit_clause = Some(l);
        b
    }

    /// Order the result by one column in the given direction.
    pub fn order_by(self, column: &str, direction: &str) -> (r: QueryBuilder)
        ensures
            r@ == (QueryBuilderModel {
                order_clause: Some("ORDER BY "@ + column@ + " "@ + direction@),
                ..self@
            }),
    {
        let mut b = self;
        let mut o = String::from_str("ORDER BY ");
        o.append(column);
        o.append(" ");
        o.append(direction);
        b.order_clause = Some(o);
        b
    }

    /// Assemble the SQL text of the accumulated fragments.
    pub fn build_sql(&self) -> (r: String)
        ensures
            r@ == builder_sql_text(self@),
    {
        let mut sql = String::from_str("SELECT ");
        sql.append(join_with(&self.selects, ",").as_str());
        sql.append(" FROM ");
        sql.append(self.table.as_str());
        sql.append(keyword_join_part(" ", &self.joins, " ").as_str());
        sql.append(keyword_join_part(" WHERE ", &self.wheres, " AND ").as_str());
        sql.append(keyword_join_part(" GROUP BY ", &self.groups, ", ").as_str());
        sql.append(keyword_join_part(" HAVING ", &self.havings, " AND ").as_str());
        sql.append(optional_part(&self.order_clause).as_str());
        sql.append(optional_part(&self.limit_clause).as_str());
        sql.append(optional_part(&self.offset_clause).as_str());
        proof {
            assert(sql@ == builder_sql_text(self@));
        }
        sql
    }

    /// The complete statement: the assembled SQL text and every bound
    /// value, in binding order, as text parameters.
    pub fn statement(&self) -> (r: Statement)
        ensures
            r.sql@ == builder_sql_text(self@),
            params_model(r.params@) == Seq::new(
                self@.params.len(),
                |i: int| ParamModel::Text(self@.params[i]),
            ),
    {
        let sql = self.build_sql();
        let n: usize = self.params.len();
        let mut params: Vec<Param> = Vec::new();
        for i in 0..n
            invariant
                n == self.params.len(),
                params@.len() == i,
                forall|j: int| 0 <= j < i ==> #[trigger] params@[j]@ == ParamModel::Text(
                    self.params@[j]@,
                ),
        {
            params.push(Param::Text(self.params[i].clone()));
        }
        proof {
            assert(params_model(params@) =~= Seq::new(
                self@.params.len(),
                |i: int| ParamModel::Text(self@.params[i]),
            ));
        }
        Statement { sql, params }
    }
}

/// A clause fragment preceded by one space, or nothing when absent.
fn optional_part(part: &Option<String>) -> (r: String)
    ensures
        r@ == match part {
            Some(p) => " "@ + p@,
            None => Seq::<char>::empty(),
        },
{
    match part {
        Some(p) => {
            let mut out = String::from_str(" ");
            out.append(p.as_str());
            out
        },
        None => String::new(),
    }
}

/// Pushing onto a string vector pushes the string's view onto the
/// vector's view.
proof fn lemma_push_deep_view(pre: Vec<String>, post: Vec<String>, x: String)
    requires
        post@ == pre@.push(x),
    ensures
        post.deep_view() =~= pre.deep_view().push(x@),
{
    assert forall|j: int|
        0 <= j < post.deep_view().len() implies post.deep_view()[j] == pre.deep_view().push(
        x@,
    )[j] by {
        assert(post.deep_view()[j] == post@[j]@);
        if j < pre@.len() {
            assert(pre.deep_view()[j] == pre@[j]@);
        }
    }
}

/// The last decoded result, with absence escalated to an error: an empty
/// result set is reported as NotFound.
pub fn fetch_one_result(results: Vec<DynValue>) -> (r: Result<DynValue, OrmError>)
    ensures
        match r {
            Ok(v) => results@.len() > 0 && v@ == results@.last()@,
            Err(e) => results@.len() == 0 && e == OrmError::NotFound,
        },
{
    let mut results = results;
    match results.pop() {
        Some(v) => Ok(v),
        None => Err(OrmError::NotFound),
    }
}

} // verus!
