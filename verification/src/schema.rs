//! Static descriptions of tables and their columns.

use vstd::prelude::*;

verus! {

/// Mathematical view of a [`ColumnSchema`].
pub ghost struct ColumnModel {
    pub name: Seq<char>,
    pub sql_type: Seq<char>,
    pub primary: bool,
    pub unique: bool,
    pub not_null: bool,
    pub is_generated_key: bool,
}

/// Static description of one table column.
#[derive(Debug, Clone)]
pub struct ColumnSchema {
    /// Column identifier, interpolated verbatim into SQL text.
    pub name: String,
    /// Dialect type name, e.g. a generic text type.
    pub sql_type: String,
    /// Whether the column is the table's primary key.
    pub primary: bool,
    /// Whether the column carries a UNIQUE constraint.
    pub unique: bool,
    /// Whether the column carries a NOT NULL constraint.
    pub not_null: bool,
    /// Whether an absent or empty value is replaced by a freshly
    /// generated unique identifier on insert.
    pub is_generated_key: bool,
}

impl View for ColumnSchema {
    type V = ColumnModel;

    open spec fn view(&self) -> ColumnModel {
        ColumnModel {
            name: self.name@,
            sql_type: self.sql_type@,
            primary: self.primary,
            unique: self.unique,
            not_null: self.not_null,
            is_generated_key: self.is_generated_key,
        }
    }
}

/// Mathematical view of a [`TableSchema`].
pub ghost struct TableModel {
    pub name: Seq<char>,
    pub columns: Seq<ColumnModel>,
}

/// Static description of a table: its name and its ordered columns.
#[derive(Debug, Clone)]
pub struct TableSchema {
    /// Table identifier, interpolated verbatim into SQL text.
    pub name: String,
    /// The table's columns, in declaration order.
    pub columns: Vec<ColumnSchema>,
}

impl View for TableSchema {
    type V = TableModel;

    open spec fn view(&self) -> TableModel {
        TableModel {
            name: self.name@,
            columns: Seq::new(self.columns@.len(), |i: int| self.columns@[i]@),
        }
    }
}

impl ColumnSchema {
    /// A copy of this column description.
    pub fn duplicate(&self) -> (r: ColumnSchema)
        ensures
            r@ == self@,
    {
        ColumnSchema {
            name: self.name.clone(),
            sql_type: self.sql_type.clone(),
            primary: self.primary,
            unique: self.unique,
            not_null: self.not_null,
            is_generated_key: self.is_generated_key,
        }
    }
}

impl TableSchema {
    /// A copy of this table description.
    pub fn duplicate(&self) -> (r: TableSchema)
        ensures
            r@ == self@,
    {
        let n: usize = self.columns.len();
        let mut columns: Vec<ColumnSchema> = Vec::new();
        for i in 0..n
            invariant
                n == self.columns.len(),
                columns@.len() == i,
                forall|j: int| 0 <= j < i ==> #[trigger] columns@[j]@ == self.columns@[j]@,
        {
            columns.push(self.columns[i].duplicate());
        }
        let r = TableSchema { name: self.name.clone(), columns };
        proof {
            assert(r@.columns =~= self@.columns);
        }
        r
    }
}

} // verus!
