//! Query fragments: what a fragment hands to a pass, columns and raw SQL
//! literals.
use vstd::prelude::*;

use crate::ast_pass::{
    lemma_emit_concat, lemma_sql_literals, noop_answer, succeeds, walk_result, AstPass, PassMode,
    Piece, QueryError, Walk,
};
use crate::backend::Backend;

verus! {

/// Something that can be written into a query.
pub trait QueryFragment {
    /// Whether the fragment can be written for `backend` at all.
    spec fn valid_on(&self, backend: Backend) -> bool;

    /// What walking the fragment does in a pass for `backend` of mode `mode`.
    spec fn walk(&self, backend: Backend, mode: PassMode) -> Walk;

    /// Hands the fragment's pieces to `out`; returns the error that ends the
    /// walk, if one does, with the pieces handed over before it left in `out`.
    fn walk_ast(&self, out: &mut AstPass) -> (r: Result<(), QueryError>)
        requires
            self.valid_on(old(out)@.backend),
        ensures
            final(out)@ == old(out)@.emit(self.walk(old(out)@.backend, old(out)@.mode).pieces),
            r == walk_result(self.walk(old(out)@.backend, old(out)@.mode)),
    ;

    /// Whether the fragment writes nothing at all for `backend`: the answer
    /// of a walk in a pass of mode [`PassMode::IsNoop`], or its error.
    fn is_noop(&self, backend: Backend) -> (r: Result<bool, QueryError>)
        requires
            self.valid_on(backend),
        ensures
            r == noop_answer(self.walk(backend, PassMode::IsNoop)),
    {
        let mut pass = AstPass::is_noop(backend);
        self.walk_ast(&mut pass)?;
        Ok(pass.noop_result())
    }
}

/// A column of a table.
pub struct Column {
    /// The name of the table the column belongs to.
    pub table: String,
    /// The name of the column.
    pub name: String,
}

impl Column {
    /// A column `name` of the table `table`.
    pub fn new(table: &str, name: &str) -> (c: Column)
        ensures
            c.table@ == table@,
            c.name@ == name@,
    {
        Column { table: String::from_str(table), name: String::from_str(name) }
    }

    /// The pieces of the column in an expression.
    pub open spec fn expression_pieces(&self) -> Seq<Piece> {
        seq![Piece::Identifier(self.table@), Piece::Sql(seq!['.']), Piece::Identifier(self.name@)]
    }
}

/// A column written in an expression: the table's name, a dot, and the
/// column's name, both quoted.
impl QueryFragment for Column {
    open spec fn valid_on(&self, backend: Backend) -> bool {
        true
    }

    open spec fn walk(&self, backend: Backend, mode: PassMode) -> Walk {
        succeeds(self.expression_pieces())
    }

    fn walk_ast(&self, out: &mut AstPass) -> (r: Result<(), QueryError>) {
        let ghost s0 = out@;
        proof {
            lemma_sql_literals();
        }
        out.push_identifier(self.table.as_str())?;
        out.push_sql(".");
        out.push_identifier(self.name.as_str())?;
        proof {
            lemma_emit_concat(s0, seq![Piece::Identifier(self.table@)], seq![Piece::Sql(seq!['.'])]);
            lemma_emit_concat(s0, seq![Piece::Identifier(self.table@)] + seq![Piece::Sql(seq!['.'])], seq![Piece::Identifier(self.name@)]);
            assert(seq![Piece::Identifier(self.table@)] + seq![Piece::Sql(seq!['.'])] + seq![Piece::Identifier(self.name@)] =~= self.expression_pieces());
        }
        Ok(())
    }
}

/// Raw SQL text, written as it is.
pub struct SqlLiteral {
    /// The SQL text.
    pub sql: String,
}

impl SqlLiteral {
    /// A literal that writes `sql`.
    pub fn new(sql: &str) -> (l: SqlLiteral)
        ensures
            l.sql@ == sql@,
    {
        SqlLiteral { sql: String::from_str(sql) }
    }
}

impl QueryFragment for SqlLiteral {
    open spec fn valid_on(&self, backend: Backend) -> bool {
        true
    }

    open spec fn walk(&self, backend: Backend, mode: PassMode) -> Walk {
        succeeds(seq![Piece::Sql(self.sql@)])
    }

    fn walk_ast(&self, out: &mut AstPass) -> (r: Result<(), QueryError>) {
        out.push_sql(self.sql.as_str());
        Ok(())
    }
}

/// A list of columns, as written in the column list of an `INSERT`.
pub trait ColumnList {
    /// What walking the list does in a pass for `backend` of mode `mode`.
    spec fn list_walk(&self, backend: Backend, mode: PassMode) -> Walk;

    /// Hands the list's pieces to `out`; returns the error that ends the
    /// walk, if one does, with the pieces handed over before it left in `out`.
    fn walk_ast(&self, out: &mut AstPass) -> (r: Result<(), QueryError>)
        ensures
            final(out)@ == old(out)@.emit(self.list_walk(old(out)@.backend, old(out)@.mode).pieces),
            r == walk_result(self.list_walk(old(out)@.backend, old(out)@.mode)),
    ;
}

/// A single column in a column list: its name, quoted, without the table.
impl ColumnList for Column {
    open spec fn list_walk(&self, backend: Backend, mode: PassMode) -> Walk {
        succeeds(seq![Piece::Identifier(self.name@)])
    }

    fn walk_ast(&self, out: &mut AstPass) -> (r: Result<(), QueryError>) {
        out.push_identifier(self.name.as_str())
    }
}

} // verus!
