//! The conflict target of an `ON CONFLICT` clause.
use vstd::prelude::*;

use crate::ast_pass::{
    lemma_emit_concat, lemma_emit_empty, lemma_sql_literals, succeeds, AstPass, PassMode, Piece,
    QueryError, Walk,
};
use crate::backend::Backend;
use crate::fragment::{Column, ColumnList, QueryFragment, SqlLiteral};
use crate::tuples::{comma, listed, Tuple};

verus! {

/// A conflict target that can stand in an `ON CONFLICT` clause of an
/// `INSERT` into a table.
pub trait OnConflictTarget {
    /// Whether the target belongs to the table named `table`.
    spec fn targets_table(&self, table: Seq<char>) -> bool;

    /// Whether the target belongs to the table named `table`.
    fn is_target_for(&self, table: &String) -> (b: bool)
        ensures
            b == self.targets_table(table@),
    ;
}

/// No conflict target: `ON CONFLICT` without a target.
#[derive(Clone, Copy, Debug)]
pub struct NoConflictTarget;

/// Writes nothing; it can stand only where the backend has an
/// `ON CONFLICT` clause.
impl QueryFragment for NoConflictTarget {
    open spec fn valid_on(&self, backend: Backend) -> bool {
        backend.supports_on_conflict()
    }

    open spec fn walk(&self, backend: Backend, mode: PassMode) -> Walk {
        succeeds(Seq::empty())
    }

    fn walk_ast(&self, out: &mut AstPass) -> (r: Result<(), QueryError>) {
        proof {
            lemma_emit_empty(out@);
        }
        Ok(())
    }
}

/// No target belongs to every table.
impl OnConflictTarget for NoConflictTarget {
    open spec fn targets_table(&self, table: Seq<char>) -> bool {
        true
    }

    fn is_target_for(&self, table: &String) -> (b: bool) {
        true
    }
}

/// A conflict target: a column, a tuple of columns of one table, or raw SQL.
#[derive(Clone, Copy, Debug)]
pub struct ConflictTarget<T>(pub T);

/// The text `" ("`.
pub open spec fn open_paren() -> Piece {
    Piece::Sql(seq![' ', '('])
}

/// The text `")"`.
pub open spec fn close_paren() -> Piece {
    Piece::Sql(seq![')'])
}

/// The quoted names of `cols`, with a comma between each two.
pub open spec fn target_names(cols: Seq<Column>) -> Seq<Piece>
    decreases cols.len(),
{
    if cols.len() == 0 {
        Seq::empty()
    } else if cols.len() == 1 {
        seq![Piece::Identifier(cols[0].name@)]
    } else {
        target_names(cols.drop_last()) + seq![comma(), Piece::Identifier(cols.last().name@)]
    }
}

/// Whether all of `cols` belong to the table named `table`.
pub open spec fn all_of_table(cols: Seq<Column>, table: Seq<char>) -> bool {
    forall|i: int| 0 <= i < cols.len() ==> (#[trigger] cols[i]).table@ == table
}

/// A single column: ` (` + the column's quoted name + `)`.
impl QueryFragment for ConflictTarget<Column> {
    open spec fn valid_on(&self, backend: Backend) -> bool {
        backend.supports_on_conflict()
    }

    open spec fn walk(&self, backend: Backend, mode: PassMode) -> Walk {
        succeeds(seq![open_paren(), Piece::Identifier(self.0.name@), close_paren()])
    }

    fn walk_ast(&self, out: &mut AstPass) -> (r: Result<(), QueryError>) {
        proof {
            lemma_sql_literals();
        }
        let ghost s0 = out@;
        out.push_sql(" (");
        out.push_identifier(self.0.name.as_str())?;
        out.push_sql(")");
        proof {
            lemma_emit_concat(s0, seq![open_paren()], seq![Piece::Identifier(self.0.name@)]);
            lemma_emit_concat(s0, seq![open_paren(), Piece::Identifier(self.0.name@)], seq![close_paren()]);
            assert(seq![open_paren()] + seq![Piece::Identifier(self.0.name@)] =~= seq![open_paren(), Piece::Identifier(self.0.name@)]);
            assert(seq![open_paren(), Piece::Identifier(self.0.name@)] + seq![close_paren()] =~= self.walk(s0.backend, s0.mode).pieces);
        }
        Ok(())
    }
}

/// A column is a target for its own table.
impl OnConflictTarget for ConflictTarget<Column> {
    open spec fn targets_table(&self, table: Seq<char>) -> bool {
        self.0.table@ == table
    }

    fn is_target_for(&self, table: &String) -> (b: bool) {
        self.0.table == *table
    }
}

/// Raw SQL: a space, then the SQL text.
impl QueryFragment for ConflictTarget<SqlLiteral> {
    open spec fn valid_on(&self, backend: Backend) -> bool {
        backend.supports_on_conflict()
    }

    open spec fn walk(&self, backend: Backend, mode: PassMode) -> Walk {
        let w = self.0.walk(backend, mode);
        Walk { pieces: seq![Piece::Sql(seq![' '])] + w.pieces, error: w.error }
    }

    fn walk_ast(&self, out: &mut AstPass) -> (r: Result<(), QueryError>) {
        proof {
            lemma_sql_literals();
        }
        let ghost s0 = out@;
        out.push_sql(" ");
        let res = self.0.walk_ast(out);
        proof {
            lemma_emit_concat(s0, seq![Piece::Sql(seq![' '])], self.0.walk(s0.backend, s0.mode).pieces);
        }
        res
    }
}

/// Raw SQL is a target for any table.
impl OnConflictTarget for ConflictTarget<SqlLiteral> {
    open spec fn targets_table(&self, table: Seq<char>) -> bool {
        true
    }

    fn is_target_for(&self, table: &String) -> (b: bool) {
        true
    }
}

/// A tuple of columns of one table: ` (` + the quoted names, separated by
/// commas, + `)`.
impl QueryFragment for ConflictTarget<Tuple<Column>> {
    open spec fn valid_on(&self, backend: Backend) -> bool {
        &&& backend.supports_on_conflict()
        &&& all_of_table(self.0.elements(), self.0.elements()[0].table@)
    }

    open spec fn walk(&self, backend: Backend, mode: PassMode) -> Walk {
        succeeds(seq![open_paren()] + target_names(self.0.elements()) + seq![close_paren()])
    }

    fn walk_ast(&self, out: &mut AstPass) -> (r: Result<(), QueryError>) {
        proof {
            lemma_sql_literals();
        }
        let ghost s0 = out@;
        let ghost cols = self.0.elements();
        let n = self.0.len();
        out.push_sql(" (");
        out.push_identifier(self.0.get(0).name.as_str())?;
        proof {
            lemma_emit_concat(s0, seq![open_paren()], seq![Piece::Identifier(cols[0].name@)]);
            assert(cols.take(1).drop_last() =~= Seq::<Column>::empty());
            assert(seq![open_paren()] + seq![Piece::Identifier(cols[0].name@)] =~= seq![open_paren()] + target_names(cols.take(1)));
        }
        let mut i: usize = 1;
        while i < n
            invariant
                n == cols.len(),
                cols == self.0.elements(),
                1 <= i <= n,
                out@ == s0.emit(seq![open_paren()] + target_names(cols.take(i as int))),
            decreases n - i,
        {
            let ghost before = seq![open_paren()] + target_names(cols.take(i as int));
            proof {
                lemma_sql_literals();
                assert(cols.take(i + 1).drop_last() =~= cols.take(i as int));
                assert(cols.take(i + 1).last() == cols[i as int]);
            }
            out.push_sql(", ");
            out.push_identifier(self.0.get(i).name.as_str())?;
            proof {
                lemma_emit_concat(s0, before, seq![comma()]);
                lemma_emit_concat(s0, before + seq![comma()], seq![Piece::Identifier(cols[i as int].name@)]);
                assert(before + seq![comma()] + seq![Piece::Identifier(cols[i as int].name@)]
                    =~= seq![open_paren()] + target_names(cols.take(i + 1)));
            }
            i = i + 1;
        }
        out.push_sql(")");
        proof {
            assert(cols.take(n as int) =~= cols);
            lemma_emit_concat(s0, seq![open_paren()] + target_names(cols), seq![close_paren()]);
        }
        Ok(())
    }
}

/// A tuple of columns is a target for the table all its columns belong to.
impl OnConflictTarget for ConflictTarget<Tuple<Column>> {
    open spec fn targets_table(&self, table: Seq<char>) -> bool {
        all_of_table(self.0.elements(), table)
    }

    fn is_target_for(&self, table: &String) -> (b: bool) {
        let n = self.0.len();
        let mut i: usize = 0;
        while i < n
            invariant
                n == self.0.elements().len(),
                i <= n,
                all_of_table(self.0.elements().take(i as int), table@),
            decreases n - i,
        {
            if !(self.0.get(i).table == *table) {
                return false;
            }
            proof {
                assert forall|j: int| 0 <= j < i + 1 implies (#[trigger] self.0.elements().take(i + 1)[j]).table@ == table@ by {
                    if j < i {
                        assert(self.0.elements().take(i + 1)[j] == self.0.elements().take(i as int)[j]);
                    }
                }
            }
            i = i + 1;
        }
        proof {
            assert(self.0.elements().take(n as int) =~= self.0.elements());
        }
        true
    }
}

/// Listing the names of columns for a conflict target and listing them as a
/// column list hand over the same pieces, and neither fails.
proof fn lemma_target_names_listed(cols: Seq<Column>, backend: Backend, mode: PassMode)
    requires
        cols.len() >= 1,
    ensures
        listed(cols, backend, mode) == succeeds(target_names(cols)),
    decreases cols.len(),
{
    if cols.len() > 1 {
        lemma_target_names_listed(cols.drop_last(), backend, mode);
        assert(target_names(cols.drop_last()) + seq![comma()] + seq![Piece::Identifier(cols.last().name@)]
            =~= target_names(cols.drop_last()) + seq![comma(), Piece::Identifier(cols.last().name@)]);
    }
}

/// The conflict target of a tuple of columns is the tuple's column list
/// between ` (` and `)`, and neither fails.
pub proof fn lemma_tuple_target_is_column_list(t: Tuple<Column>, backend: Backend, mode: PassMode)
    requires
        t.elements().len() >= 1,
    ensures
        ConflictTarget(t).walk(backend, mode) == succeeds(
            seq![open_paren()] + t.list_walk(backend, mode).pieces + seq![close_paren()],
        ),
        t.list_walk(backend, mode).error is None,
{
    lemma_target_names_listed(t.elements(), backend, mode);
}

/// A tuple of one column is the same conflict target as the column alone:
/// it writes the same pieces and belongs to the same tables.
pub proof fn lemma_single_column_tuple_target(t: Tuple<Column>, c: Column, backend: Backend, mode: PassMode, table: Seq<char>)
    requires
        t.elements() == seq![c],
    ensures
        ConflictTarget(t).walk(backend, mode) == ConflictTarget(c).walk(backend, mode),
        ConflictTarget(t).targets_table(table) == ConflictTarget(c).targets_table(table),
{
    assert(seq![open_paren()] + seq![Piece::Identifier(c.name@)] + seq![close_paren()]
        =~= seq![open_paren(), Piece::Identifier(c.name@), close_paren()]);
    if ConflictTarget(c).targets_table(table) {
        assert(all_of_table(t.elements(), table));
    }
    if all_of_table(t.elements(), table) {
        assert(t.elements()[0] == c);
    }
}

/// A tuple of columns is a conflict target for a table exactly when each of
/// its columns, taken alone, is one.
pub proof fn lemma_tuple_target_tables(t: Tuple<Column>, table: Seq<char>)
    ensures
        ConflictTarget(t).targets_table(table) <==> forall|i: int|
            0 <= i < t.elements().len() ==> #[trigger] ConflictTarget(t.elements()[i]).targets_table(table),
{
    if ConflictTarget(t).targets_table(table) {
        assert forall|i: int| 0 <= i < t.elements().len() implies #[trigger] ConflictTarget(t.elements()[i]).targets_table(table) by {
            assert(t.elements()[i].table@ == table);
        }
    }
    if forall|i: int| 0 <= i < t.elements().len() ==> #[trigger] ConflictTarget(t.elements()[i]).targets_table(table) {
        assert forall|i: int| 0 <= i < t.elements().len() implies (#[trigger] t.elements()[i]).table@ == table by {
            assert(ConflictTarget(t.elements()[i]).targets_table(table));
        }
    }
}

} // verus!
