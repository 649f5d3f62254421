//! The values of an `INSERT`: each names a column and writes a value or
//! `DEFAULT`.
use vstd::prelude::*;

use crate::ast_pass::{
    lemma_emit_concat, lemma_emit_empty, lemma_sql_literals, noop_answer, succeeds, walk_result,
    AstPass, PassMode, PassState, Piece, QueryError, Walk,
};
use crate::backend::Backend;
use crate::fragment::{Column, QueryFragment};
use crate::tuples::{
    comma, comma_separated, fold_steps, fragments_walk, lemma_fold_steps, pieces_of, selected,
    tuple_start, tuple_step, tuple_walk_of, Tuple, TupleWalk,
};

verus! {

/// The keyword that asks for a column's default value.
pub open spec fn default_keyword() -> Seq<char> {
    seq!['D', 'E', 'F', 'A', 'U', 'L', 'T']
}

/// The value of one column in an `INSERT`.
pub enum ColumnInsertValue<F> {
    /// The column gets the value that the fragment writes.
    Expression(Column, F),
    /// The column gets its default value.
    Default(Column),
}

impl<F> ColumnInsertValue<F> {
    /// The column the value is for.
    pub open spec fn column(self) -> Column {
        match self {
            ColumnInsertValue::Expression(c, _) => c,
            ColumnInsertValue::Default(c) => c,
        }
    }
}

/// The value itself: the fragment, or `DEFAULT` where the backend has that
/// keyword and nothing where it has not.
impl<F: QueryFragment> QueryFragment for ColumnInsertValue<F> {
    open spec fn valid_on(&self, backend: Backend) -> bool {
        match self {
            ColumnInsertValue::Expression(_, f) => f.valid_on(backend),
            ColumnInsertValue::Default(_) => true,
        }
    }

    open spec fn walk(&self, backend: Backend, mode: PassMode) -> Walk {
        match self {
            ColumnInsertValue::Expression(_, f) => f.walk(backend, mode),
            ColumnInsertValue::Default(_) => succeeds(
                if backend.supports_default_keyword() {
                    seq![Piece::Sql(default_keyword())]
                } else {
                    Seq::empty()
                },
            ),
        }
    }

    fn walk_ast(&self, out: &mut AstPass) -> (r: Result<(), QueryError>) {
        match self {
            ColumnInsertValue::Expression(_, f) => f.walk_ast(out),
            ColumnInsertValue::Default(_) => {
                if out.backend().has_default_keyword() {
                    out.push_sql("DEFAULT");
                    proof {
                        lemma_sql_literals();
                    }
                } else {
                    proof {
                        lemma_emit_empty(out@);
                    }
                }
                Ok(())
            },
        }
    }
}

/// Values that name their columns in the column list of an `INSERT`.
pub trait InsertValues: QueryFragment {
    /// What walking the column names does in a pass for `backend` of mode
    /// `mode`.
    spec fn column_walk(&self, backend: Backend, mode: PassMode) -> Walk;

    /// Hands the column names to `out`; returns the error that ends the walk,
    /// if one does, with the pieces handed over before it left in `out`.
    fn column_names(&self, out: &mut AstPass) -> (r: Result<(), QueryError>)
        requires
            self.valid_on(old(out)@.backend),
        ensures
            final(out)@ == old(out)@.emit(self.column_walk(old(out)@.backend, old(out)@.mode).pieces),
            r == walk_result(self.column_walk(old(out)@.backend, old(out)@.mode)),
    ;
}

/// The column's name, quoted; a default value on a backend without the
/// `DEFAULT` keyword names no column.
impl<F: QueryFragment> InsertValues for ColumnInsertValue<F> {
    open spec fn column_walk(&self, backend: Backend, mode: PassMode) -> Walk {
        match self {
            ColumnInsertValue::Expression(c, _) => succeeds(seq![Piece::Identifier(c.name@)]),
            ColumnInsertValue::Default(c) => succeeds(
                if backend.supports_default_keyword() {
                    seq![Piece::Identifier(c.name@)]
                } else {
                    Seq::empty()
                },
            ),
        }
    }

    fn column_names(&self, out: &mut AstPass) -> (r: Result<(), QueryError>) {
        match self {
            ColumnInsertValue::Expression(c, _) => out.push_identifier(c.name.as_str()),
            ColumnInsertValue::Default(c) => {
                if out.backend().has_default_keyword() {
                    out.push_identifier(c.name.as_str())?;
                } else {
                    proof {
                        lemma_emit_empty(out@);
                    }
                }
                Ok(())
            },
        }
    }
}

/// The walk over the column names of the values `items`, leaving out those
/// whose values write nothing, in a pass for `backend` of mode `mode`.
pub open spec fn columns_walk<V: InsertValues>(items: Seq<V>, backend: Backend, mode: PassMode) -> TupleWalk
    decreases items.len(),
{
    if items.len() == 0 {
        tuple_start()
    } else {
        tuple_step(
            columns_walk(items.drop_last(), backend, mode),
            noop_answer(items.last().walk(backend, PassMode::IsNoop)),
            items.last().column_walk(backend, mode),
        )
    }
}

/// Walks the column name of one element of a tuple of values: asks whether
/// its value is a no-op, and writes its column names, after a comma where one
/// is due, where it is not.
fn column_names_step<V: InsertValues>(
    x: &V,
    out: &mut AstPass,
    written: &mut bool,
    Ghost(s): Ghost<TupleWalk>,
    Ghost(s0): Ghost<PassState>,
) -> (r: Result<(), QueryError>)
    requires
        x.valid_on(old(out)@.backend),
        s.error is None,
        old(out)@ == s0.emit(s.pieces),
        *old(written) == s.written,
    ensures
        ({
            let t = tuple_step(
                s,
                noop_answer(x.walk(old(out)@.backend, PassMode::IsNoop)),
                x.column_walk(old(out)@.backend, old(out)@.mode),
            );
            &&& final(out)@ == s0.emit(t.pieces)
            &&& *final(written) == t.written
            &&& r == walk_result(tuple_walk_of(t))
        }),
{
    proof {
        lemma_sql_literals();
    }
    let backend = out.backend();
    let ghost w = x.column_walk(old(out)@.backend, old(out)@.mode);
    let noop_element = x.is_noop(backend)?;
    if !noop_element {
        if *written {
            out.push_sql(", ");
            proof {
                lemma_emit_concat(s0, s.pieces, seq![comma()]);
            }
        }
        let res = x.column_names(out);
        proof {
            if s.written {
                lemma_emit_concat(s0, s.pieces + seq![comma()], w.pieces);
            } else {
                lemma_emit_concat(s0, s.pieces, w.pieces);
            }
        }
        *written = true;
        res
    } else {
        Ok(())
    }
}

/// Once an element has failed, the later ones change nothing.
pub proof fn lemma_columns_first_error<V: InsertValues>(items: Seq<V>, more: Seq<V>, backend: Backend, mode: PassMode)
    requires
        columns_walk(items, backend, mode).error is Some,
    ensures
        columns_walk(items + more, backend, mode) == columns_walk(items, backend, mode),
    decreases more.len(),
{
    if more.len() == 0 {
        assert(items + more =~= items);
    } else {
        lemma_columns_first_error(items, more.drop_last(), backend, mode);
        assert((items + more).drop_last() =~= items + more.drop_last());
    }
}

/// The column list of a tuple of values: the names of those elements whose
/// values write anything, separated by commas, up to the first error of an
/// element.
impl<V: InsertValues> InsertValues for Tuple<V> {
    open spec fn column_walk(&self, backend: Backend, mode: PassMode) -> Walk {
        tuple_walk_of(columns_walk(self.elements(), backend, mode))
    }

    fn column_names(&self, out: &mut AstPass) -> (r: Result<(), QueryError>) {
        let ghost s0 = out@;
        let ghost items = self.elements();
        let n = self.len();
        let mut needs_comma = false;
        let mut i: usize = 0;
        proof {
            assert(items.take(0) =~= Seq::<V>::empty());
            lemma_emit_empty(s0);
        }
        while i < n
            invariant
                n == items.len(),
                items == self.elements(),
                s0 == old(out)@,
                i <= n,
                self.valid_on(s0.backend),
                out@ == s0.emit(columns_walk(items.take(i as int), s0.backend, s0.mode).pieces),
                columns_walk(items.take(i as int), s0.backend, s0.mode).error is None,
                needs_comma == columns_walk(items.take(i as int), s0.backend, s0.mode).written,
            decreases n - i,
        {
            proof {
                assert(items.take(i + 1).drop_last() =~= items.take(i as int));
                assert(items.take(i + 1).last() == items[i as int]);
                assert(self.elements()[i as int].valid_on(s0.backend));
            }
            let res = column_names_step(
                self.get(i),
                out,
                &mut needs_comma,
                Ghost(columns_walk(items.take(i as int), s0.backend, s0.mode)),
                Ghost(s0),
            );
            if res.is_err() {
                proof {
                    assert(columns_walk(items.take(i + 1), s0.backend, s0.mode) == tuple_step(
                        columns_walk(items.take(i as int), s0.backend, s0.mode),
                        noop_answer(items[i as int].walk(s0.backend, PassMode::IsNoop)),
                        items[i as int].column_walk(s0.backend, s0.mode),
                    ));
                    lemma_columns_first_error(items.take(i + 1), items.skip(i + 1), s0.backend, s0.mode);
                    assert(items.take(i + 1) + items.skip(i + 1) =~= items);
                }
                return res;
            }
            i = i + 1;
        }
        proof {
            assert(items.take(n as int) =~= items);
        }
        Ok(())
    }
}

/// Values that know how many rows they insert.
pub trait CanInsertInSingleQuery {
    /// The number of rows, where it is known.
    spec fn rows(&self) -> Option<usize>;

    /// The number of rows inserted.
    fn rows_to_insert(&self) -> (r: Option<usize>)
        requires
            self.rows() is Some,
        ensures
            r == self.rows(),
    ;
}

/// The value of one column belongs to one row.
impl<F> CanInsertInSingleQuery for ColumnInsertValue<F> {
    open spec fn rows(&self) -> Option<usize> {
        Some(1)
    }

    fn rows_to_insert(&self) -> (r: Option<usize>) {
        Some(1)
    }
}

/// A tuple of values is one row; each of its elements must be one row too.
impl<V: CanInsertInSingleQuery> CanInsertInSingleQuery for Tuple<V> {
    open spec fn rows(&self) -> Option<usize> {
        if forall|i: int| 0 <= i < self.elements().len() ==> #[trigger] self.elements()[i].rows() == Some(1usize) {
            Some(1)
        } else {
            None
        }
    }

    fn rows_to_insert(&self) -> (r: Option<usize>) {
        let n = self.len();
        let mut i: usize = 0;
        while i < n
            invariant
                n == self.elements().len(),
                i <= n,
                self.rows() is Some,
            decreases n - i,
        {
            let element = self.get(i);
            let rows = element.rows_to_insert();
            proof {
                assert(rows == Some(1usize));
            }
            i = i + 1;
        }
        Some(1)
    }
}

/// The column names of a pair of values of any two types, as a tuple: those
/// whose values write anything, separated by a comma.
impl<A: InsertValues, B: InsertValues> InsertValues for (A, B) {
    open spec fn column_walk(&self, backend: Backend, mode: PassMode) -> Walk {
        let s1 = tuple_step(tuple_start(), noop_answer(self.0.walk(backend, PassMode::IsNoop)), self.0.column_walk(backend, mode));
        tuple_walk_of(tuple_step(s1, noop_answer(self.1.walk(backend, PassMode::IsNoop)), self.1.column_walk(backend, mode)))
    }

    fn column_names(&self, out: &mut AstPass) -> (r: Result<(), QueryError>) {
        let ghost s0 = out@;
        let mut needs_comma = false;
        proof {
            lemma_emit_empty(s0);
        }
        column_names_step(&self.0, out, &mut needs_comma, Ghost(tuple_start()), Ghost(s0))?;
        let ghost s1 = tuple_step(tuple_start(), noop_answer(self.0.walk(s0.backend, PassMode::IsNoop)), self.0.column_walk(s0.backend, s0.mode));
        column_names_step(&self.1, out, &mut needs_comma, Ghost(s1), Ghost(s0))
    }
}

/// The column names of a triple of values of any three types, as a tuple:
/// those whose values write anything, separated by commas.
impl<A: InsertValues, B: InsertValues, C: InsertValues> InsertValues for (A, B, C) {
    open spec fn column_walk(&self, backend: Backend, mode: PassMode) -> Walk {
        let s1 = tuple_step(tuple_start(), noop_answer(self.0.walk(backend, PassMode::IsNoop)), self.0.column_walk(backend, mode));
        let s2 = tuple_step(s1, noop_answer(self.1.walk(backend, PassMode::IsNoop)), self.1.column_walk(backend, mode));
        tuple_walk_of(tuple_step(s2, noop_answer(self.2.walk(backend, PassMode::IsNoop)), self.2.column_walk(backend, mode)))
    }

    fn column_names(&self, out: &mut AstPass) -> (r: Result<(), QueryError>) {
        let ghost s0 = out@;
        let mut needs_comma = false;
        proof {
            lemma_emit_empty(s0);
        }
        column_names_step(&self.0, out, &mut needs_comma, Ghost(tuple_start()), Ghost(s0))?;
        let ghost s1 = tuple_step(tuple_start(), noop_answer(self.0.walk(s0.backend, PassMode::IsNoop)), self.0.column_walk(s0.backend, s0.mode));
        column_names_step(&self.1, out, &mut needs_comma, Ghost(s1), Ghost(s0))?;
        let ghost s2 = tuple_step(s1, noop_answer(self.1.walk(s0.backend, PassMode::IsNoop)), self.1.column_walk(s0.backend, s0.mode));
        column_names_step(&self.2, out, &mut needs_comma, Ghost(s2), Ghost(s0))
    }
}

/// A pair of values is one row; each of its elements must be one row too.
impl<A: CanInsertInSingleQuery, B: CanInsertInSingleQuery> CanInsertInSingleQuery for (A, B) {
    open spec fn rows(&self) -> Option<usize> {
        if self.0.rows() == Some(1usize) && self.1.rows() == Some(1usize) {
            Some(1)
        } else {
            None
        }
    }

    fn rows_to_insert(&self) -> (r: Option<usize>) {
        let r0 = self.0.rows_to_insert();
        let r1 = self.1.rows_to_insert();
        proof {
            assert(r0 == Some(1usize) && r1 == Some(1usize));
        }
        Some(1)
    }
}

/// A triple of values is one row; each of its elements must be one row too.
impl<A: CanInsertInSingleQuery, B: CanInsertInSingleQuery, C: CanInsertInSingleQuery> CanInsertInSingleQuery for (A, B, C) {
    open spec fn rows(&self) -> Option<usize> {
        if self.0.rows() == Some(1usize) && self.1.rows() == Some(1usize) && self.2.rows() == Some(1usize) {
            Some(1)
        } else {
            None
        }
    }

    fn rows_to_insert(&self) -> (r: Option<usize>) {
        let r0 = self.0.rows_to_insert();
        let r1 = self.1.rows_to_insert();
        let r2 = self.2.rows_to_insert();
        proof {
            assert(r0 == Some(1usize) && r1 == Some(1usize) && r2 == Some(1usize));
        }
        Some(1)
    }
}

/// Whether the values of `items` write the same pieces in either mode of
/// pass and fail nowhere.
pub open spec fn plain_values<F: QueryFragment>(items: Seq<ColumnInsertValue<F>>, backend: Backend) -> bool {
    forall|i: int| 0 <= i < items.len() ==> {
        &&& (#[trigger] items[i]).walk(backend, PassMode::IsNoop) == items[i].walk(backend, PassMode::ToSql)
        &&& items[i].walk(backend, PassMode::ToSql).error is None
    }
}

/// The names of the columns of `items` whose values write anything, in order.
pub open spec fn written_names<F: QueryFragment>(items: Seq<ColumnInsertValue<F>>, backend: Backend) -> Seq<Seq<char>>
    decreases items.len(),
{
    if items.len() == 0 {
        Seq::empty()
    } else if items.last().walk(backend, PassMode::ToSql).pieces.len() > 0 {
        written_names(items.drop_last(), backend).push(items.last().column().name@)
    } else {
        written_names(items.drop_last(), backend)
    }
}

/// The pieces of the values of `items` that write anything, in order.
pub open spec fn written_values<F: QueryFragment>(items: Seq<ColumnInsertValue<F>>, backend: Backend) -> Seq<Seq<Piece>>
    decreases items.len(),
{
    if items.len() == 0 {
        Seq::empty()
    } else if items.last().walk(backend, PassMode::ToSql).pieces.len() > 0 {
        written_values(items.drop_last(), backend).push(items.last().walk(backend, PassMode::ToSql).pieces)
    } else {
        written_values(items.drop_last(), backend)
    }
}

/// The quoted identifiers `names`, with a comma between each two.
pub open spec fn name_list(names: Seq<Seq<char>>) -> Seq<Piece>
    decreases names.len(),
{
    if names.len() == 0 {
        Seq::empty()
    } else if names.len() == 1 {
        seq![Piece::Identifier(names[0])]
    } else {
        name_list(names.drop_last()) + seq![comma(), Piece::Identifier(names.last())]
    }
}

proof fn lemma_plain_prefix<F: QueryFragment>(items: Seq<ColumnInsertValue<F>>, backend: Backend)
    requires
        items.len() > 0,
        plain_values(items, backend),
    ensures
        plain_values(items.drop_last(), backend),
        items.last().walk(backend, PassMode::IsNoop) == items.last().walk(backend, PassMode::ToSql),
        items.last().walk(backend, PassMode::ToSql).error is None,
{
    assert forall|i: int| 0 <= i < items.drop_last().len() implies {
        &&& (#[trigger] items.drop_last()[i]).walk(backend, PassMode::IsNoop) == items.drop_last()[i].walk(backend, PassMode::ToSql)
        &&& items.drop_last()[i].walk(backend, PassMode::ToSql).error is None
    } by {
        assert(items.drop_last()[i] == items[i]);
    }
    assert(items.last() == items[items.len() - 1]);
}

/// The column side of a tuple of plain values: the names of the written
/// columns, comma-separated, with no error.
proof fn lemma_column_side<F: QueryFragment>(items: Seq<ColumnInsertValue<F>>, backend: Backend)
    requires
        plain_values(items, backend),
    ensures
        columns_walk(items, backend, PassMode::ToSql) == (TupleWalk {
            pieces: name_list(written_names(items, backend)),
            error: None,
            written: written_names(items, backend).len() > 0,
        }),
    decreases items.len(),
{
    if items.len() > 0 {
        lemma_plain_prefix(items, backend);
        lemma_column_side(items.drop_last(), backend);
        let wn = written_names(items.drop_last(), backend);
        let last = items.last();
        if last.walk(backend, PassMode::ToSql).pieces.len() > 0 {
            assert(last.column_walk(backend, PassMode::ToSql).pieces == seq![Piece::Identifier(last.column().name@)]);
            let now = wn.push(last.column().name@);
            assert(now.drop_last() =~= wn);
            if wn.len() == 0 {
                assert(name_list(wn) =~= Seq::<Piece>::empty());
                assert(name_list(now) == seq![Piece::Identifier(now[0])]);
                assert(Seq::<Piece>::empty() + seq![Piece::Identifier(last.column().name@)] =~= seq![Piece::Identifier(last.column().name@)]);
            } else {
                assert(name_list(wn) + seq![comma()] + seq![Piece::Identifier(last.column().name@)]
                    =~= name_list(wn) + seq![comma(), Piece::Identifier(last.column().name@)]);
            }
        }
    }
}

/// The value side of a tuple of plain values: the written values,
/// comma-separated, with no error.
proof fn lemma_value_side<F: QueryFragment>(items: Seq<ColumnInsertValue<F>>, backend: Backend)
    requires
        plain_values(items, backend),
    ensures
        fragments_walk(items, backend, PassMode::ToSql) == (TupleWalk {
            pieces: comma_separated(written_values(items, backend)),
            error: None,
            written: written_values(items, backend).len() > 0,
        }),
        written_values(items, backend).len() == written_names(items, backend).len(),
    decreases items.len(),
{
    if items.len() > 0 {
        lemma_plain_prefix(items, backend);
        lemma_value_side(items.drop_last(), backend);
        let wv = written_values(items.drop_last(), backend);
        let p = items.last().walk(backend, PassMode::ToSql).pieces;
        if p.len() > 0 {
            let now = wv.push(p);
            assert(now.drop_last() =~= wv);
            if wv.len() == 0 {
                assert(comma_separated(wv) =~= Seq::<Piece>::empty());
                assert(comma_separated(now) == now[0]);
                assert(Seq::<Piece>::empty() + p =~= p);
            }
        }
    }
}

/// The column list and the values of a tuple of values that fail nowhere
/// and write alike in either mode agree: the list names, in order, exactly
/// the columns whose values are written, and the values are written in the
/// same order, one entry per named column.
pub proof fn lemma_columns_match_values<F: QueryFragment>(t: Tuple<ColumnInsertValue<F>>, backend: Backend)
    requires
        plain_values(t.elements(), backend),
    ensures
        t.column_walk(backend, PassMode::ToSql) == (Walk { pieces: name_list(written_names(t.elements(), backend)), error: None }),
        t.walk(backend, PassMode::ToSql) == (Walk { pieces: comma_separated(written_values(t.elements(), backend)), error: None }),
        written_names(t.elements(), backend).len() == written_values(t.elements(), backend).len(),
{
    lemma_column_side(t.elements(), backend);
    lemma_value_side(t.elements(), backend);
}

/// The walk over the column names of `items` is the walk over their values'
/// no-op checks and their column names.
proof fn lemma_columns_fold<V: InsertValues>(items: Seq<V>, backend: Backend, mode: PassMode)
    ensures
        columns_walk(items, backend, mode) == fold_steps(
            items.map_values(|x: V| x.walk(backend, PassMode::IsNoop)),
            items.map_values(|x: V| x.column_walk(backend, mode)),
        ),
    decreases items.len(),
{
    if items.len() > 0 {
        lemma_columns_fold(items.drop_last(), backend, mode);
        assert(items.map_values(|x: V| x.walk(backend, PassMode::IsNoop)).drop_last()
            =~= items.drop_last().map_values(|x: V| x.walk(backend, PassMode::IsNoop)));
        assert(items.map_values(|x: V| x.column_walk(backend, mode)).drop_last()
            =~= items.drop_last().map_values(|x: V| x.column_walk(backend, mode)));
    }
}

/// The column list of a tuple of values none of which fails names, separated
/// by single commas and with no comma before the first, the columns of
/// exactly those elements whose values are not no-ops, in order.
pub proof fn lemma_tuple_names_written_columns<V: InsertValues>(t: Tuple<V>, backend: Backend, mode: PassMode)
    requires
        forall|i: int| 0 <= i < t.elements().len() ==> (#[trigger] t.elements()[i]).walk(backend, PassMode::IsNoop).error is None,
        forall|i: int| 0 <= i < t.elements().len() ==> (#[trigger] t.elements()[i]).column_walk(backend, mode).error is None,
    ensures
        t.column_walk(backend, mode) == (Walk {
            pieces: comma_separated(selected(
                pieces_of(t.elements().map_values(|x: V| x.walk(backend, PassMode::IsNoop))),
                pieces_of(t.elements().map_values(|x: V| x.column_walk(backend, mode))),
            )),
            error: None,
        }),
{
    let items = t.elements();
    lemma_columns_fold(items, backend, mode);
    let vs = items.map_values(|x: V| x.walk(backend, PassMode::IsNoop));
    let cs = items.map_values(|x: V| x.column_walk(backend, mode));
    assert forall|i: int| 0 <= i < vs.len() implies (#[trigger] vs[i]).error is None by {
        assert(vs[i] == items[i].walk(backend, PassMode::IsNoop));
    }
    assert forall|i: int| 0 <= i < cs.len() implies (#[trigger] cs[i]).error is None by {
        assert(cs[i] == items[i].column_walk(backend, mode));
    }
    lemma_fold_steps(vs, cs);
}

/// The column list of a pair of values neither of which fails names,
/// separated by a single comma and with no comma before the first, the
/// columns of exactly those elements whose values are not no-ops.
pub proof fn lemma_pair_names_written_columns<A: InsertValues, B: InsertValues>(a: A, b: B, backend: Backend, mode: PassMode)
    requires
        a.walk(backend, PassMode::IsNoop).error is None,
        b.walk(backend, PassMode::IsNoop).error is None,
        a.column_walk(backend, mode).error is None,
        b.column_walk(backend, mode).error is None,
    ensures
        (a, b).column_walk(backend, mode) == (Walk {
            pieces: comma_separated(selected(
                seq![a.walk(backend, PassMode::IsNoop).pieces, b.walk(backend, PassMode::IsNoop).pieces],
                seq![a.column_walk(backend, mode).pieces, b.column_walk(backend, mode).pieces],
            )),
            error: None,
        }),
{
    let vs = seq![a.walk(backend, PassMode::IsNoop), b.walk(backend, PassMode::IsNoop)];
    let cs = seq![a.column_walk(backend, mode), b.column_walk(backend, mode)];
    assert(vs.drop_last() =~= seq![a.walk(backend, PassMode::IsNoop)]);
    assert(cs.drop_last() =~= seq![a.column_walk(backend, mode)]);
    assert(vs.drop_last().drop_last() =~= Seq::<Walk>::empty());
    assert(cs.drop_last().drop_last() =~= Seq::<Walk>::empty());
    reveal_with_fuel(fold_steps, 3);
    assert(tuple_walk_of(fold_steps(vs, cs)) == (a, b).column_walk(backend, mode));
    lemma_fold_steps(vs, cs);
    assert(pieces_of(vs) =~= seq![a.walk(backend, PassMode::IsNoop).pieces, b.walk(backend, PassMode::IsNoop).pieces]);
    assert(pieces_of(cs) =~= seq![a.column_walk(backend, mode).pieces, b.column_walk(backend, mode).pieces]);
}

/// The column list of a triple of values none of which fails names,
/// separated by single commas and with no comma before the first, the
/// columns of exactly those elements whose values are not no-ops, in order.
pub proof fn lemma_triple_names_written_columns<A: InsertValues, B: InsertValues, C: InsertValues>(
    a: A,
    b: B,
    c: C,
    backend: Backend,
    mode: PassMode,
)
    requires
        a.walk(backend, PassMode::IsNoop).error is None,
        b.walk(backend, PassMode::IsNoop).error is None,
        c.walk(backend, PassMode::IsNoop).error is None,
        a.column_walk(backend, mode).error is None,
        b.column_walk(backend, mode).error is None,
        c.column_walk(backend, mode).error is None,
    ensures
        (a, b, c).column_walk(backend, mode) == (Walk {
            pieces: comma_separated(selected(
                seq![a.walk(backend, PassMode::IsNoop).pieces, b.walk(backend, PassMode::IsNoop).pieces, c.walk(backend, PassMode::IsNoop).pieces],
                seq![a.column_walk(backend, mode).pieces, b.column_walk(backend, mode).pieces, c.column_walk(backend, mode).pieces],
            )),
            error: None,
        }),
{
    let vs = seq![a.walk(backend, PassMode::IsNoop), b.walk(backend, PassMode::IsNoop), c.walk(backend, PassMode::IsNoop)];
    let cs = seq![a.column_walk(backend, mode), b.column_walk(backend, mode), c.column_walk(backend, mode)];
    assert(vs.drop_last() =~= seq![a.walk(backend, PassMode::IsNoop), b.walk(backend, PassMode::IsNoop)]);
    assert(cs.drop_last() =~= seq![a.column_walk(backend, mode), b.column_walk(backend, mode)]);
    assert(vs.drop_last().drop_last() =~= seq![a.walk(backend, PassMode::IsNoop)]);
    assert(cs.drop_last().drop_last() =~= seq![a.column_walk(backend, mode)]);
    assert(vs.drop_last().drop_last().drop_last() =~= Seq::<Walk>::empty());
    assert(cs.drop_last().drop_last().drop_last() =~= Seq::<Walk>::empty());
    reveal_with_fuel(fold_steps, 4);
    assert(tuple_walk_of(fold_steps(vs, cs)) == (a, b, c).column_walk(backend, mode));
    lemma_fold_steps(vs, cs);
    assert(pieces_of(vs) =~= seq![a.walk(backend, PassMode::IsNoop).pieces, b.walk(backend, PassMode::IsNoop).pieces, c.walk(backend, PassMode::IsNoop).pieces]);
    assert(pieces_of(cs) =~= seq![a.column_walk(backend, mode).pieces, b.column_walk(backend, mode).pieces, c.column_walk(backend, mode).pieces]);
}

} // verus!
