//! Tuples of query fragments: written one after the other, separated by
//! commas, leaving out the elements that write nothing; the first error of
//! an element ends the walk.
use vstd::prelude::*;

use crate::ast_pass::{
    lemma_emit_concat, lemma_emit_empty, lemma_sql_literals, noop_answer, walk_result, AstPass,
    PassMode, PassState, Piece, QueryError, Walk,
};
use crate::backend::Backend;
use crate::fragment::{ColumnList, QueryFragment};

verus! {

/// A non-empty tuple of elements of one type.
pub struct Tuple<T> {
    items: Vec<T>,
}

impl<T> Tuple<T> {
    #[verifier::type_invariant]
    spec fn non_empty(self) -> bool {
        self.items.len() >= 1
    }

    /// The elements of the tuple, in order.
    pub closed spec fn elements(self) -> Seq<T> {
        self.items@
    }

    /// A tuple of the given elements.
    pub fn new(items: Vec<T>) -> (t: Tuple<T>)
        requires
            items.len() >= 1,
        ensures
            t.elements() == items@,
    {
        Tuple { items }
    }

    /// The number of elements.
    pub fn len(&self) -> (n: usize)
        ensures
            n == self.elements().len(),
            n >= 1,
    {
        proof {
            use_type_invariant(self);
        }
        self.items.len()
    }

    /// The element at `i`.
    pub fn get(&self, i: usize) -> (e: &T)
        requires
            i < self.elements().len(),
        ensures
            *e == self.elements()[i as int],
    {
        &self.items[i]
    }
}

/// The separator between the elements of a tuple.
pub open spec fn comma() -> Piece {
    Piece::Sql(seq![',', ' '])
}

/// How far the walk over the elements of a tuple has come: the pieces handed
/// over, the error that ended the walk, if one did, and whether an element
/// has written anything (so that the next one is preceded by a comma).
pub struct TupleWalk {
    pub pieces: Seq<Piece>,
    pub error: Option<QueryError>,
    pub written: bool,
}

/// Before the first element.
pub open spec fn tuple_start() -> TupleWalk {
    TupleWalk { pieces: Seq::empty(), error: None, written: false }
}

/// The walk after one more element, whose no-op answer is `noop` and whose
/// walk is `w`: after an error nothing happens; an element whose answer is an
/// error ends the walk with it; a no-op element is left out; any other is
/// written, after a comma if an element was written before it, and its
/// error, if it has one, ends the walk.
pub open spec fn tuple_step(s: TupleWalk, noop: Result<bool, QueryError>, w: Walk) -> TupleWalk {
    if s.error is Some {
        s
    } else {
        match noop {
            Err(e) => TupleWalk { pieces: s.pieces, error: Some(e), written: s.written },
            Ok(true) => s,
            Ok(false) => TupleWalk {
                pieces: if s.written {
                    s.pieces + seq![comma()] + w.pieces
                } else {
                    s.pieces + w.pieces
                },
                error: w.error,
                written: true,
            },
        }
    }
}

/// The walk of a whole tuple, from how far its elements' walk came.
pub open spec fn tuple_walk_of(s: TupleWalk) -> Walk {
    Walk { pieces: s.pieces, error: s.error }
}

/// The walk over the fragments `items`, in a pass for `backend` of mode
/// `mode`.
pub open spec fn fragments_walk<F: QueryFragment>(items: Seq<F>, backend: Backend, mode: PassMode) -> TupleWalk
    decreases items.len(),
{
    if items.len() == 0 {
        tuple_start()
    } else {
        tuple_step(
            fragments_walk(items.drop_last(), backend, mode),
            noop_answer(items.last().walk(backend, PassMode::IsNoop)),
            items.last().walk(backend, mode),
        )
    }
}

/// Walks one element of a tuple of fragments: asks whether it is a no-op,
/// and writes it, after a comma where one is due, where it is not.
pub(crate) fn walk_fragment_step<F: QueryFragment>(
    x: &F,
    out: &mut AstPass,
    written: &mut bool,
    Ghost(s): Ghost<TupleWalk>,
    Ghost(s0): Ghost<PassState>,
) -> (r: Result<(), QueryError>)
    requires
        x.valid_on(old(out)@.backend),
        s.error is None,
        old(out)@ == s0.emit(s.pieces),
        *old(written) == s.written,
    ensures
        ({
            let t = tuple_step(
                s,
                noop_answer(x.walk(old(out)@.backend, PassMode::IsNoop)),
                x.walk(old(out)@.backend, old(out)@.mode),
            );
            &&& final(out)@ == s0.emit(t.pieces)
            &&& *final(written) == t.written
            &&& r == walk_result(tuple_walk_of(t))
        }),
{
    proof {
        lemma_sql_literals();
    }
    let backend = out.backend();
    let ghost w = x.walk(old(out)@.backend, old(out)@.mode);
    let noop = x.is_noop(backend)?;
    if !noop {
        if *written {
            out.push_sql(", ");
            proof {
                lemma_emit_concat(s0, s.pieces, seq![comma()]);
            }
        }
        let res = x.walk_ast(out);
        proof {
            if s.written {
                lemma_emit_concat(s0, s.pieces + seq![comma()], w.pieces);
            } else {
                lemma_emit_concat(s0, s.pieces, w.pieces);
            }
        }
        *written = true;
        res
    } else {
        Ok(())
    }
}

/// A tuple written as an expression: the elements that write anything, in
/// order, separated by commas, up to the first error of an element.
impl<F: QueryFragment> QueryFragment for Tuple<F> {
    open spec fn valid_on(&self, backend: Backend) -> bool {
        forall|i: int| 0 <= i < self.elements().len() ==> #[trigger] self.elements()[i].valid_on(backend)
    }

    open spec fn walk(&self, backend: Backend, mode: PassMode) -> Walk {
        tuple_walk_of(fragments_walk(self.elements(), backend, mode))
    }

    fn walk_ast(&self, out: &mut AstPass) -> (r: Result<(), QueryError>) {
        let ghost s0 = out@;
        let ghost items = self.elements();
        let n = self.len();
        let mut needs_comma = false;
        let mut i: usize = 0;
        proof {
            assert(items.take(0) =~= Seq::<F>::empty());
            lemma_emit_empty(s0);
        }
        while i < n
            invariant
                n == items.len(),
                items == self.elements(),
                s0 == old(out)@,
                i <= n,
                self.valid_on(s0.backend),
                out@ == s0.emit(fragments_walk(items.take(i as int), s0.backend, s0.mode).pieces),
                fragments_walk(items.take(i as int), s0.backend, s0.mode).error is None,
                needs_comma == fragments_walk(items.take(i as int), s0.backend, s0.mode).written,
            decreases n - i,
        {
            proof {
                assert(items.take(i + 1).drop_last() =~= items.take(i as int));
                assert(items.take(i + 1).last() == items[i as int]);
                assert(self.elements()[i as int].valid_on(s0.backend));
            }
            let res = walk_fragment_step(
                self.get(i),
                out,
                &mut needs_comma,
                Ghost(fragments_walk(items.take(i as int), s0.backend, s0.mode)),
                Ghost(s0),
            );
            if res.is_err() {
                proof {
                    assert(fragments_walk(items.take(i + 1), s0.backend, s0.mode) == tuple_step(
                        fragments_walk(items.take(i as int), s0.backend, s0.mode),
                        noop_answer(items[i as int].walk(s0.backend, PassMode::IsNoop)),
                        items[i as int].walk(s0.backend, s0.mode),
                    ));
                    lemma_first_error_ends_walk(items.take(i + 1), items.skip(i + 1), s0.backend, s0.mode);
                    assert(items.take(i + 1) + items.skip(i + 1) =~= items);
                }
                return res;
            }
            i = i + 1;
        }
        proof {
            assert(items.take(n as int) =~= items);
        }
        Ok(())
    }
}

/// The walk of the column lists `items`, each after a comma but the first,
/// up to the first error.
pub open spec fn listed<C: ColumnList>(items: Seq<C>, backend: Backend, mode: PassMode) -> Walk
    decreases items.len(),
{
    if items.len() <= 1 {
        if items.len() == 0 {
            Walk { pieces: Seq::empty(), error: None }
        } else {
            items[0].list_walk(backend, mode)
        }
    } else {
        let before = listed(items.drop_last(), backend, mode);
        if before.error is Some {
            before
        } else {
            let w = items.last().list_walk(backend, mode);
            Walk { pieces: before.pieces + seq![comma()] + w.pieces, error: w.error }
        }
    }
}

/// A tuple written as a column list: each element's list, separated by
/// commas, up to the first error of an element.
impl<C: ColumnList> ColumnList for Tuple<C> {
    open spec fn list_walk(&self, backend: Backend, mode: PassMode) -> Walk {
        listed(self.elements(), backend, mode)
    }

    fn walk_ast(&self, out: &mut AstPass) -> (r: Result<(), QueryError>) {
        let ghost s0 = out@;
        let ghost items = self.elements();
        let n = self.len();
        proof {
            assert(items.take(1).drop_last() =~= Seq::<C>::empty());
            assert(items.take(1)[0] == items[0]);
        }
        let res = self.get(0).walk_ast(out);
        if res.is_err() {
            proof {
                lemma_listed_first_error(items.take(1), items.skip(1), s0.backend, s0.mode);
                assert(items.take(1) + items.skip(1) =~= items);
            }
            return res;
        }
        let mut i: usize = 1;
        while i < n
            invariant
                n == items.len(),
                items == self.elements(),
                s0 == old(out)@,
                1 <= i <= n,
                out@ == s0.emit(listed(items.take(i as int), s0.backend, s0.mode).pieces),
                listed(items.take(i as int), s0.backend, s0.mode).error is None,
            decreases n - i,
        {
            let ghost before = listed(items.take(i as int), s0.backend, s0.mode).pieces;
            let ghost w = items[i as int].list_walk(s0.backend, s0.mode);
            proof {
                lemma_sql_literals();
                assert(items.take(i + 1).drop_last() =~= items.take(i as int));
                assert(items.take(i + 1).last() == items[i as int]);
            }
            out.push_sql(", ");
            let res = self.get(i).walk_ast(out);
            proof {
                lemma_emit_concat(s0, before, seq![comma()]);
                lemma_emit_concat(s0, before + seq![comma()], w.pieces);
            }
            if res.is_err() {
                proof {
                    assert(listed(items.take(i + 1), s0.backend, s0.mode) == (Walk {
                        pieces: before + seq![comma()] + w.pieces,
                        error: w.error,
                    }));
                    lemma_listed_first_error(items.take(i + 1), items.skip(i + 1), s0.backend, s0.mode);
                    assert(items.take(i + 1) + items.skip(i + 1) =~= items);
                }
                return res;
            }
            i = i + 1;
        }
        proof {
            assert(items.take(n as int) =~= items);
        }
        Ok(())
    }
}

/// Where no element fails when asked whether it is a no-op, a walk of the
/// elements in a pass of mode [`PassMode::IsNoop`] fails nowhere, and has
/// written exactly where it handed over a piece.
proof fn lemma_noop_walk<F: QueryFragment>(items: Seq<F>, backend: Backend)
    requires
        forall|i: int| 0 <= i < items.len() ==> (#[trigger] items[i]).walk(backend, PassMode::IsNoop).error is None,
    ensures
        fragments_walk(items, backend, PassMode::IsNoop).error is None,
        fragments_walk(items, backend, PassMode::IsNoop).written
            == (fragments_walk(items, backend, PassMode::IsNoop).pieces.len() > 0),
        fragments_walk(items, backend, PassMode::IsNoop).written
            == (exists|i: int| 0 <= i < items.len() && (#[trigger] items[i]).walk(backend, PassMode::IsNoop).pieces.len() > 0),
    decreases items.len(),
{
    if items.len() > 0 {
        let init = items.drop_last();
        assert forall|i: int| 0 <= i < init.len() implies (#[trigger] init[i]).walk(backend, PassMode::IsNoop).error is None by {
            assert(init[i] == items[i]);
        }
        lemma_noop_walk(init, backend);
        assert(items.last() == items[items.len() - 1]);
        if exists|i: int| 0 <= i < init.len() && (#[trigger] init[i]).walk(backend, PassMode::IsNoop).pieces.len() > 0 {
            let i = choose|i: int| 0 <= i < init.len() && (#[trigger] init[i]).walk(backend, PassMode::IsNoop).pieces.len() > 0;
            assert(items[i] == init[i]);
        }
        if exists|i: int| 0 <= i < items.len() && (#[trigger] items[i]).walk(backend, PassMode::IsNoop).pieces.len() > 0 {
            let i = choose|i: int| 0 <= i < items.len() && (#[trigger] items[i]).walk(backend, PassMode::IsNoop).pieces.len() > 0;
            if i < init.len() {
                assert(init[i] == items[i]);
            }
        }
    }
}

/// A tuple whose elements all answer whether they are no-ops writes nothing
/// exactly when none of its elements writes anything.
pub proof fn lemma_tuple_writes_nothing<F: QueryFragment>(t: Tuple<F>, backend: Backend)
    requires
        forall|i: int| 0 <= i < t.elements().len() ==> (#[trigger] t.elements()[i]).walk(backend, PassMode::IsNoop).error is None,
    ensures
        noop_answer(t.walk(backend, PassMode::IsNoop)) == Ok::<bool, QueryError>(
            forall|i: int| 0 <= i < t.elements().len() ==> (#[trigger] t.elements()[i]).walk(backend, PassMode::IsNoop).pieces.len() == 0),
{
    lemma_noop_walk(t.elements(), backend);
}

/// Once a column list has failed, the later ones change nothing.
pub proof fn lemma_listed_first_error<C: ColumnList>(items: Seq<C>, more: Seq<C>, backend: Backend, mode: PassMode)
    requires
        items.len() >= 1,
        listed(items, backend, mode).error is Some,
    ensures
        listed(items + more, backend, mode) == listed(items, backend, mode),
    decreases more.len(),
{
    if more.len() == 0 {
        assert(items + more =~= items);
    } else {
        lemma_listed_first_error(items, more.drop_last(), backend, mode);
        assert((items + more).drop_last() =~= items + more.drop_last());
    }
}

/// Once an element has failed, the later elements change nothing: the walk of
/// a tuple ends with the first error of its elements.
pub proof fn lemma_first_error_ends_walk<F: QueryFragment>(items: Seq<F>, more: Seq<F>, backend: Backend, mode: PassMode)
    requires
        fragments_walk(items, backend, mode).error is Some,
    ensures
        fragments_walk(items + more, backend, mode) == fragments_walk(items, backend, mode),
    decreases more.len(),
{
    if more.len() == 0 {
        assert(items + more =~= items);
    } else {
        lemma_first_error_ends_walk(items, more.drop_last(), backend, mode);
        assert((items + more).drop_last() =~= items + more.drop_last());
    }
}

/// The walk of two fragments, one after the other, as a tuple.
pub open spec fn pair_walk<A: QueryFragment, B: QueryFragment>(a: A, b: B, backend: Backend, mode: PassMode) -> TupleWalk {
    let s1 = tuple_step(tuple_start(), noop_answer(a.walk(backend, PassMode::IsNoop)), a.walk(backend, mode));
    tuple_step(s1, noop_answer(b.walk(backend, PassMode::IsNoop)), b.walk(backend, mode))
}

/// A pair of fragments of any two types, written as a tuple.
impl<A: QueryFragment, B: QueryFragment> QueryFragment for (A, B) {
    open spec fn valid_on(&self, backend: Backend) -> bool {
        self.0.valid_on(backend) && self.1.valid_on(backend)
    }

    open spec fn walk(&self, backend: Backend, mode: PassMode) -> Walk {
        tuple_walk_of(pair_walk(self.0, self.1, backend, mode))
    }

    fn walk_ast(&self, out: &mut AstPass) -> (r: Result<(), QueryError>) {
        let ghost s0 = out@;
        let mut needs_comma = false;
        proof {
            lemma_emit_empty(s0);
        }
        walk_fragment_step(&self.0, out, &mut needs_comma, Ghost(tuple_start()), Ghost(s0))?;
        let ghost s1 = tuple_step(tuple_start(), noop_answer(self.0.walk(s0.backend, PassMode::IsNoop)), self.0.walk(s0.backend, s0.mode));
        walk_fragment_step(&self.1, out, &mut needs_comma, Ghost(s1), Ghost(s0))
    }
}

/// The walk of three fragments, one after the other, as a tuple.
pub open spec fn triple_walk<A: QueryFragment, B: QueryFragment, C: QueryFragment>(
    a: A,
    b: B,
    c: C,
    backend: Backend,
    mode: PassMode,
) -> TupleWalk {
    tuple_step(pair_walk(a, b, backend, mode), noop_answer(c.walk(backend, PassMode::IsNoop)), c.walk(backend, mode))
}

/// A triple of fragments of any three types, written as a tuple.
impl<A: QueryFragment, B: QueryFragment, C: QueryFragment> QueryFragment for (A, B, C) {
    open spec fn valid_on(&self, backend: Backend) -> bool {
        self.0.valid_on(backend) && self.1.valid_on(backend) && self.2.valid_on(backend)
    }

    open spec fn walk(&self, backend: Backend, mode: PassMode) -> Walk {
        tuple_walk_of(triple_walk(self.0, self.1, self.2, backend, mode))
    }

    fn walk_ast(&self, out: &mut AstPass) -> (r: Result<(), QueryError>) {
        let ghost s0 = out@;
        let mut needs_comma = false;
        proof {
            lemma_emit_empty(s0);
        }
        walk_fragment_step(&self.0, out, &mut needs_comma, Ghost(tuple_start()), Ghost(s0))?;
        let ghost s1 = tuple_step(tuple_start(), noop_answer(self.0.walk(s0.backend, PassMode::IsNoop)), self.0.walk(s0.backend, s0.mode));
        walk_fragment_step(&self.1, out, &mut needs_comma, Ghost(s1), Ghost(s0))?;
        let ghost s2 = pair_walk(self.0, self.1, s0.backend, s0.mode);
        walk_fragment_step(&self.2, out, &mut needs_comma, Ghost(s2), Ghost(s0))
    }
}

/// A pair of column lists of any two types: the first, a comma, the second;
/// an error of the first ends the walk.
impl<A: ColumnList, B: ColumnList> ColumnList for (A, B) {
    open spec fn list_walk(&self, backend: Backend, mode: PassMode) -> Walk {
        let wa = self.0.list_walk(backend, mode);
        if wa.error is Some {
            wa
        } else {
            let wb = self.1.list_walk(backend, mode);
            Walk { pieces: wa.pieces + seq![comma()] + wb.pieces, error: wb.error }
        }
    }

    fn walk_ast(&self, out: &mut AstPass) -> (r: Result<(), QueryError>) {
        let ghost s0 = out@;
        let ghost wa = self.0.list_walk(s0.backend, s0.mode);
        let ghost wb = self.1.list_walk(s0.backend, s0.mode);
        proof {
            lemma_sql_literals();
        }
        self.0.walk_ast(out)?;
        out.push_sql(", ");
        let res = self.1.walk_ast(out);
        proof {
            lemma_emit_concat(s0, wa.pieces, seq![comma()]);
            lemma_emit_concat(s0, wa.pieces + seq![comma()], wb.pieces);
        }
        res
    }
}

/// A triple of column lists of any three types: each, separated by commas;
/// an error ends the walk.
impl<A: ColumnList, B: ColumnList, C: ColumnList> ColumnList for (A, B, C) {
    open spec fn list_walk(&self, backend: Backend, mode: PassMode) -> Walk {
        let wa = self.0.list_walk(backend, mode);
        let wb = self.1.list_walk(backend, mode);
        let wc = self.2.list_walk(backend, mode);
        if wa.error is Some {
            wa
        } else if wb.error is Some {
            Walk { pieces: wa.pieces + seq![comma()] + wb.pieces, error: wb.error }
        } else {
            Walk { pieces: wa.pieces + seq![comma()] + wb.pieces + seq![comma()] + wc.pieces, error: wc.error }
        }
    }

    fn walk_ast(&self, out: &mut AstPass) -> (r: Result<(), QueryError>) {
        let ghost s0 = out@;
        let ghost wa = self.0.list_walk(s0.backend, s0.mode);
        let ghost wb = self.1.list_walk(s0.backend, s0.mode);
        let ghost wc = self.2.list_walk(s0.backend, s0.mode);
        proof {
            lemma_sql_literals();
        }
        self.0.walk_ast(out)?;
        out.push_sql(", ");
        let res = self.1.walk_ast(out);
        proof {
            lemma_emit_concat(s0, wa.pieces, seq![comma()]);
            lemma_emit_concat(s0, wa.pieces + seq![comma()], wb.pieces);
        }
        res?;
        out.push_sql(", ");
        let res = self.2.walk_ast(out);
        proof {
            lemma_emit_concat(s0, wa.pieces + seq![comma()] + wb.pieces, seq![comma()]);
            lemma_emit_concat(s0, wa.pieces + seq![comma()] + wb.pieces + seq![comma()], wc.pieces);
        }
        res
    }
}

/// The runs of pieces `parts`, with a comma between each two.
pub open spec fn comma_separated(parts: Seq<Seq<Piece>>) -> Seq<Piece>
    decreases parts.len(),
{
    if parts.len() == 0 {
        Seq::empty()
    } else if parts.len() == 1 {
        parts[0]
    } else {
        comma_separated(parts.drop_last()) + seq![comma()] + parts.last()
    }
}

/// Of the runs `cs`, in order, those whose partner at the same place in `vs`
/// is not empty.
pub open spec fn selected(vs: Seq<Seq<Piece>>, cs: Seq<Seq<Piece>>) -> Seq<Seq<Piece>>
    decreases vs.len(),
{
    if vs.len() == 0 {
        Seq::empty()
    } else if vs.last().len() > 0 {
        selected(vs.drop_last(), cs.drop_last()).push(cs.last())
    } else {
        selected(vs.drop_last(), cs.drop_last())
    }
}

/// The pieces of each walk of `ws`.
pub open spec fn pieces_of(ws: Seq<Walk>) -> Seq<Seq<Piece>> {
    ws.map_values(|w: Walk| w.pieces)
}

/// The walk over elements whose no-op checks walk as `vs` and which, when
/// written, walk as `cs`.
pub open spec fn fold_steps(vs: Seq<Walk>, cs: Seq<Walk>) -> TupleWalk
    decreases vs.len(),
{
    if vs.len() == 0 {
        tuple_start()
    } else {
        tuple_step(fold_steps(vs.drop_last(), cs.drop_last()), noop_answer(vs.last()), cs.last())
    }
}

/// Where nothing fails, the walk over the elements writes, separated by
/// single commas, the pieces of exactly those elements whose no-op checks
/// hand over a piece, in order.
pub proof fn lemma_fold_steps(vs: Seq<Walk>, cs: Seq<Walk>)
    requires
        vs.len() == cs.len(),
        forall|i: int| 0 <= i < vs.len() ==> (#[trigger] vs[i]).error is None,
        forall|i: int| 0 <= i < cs.len() ==> (#[trigger] cs[i]).error is None,
    ensures
        fold_steps(vs, cs) == (TupleWalk {
            pieces: comma_separated(selected(pieces_of(vs), pieces_of(cs))),
            error: None,
            written: selected(pieces_of(vs), pieces_of(cs)).len() > 0,
        }),
    decreases vs.len(),
{
    if vs.len() > 0 {
        let (v0, c0) = (vs.drop_last(), cs.drop_last());
        assert forall|i: int| 0 <= i < v0.len() implies (#[trigger] v0[i]).error is None by {
            assert(v0[i] == vs[i]);
        }
        assert forall|i: int| 0 <= i < c0.len() implies (#[trigger] c0[i]).error is None by {
            assert(c0[i] == cs[i]);
        }
        lemma_fold_steps(v0, c0);
        assert(pieces_of(vs).drop_last() =~= pieces_of(v0));
        assert(pieces_of(cs).drop_last() =~= pieces_of(c0));
        assert(vs.last() == vs[vs.len() - 1]);
        assert(cs.last() == cs[cs.len() - 1]);
        assert(pieces_of(vs).last() == vs.last().pieces);
        assert(pieces_of(cs).last() == cs.last().pieces);
        let sel = selected(pieces_of(v0), pieces_of(c0));
        if vs.last().pieces.len() > 0 {
            let now = sel.push(cs.last().pieces);
            assert(now.drop_last() =~= sel);
            if sel.len() == 0 {
                assert(comma_separated(sel) =~= Seq::<Piece>::empty());
                assert(comma_separated(now) == now[0]);
                assert(Seq::<Piece>::empty() + cs.last().pieces =~= cs.last().pieces);
            }
        }
    }
}

/// The walk over the fragments `items` is the walk over their no-op checks
/// and their walks.
pub proof fn lemma_fragments_fold<F: QueryFragment>(items: Seq<F>, backend: Backend, mode: PassMode)
    ensures
        fragments_walk(items, backend, mode) == fold_steps(
            items.map_values(|x: F| x.walk(backend, PassMode::IsNoop)),
            items.map_values(|x: F| x.walk(backend, mode)),
        ),
    decreases items.len(),
{
    if items.len() > 0 {
        lemma_fragments_fold(items.drop_last(), backend, mode);
        assert(items.map_values(|x: F| x.walk(backend, PassMode::IsNoop)).drop_last()
            =~= items.drop_last().map_values(|x: F| x.walk(backend, PassMode::IsNoop)));
        assert(items.map_values(|x: F| x.walk(backend, mode)).drop_last()
            =~= items.drop_last().map_values(|x: F| x.walk(backend, mode)));
    }
}

/// A tuple none of whose elements fails writes, separated by single commas
/// and with no comma before the first, the pieces of exactly those elements
/// that are not no-ops, in order.
pub proof fn lemma_tuple_writes_its_written_elements<F: QueryFragment>(t: Tuple<F>, backend: Backend, mode: PassMode)
    requires
        forall|i: int| 0 <= i < t.elements().len() ==> (#[trigger] t.elements()[i]).walk(backend, PassMode::IsNoop).error is None,
        forall|i: int| 0 <= i < t.elements().len() ==> (#[trigger] t.elements()[i]).walk(backend, mode).error is None,
    ensures
        t.walk(backend, mode) == (Walk {
            pieces: comma_separated(selected(
                pieces_of(t.elements().map_values(|x: F| x.walk(backend, PassMode::IsNoop))),
                pieces_of(t.elements().map_values(|x: F| x.walk(backend, mode))),
            )),
            error: None,
        }),
{
    let items = t.elements();
    lemma_fragments_fold(items, backend, mode);
    let vs = items.map_values(|x: F| x.walk(backend, PassMode::IsNoop));
    let cs = items.map_values(|x: F| x.walk(backend, mode));
    assert forall|i: int| 0 <= i < vs.len() implies (#[trigger] vs[i]).error is None by {
        assert(vs[i] == items[i].walk(backend, PassMode::IsNoop));
    }
    assert forall|i: int| 0 <= i < cs.len() implies (#[trigger] cs[i]).error is None by {
        assert(cs[i] == items[i].walk(backend, mode));
    }
    lemma_fold_steps(vs, cs);
}

/// A pair none of whose elements fails writes, separated by a single comma
/// and with no comma before the first, the pieces of exactly those elements
/// that are not no-ops.
pub proof fn lemma_pair_writes_its_written_elements<A: QueryFragment, B: QueryFragment>(a: A, b: B, backend: Backend, mode: PassMode)
    requires
        a.walk(backend, PassMode::IsNoop).error is None,
        b.walk(backend, PassMode::IsNoop).error is None,
        a.walk(backend, mode).error is None,
        b.walk(backend, mode).error is None,
    ensures
        (a, b).walk(backend, mode) == (Walk {
            pieces: comma_separated(selected(
                seq![a.walk(backend, PassMode::IsNoop).pieces, b.walk(backend, PassMode::IsNoop).pieces],
                seq![a.walk(backend, mode).pieces, b.walk(backend, mode).pieces],
            )),
            error: None,
        }),
{
    let vs = seq![a.walk(backend, PassMode::IsNoop), b.walk(backend, PassMode::IsNoop)];
    let cs = seq![a.walk(backend, mode), b.walk(backend, mode)];
    assert(vs.drop_last() =~= seq![a.walk(backend, PassMode::IsNoop)]);
    assert(cs.drop_last() =~= seq![a.walk(backend, mode)]);
    assert(vs.drop_last().drop_last() =~= Seq::<Walk>::empty());
    assert(cs.drop_last().drop_last() =~= Seq::<Walk>::empty());
    reveal_with_fuel(fold_steps, 3);
    assert(fold_steps(vs, cs) == pair_walk(a, b, backend, mode));
    lemma_fold_steps(vs, cs);
    assert(pieces_of(vs) =~= seq![a.walk(backend, PassMode::IsNoop).pieces, b.walk(backend, PassMode::IsNoop).pieces]);
    assert(pieces_of(cs) =~= seq![a.walk(backend, mode).pieces, b.walk(backend, mode).pieces]);
}

/// A triple none of whose elements fails writes, separated by single commas
/// and with no comma before the first, the pieces of exactly those elements
/// that are not no-ops, in order.
pub proof fn lemma_triple_writes_its_written_elements<A: QueryFragment, B: QueryFragment, C: QueryFragment>(
    a: A,
    b: B,
    c: C,
    backend: Backend,
    mode: PassMode,
)
    requires
        a.walk(backend, PassMode::IsNoop).error is None,
        b.walk(backend, PassMode::IsNoop).error is None,
        c.walk(backend, PassMode::IsNoop).error is None,
        a.walk(backend, mode).error is None,
        b.walk(backend, mode).error is None,
        c.walk(backend, mode).error is None,
    ensures
        (a, b, c).walk(backend, mode) == (Walk {
            pieces: comma_separated(selected(
                seq![a.walk(backend, PassMode::IsNoop).pieces, b.walk(backend, PassMode::IsNoop).pieces, c.walk(backend, PassMode::IsNoop).pieces],
                seq![a.walk(backend, mode).pieces, b.walk(backend, mode).pieces, c.walk(backend, mode).pieces],
            )),
            error: None,
        }),
{
    let vs = seq![a.walk(backend, PassMode::IsNoop), b.walk(backend, PassMode::IsNoop), c.walk(backend, PassMode::IsNoop)];
    let cs = seq![a.walk(backend, mode), b.walk(backend, mode), c.walk(backend, mode)];
    assert(vs.drop_last() =~= seq![a.walk(backend, PassMode::IsNoop), b.walk(backend, PassMode::IsNoop)]);
    assert(cs.drop_last() =~= seq![a.walk(backend, mode), b.walk(backend, mode)]);
    assert(vs.drop_last().drop_last() =~= seq![a.walk(backend, PassMode::IsNoop)]);
    assert(cs.drop_last().drop_last() =~= seq![a.walk(backend, mode)]);
    assert(vs.drop_last().drop_last().drop_last() =~= Seq::<Walk>::empty());
    assert(cs.drop_last().drop_last().drop_last() =~= Seq::<Walk>::empty());
    reveal_with_fuel(fold_steps, 4);
    assert(fold_steps(vs, cs) == triple_walk(a, b, c, backend, mode));
    lemma_fold_steps(vs, cs);
    assert(pieces_of(vs) =~= seq![a.walk(backend, PassMode::IsNoop).pieces, b.walk(backend, PassMode::IsNoop).pieces, c.walk(backend, PassMode::IsNoop).pieces]);
    assert(pieces_of(cs) =~= seq![a.walk(backend, mode).pieces, b.walk(backend, mode).pieces, c.walk(backend, mode).pieces]);
}

/// The column lists of a tuple none of which fails are written, separated by
/// single commas, in order.
pub proof fn lemma_tuple_lists_its_elements<C: ColumnList>(t: Tuple<C>, backend: Backend, mode: PassMode)
    requires
        t.elements().len() >= 1,
        forall|i: int| 0 <= i < t.elements().len() ==> (#[trigger] t.elements()[i]).list_walk(backend, mode).error is None,
    ensures
        t.list_walk(backend, mode) == (Walk {
            pieces: comma_separated(pieces_of(t.elements().map_values(|x: C| x.list_walk(backend, mode)))),
            error: None,
        }),
{
    lemma_listed_separated(t.elements(), backend, mode);
}

proof fn lemma_listed_separated<C: ColumnList>(items: Seq<C>, backend: Backend, mode: PassMode)
    requires
        forall|i: int| 0 <= i < items.len() ==> (#[trigger] items[i]).list_walk(backend, mode).error is None,
    ensures
        listed(items, backend, mode) == (Walk {
            pieces: comma_separated(pieces_of(items.map_values(|x: C| x.list_walk(backend, mode)))),
            error: None,
        }),
    decreases items.len(),
{
    let ps = pieces_of(items.map_values(|x: C| x.list_walk(backend, mode)));
    if items.len() == 1 {
        assert(ps[0] == items[0].list_walk(backend, mode).pieces);
    } else if items.len() > 1 {
        let init = items.drop_last();
        assert forall|i: int| 0 <= i < init.len() implies (#[trigger] init[i]).list_walk(backend, mode).error is None by {
            assert(init[i] == items[i]);
        }
        lemma_listed_separated(init, backend, mode);
        assert(ps.drop_last() =~= pieces_of(init.map_values(|x: C| x.list_walk(backend, mode))));
        assert(items.last() == items[items.len() - 1]);
        assert(ps.last() == items.last().list_walk(backend, mode).pieces);
    }
}

/// The column lists of a pair, neither of which fails, are written separated
/// by a single comma.
pub proof fn lemma_pair_lists_its_elements<A: ColumnList, B: ColumnList>(a: A, b: B, backend: Backend, mode: PassMode)
    requires
        a.list_walk(backend, mode).error is None,
        b.list_walk(backend, mode).error is None,
    ensures
        (a, b).list_walk(backend, mode) == (Walk {
            pieces: comma_separated(seq![a.list_walk(backend, mode).pieces, b.list_walk(backend, mode).pieces]),
            error: None,
        }),
{
    let ps = seq![a.list_walk(backend, mode).pieces, b.list_walk(backend, mode).pieces];
    assert(ps.drop_last() =~= seq![a.list_walk(backend, mode).pieces]);
    assert(comma_separated(ps.drop_last()) == a.list_walk(backend, mode).pieces);
    assert(comma_separated(ps) == a.list_walk(backend, mode).pieces + seq![comma()] + b.list_walk(backend, mode).pieces);
}

/// The column lists of a triple, none of which fails, are written separated
/// by single commas, in order.
pub proof fn lemma_triple_lists_its_elements<A: ColumnList, B: ColumnList, C: ColumnList>(
    a: A,
    b: B,
    c: C,
    backend: Backend,
    mode: PassMode,
)
    requires
        a.list_walk(backend, mode).error is None,
        b.list_walk(backend, mode).error is None,
        c.list_walk(backend, mode).error is None,
    ensures
        (a, b, c).list_walk(backend, mode) == (Walk {
            pieces: comma_separated(seq![
                a.list_walk(backend, mode).pieces,
                b.list_walk(backend, mode).pieces,
                c.list_walk(backend, mode).pieces,
            ]),
            error: None,
        }),
{
    let ps = seq![a.list_walk(backend, mode).pieces, b.list_walk(backend, mode).pieces, c.list_walk(backend, mode).pieces];
    assert(ps.drop_last() =~= seq![a.list_walk(backend, mode).pieces, b.list_walk(backend, mode).pieces]);
    assert(ps.drop_last().drop_last() =~= seq![a.list_walk(backend, mode).pieces]);
    assert(comma_separated(ps.drop_last().drop_last()) == a.list_walk(backend, mode).pieces);
    assert(comma_separated(ps.drop_last()) == a.list_walk(backend, mode).pieces + seq![comma()] + b.list_walk(backend, mode).pieces);
    assert(comma_separated(ps) == a.list_walk(backend, mode).pieces + seq![comma()] + b.list_walk(backend, mode).pieces
        + seq![comma()] + c.list_walk(backend, mode).pieces);
}

} // verus!
