//! The pass that walks a query fragment: it either renders SQL text or
//! records whether the fragment writes anything at all.
use vstd::prelude::*;

use crate::backend::Backend;

verus! {

/// One thing a fragment hands to the pass: raw SQL text, or an identifier
/// that the backend quotes and escapes.
pub enum Piece {
    /// SQL text, written as it is.
    Sql(Seq<char>),
    /// An identifier, written quoted.
    Identifier(Seq<char>),
}

/// `s` with every occurrence of the quote character `q` doubled.
pub open spec fn escape(q: char, s: Seq<char>) -> Seq<char>
    decreases s.len(),
{
    if s.len() == 0 {
        Seq::empty()
    } else if s.last() == q {
        escape(q, s.drop_last()) + seq![q, q]
    } else {
        escape(q, s.drop_last()).push(s.last())
    }
}

/// The identifier `s` as the backend writes it: between quote characters,
/// with the quote character doubled inside.
pub open spec fn quote_identifier(backend: Backend, s: Seq<char>) -> Seq<char> {
    let q = backend.identifier_quote();
    seq![q] + escape(q, s) + seq![q]
}

/// Reverses [`escape`]: every doubled quote character becomes one.
pub open spec fn unescape(q: char, t: Seq<char>) -> Seq<char>
    decreases t.len(),
{
    if t.len() == 0 {
        Seq::empty()
    } else if t.len() >= 2 && t.last() == q && t[t.len() - 2] == q {
        unescape(q, t.subrange(0, t.len() - 2)).push(q)
    } else {
        unescape(q, t.drop_last()).push(t.last())
    }
}

/// Escaping loses nothing: unescaping gives the text back.
pub proof fn lemma_unescape_escape(q: char, s: Seq<char>)
    ensures
        unescape(q, escape(q, s)) == s,
    decreases s.len(),
{
    if s.len() > 0 {
        lemma_unescape_escape(q, s.drop_last());
        let e = escape(q, s.drop_last());
        let t = escape(q, s);
        if s.last() == q {
            assert(t.subrange(0, t.len() - 2) =~= e);
        } else {
            assert(t.drop_last() =~= e);
            if t.len() >= 2 {
                assert(t.last() == s.last());
            }
        }
        assert(unescape(q, t) =~= s);
    }
}

/// Quoting loses nothing: two identifiers that the backend writes alike are
/// the same identifier.
pub proof fn lemma_quote_identifier_injective(backend: Backend, s1: Seq<char>, s2: Seq<char>)
    requires
        quote_identifier(backend, s1) == quote_identifier(backend, s2),
    ensures
        s1 == s2,
{
    let q = backend.identifier_quote();
    let t1 = quote_identifier(backend, s1);
    let t2 = quote_identifier(backend, s2);
    assert(t1.subrange(1, t1.len() - 1) =~= escape(q, s1));
    assert(t2.subrange(1, t2.len() - 1) =~= escape(q, s2));
    lemma_unescape_escape(q, s1);
    lemma_unescape_escape(q, s2);
}

/// The SQL text of one piece.
pub open spec fn render_piece(backend: Backend, p: Piece) -> Seq<char> {
    match p {
        Piece::Sql(s) => s,
        Piece::Identifier(s) => quote_identifier(backend, s),
    }
}

/// The SQL text of a sequence of pieces, written one after the other.
pub open spec fn render(backend: Backend, ps: Seq<Piece>) -> Seq<char>
    decreases ps.len(),
{
    if ps.len() == 0 {
        Seq::empty()
    } else {
        render(backend, ps.drop_last()) + render_piece(backend, ps.last())
    }
}

/// What a pass does with the pieces it is handed.
#[derive(Clone, Copy, Debug, PartialEq, Eq, Structural)]
pub enum PassMode {
    /// Append the SQL text of each piece.
    ToSql,
    /// Only remember that some piece was handed over.
    IsNoop,
}

/// The state of a pass, as the contracts speak of it.
pub struct PassState {
    pub backend: Backend,
    pub mode: PassMode,
    pub sql: Seq<char>,
    pub noop: bool,
}

impl PassState {
    /// The state after the pieces `ps` were handed to the pass.
    pub open spec fn emit(self, ps: Seq<Piece>) -> PassState {
        match self.mode {
            PassMode::ToSql => PassState {
                backend: self.backend,
                mode: self.mode,
                sql: self.sql + render(self.backend, ps),
                noop: self.noop,
            },
            PassMode::IsNoop => PassState {
                backend: self.backend,
                mode: self.mode,
                sql: self.sql,
                noop: self.noop && ps.len() == 0,
            },
        }
    }
}

/// Rendering is compositional: the text of two runs of pieces is the text
/// of the first followed by the text of the second.
pub proof fn lemma_render_concat(backend: Backend, p1: Seq<Piece>, p2: Seq<Piece>)
    ensures
        render(backend, p1 + p2) == render(backend, p1) + render(backend, p2),
    decreases p2.len(),
{
    if p2.len() == 0 {
        assert(p1 + p2 =~= p1);
        assert(render(backend, p2) =~= Seq::<char>::empty());
        assert(render(backend, p1) + render(backend, p2) =~= render(backend, p1));
    } else {
        lemma_render_concat(backend, p1, p2.drop_last());
        assert((p1 + p2).drop_last() =~= p1 + p2.drop_last());
        assert((p1 + p2).last() == p2.last());
        assert(render(backend, p1) + render(backend, p2.drop_last()) + render_piece(backend, p2.last())
            =~= render(backend, p1) + (render(backend, p2.drop_last()) + render_piece(backend, p2.last())));
    }
}

/// The text of a single piece is its own text.
pub proof fn lemma_render_single(backend: Backend, p: Piece)
    ensures
        render(backend, seq![p]) == render_piece(backend, p),
{
    let ps = seq![p];
    assert(ps.drop_last() =~= Seq::<Piece>::empty());
    assert(render(backend, ps.drop_last()) =~= Seq::<char>::empty());
    assert(Seq::<char>::empty() + render_piece(backend, p) =~= render_piece(backend, p));
}

/// Handing over two runs of pieces one after the other is the same as
/// handing over their concatenation.
pub proof fn lemma_emit_concat(s: PassState, p1: Seq<Piece>, p2: Seq<Piece>)
    ensures
        s.emit(p1).emit(p2) == s.emit(p1 + p2),
{
    lemma_render_concat(s.backend, p1, p2);
    assert(s.sql + render(s.backend, p1) + render(s.backend, p2) =~= s.sql + (render(
        s.backend,
        p1,
    ) + render(s.backend, p2)));
}

/// Handing over no pieces leaves the pass as it was.
pub proof fn lemma_emit_empty(s: PassState)
    ensures
        s.emit(Seq::empty()) == s,
{
    assert(render(s.backend, Seq::<Piece>::empty()) =~= Seq::<char>::empty());
    assert(s.sql + Seq::<char>::empty() =~= s.sql);
}

/// Appends one character to a `String`: the standard library's
/// `String::push`, documented to append the given `char` to the end of the
/// string.
#[verifier::external_body]
fn push_char(s: &mut String, c: char)
    ensures
        final(s)@ == old(s)@.push(c),
{
    s.push(c);
}

/// A walk over a query fragment.
pub struct AstPass {
    backend: Backend,
    mode: PassMode,
    sql: String,
    noop: bool,
}

impl View for AstPass {
    type V = PassState;

    closed spec fn view(&self) -> PassState {
        PassState {
            backend: self.backend,
            mode: self.mode,
            sql: self.sql@,
            noop: self.noop,
        }
    }
}

impl AstPass {
    /// A pass that renders SQL text for `backend`, starting from no text.
    pub fn to_sql(backend: Backend) -> (pass: AstPass)
        ensures
            pass@ == (PassState { backend, mode: PassMode::ToSql, sql: Seq::empty(), noop: true }),
    {
        AstPass { backend, mode: PassMode::ToSql, sql: String::new(), noop: true }
    }

    /// A pass that records whether anything is handed to it.
    pub fn is_noop(backend: Backend) -> (pass: AstPass)
        ensures
            pass@ == (PassState { backend, mode: PassMode::IsNoop, sql: Seq::empty(), noop: true }),
    {
        AstPass { backend, mode: PassMode::IsNoop, sql: String::new(), noop: true }
    }

    /// The backend the pass renders for.
    pub fn backend(&self) -> (b: Backend)
        ensures
            b == self@.backend,
    {
        self.backend
    }

    /// Whether nothing has been handed to the pass (for a pass made by
    /// [`AstPass::is_noop`]).
    pub fn noop_result(&self) -> (b: bool)
        ensures
            b == self@.noop,
    {
        self.noop
    }

    /// The SQL text rendered so far.
    pub fn sql(&self) -> (s: &str)
        ensures
            s@ == self@.sql,
    {
        self.sql.as_str()
    }

    /// Ends the pass and hands back the SQL text rendered.
    pub fn finish(self) -> (s: String)
        ensures
            s@ == self@.sql,
    {
        self.sql
    }

    /// Hands raw SQL text to the pass.
    pub fn push_sql(&mut self, sql: &str)
        ensures
            final(self)@ == old(self)@.emit(seq![Piece::Sql(sql@)]),
    {
        proof {
            lemma_render_single(self.backend, Piece::Sql(sql@));
        }
        match self.mode {
            PassMode::ToSql => {
                self.sql.append(sql);
            },
            PassMode::IsNoop => {
                self.noop = false;
            },
        }
    }

    /// Hands an identifier to the pass, which quotes it for the backend and
    /// doubles each quote character inside it.
    pub fn push_identifier(&mut self, identifier: &str) -> (r: Result<(), QueryError>)
        ensures
            r == Ok::<(), QueryError>(()),
            final(self)@ == old(self)@.emit(seq![Piece::Identifier(identifier@)]),
    {
        proof {
            lemma_render_single(self.backend, Piece::Identifier(identifier@));
        }
        match self.mode {
            PassMode::ToSql => {
                let q = self.backend.quote_char();
                let n = identifier.unicode_len();
                let mut quoted = String::new();
                push_char(&mut quoted, q);
                let mut i: usize = 0;
                while i < n
                    invariant
                        n == identifier@.len(),
                        i <= n,
                        q == self.backend.identifier_quote(),
                        quoted@ == seq![q] + escape(q, identifier@.take(i as int)),
                    decreases n - i,
                {
                    let c = identifier.get_char(i);
                    proof {
                        assert(identifier@.take(i + 1).drop_last() =~= identifier@.take(i as int));
                        assert(identifier@.take(i + 1).last() == c);
                    }
                    if c == q {
                        push_char(&mut quoted, q);
                        push_char(&mut quoted, q);
                        proof {
                            assert(seq![q] + escape(q, identifier@.take(i as int)) + seq![q, q]
                                =~= (seq![q] + escape(q, identifier@.take(i as int))).push(q).push(q));
                        }
                    } else {
                        push_char(&mut quoted, c);
                    }
                    i = i + 1;
                }
                push_char(&mut quoted, q);
                proof {
                    assert(identifier@.take(n as int) =~= identifier@);
                    assert(quoted@ =~= quote_identifier(self.backend, identifier@));
                }
                self.sql.append(quoted.as_str());
            },
            PassMode::IsNoop => {
                self.noop = false;
            },
        }
        Ok(())
    }
}

/// An error that walking a query fragment can report.
#[derive(Debug)]
pub enum QueryError {
    /// The query could not be built.
    QueryBuilderError,
}

/// What walking a fragment does: the pieces it hands to the pass, in order,
/// and the error that ends the walk, if one does (the pieces are then those
/// handed over before it).
pub struct Walk {
    pub pieces: Seq<Piece>,
    pub error: Option<QueryError>,
}

/// A walk that hands over `pieces` and succeeds.
pub open spec fn succeeds(pieces: Seq<Piece>) -> Walk {
    Walk { pieces, error: None }
}

/// What a walk returns.
pub open spec fn walk_result(w: Walk) -> Result<(), QueryError> {
    match w.error {
        Some(e) => Err(e),
        None => Ok(()),
    }
}

/// What asking whether a fragment is a no-op returns, given its walk in a
/// pass of mode [`PassMode::IsNoop`]: its error, or whether it handed over no
/// piece.
pub open spec fn noop_answer(w: Walk) -> Result<bool, QueryError> {
    match w.error {
        Some(e) => Err(e),
        None => Ok(w.pieces.len() == 0),
    }
}

/// The SQL text of the literals the fragments of this crate write.
pub proof fn lemma_sql_literals()
    ensures
        ", "@ == seq![',', ' '],
        " ("@ == seq![' ', '('],
        ")"@ == seq![')'],
        " "@ == seq![' '],
        "."@ == seq!['.'],
        "DEFAULT"@ == seq!['D', 'E', 'F', 'A', 'U', 'L', 'T'],
{
    reveal_strlit(", ");
    reveal_strlit(" (");
    reveal_strlit(")");
    reveal_strlit(" ");
    reveal_strlit(".");
    reveal_strlit("DEFAULT");
    assert(", "@ =~= seq![',', ' ']);
    assert(" ("@ =~= seq![' ', '(']);
    assert(")"@ =~= seq![')']);
    assert(" "@ =~= seq![' ']);
    assert("."@ =~= seq!['.']);
    assert("DEFAULT"@ =~= seq!['D', 'E', 'F', 'A', 'U', 'L', 'T']);
}

} // verus!
