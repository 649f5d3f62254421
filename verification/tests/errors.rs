use lib::ast_pass::{AstPass, PassMode, QueryError, Walk};
use lib::backend::Backend;
use lib::fragment::{Column, QueryFragment, SqlLiteral};
use lib::insert::{ColumnInsertValue, InsertValues};
use lib::tuples::Tuple;

/// A fragment that writes some text and then fails, in a pass of either mode.
struct Failing;

// The spec functions of the trait are for the verifier; compiled code never
// calls them.
impl QueryFragment for Failing {
    fn valid_on(&self, _: Backend) -> bool {
        true
    }

    fn walk(&self, _: Backend, _: PassMode) -> Walk {
        unreachable!()
    }

    fn walk_ast(&self, out: &mut AstPass) -> Result<(), QueryError> {
        out.push_sql("X");
        Err(QueryError::QueryBuilderError)
    }
}

/// A fragment that is either a literal or a failing one.
enum Part {
    Lit(SqlLiteral),
    Fail(Failing),
}

impl QueryFragment for Part {
    fn valid_on(&self, _: Backend) -> bool {
        true
    }

    fn walk(&self, _: Backend, _: PassMode) -> Walk {
        unreachable!()
    }

    fn walk_ast(&self, out: &mut AstPass) -> Result<(), QueryError> {
        match self {
            Part::Lit(l) => l.walk_ast(out),
            Part::Fail(f) => f.walk_ast(out),
        }
    }
}

#[test]
fn tuple_stops_at_first_error() {
    let t = Tuple::new(vec![
        Part::Lit(SqlLiteral::new("a")),
        Part::Fail(Failing),
        Part::Lit(SqlLiteral::new("b")),
    ]);
    let mut pass = AstPass::to_sql(Backend::Pg);
    let r = t.walk_ast(&mut pass);
    assert!(matches!(r, Err(QueryError::QueryBuilderError)));
    // The failing element is asked whether it is a no-op first, which fails,
    // so it writes nothing; the later element is never reached.
    assert_eq!(pass.finish(), "a");
}

#[test]
fn is_noop_reports_the_error() {
    assert!(matches!(Failing.is_noop(Backend::Pg), Err(QueryError::QueryBuilderError)));
}

#[test]
fn mixed_pair_stops_at_error() {
    let p = (SqlLiteral::new("a"), Failing);
    let mut pass = AstPass::to_sql(Backend::Pg);
    assert!(p.walk_ast(&mut pass).is_err());
    assert_eq!(pass.finish(), "a");
}

#[test]
fn column_names_stop_at_error() {
    let t = Tuple::new(vec![
        ColumnInsertValue::Expression(Column::new("t", "a"), Part::Lit(SqlLiteral::new("1"))),
        ColumnInsertValue::Expression(Column::new("t", "b"), Part::Fail(Failing)),
        ColumnInsertValue::Expression(Column::new("t", "c"), Part::Lit(SqlLiteral::new("3"))),
    ]);
    let mut pass = AstPass::to_sql(Backend::Pg);
    assert!(t.column_names(&mut pass).is_err());
    assert_eq!(pass.finish(), "\"a\"");
}
