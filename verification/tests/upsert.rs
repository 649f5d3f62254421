use lib::ast_pass::AstPass;
use lib::backend::Backend;
use lib::fragment::{Column, ColumnList, QueryFragment, SqlLiteral};
use lib::tuples::Tuple;
use lib::upsert::{ConflictTarget, NoConflictTarget, OnConflictTarget};

fn render<F: QueryFragment>(f: &F, backend: Backend) -> String {
    let mut pass = AstPass::to_sql(backend);
    f.walk_ast(&mut pass).unwrap();
    pass.finish()
}

#[test]
fn single_column_target_pg() {
    let t = ConflictTarget(Column::new("users", "id"));
    assert_eq!(render(&t, Backend::Pg), " (\"id\")");
}

#[test]
fn single_column_target_sqlite() {
    let t = ConflictTarget(Column::new("users", "id"));
    assert_eq!(render(&t, Backend::Sqlite), " (`id`)");
}

#[test]
fn quote_inside_identifier_is_doubled() {
    let t = ConflictTarget(Column::new("users", "we\"ird"));
    assert_eq!(render(&t, Backend::Pg), " (\"we\"\"ird\")");
    let t = ConflictTarget(Column::new("users", "a`b"));
    assert_eq!(render(&t, Backend::Sqlite), " (`a``b`)");
    // The other backend's quote character stays as it is.
    let t = ConflictTarget(Column::new("users", "a`b"));
    assert_eq!(render(&t, Backend::Pg), " (\"a`b\")");
}

#[test]
fn non_ascii_identifier() {
    let t = ConflictTarget(Column::new("t", "näme"));
    assert_eq!(render(&t, Backend::Pg), " (\"näme\")");
}

#[test]
fn literal_target() {
    let t = ConflictTarget(SqlLiteral::new("(lower(email))"));
    assert_eq!(render(&t, Backend::Pg), " (lower(email))");
    assert_eq!(render(&t, Backend::Sqlite), " (lower(email))");
}

#[test]
fn tuple_target() {
    let t = ConflictTarget(Tuple::new(vec![
        Column::new("users", "id"),
        Column::new("users", "name"),
        Column::new("users", "email"),
    ]));
    assert_eq!(render(&t, Backend::Pg), " (\"id\", \"name\", \"email\")");
    assert_eq!(render(&t, Backend::Sqlite), " (`id`, `name`, `email`)");
}

#[test]
fn one_column_tuple_target_equals_column_target() {
    let t = ConflictTarget(Tuple::new(vec![Column::new("users", "id")]));
    let c = ConflictTarget(Column::new("users", "id"));
    assert_eq!(render(&t, Backend::Pg), render(&c, Backend::Pg));
    assert_eq!(render(&t, Backend::Pg), " (\"id\")");
}

#[test]
fn no_conflict_target_writes_nothing() {
    assert_eq!(render(&NoConflictTarget, Backend::Pg), "");
    assert_eq!(NoConflictTarget.is_noop(Backend::Sqlite).unwrap(), true);
}

#[test]
fn column_target_is_not_noop() {
    let t = ConflictTarget(Column::new("users", "id"));
    assert_eq!(t.is_noop(Backend::Pg).unwrap(), false);
}

#[test]
fn targets_of_tables() {
    let users = String::from("users");
    let posts = String::from("posts");
    assert!(NoConflictTarget.is_target_for(&users));
    assert!(ConflictTarget(Column::new("users", "id")).is_target_for(&users));
    assert!(!ConflictTarget(Column::new("users", "id")).is_target_for(&posts));
    assert!(ConflictTarget(SqlLiteral::new("(id)")).is_target_for(&posts));
    let both = ConflictTarget(Tuple::new(vec![Column::new("users", "id"), Column::new("users", "name")]));
    assert!(both.is_target_for(&users));
    assert!(!both.is_target_for(&posts));
    let mixed = ConflictTarget(Tuple::new(vec![Column::new("users", "id"), Column::new("posts", "id")]));
    assert!(!mixed.is_target_for(&users));
    assert!(!mixed.is_target_for(&posts));
}

#[test]
fn distinct_identifiers_are_written_differently() {
    let a = ConflictTarget(Column::new("t", "a\"b"));
    let b = ConflictTarget(Column::new("t", "a\"\"b"));
    assert_ne!(render(&a, Backend::Pg), render(&b, Backend::Pg));
    assert_eq!(render(&b, Backend::Pg), " (\"a\"\"\"\"b\")");
}

#[test]
fn tuple_target_is_parenthesised_column_list() {
    let cols = Tuple::new(vec![Column::new("users", "id"), Column::new("users", "name")]);
    let mut pass = AstPass::to_sql(Backend::Sqlite);
    ColumnList::walk_ast(&cols, &mut pass).unwrap();
    let listed = pass.finish();
    let target = ConflictTarget(cols);
    assert_eq!(render(&target, Backend::Sqlite), format!(" ({})", listed));
}
