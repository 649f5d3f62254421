//! Building values, and tuples of values, from the fields of a result row.
use vstd::prelude::*;
use vstd::slice::slice_subrange;

verus! {

/// The value of a field of a result row.
pub enum SqlValue {
    BigInt(i64),
    Text(String),
    Bool(bool),
}

/// The value of a field, as the contracts speak of it.
pub enum FieldValue {
    BigInt(i64),
    Text(Seq<char>),
    Bool(bool),
}

impl DeepView for SqlValue {
    type V = FieldValue;

    open spec fn deep_view(&self) -> FieldValue {
        match self {
            SqlValue::BigInt(v) => FieldValue::BigInt(*v),
            SqlValue::Text(s) => FieldValue::Text(s@),
            SqlValue::Bool(b) => FieldValue::Bool(*b),
        }
    }
}

/// The SQL type of a value, which is what a backend needs to know of each
/// field it is to read.
#[derive(Clone, Copy, Debug, PartialEq, Eq, Structural)]
pub enum SqlType {
    BigInt,
    Text,
    Bool,
}

/// Why a value could not be built from a row.
#[derive(Clone, Copy, Debug, PartialEq, Eq, Structural)]
pub enum DeserializeError {
    /// The field is `NULL` where a value is needed.
    UnexpectedNull,
    /// The row has fewer fields than are read from it.
    UnexpectedEndOfRow,
    /// The field holds a value of another type.
    WrongType,
}

/// The contents of a row: its fields, `None` standing for `NULL`.
pub open spec fn row_view(row: &[Option<SqlValue>]) -> Seq<Option<FieldValue>> {
    row.deep_view()
}

/// A result with its value taken by its view.
pub open spec fn result_view<T: DeepView>(r: Result<T, DeserializeError>) -> Result<T::V, DeserializeError> {
    match r {
        Ok(v) => Ok(v.deep_view()),
        Err(e) => Err(e),
    }
}

/// The fields from `start` to `end` of `row`, both clamped to the row's
/// length.
pub open spec fn partial_row<T>(row: Seq<T>, start: int, end: int) -> Seq<T> {
    let e = if end < row.len() { end } else { row.len() as int };
    let s = if start < e { start } else { e };
    row.subrange(s, e)
}

/// The fields from `start` to `end` of `row`, both clamped to the row's
/// length.
fn partial(row: &[Option<SqlValue>], start: usize, end: usize) -> (part: &[Option<SqlValue>])
    ensures
        row_view(part) == partial_row(row_view(row), start as int, end as int),
{
    let e = if end < row.len() { end } else { row.len() };
    let s = if start < e { start } else { e };
    let part = slice_subrange(row, s, e);
    proof {
        assert(row_view(part) =~= partial_row(row_view(row), start as int, end as int));
    }
    part
}

/// `a + b`, or the largest `usize` where the sum does not fit.
pub open spec fn saturating_sum(a: int, b: int) -> int {
    if a + b <= usize::MAX { a + b } else { usize::MAX as int }
}

/// `a + b`, or the largest `usize` where the sum does not fit.
fn add_counts(a: usize, b: usize) -> (c: usize)
    ensures
        c as int == saturating_sum(a as int, b as int),
{
    if a <= usize::MAX - b { a + b } else { usize::MAX }
}

/// A count that stopped at the largest `usize` clamps to the row's length as
/// the true count does.
proof fn lemma_saturated_clamp<T>(row: Seq<T>, start: int, a: int, b: int, c: int)
    requires
        0 <= a,
        0 <= b,
        row.len() <= usize::MAX,
        c == saturating_sum(a, b),
    ensures
        partial_row(row, start, c) == partial_row(row, start, a + b),
        partial_row(row, c, row.len() as int) == partial_row(row, a + b, row.len() as int),
{
}

/// `t`, or the largest `usize` where `t` does not fit.
pub open spec fn capped(t: int) -> int {
    saturating_sum(t, 0)
}

/// Adding to a capped count caps the true sum.
proof fn lemma_capped_chain(t: int, z: int)
    requires
        0 <= t,
        0 <= z,
    ensures
        saturating_sum(capped(t), z) == capped(t + z),
{
}

/// Capped counts clamp to a row's length as the true counts do.
proof fn lemma_capped_clamp<T>(row: Seq<T>, x: int, y: int)
    requires
        0 <= x,
        0 <= y,
        row.len() <= usize::MAX,
    ensures
        partial_row(row, capped(x), capped(y)) == partial_row(row, x, y),
        partial_row(row, capped(x), row.len() as int) == partial_row(row, x, row.len() as int),
{
}

/// Values that can be built from the fields of a row.
pub trait FromSqlRow: Sized + DeepView {
    /// The value built from the fields `row`, or why none can be.
    spec fn spec_build(row: Seq<Option<FieldValue>>) -> Result<Self::V, DeserializeError>;

    /// Builds a value from the fields `row`.
    fn build_from_row(row: &[Option<SqlValue>]) -> (r: Result<Self, DeserializeError>)
        ensures
            result_view(r) == Self::spec_build(row_view(row)),
    ;
}

/// Values that always read the same number of fields.
pub trait StaticallySizedRow: FromSqlRow {
    /// The number of fields read.
    spec fn spec_field_count() -> nat;

    /// The number of fields read.
    fn field_count() -> (n: usize)
        ensures
            n == Self::spec_field_count(),
    ;
}

/// The value of the first field of `row`: the error where the row has no
/// field or the field is `NULL`.
pub open spec fn first_field(row: Seq<Option<FieldValue>>) -> Result<FieldValue, DeserializeError> {
    if row.len() == 0 {
        Err(DeserializeError::UnexpectedEndOfRow)
    } else {
        match row[0] {
            None => Err(DeserializeError::UnexpectedNull),
            Some(v) => Ok(v),
        }
    }
}

/// The first field of `row`, checked for presence and `NULL`.
fn read_first_field(row: &[Option<SqlValue>]) -> (r: Result<&SqlValue, DeserializeError>)
    ensures
        match r {
            Ok(v) => first_field(row_view(row)) == Ok::<FieldValue, DeserializeError>(v.deep_view()),
            Err(e) => first_field(row_view(row)) == Err::<FieldValue, DeserializeError>(e),
        },
{
    if row.len() == 0 {
        return Err(DeserializeError::UnexpectedEndOfRow);
    }
    match &row[0] {
        None => Err(DeserializeError::UnexpectedNull),
        Some(v) => Ok(v),
    }
}

/// A 64-bit integer reads one `BIGINT` field.
impl FromSqlRow for i64 {
    open spec fn spec_build(row: Seq<Option<FieldValue>>) -> Result<i64, DeserializeError> {
        match first_field(row) {
            Err(e) => Err(e),
            Ok(FieldValue::BigInt(v)) => Ok(v),
            Ok(_) => Err(DeserializeError::WrongType),
        }
    }

    fn build_from_row(row: &[Option<SqlValue>]) -> (r: Result<i64, DeserializeError>) {
        match read_first_field(row)? {
            SqlValue::BigInt(v) => Ok(*v),
            _ => Err(DeserializeError::WrongType),
        }
    }
}

impl StaticallySizedRow for i64 {
    open spec fn spec_field_count() -> nat {
        1
    }

    fn field_count() -> (n: usize) {
        1
    }
}

/// A boolean reads one `BOOL` field.
impl FromSqlRow for bool {
    open spec fn spec_build(row: Seq<Option<FieldValue>>) -> Result<bool, DeserializeError> {
        match first_field(row) {
            Err(e) => Err(e),
            Ok(FieldValue::Bool(v)) => Ok(v),
            Ok(_) => Err(DeserializeError::WrongType),
        }
    }

    fn build_from_row(row: &[Option<SqlValue>]) -> (r: Result<bool, DeserializeError>) {
        match read_first_field(row)? {
            SqlValue::Bool(v) => Ok(*v),
            _ => Err(DeserializeError::WrongType),
        }
    }
}

impl StaticallySizedRow for bool {
    open spec fn spec_field_count() -> nat {
        1
    }

    fn field_count() -> (n: usize) {
        1
    }
}

/// A string reads one `TEXT` field.
impl FromSqlRow for String {
    open spec fn spec_build(row: Seq<Option<FieldValue>>) -> Result<Seq<char>, DeserializeError> {
        match first_field(row) {
            Err(e) => Err(e),
            Ok(FieldValue::Text(v)) => Ok(v),
            Ok(_) => Err(DeserializeError::WrongType),
        }
    }

    fn build_from_row(row: &[Option<SqlValue>]) -> (r: Result<String, DeserializeError>) {
        match read_first_field(row)? {
            SqlValue::Text(v) => Ok(v.clone()),
            _ => Err(DeserializeError::WrongType),
        }
    }
}

impl StaticallySizedRow for String {
    open spec fn spec_field_count() -> nat {
        1
    }

    fn field_count() -> (n: usize) {
        1
    }
}

/// An optional value is `None` exactly where building the value meets an
/// unexpected `NULL`; other errors stay errors.
impl<T: FromSqlRow> FromSqlRow for Option<T> {
    open spec fn spec_build(row: Seq<Option<FieldValue>>) -> Result<Option<T::V>, DeserializeError> {
        match T::spec_build(row) {
            Ok(v) => Ok(Some(v)),
            Err(DeserializeError::UnexpectedNull) => Ok(None),
            Err(e) => Err(e),
        }
    }

    fn build_from_row(row: &[Option<SqlValue>]) -> (r: Result<Option<T>, DeserializeError>) {
        match T::build_from_row(row) {
            Ok(v) => Ok(Some(v)),
            Err(DeserializeError::UnexpectedNull) => Ok(None),
            Err(e) => Err(e),
        }
    }
}

impl<T: StaticallySizedRow> StaticallySizedRow for Option<T> {
    open spec fn spec_field_count() -> nat {
        T::spec_field_count()
    }

    fn field_count() -> (n: usize) {
        T::field_count()
    }
}

/// A one-element tuple reads the whole row into its element.
impl<A: FromSqlRow> FromSqlRow for (A,) {
    open spec fn spec_build(row: Seq<Option<FieldValue>>) -> Result<(A::V,), DeserializeError> {
        match A::spec_build(row) {
            Ok(a) => Ok((a,)),
            Err(e) => Err(e),
        }
    }

    fn build_from_row(row: &[Option<SqlValue>]) -> (r: Result<(A,), DeserializeError>) {
        Ok((A::build_from_row(row)?,))
    }
}

/// A pair: the first element reads as many fields as it needs from the
/// start of the row, the second reads the rest; the first error stops the
/// build.
impl<A: StaticallySizedRow, B: FromSqlRow> FromSqlRow for (A, B) {
    open spec fn spec_build(row: Seq<Option<FieldValue>>) -> Result<(A::V, B::V), DeserializeError> {
        let fa = A::spec_field_count() as int;
        match A::spec_build(partial_row(row, 0, fa)) {
            Err(e) => Err(e),
            Ok(a) => match B::spec_build(partial_row(row, fa, row.len() as int)) {
                Err(e) => Err(e),
                Ok(b) => Ok((a, b)),
            },
        }
    }

    fn build_from_row(full_row: &[Option<SqlValue>]) -> (r: Result<(A, B), DeserializeError>) {
        let field_count = full_row.len();
        let mut static_field_count: usize = 0;
        let fa = A::field_count();
        let row = partial(full_row, static_field_count, add_counts(static_field_count, fa));
        static_field_count = add_counts(static_field_count, fa);
        let a = A::build_from_row(row)?;
        let b = B::build_from_row(partial(full_row, static_field_count, field_count))?;
        Ok((a, b))
    }
}

/// A triple: the first two elements read as many fields as they need, one
/// after the other from the start of the row, the third reads the rest; the
/// first error stops the build.
impl<A: StaticallySizedRow, B: StaticallySizedRow, C: FromSqlRow> FromSqlRow for (A, B, C) {
    open spec fn spec_build(row: Seq<Option<FieldValue>>) -> Result<(A::V, B::V, C::V), DeserializeError> {
        let fa = A::spec_field_count() as int;
        let fb = B::spec_field_count() as int;
        match A::spec_build(partial_row(row, 0, fa)) {
            Err(e) => Err(e),
            Ok(a) => match B::spec_build(partial_row(row, fa, fa + fb)) {
                Err(e) => Err(e),
                Ok(b) => match C::spec_build(partial_row(row, fa + fb, row.len() as int)) {
                    Err(e) => Err(e),
                    Ok(c) => Ok((a, b, c)),
                },
            },
        }
    }

    fn build_from_row(full_row: &[Option<SqlValue>]) -> (r: Result<(A, B, C), DeserializeError>) {
        let field_count = full_row.len();
        let mut static_field_count: usize = 0;
        let fa = A::field_count();
        let row = partial(full_row, static_field_count, add_counts(static_field_count, fa));
        static_field_count = add_counts(static_field_count, fa);
        let a = A::build_from_row(row)?;
        let fb = B::field_count();
        let row = partial(full_row, static_field_count, add_counts(static_field_count, fb));
        static_field_count = add_counts(static_field_count, fb);
        proof {
            lemma_saturated_clamp(row_view(full_row), fa as int, fa as int, fb as int, static_field_count as int);
        }
        let b = B::build_from_row(row)?;
        let c = C::build_from_row(partial(full_row, static_field_count, field_count))?;
        Ok((a, b, c))
    }
}

/// Four values: the first three read as many fields as they need, one after
/// the other from the start of the row, the fourth reads the rest; the first
/// error stops the build.
impl<A: StaticallySizedRow, B: StaticallySizedRow, C: StaticallySizedRow, D: FromSqlRow> FromSqlRow for (A, B, C, D) {
    open spec fn spec_build(row: Seq<Option<FieldValue>>) -> Result<(A::V, B::V, C::V, D::V), DeserializeError> {
        let fa = A::spec_field_count() as int;
        let fb = B::spec_field_count() as int;
        let fc = C::spec_field_count() as int;
        match A::spec_build(partial_row(row, 0, fa)) {
            Err(e) => Err(e),
            Ok(a) => match B::spec_build(partial_row(row, fa, fa + fb)) {
                Err(e) => Err(e),
                Ok(b) => match C::spec_build(partial_row(row, fa + fb, fa + fb + fc)) {
                    Err(e) => Err(e),
                    Ok(c) => match D::spec_build(partial_row(row, fa + fb + fc, row.len() as int)) {
                        Err(e) => Err(e),
                        Ok(d) => Ok((a, b, c, d)),
                    },
                },
            },
        }
    }

    fn build_from_row(full_row: &[Option<SqlValue>]) -> (r: Result<(A, B, C, D), DeserializeError>) {
        let ghost row = row_view(full_row);
        let field_count = full_row.len();
        let mut static_field_count: usize = 0;
        let fa = A::field_count();
        let part = partial(full_row, static_field_count, add_counts(static_field_count, fa));
        static_field_count = add_counts(static_field_count, fa);
        let a = A::build_from_row(part)?;
        let fb = B::field_count();
        let part = partial(full_row, static_field_count, add_counts(static_field_count, fb));
        static_field_count = add_counts(static_field_count, fb);
        proof {
            lemma_capped_chain(fa as int, fb as int);
            lemma_capped_clamp(row, fa as int, fa + fb);
        }
        let b = B::build_from_row(part)?;
        let fc = C::field_count();
        let part = partial(full_row, static_field_count, add_counts(static_field_count, fc));
        proof {
            lemma_capped_chain(fa + fb, fc as int);
            lemma_capped_clamp(row, fa + fb, fa + fb + fc);
        }
        static_field_count = add_counts(static_field_count, fc);
        let c = C::build_from_row(part)?;
        let d = D::build_from_row(partial(full_row, static_field_count, field_count))?;
        Ok((a, b, c, d))
    }
}

/// A one-element tuple reads as many fields as its element.
impl<A: StaticallySizedRow> StaticallySizedRow for (A,) {
    open spec fn spec_field_count() -> nat {
        A::spec_field_count()
    }

    fn field_count() -> (n: usize) {
        A::field_count()
    }
}

/// A pair of statically sized values reads the fields of both (a count that
/// does not fit a `usize` stops at the largest one, which no row exceeds).
impl<A: StaticallySizedRow, B: StaticallySizedRow> StaticallySizedRow for (A, B) {
    open spec fn spec_field_count() -> nat {
        saturating_sum(A::spec_field_count() as int, B::spec_field_count() as int) as nat
    }

    fn field_count() -> (n: usize) {
        add_counts(A::field_count(), B::field_count())
    }
}

/// A triple of statically sized values reads the fields of all three (a
/// count that does not fit a `usize` stops at the largest one).
impl<A: StaticallySizedRow, B: StaticallySizedRow, C: StaticallySizedRow> StaticallySizedRow for (A, B, C) {
    open spec fn spec_field_count() -> nat {
        saturating_sum(
            saturating_sum(A::spec_field_count() as int, B::spec_field_count() as int),
            C::spec_field_count() as int,
        ) as nat
    }

    fn field_count() -> (n: usize) {
        add_counts(add_counts(A::field_count(), B::field_count()), C::field_count())
    }
}

/// A copy of a field.
fn copy_field(f: &Option<SqlValue>) -> (c: Option<SqlValue>)
    ensures
        c.deep_view() == f.deep_view(),
{
    match f {
        None => None,
        Some(SqlValue::BigInt(v)) => Some(SqlValue::BigInt(*v)),
        Some(SqlValue::Text(t)) => Some(SqlValue::Text(t.clone())),
        Some(SqlValue::Bool(b)) => Some(SqlValue::Bool(*b)),
    }
}

/// The fields of a row, kept as they are, whatever their number and types.
pub struct UntypedRow {
    pub fields: Vec<Option<SqlValue>>,
}

impl DeepView for UntypedRow {
    type V = Seq<Option<FieldValue>>;

    open spec fn deep_view(&self) -> Seq<Option<FieldValue>> {
        self.fields.deep_view()
    }
}

/// An untyped row takes every field it is handed.
impl FromSqlRow for UntypedRow {
    open spec fn spec_build(row: Seq<Option<FieldValue>>) -> Result<Seq<Option<FieldValue>>, DeserializeError> {
        Ok(row)
    }

    fn build_from_row(row: &[Option<SqlValue>]) -> (r: Result<UntypedRow, DeserializeError>) {
        let mut fields: Vec<Option<SqlValue>> = Vec::new();
        let mut i: usize = 0;
        while i < row.len()
            invariant
                i <= row@.len(),
                fields.deep_view() =~= row_view(row).take(i as int),
            decreases row@.len() - i,
        {
            let f = copy_field(&row[i]);
            let ghost before = fields.deep_view();
            fields.push(f);
            proof {
                assert(fields.deep_view() =~= before.push(f.deep_view()));
                assert(row_view(row).take(i + 1) =~= row_view(row).take(i as int).push(row@[i as int].deep_view()));
            }
            i = i + 1;
        }
        proof {
            assert(row_view(row).take(row@.len() as int) =~= row_view(row));
        }
        Ok(UntypedRow { fields })
    }
}

/// Each type known to the backend, in the form a row's metadata lists it.
pub open spec fn known_types(ts: Seq<SqlType>) -> Seq<Option<SqlType>> {
    ts.map_values(|t: SqlType| Some(t))
}

/// Values whose fields have SQL types the backend must be told of.
pub trait QueryMetadata {
    /// The SQL types of the fields read, in order.
    spec fn spec_metadata() -> Seq<SqlType>;

    /// Appends the SQL types of the fields read to `row`.
    fn row_metadata(row: &mut Vec<Option<SqlType>>)
        ensures
            final(row)@ == old(row)@ + known_types(Self::spec_metadata()),
    ;
}

/// Appends the one type `t` to `row`.
fn push_type(row: &mut Vec<Option<SqlType>>, t: SqlType)
    ensures
        final(row)@ == old(row)@ + known_types(seq![t]),
{
    row.push(Some(t));
    proof {
        assert(final(row)@ =~= old(row)@ + known_types(seq![t]));
    }
}

impl QueryMetadata for i64 {
    open spec fn spec_metadata() -> Seq<SqlType> {
        seq![SqlType::BigInt]
    }

    fn row_metadata(row: &mut Vec<Option<SqlType>>) {
        push_type(row, SqlType::BigInt);
    }
}

impl QueryMetadata for bool {
    open spec fn spec_metadata() -> Seq<SqlType> {
        seq![SqlType::Bool]
    }

    fn row_metadata(row: &mut Vec<Option<SqlType>>) {
        push_type(row, SqlType::Bool);
    }
}

impl QueryMetadata for String {
    open spec fn spec_metadata() -> Seq<SqlType> {
        seq![SqlType::Text]
    }

    fn row_metadata(row: &mut Vec<Option<SqlType>>) {
        push_type(row, SqlType::Text);
    }
}

/// A nullable value has the types of the value.
impl<T: QueryMetadata> QueryMetadata for Option<T> {
    open spec fn spec_metadata() -> Seq<SqlType> {
        T::spec_metadata()
    }

    fn row_metadata(row: &mut Vec<Option<SqlType>>) {
        T::row_metadata(row);
    }
}

/// Appending the types of two runs one after the other is appending the
/// types of both.
proof fn lemma_known_types_concat(t1: Seq<SqlType>, t2: Seq<SqlType>)
    ensures
        known_types(t1 + t2) == known_types(t1) + known_types(t2),
{
    assert(known_types(t1 + t2) =~= known_types(t1) + known_types(t2));
}

/// A tuple has the types of its elements, in order.
impl<A: QueryMetadata> QueryMetadata for (A,) {
    open spec fn spec_metadata() -> Seq<SqlType> {
        A::spec_metadata()
    }

    fn row_metadata(row: &mut Vec<Option<SqlType>>) {
        A::row_metadata(row);
    }
}

/// A tuple has the types of its elements, in order.
impl<A: QueryMetadata, B: QueryMetadata> QueryMetadata for (A, B) {
    open spec fn spec_metadata() -> Seq<SqlType> {
        A::spec_metadata() + B::spec_metadata()
    }

    fn row_metadata(row: &mut Vec<Option<SqlType>>) {
        A::row_metadata(row);
        B::row_metadata(row);
        proof {
            lemma_known_types_concat(A::spec_metadata(), B::spec_metadata());
            assert(final(row)@ =~= old(row)@ + known_types(Self::spec_metadata()));
        }
    }
}

/// A tuple has the types of its elements, in order.
impl<A: QueryMetadata, B: QueryMetadata, C: QueryMetadata> QueryMetadata for (A, B, C) {
    open spec fn spec_metadata() -> Seq<SqlType> {
        A::spec_metadata() + B::spec_metadata() + C::spec_metadata()
    }

    fn row_metadata(row: &mut Vec<Option<SqlType>>) {
        A::row_metadata(row);
        B::row_metadata(row);
        C::row_metadata(row);
        proof {
            lemma_known_types_concat(A::spec_metadata(), B::spec_metadata());
            lemma_known_types_concat(A::spec_metadata() + B::spec_metadata(), C::spec_metadata());
            assert(final(row)@ =~= old(row)@ + known_types(Self::spec_metadata()));
        }
    }
}

/// A tuple has the types of its elements, in order.
impl<A: QueryMetadata, B: QueryMetadata, C: QueryMetadata, D: QueryMetadata> QueryMetadata for (A, B, C, D) {
    open spec fn spec_metadata() -> Seq<SqlType> {
        A::spec_metadata() + B::spec_metadata() + C::spec_metadata() + D::spec_metadata()
    }

    fn row_metadata(row: &mut Vec<Option<SqlType>>) {
        A::row_metadata(row);
        B::row_metadata(row);
        C::row_metadata(row);
        D::row_metadata(row);
        proof {
            lemma_known_types_concat(A::spec_metadata(), B::spec_metadata());
            lemma_known_types_concat(A::spec_metadata() + B::spec_metadata(), C::spec_metadata());
            lemma_known_types_concat(A::spec_metadata() + B::spec_metadata() + C::spec_metadata(), D::spec_metadata());
            assert(final(row)@ =~= old(row)@ + known_types(Self::spec_metadata()));
        }
    }
}

/// The start of the part of a row after the statically sized elements with
/// the field counts `counts`.
pub open spec fn offset(counts: Seq<nat>) -> int
    decreases counts.len(),
{
    if counts.len() == 0 {
        0
    } else {
        offset(counts.drop_last()) + counts.last()
    }
}

/// The fields that statically sized elements with the field counts `counts`
/// read, one element after the other from the start of the row.
pub open spec fn leading_parts<T>(row: Seq<T>, counts: Seq<nat>) -> Seq<T>
    decreases counts.len(),
{
    if counts.len() == 0 {
        Seq::empty()
    } else {
        leading_parts(row, counts.drop_last()) + partial_row(row, offset(counts.drop_last()), offset(counts))
    }
}

proof fn lemma_leading_parts<T>(row: Seq<T>, counts: Seq<nat>)
    ensures
        leading_parts(row, counts) == partial_row(row, 0, offset(counts)),
        offset(counts) >= 0,
    decreases counts.len(),
{
    if counts.len() > 0 {
        lemma_leading_parts(row, counts.drop_last());
        assert(partial_row(row, 0, offset(counts.drop_last())) + partial_row(row, offset(counts.drop_last()), offset(counts))
            =~= partial_row(row, 0, offset(counts)));
    } else {
        assert(partial_row(row, 0, 0) =~= Seq::<T>::empty());
    }
}

/// Whatever the number of elements and their field counts, the parts that
/// the statically sized elements of a tuple read, one after the other from
/// the start, followed by the rest that its last element reads, are the
/// row's fields, each once and in order.
pub proof fn lemma_row_partition<T>(row: Seq<T>, counts: Seq<nat>)
    ensures
        leading_parts(row, counts) + partial_row(row, offset(counts), row.len() as int) == row,
{
    lemma_leading_parts(row, counts);
    assert(partial_row(row, 0, offset(counts)) + partial_row(row, offset(counts), row.len() as int) =~= row);
}

/// The parts a pair reads cover the row: the fields of the first part
/// followed by those of the second are the row's fields, whatever the first
/// element's field count.
pub proof fn lemma_pair_partition<T>(row: Seq<T>, fa: int)
    requires
        0 <= fa,
    ensures
        partial_row(row, 0, fa) + partial_row(row, fa, row.len() as int) == row,
{
    assert(partial_row(row, 0, fa) + partial_row(row, fa, row.len() as int) =~= row);
}

/// The parts a triple reads cover the row, one after the other.
pub proof fn lemma_triple_partition<T>(row: Seq<T>, fa: int, fb: int)
    requires
        0 <= fa,
        0 <= fb,
    ensures
        partial_row(row, 0, fa) + partial_row(row, fa, fa + fb) + partial_row(row, fa + fb, row.len() as int) == row,
{
    assert(partial_row(row, 0, fa) + partial_row(row, fa, fa + fb) + partial_row(row, fa + fb, row.len() as int) =~= row);
}

/// A pair reads its first element from the first fields of the row, as
/// many as that element reads, and its second from all the fields after
/// them: built from two runs of fields of which the first has the first
/// element's field count, it is built from each run by its element, the
/// first error stopping the build.
pub proof fn lemma_pair_reads_parts<A: StaticallySizedRow, B: FromSqlRow>(p0: Seq<Option<FieldValue>>, p1: Seq<Option<FieldValue>>)
    requires
        p0.len() == A::spec_field_count(),
    ensures
        <(A, B)>::spec_build(p0 + p1) == match A::spec_build(p0) {
            Err(e) => Err(e),
            Ok(a) => match B::spec_build(p1) {
                Err(e) => Err(e),
                Ok(b) => Ok((a, b)),
            },
        },
{
    let row = p0 + p1;
    assert(partial_row(row, 0, p0.len() as int) =~= p0);
    assert(partial_row(row, p0.len() as int, row.len() as int) =~= p1);
}

/// A triple reads its first two elements from the first fields of the row,
/// one after the other, as many as each reads, and its third from all the
/// fields after them.
pub proof fn lemma_triple_reads_parts<A: StaticallySizedRow, B: StaticallySizedRow, C: FromSqlRow>(
    p0: Seq<Option<FieldValue>>,
    p1: Seq<Option<FieldValue>>,
    p2: Seq<Option<FieldValue>>,
)
    requires
        p0.len() == A::spec_field_count(),
        p1.len() == B::spec_field_count(),
    ensures
        <(A, B, C)>::spec_build(p0 + p1 + p2) == match A::spec_build(p0) {
            Err(e) => Err(e),
            Ok(a) => match B::spec_build(p1) {
                Err(e) => Err(e),
                Ok(b) => match C::spec_build(p2) {
                    Err(e) => Err(e),
                    Ok(c) => Ok((a, b, c)),
                },
            },
        },
{
    let row = p0 + p1 + p2;
    let (l0, l1) = (p0.len() as int, p1.len() as int);
    assert(partial_row(row, 0, l0) =~= p0);
    assert(partial_row(row, l0, l0 + l1) =~= p1);
    assert(partial_row(row, l0 + l1, row.len() as int) =~= p2);
}

/// Four values: the first three read from the first fields of the row, one
/// after the other, as many as each reads, and the fourth from all the
/// fields after them.
pub proof fn lemma_quad_reads_parts<A: StaticallySizedRow, B: StaticallySizedRow, C: StaticallySizedRow, D: FromSqlRow>(
    p0: Seq<Option<FieldValue>>,
    p1: Seq<Option<FieldValue>>,
    p2: Seq<Option<FieldValue>>,
    p3: Seq<Option<FieldValue>>,
)
    requires
        p0.len() == A::spec_field_count(),
        p1.len() == B::spec_field_count(),
        p2.len() == C::spec_field_count(),
    ensures
        <(A, B, C, D)>::spec_build(p0 + p1 + p2 + p3) == match A::spec_build(p0) {
            Err(e) => Err(e),
            Ok(a) => match B::spec_build(p1) {
                Err(e) => Err(e),
                Ok(b) => match C::spec_build(p2) {
                    Err(e) => Err(e),
                    Ok(c) => match D::spec_build(p3) {
                        Err(e) => Err(e),
                        Ok(d) => Ok((a, b, c, d)),
                    },
                },
            },
        },
{
    let row = p0 + p1 + p2 + p3;
    let (l0, l1, l2) = (p0.len() as int, p1.len() as int, p2.len() as int);
    assert(partial_row(row, 0, l0) =~= p0);
    assert(partial_row(row, l0, l0 + l1) =~= p1);
    assert(partial_row(row, l0 + l1, l0 + l1 + l2) =~= p2);
    assert(partial_row(row, l0 + l1 + l2, row.len() as int) =~= p3);
}

/// A statically sized pair reads as many fields as its two elements: a row
/// read with the pair nested before the last element gives what the flat
/// triple gives.
pub proof fn lemma_nested_pair_reads_like_flat<A: StaticallySizedRow, B: StaticallySizedRow, C: FromSqlRow>(
    row: Seq<Option<FieldValue>>,
)
    requires
        row.len() <= usize::MAX,
    ensures
        <((A, B), C)>::spec_build(row) == match <(A, B, C)>::spec_build(row) {
            Ok((a, b, c)) => Ok(((a, b), c)),
            Err(e) => Err(e),
        },
{
    let fa = A::spec_field_count() as int;
    let fb = B::spec_field_count() as int;
    let x = <(A, B)>::spec_field_count() as int;
    let r1 = partial_row(row, 0, x);
    assert(partial_row(r1, 0, fa) =~= partial_row(row, 0, fa));
    assert(partial_row(r1, fa, r1.len() as int) =~= partial_row(row, fa, fa + fb));
    assert(partial_row(row, x, row.len() as int) =~= partial_row(row, fa + fb, row.len() as int));
}

/// A statically sized triple reads as many fields as its three elements: a
/// row read with the triple nested before the last element gives what the
/// flat four values give.
pub proof fn lemma_nested_triple_reads_like_flat<A: StaticallySizedRow, B: StaticallySizedRow, C: StaticallySizedRow, D: FromSqlRow>(
    row: Seq<Option<FieldValue>>,
)
    requires
        row.len() <= usize::MAX,
    ensures
        <((A, B, C), D)>::spec_build(row) == match <(A, B, C, D)>::spec_build(row) {
            Ok((a, b, c, d)) => Ok(((a, b, c), d)),
            Err(e) => Err(e),
        },
{
    let fa = A::spec_field_count() as int;
    let fb = B::spec_field_count() as int;
    let fc = C::spec_field_count() as int;
    let x = <(A, B, C)>::spec_field_count() as int;
    let r1 = partial_row(row, 0, x);
    assert(partial_row(r1, 0, fa) =~= partial_row(row, 0, fa));
    assert(partial_row(r1, fa, fa + fb) =~= partial_row(row, fa, fa + fb));
    assert(partial_row(r1, fa + fb, r1.len() as int) =~= partial_row(row, fa + fb, fa + fb + fc));
    assert(partial_row(row, x, row.len() as int) =~= partial_row(row, fa + fb + fc, row.len() as int));
}

/// A pair whose elements each name one type per field they read names one
/// type per field it reads.
pub proof fn lemma_pair_one_type_per_field<A: StaticallySizedRow + QueryMetadata, B: StaticallySizedRow + QueryMetadata>()
    requires
        A::spec_metadata().len() == A::spec_field_count(),
        B::spec_metadata().len() == B::spec_field_count(),
        A::spec_field_count() + B::spec_field_count() <= usize::MAX,
    ensures
        <(A, B)>::spec_metadata().len() == <(A, B)>::spec_field_count(),
{
}

/// A triple whose elements each name one type per field they read names one
/// type per field it reads.
pub proof fn lemma_triple_one_type_per_field<
    A: StaticallySizedRow + QueryMetadata,
    B: StaticallySizedRow + QueryMetadata,
    C: StaticallySizedRow + QueryMetadata,
>()
    requires
        A::spec_metadata().len() == A::spec_field_count(),
        B::spec_metadata().len() == B::spec_field_count(),
        C::spec_metadata().len() == C::spec_field_count(),
        A::spec_field_count() + B::spec_field_count() + C::spec_field_count() <= usize::MAX,
    ensures
        <(A, B, C)>::spec_metadata().len() == <(A, B, C)>::spec_field_count(),
{
}

} // verus!
