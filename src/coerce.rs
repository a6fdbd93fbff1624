use vstd::prelude::*;
use crate::error::ArgError;
use crate::parse::{bool_of, int_of, parse_bool, parse_int};
use crate::value::{ArgValue, RawValue, texts};

verus! {

/// The type of a single value: a boolean, a 32-bit integer, or text.
#[derive(PartialEq, Eq, Structural, Debug, Clone, Copy)]
pub enum ScalarKind {
    Boolean,
    Integer,
    Text,
}

/// The requested shape of a field.
#[derive(PartialEq, Eq, Structural, Debug, Clone, Copy)]
pub enum Shape {
    /// Exactly one value (a boolean defaults to `false`).
    Single(ScalarKind),
    /// Any number of values.
    ListOf(ScalarKind),
    /// At most one value.
    OptionalOf(ScalarKind),
    /// A list of values that may be missing as a whole.
    OptionalListOf(ScalarKind),
}

/// One typed value.
#[derive(Debug, Clone, PartialEq, Eq)]
pub enum Scalar {
    Boolean(bool),
    Integer(i32),
    Text(String),
}

/// One typed value, in mathematical form.
pub enum ScalarV {
    Boolean(bool),
    Integer(i32),
    Text(Seq<char>),
}

impl View for Scalar {
    type V = ScalarV;

    open spec fn view(&self) -> ScalarV {
        match self {
            Scalar::Boolean(b) => ScalarV::Boolean(*b),
            Scalar::Integer(i) => ScalarV::Integer(*i),
            Scalar::Text(s) => ScalarV::Text(s@),
        }
    }
}

/// The typed value of a field.
#[derive(Debug, Clone, PartialEq, Eq)]
pub enum Value {
    Single(Scalar),
    List(Vec<Scalar>),
    Optional(Option<Scalar>),
    OptionalList(Option<Vec<Scalar>>),
}

/// The typed value of a field, in mathematical form.
pub enum ValueV {
    Single(ScalarV),
    List(Seq<ScalarV>),
    Optional(Option<ScalarV>),
    OptionalList(Option<Seq<ScalarV>>),
}

/// The views of a sequence of scalars.
pub open spec fn scalars_view(v: Seq<Scalar>) -> Seq<ScalarV> {
    v.map_values(|x: Scalar| x@)
}

impl View for Value {
    type V = ValueV;

    open spec fn view(&self) -> ValueV {
        match self {
            Value::Single(x) => ValueV::Single(x@),
            Value::List(xs) => ValueV::List(scalars_view(xs@)),
            Value::Optional(o) => ValueV::Optional(
                match o {
                    Some(x) => Some(x@),
                    None => None,
                },
            ),
            Value::OptionalList(o) => ValueV::OptionalList(
                match o {
                    Some(xs) => Some(scalars_view(xs@)),
                    None => None,
                },
            ),
        }
    }
}

/// Whether a value has the variant that `shape` asks for.
pub open spec fn fits(v: ValueV, shape: Shape) -> bool {
    match shape {
        Shape::Single(_) => v is Single,
        Shape::ListOf(_) => v is List,
        Shape::OptionalOf(_) => v is Optional,
        Shape::OptionalListOf(_) => v is OptionalList,
    }
}

/// One value token read as `kind`.
pub open spec fn elem_of(kind: ScalarKind, s: Seq<char>) -> Result<ScalarV, ArgError> {
    match kind {
        ScalarKind::Boolean => match bool_of(s) {
            Some(b) => Ok(ScalarV::Boolean(b)),
            None => Err(ArgError::TypeMismatch),
        },
        ScalarKind::Integer => match int_of(s) {
            Some(i) => Ok(ScalarV::Integer(i)),
            None => Err(ArgError::TypeMismatch),
        },
        ScalarKind::Text => Ok(ScalarV::Text(s)),
    }
}

/// The gathered values of one flag read as a single `kind`: a bare flag is
/// `true` for a boolean and missing otherwise; two or more are too many.
pub open spec fn scalar_of(kind: ScalarKind, r: RawValue) -> Result<ScalarV, ArgError> {
    match r {
        RawValue::Absent => if kind == ScalarKind::Boolean {
            Ok(ScalarV::Boolean(true))
        } else {
            Err(ArgError::MissingRequiredValue)
        },
        RawValue::Single(s) => elem_of(kind, s),
        RawValue::Multiple(_) => Err(ArgError::TooManyValues),
    }
}

/// Value tokens read one by one as `kind`; the first that fails aborts.
pub open spec fn elems_of(kind: ScalarKind, vs: Seq<Seq<char>>) -> Result<Seq<ScalarV>, ArgError>
    decreases vs.len(),
{
    if vs.len() == 0 {
        Ok(seq![])
    } else {
        match elems_of(kind, vs.drop_last()) {
            Err(e) => Err(e),
            Ok(xs) => match elem_of(kind, vs.last()) {
                Err(e) => Err(e),
                Ok(x) => Ok(xs.push(x)),
            },
        }
    }
}

/// The gathered values of one flag read as a list of `kind`.
pub open spec fn list_of(kind: ScalarKind, r: RawValue) -> Result<Seq<ScalarV>, ArgError> {
    match r {
        RawValue::Absent => Ok(seq![]),
        RawValue::Single(s) => elems_of(kind, seq![s]),
        RawValue::Multiple(vs) => elems_of(kind, vs),
    }
}

/// What one alias contributes to a field: `Ok(None)` where it contributes
/// nothing (it did not occur and the shape is not a list).
pub open spec fn coerce_spec(shape: Shape, entry: Option<RawValue>) -> Result<
    Option<ValueV>,
    ArgError,
> {
    match entry {
        None => match shape {
            Shape::ListOf(_) => Ok(Some(ValueV::List(seq![]))),
            _ => Ok(None),
        },
        Some(r) => match shape {
            Shape::Single(k) => match scalar_of(k, r) {
                Ok(x) => Ok(Some(ValueV::Single(x))),
                Err(e) => Err(e),
            },
            Shape::ListOf(k) => match list_of(k, r) {
                Ok(xs) => Ok(Some(ValueV::List(xs))),
                Err(e) => Err(e),
            },
            Shape::OptionalOf(k) => match scalar_of(k, r) {
                Ok(x) => Ok(Some(ValueV::Optional(Some(x)))),
                Err(e) => Err(e),
            },
            Shape::OptionalListOf(k) => match list_of(k, r) {
                Ok(xs) => Ok(Some(ValueV::OptionalList(Some(xs)))),
                Err(e) => Err(e),
            },
        },
    }
}

/// Reconciles the single values of the two aliases: booleans combine by `or`
/// and a missing boolean is `false`; for other kinds one value is required and
/// two conflict.
pub open spec fn reduce_scalar_spec(kind: ScalarKind, l: Option<ScalarV>, r: Option<ScalarV>) -> Result<
    ScalarV,
    ArgError,
> {
    match (l, r) {
        (None, None) => if kind == ScalarKind::Boolean {
            Ok(ScalarV::Boolean(false))
        } else {
            Err(ArgError::MissingRequiredField)
        },
        (Some(a), None) => Ok(a),
        (None, Some(b)) => Ok(b),
        (Some(a), Some(b)) => match (a, b) {
            (ScalarV::Boolean(x), ScalarV::Boolean(y)) => if kind == ScalarKind::Boolean {
                Ok(ScalarV::Boolean(x || y))
            } else {
                Err(ArgError::ConflictingAliases)
            },
            _ => Err(ArgError::ConflictingAliases),
        },
    }
}

/// Reconciles the lists of the two aliases: short elements, then long ones.
pub open spec fn reduce_list_spec(l: Option<Seq<ScalarV>>, r: Option<Seq<ScalarV>>) -> Seq<ScalarV> {
    match (l, r) {
        (None, None) => seq![],
        (Some(a), None) => a,
        (None, Some(b)) => b,
        (Some(a), Some(b)) => a + b,
    }
}

/// Reconciles what the short and the long alias contributed to one field.
pub open spec fn reduce_spec(shape: Shape, l: Option<ValueV>, r: Option<ValueV>) -> Result<
    ValueV,
    ArgError,
> {
    match shape {
        Shape::Single(k) => {
            let a = match l {
                Some(ValueV::Single(x)) => Some(x),
                _ => None,
            };
            let b = match r {
                Some(ValueV::Single(x)) => Some(x),
                _ => None,
            };
            match reduce_scalar_spec(k, a, b) {
                Ok(x) => Ok(ValueV::Single(x)),
                Err(e) => Err(e),
            }
        },
        Shape::ListOf(_) => {
            let a = match l {
                Some(ValueV::List(x)) => Some(x),
                _ => None,
            };
            let b = match r {
                Some(ValueV::List(x)) => Some(x),
                _ => None,
            };
            Ok(ValueV::List(reduce_list_spec(a, b)))
        },
        Shape::OptionalOf(k) => match (l, r) {
            (Some(ValueV::Optional(a)), Some(ValueV::Optional(b))) => match reduce_scalar_spec(
                k,
                a,
                b,
            ) {
                Ok(x) => Ok(ValueV::Optional(Some(x))),
                Err(e) => Err(e),
            },
            (Some(a), None) => Ok(a),
            (None, Some(b)) => Ok(b),
            _ => Ok(ValueV::Optional(None)),
        },
        Shape::OptionalListOf(_) => match (l, r) {
            (Some(ValueV::OptionalList(a)), Some(ValueV::OptionalList(b))) => Ok(
                ValueV::OptionalList(Some(reduce_list_spec(a, b))),
            ),
            (Some(a), None) => Ok(a),
            (None, Some(b)) => Ok(b),
            _ => Ok(ValueV::OptionalList(None)),
        },
    }
}

/// Reads one value token as `kind`.
pub fn parse_elem(kind: ScalarKind, s: &String) -> (r: Result<Scalar, ArgError>)
    ensures
        r matches Ok(x) ==> elem_of(kind, s@) == Ok::<ScalarV, ArgError>(x@),
        r matches Err(e) ==> elem_of(kind, s@) == Err::<ScalarV, ArgError>(e),
{
    match kind {
        ScalarKind::Boolean => match parse_bool(s) {
            Some(b) => Ok(Scalar::Boolean(b)),
            None => Err(ArgError::TypeMismatch),
        },
        ScalarKind::Integer => match parse_int(s) {
            Some(i) => Ok(Scalar::Integer(i)),
            None => Err(ArgError::TypeMismatch),
        },
        ScalarKind::Text => Ok(Scalar::Text(s.clone())),
    }
}

/// Reads the gathered values of one flag as a single `kind`.
pub fn parse_scalar(kind: ScalarKind, raw: &ArgValue) -> (r: Result<Scalar, ArgError>)
    ensures
        r matches Ok(x) ==> scalar_of(kind, raw@) == Ok::<ScalarV, ArgError>(x@),
        r matches Err(e) ==> scalar_of(kind, raw@) == Err::<ScalarV, ArgError>(e),
{
    match raw {
        ArgValue::Empty => match kind {
            ScalarKind::Boolean => Ok(Scalar::Boolean(true)),
            _ => Err(ArgError::MissingRequiredValue),
        },
        ArgValue::One(s) => parse_elem(kind, s),
        ArgValue::Many(_) => Err(ArgError::TooManyValues),
    }
}

/// Reads the gathered values of one flag as a list of `kind`.
pub fn parse_list(kind: ScalarKind, raw: &ArgValue) -> (r: Result<Vec<Scalar>, ArgError>)
    ensures
        r matches Ok(xs) ==> list_of(kind, raw@) == Ok::<Seq<ScalarV>, ArgError>(
            scalars_view(xs@),
        ),
        r matches Err(e) ==> list_of(kind, raw@) == Err::<Seq<ScalarV>, ArgError>(e),
{
    match raw {
        ArgValue::Empty => {
            let out: Vec<Scalar> = Vec::new();
            assert(scalars_view(out@) =~= seq![]);
            Ok(out)
        },
        ArgValue::One(s) => {
            let ghost one: Seq<Seq<char>> = seq![s@];
            assert(one.drop_last() =~= seq![]);
            assert(elems_of(kind, one.drop_last()) == Ok::<Seq<ScalarV>, ArgError>(seq![]));
            assert(one.last() == s@);
            let x = match parse_elem(kind, s) {
                Ok(x) => x,
                Err(e) => {
                    return Err(e);
                },
            };
            let out = vec![x];
            assert(scalars_view(out@) =~= seq![].push(x@));
            Ok(out)
        },
        ArgValue::Many(vs) => {
            let ghost ts = texts(vs@);
            let mut out: Vec<Scalar> = Vec::new();
            let mut i: usize = 0;
            assert(ts.take(0) =~= seq![]);
            assert(scalars_view(out@) =~= seq![]);
            while i < vs.len()
                invariant
                    i <= vs.len(),
                    ts == texts(vs@),
                    raw@ == RawValue::Multiple(ts),
                    elems_of(kind, ts.take(i as int)) == Ok::<Seq<ScalarV>, ArgError>(
                        scalars_view(out@),
                    ),
                decreases vs.len() - i,
            {
                let ghost pre = ts.take(i as int);
                assert(ts.take(i + 1).drop_last() == pre);
                assert(ts.take(i + 1).last() == vs[i as int]@);
                let x = match parse_elem(kind, &vs[i]) {
                    Ok(x) => x,
                    Err(e) => {
                        assert(elems_of(kind, ts.take(i + 1)) == Err::<Seq<ScalarV>, ArgError>(e));
                        proof {
                            lemma_elems_prefix_err(kind, ts, i + 1);
                        }
                        return Err(e);
                    },
                };
                let ghost before = out@;
                out.push(x);
                assert(scalars_view(out@) =~= scalars_view(before).push(x@));
                i = i + 1;
            }
            assert(ts.take(vs.len() as int) == ts);
            Ok(out)
        },
    }
}

/// Once a prefix of the tokens fails to read, the whole fails with its error.
proof fn lemma_elems_prefix_err(kind: ScalarKind, vs: Seq<Seq<char>>, i: int)
    requires
        0 <= i <= vs.len(),
        elems_of(kind, vs.take(i)) is Err,
    ensures
        elems_of(kind, vs) == elems_of(kind, vs.take(i)),
    decreases vs.len() - i,
{
    if i < vs.len() {
        assert(vs.take(i + 1).drop_last() == vs.take(i));
        lemma_elems_prefix_err(kind, vs, i + 1);
    } else {
        assert(vs.take(i) == vs);
    }
}

/// The view of an optional value.
pub open spec fn opt_view(o: Option<Value>) -> Option<ValueV> {
    match o {
        Some(v) => Some(v@),
        None => None,
    }
}

/// The view of an optional scalar.
pub open spec fn opt_scalar_view(o: Option<Scalar>) -> Option<ScalarV> {
    match o {
        Some(x) => Some(x@),
        None => None,
    }
}

/// The view of an optional list.
pub open spec fn opt_list_view(o: Option<Vec<Scalar>>) -> Option<Seq<ScalarV>> {
    match o {
        Some(xs) => Some(scalars_view(xs@)),
        None => None,
    }
}

/// What one alias contributes to a field of shape `shape`, given the table
/// entry of that alias (`None` where the alias did not occur).
pub fn parse_option(shape: Shape, entry: Option<&ArgValue>) -> (r: Result<Option<Value>, ArgError>)
    ensures
        r matches Ok(o) ==> coerce_spec(
            shape,
            match entry {
                Some(a) => Some(a@),
                None => None,
            },
        ) == Ok::<Option<ValueV>, ArgError>(opt_view(o)),
        r matches Err(e) ==> coerce_spec(
            shape,
            match entry {
                Some(a) => Some(a@),
                None => None,
            },
        ) == Err::<Option<ValueV>, ArgError>(e),
        r matches Ok(Some(v)) ==> fits(v@, shape),
{
    match entry {
        None => match shape {
            Shape::ListOf(_) => {
                let out: Vec<Scalar> = Vec::new();
                assert(scalars_view(out@) =~= seq![]);
                Ok(Some(Value::List(out)))
            },
            _ => Ok(None),
        },
        Some(raw) => match shape {
            Shape::Single(k) => Ok(Some(Value::Single(parse_scalar(k, raw)?))),
            Shape::ListOf(k) => Ok(Some(Value::List(parse_list(k, raw)?))),
            Shape::OptionalOf(k) => Ok(Some(Value::Optional(Some(parse_scalar(k, raw)?)))),
            Shape::OptionalListOf(k) => Ok(Some(Value::OptionalList(Some(parse_list(k, raw)?)))),
        },
    }
}

/// Reconciles the single values of the two aliases of a field of `kind`.
pub fn reduce_scalar(kind: ScalarKind, left: Option<Scalar>, right: Option<Scalar>) -> (r: Result<
    Scalar,
    ArgError,
>)
    ensures
        r matches Ok(x) ==> reduce_scalar_spec(
            kind,
            opt_scalar_view(left),
            opt_scalar_view(right),
        ) == Ok::<ScalarV, ArgError>(x@),
        r matches Err(e) ==> reduce_scalar_spec(
            kind,
            opt_scalar_view(left),
            opt_scalar_view(right),
        ) == Err::<ScalarV, ArgError>(e),
{
    match (left, right) {
        (None, None) => match kind {
            ScalarKind::Boolean => Ok(Scalar::Boolean(false)),
            _ => Err(ArgError::MissingRequiredField),
        },
        (Some(a), None) => Ok(a),
        (None, Some(b)) => Ok(b),
        (Some(a), Some(b)) => match (a, b) {
            (Scalar::Boolean(x), Scalar::Boolean(y)) => match kind {
                ScalarKind::Boolean => Ok(Scalar::Boolean(x || y)),
                _ => Err(ArgError::ConflictingAliases),
            },
            _ => Err(ArgError::ConflictingAliases),
        },
    }
}

/// Reconciles the lists of the two aliases: short elements, then long ones.
pub fn reduce_list(left: Option<Vec<Scalar>>, right: Option<Vec<Scalar>>) -> (r: Vec<Scalar>)
    ensures
        scalars_view(r@) == reduce_list_spec(opt_list_view(left), opt_list_view(right)),
{
    match (left, right) {
        (None, None) => {
            let out: Vec<Scalar> = Vec::new();
            assert(scalars_view(out@) =~= seq![]);
            out
        },
        (Some(a), None) => a,
        (None, Some(b)) => b,
        (Some(mut a), Some(mut b)) => {
            let ghost (a0, b0) = (a@, b@);
            a.append(&mut b);
            assert(scalars_view(a@) =~= scalars_view(a0) + scalars_view(b0));
            a
        },
    }
}

/// Reconciles what the short and the long alias contributed to one field.
pub fn reduce(shape: Shape, left: Option<Value>, right: Option<Value>) -> (r: Result<Value, ArgError>)
    requires
        left matches Some(v) ==> fits(v@, shape),
        right matches Some(v) ==> fits(v@, shape),
    ensures
        r matches Ok(v) ==> reduce_spec(shape, opt_view(left), opt_view(right)) == Ok::<
            ValueV,
            ArgError,
        >(v@),
        r matches Err(e) ==> reduce_spec(shape, opt_view(left), opt_view(right)) == Err::<
            ValueV,
            ArgError,
        >(e),
{
    match shape {
        Shape::Single(k) => {
            let a = match left {
                Some(Value::Single(x)) => Some(x),
                _ => None,
            };
            let b = match right {
                Some(Value::Single(x)) => Some(x),
                _ => None,
            };
            Ok(Value::Single(reduce_scalar(k, a, b)?))
        },
        Shape::ListOf(_) => {
            let a = match left {
                Some(Value::List(x)) => Some(x),
                _ => None,
            };
            let b = match right {
                Some(Value::List(x)) => Some(x),
                _ => None,
            };
            Ok(Value::List(reduce_list(a, b)))
        },
        Shape::OptionalOf(k) => match (left, right) {
            (Some(Value::Optional(a)), Some(Value::Optional(b))) => Ok(
                Value::Optional(Some(reduce_scalar(k, a, b)?)),
            ),
            (Some(a), None) => Ok(a),
            (None, Some(b)) => Ok(b),
            _ => Ok(Value::Optional(None)),
        },
        Shape::OptionalListOf(_) => match (left, right) {
            (Some(Value::OptionalList(a)), Some(Value::OptionalList(b))) => Ok(
                Value::OptionalList(Some(reduce_list(a, b))),
            ),
            (Some(a), None) => Ok(a),
            (None, Some(b)) => Ok(b),
            _ => Ok(Value::OptionalList(None)),
        },
    }
}

/// Conversion of the values gathered behind one flag into a typed value.
pub trait ToType {
    /// The gathered values, in mathematical form.
    spec fn raw(&self) -> RawValue;

    /// Reads the gathered values as a field of `shape`.
    fn parse(&self, shape: Shape) -> (r: Result<Value, ArgError>)
        ensures
            r matches Ok(v) ==> coerce_spec(shape, Some(self.raw())) == Ok::<
                Option<ValueV>,
                ArgError,
            >(Some(v@)),
            r matches Err(e) ==> coerce_spec(shape, Some(self.raw())) == Err::<
                Option<ValueV>,
                ArgError,
            >(e),
    ;
}

impl ToType for ArgValue {
    open spec fn raw(&self) -> RawValue {
        self@
    }

    fn parse(&self, shape: Shape) -> (r: Result<Value, ArgError>) {
        match parse_option(shape, Some(self))? {
            Some(v) => Ok(v),
            None => Err(ArgError::MissingRequiredValue),
        }
    }
}

/// For a boolean field, the two aliases combine by `or`: a value given by
/// only one alias is the result, and a field given by neither is `false`.
pub proof fn lemma_boolean_merge(a: bool, b: bool)
    ensures
        reduce_spec(
            Shape::Single(ScalarKind::Boolean),
            Some(ValueV::Single(ScalarV::Boolean(a))),
            Some(ValueV::Single(ScalarV::Boolean(b))),
        ) == Ok::<ValueV, ArgError>(ValueV::Single(ScalarV::Boolean(a || b))),
        reduce_spec(
            Shape::Single(ScalarKind::Boolean),
            Some(ValueV::Single(ScalarV::Boolean(a))),
            None,
        ) == Ok::<ValueV, ArgError>(ValueV::Single(ScalarV::Boolean(a))),
        reduce_spec(
            Shape::Single(ScalarKind::Boolean),
            None,
            Some(ValueV::Single(ScalarV::Boolean(b))),
        ) == Ok::<ValueV, ArgError>(ValueV::Single(ScalarV::Boolean(b))),
        reduce_spec(Shape::Single(ScalarKind::Boolean), None, None) == Ok::<ValueV, ArgError>(
            ValueV::Single(ScalarV::Boolean(false)),
        ),
{
}

/// For a list field, the two aliases' lists are concatenated, the short
/// alias's elements first.
pub proof fn lemma_list_merge(kind: ScalarKind, a: Seq<ScalarV>, b: Seq<ScalarV>)
    ensures
        reduce_spec(Shape::ListOf(kind), Some(ValueV::List(a)), Some(ValueV::List(b))) == Ok::<
            ValueV,
            ArgError,
        >(ValueV::List(a + b)),
        reduce_spec(
            Shape::OptionalListOf(kind),
            Some(ValueV::OptionalList(Some(a))),
            Some(ValueV::OptionalList(Some(b))),
        ) == Ok::<ValueV, ArgError>(ValueV::OptionalList(Some(a + b))),
{
}

/// For an integer or text field, plain or optional, a value from both
/// aliases is a conflict, whether or not the two values are equal.
pub proof fn lemma_scalar_conflict(kind: ScalarKind, x: ScalarV, y: ScalarV)
    requires
        kind != ScalarKind::Boolean,
    ensures
        reduce_spec(Shape::Single(kind), Some(ValueV::Single(x)), Some(ValueV::Single(y)))
            == Err::<ValueV, ArgError>(ArgError::ConflictingAliases),
        reduce_spec(
            Shape::OptionalOf(kind),
            Some(ValueV::Optional(Some(x))),
            Some(ValueV::Optional(Some(y))),
        ) == Err::<ValueV, ArgError>(ArgError::ConflictingAliases),
{
}

} // verus!
