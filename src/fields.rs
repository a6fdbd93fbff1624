use vstd::prelude::*;
use crate::coerce::{coerce_spec, fits, parse_option, reduce, reduce_spec, Shape, Value, ValueV};
use crate::error::ArgError;
use crate::table::{collect_args, groups, malformed, table_of, token_texts, ArgTable};
use crate::value::RawValue;

verus! {

/// One declared field: its shape and its two aliases, written bare (`q` for
/// `-q`, `val` for `--val`).
#[derive(Debug, Clone)]
pub struct FieldSpec {
    pub shape: Shape,
    pub short: String,
    pub long: String,
}

/// The table key of a short alias: one dash, then the alias.
pub open spec fn short_key(a: Seq<char>) -> Seq<char> {
    seq!['-'] + a
}

/// The table key of a long alias: two dashes, then the alias.
pub open spec fn long_key(a: Seq<char>) -> Seq<char> {
    seq!['-', '-'] + a
}

/// The entry of key `k`, if the table has one.
pub open spec fn entry_of(t: Map<Seq<char>, RawValue>, k: Seq<char>) -> Option<RawValue> {
    if t.contains_key(k) {
        Some(t[k])
    } else {
        None
    }
}

/// The value of one field: the short alias is read, then the long one, and
/// the two contributions are reconciled; the first error stops.
pub open spec fn resolve_spec(
    t: Map<Seq<char>, RawValue>,
    shape: Shape,
    short: Seq<char>,
    long: Seq<char>,
) -> Result<ValueV, ArgError> {
    match coerce_spec(shape, entry_of(t, short_key(short))) {
        Err(e) => Err(e),
        Ok(a) => match coerce_spec(shape, entry_of(t, long_key(long))) {
            Err(e) => Err(e),
            Ok(b) => reduce_spec(shape, a, b),
        },
    }
}

/// The values of all fields, in declaration order; the first error stops.
pub open spec fn resolve_all(t: Map<Seq<char>, RawValue>, fs: Seq<FieldSpec>) -> Result<
    Seq<ValueV>,
    ArgError,
>
    decreases fs.len(),
{
    if fs.len() == 0 {
        Ok(seq![])
    } else {
        match resolve_all(t, fs.drop_last()) {
            Err(e) => Err(e),
            Ok(vs) => match resolve_spec(t, fs.last().shape, fs.last().short@, fs.last().long@) {
                Err(e) => Err(e),
                Ok(v) => Ok(vs.push(v)),
            },
        }
    }
}

/// The views of a sequence of values.
pub open spec fn values_view(v: Seq<Value>) -> Seq<ValueV> {
    v.map_values(|x: Value| x@)
}

/// The table key of an alias: `dashes` dashes, then the alias.
fn alias_key(dashes: usize, alias: &String) -> (r: String)
    requires
        dashes == 1 || dashes == 2,
    ensures
        dashes == 1 ==> r@ == short_key(alias@),
        dashes == 2 ==> r@ == long_key(alias@),
{
    let mut k = String::new();
    proof {
        reveal_strlit("-");
    }
    k.append("-");
    if dashes == 2 {
        k.append("-");
    }
    k.append(alias.as_str());
    assert(dashes == 1 ==> k@ =~= short_key(alias@));
    assert(dashes == 2 ==> k@ =~= long_key(alias@));
    k
}

/// Resolves one declared field against a table.
pub fn parse_field(table: &ArgTable, field: &FieldSpec) -> (r: Result<Value, ArgError>)
    ensures
        r matches Ok(v) ==> resolve_spec(table@, field.shape, field.short@, field.long@) == Ok::<
            ValueV,
            ArgError,
        >(v@),
        r matches Err(e) ==> resolve_spec(table@, field.shape, field.short@, field.long@) == Err::<
            ValueV,
            ArgError,
        >(e),
{
    let sk = alias_key(1, &field.short);
    let lk = alias_key(2, &field.long);
    let a = parse_option(field.shape, table.get(&sk))?;
    let b = parse_option(field.shape, table.get(&lk))?;
    reduce(field.shape, a, b)
}

/// Tokenizes `tokens` (program name already removed) and resolves every
/// declared field, in declaration order.
pub fn parse_args(tokens: &Vec<String>, fields: &Vec<FieldSpec>) -> (r: Result<Vec<Value>, ArgError>)
    ensures
        malformed(token_texts(tokens@)) ==> r == Err::<Vec<Value>, ArgError>(
            ArgError::MalformedArgumentStream,
        ),
        !malformed(token_texts(tokens@)) ==> {
            let t = table_of(groups(token_texts(tokens@)));
            &&& r matches Ok(vs) ==> resolve_all(t, fields@) == Ok::<Seq<ValueV>, ArgError>(
                values_view(vs@),
            )
            &&& r matches Err(e) ==> resolve_all(t, fields@) == Err::<Seq<ValueV>, ArgError>(e)
        },
{
    let table = collect_args(tokens)?;
    let ghost t = table@;
    let mut out: Vec<Value> = Vec::new();
    let mut i: usize = 0;
    assert(fields@.take(0) =~= seq![]);
    assert(values_view(out@) =~= seq![]);
    while i < fields.len()
        invariant
            i <= fields.len(),
            t == table@,
            !malformed(token_texts(tokens@)),
            t == table_of(groups(token_texts(tokens@))),
            resolve_all(t, fields@.take(i as int)) == Ok::<Seq<ValueV>, ArgError>(
                values_view(out@),
            ),
        decreases fields.len() - i,
    {
        let ghost pre = fields@.take(i as int);
        assert(fields@.take(i + 1).drop_last() == pre);
        assert(fields@.take(i + 1).last() == fields[i as int]);
        let v = match parse_field(&table, &fields[i]) {
            Ok(v) => v,
            Err(e) => {
                assert(resolve_all(t, fields@.take(i + 1)) == Err::<Seq<ValueV>, ArgError>(e));
                proof {
                    lemma_resolve_prefix_err(t, fields@, i + 1);
                }
                return Err(e);
            },
        };
        let ghost before = out@;
        out.push(v);
        assert(values_view(out@) =~= values_view(before).push(v@));
        i = i + 1;
    }
    assert(fields@.take(fields.len() as int) == fields@);
    Ok(out)
}

/// Once a prefix of the fields fails, the whole fails with its error.
proof fn lemma_resolve_prefix_err(t: Map<Seq<char>, RawValue>, fs: Seq<FieldSpec>, i: int)
    requires
        0 <= i <= fs.len(),
        resolve_all(t, fs.take(i)) is Err,
    ensures
        resolve_all(t, fs) == resolve_all(t, fs.take(i)),
    decreases fs.len() - i,
{
    if i < fs.len() {
        assert(fs.take(i + 1).drop_last() == fs.take(i));
        lemma_resolve_prefix_err(t, fs, i + 1);
    } else {
        assert(fs.take(i) == fs);
    }
}

} // verus!
