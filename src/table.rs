use vstd::prelude::*;
use crate::error::ArgError;
use crate::name::{classify, ArgName, Choice};
use crate::value::{fold_one, ArgValue, RawValue};

verus! {

/// The texts of the raw tokens.
pub open spec fn token_texts(ts: Seq<String>) -> Seq<Seq<char>> {
    ts.map_values(|s: String| s@)
}

/// Whether a token stream breaks the rule that it opens with a flag.
pub open spec fn malformed(ts: Seq<Seq<char>>) -> bool {
    ts.len() > 0 && classify(ts[0]) == Choice::Plain
}

/// The (flag text, gathered values) pairs of a token stream: each flag opens
/// a pair, and each value token after it is folded into that pair.
pub open spec fn groups(ts: Seq<Seq<char>>) -> Seq<(Seq<char>, RawValue)>
    decreases ts.len(),
{
    if ts.len() == 0 {
        seq![]
    } else {
        let pre = groups(ts.drop_last());
        let t = ts.last();
        if classify(t) != Choice::Plain {
            pre.push((t, RawValue::Absent))
        } else if pre.len() == 0 {
            pre
        } else {
            pre.update(pre.len() - 1, (pre.last().0, fold_one(pre.last().1, t)))
        }
    }
}

/// The pairs of a tokenized stream, in mathematical form.
pub open spec fn pairs_view(ps: Seq<(ArgName, ArgValue)>) -> Seq<(Seq<char>, RawValue)> {
    ps.map_values(|p: (ArgName, ArgValue)| (p.0.text(), p.1@))
}

proof fn lemma_groups_nonempty(ts: Seq<Seq<char>>)
    requires
        ts.len() > 0,
        !malformed(ts),
    ensures
        groups(ts).len() > 0,
    decreases ts.len(),
{
    if ts.len() > 1 {
        assert(ts.drop_last()[0] == ts[0]);
        lemma_groups_nonempty(ts.drop_last());
    }
}

/// Groups a token stream (program name already removed) into one
/// (flag, values) pair per flag occurrence, in order of appearance.
pub fn tokenize(tokens: &Vec<String>) -> (r: Result<Vec<(ArgName, ArgValue)>, ArgError>)
    ensures
        r is Err <==> malformed(token_texts(tokens@)),
        r matches Err(e) ==> e == ArgError::MalformedArgumentStream,
        r matches Ok(ps) ==> pairs_view(ps@) == groups(token_texts(tokens@)),
{
    let ghost ts = token_texts(tokens@);
    let n = tokens.len();
    if n > 0 && ArgName::is_name(tokens[0].as_str()) == Choice::Plain {
        return Err(ArgError::MalformedArgumentStream);
    }
    let mut out: Vec<(ArgName, ArgValue)> = Vec::new();
    let mut cur: Option<(ArgName, ArgValue)> = None;
    for i in 0..n
        invariant
            n == tokens.len(),
            ts == token_texts(tokens@),
            !malformed(ts),
            cur is None <==> i == 0,
            i == 0 ==> out@.len() == 0,
            cur matches Some(p) ==> pairs_view(out@).push((p.0.text(), p.1@)) == groups(
                ts.take(i as int),
            ),
    {
        let ghost prev = ts.take(i as int);
        assert(ts.take(i + 1).drop_last() == prev);
        let t = tokens[i].clone();
        let c = ArgName::is_name(t.as_str());
        assert(ts.take(i + 1).last() == t@);
        if c != Choice::Plain {
            assert(groups(ts.take(i + 1)) == groups(prev).push((t@, RawValue::Absent)));
            let name = match ArgName::from_token(t) {
                Some(a) => a,
                None => return Err(ArgError::MalformedArgumentStream),
            };
            match cur {
                Some(p) => {
                    let ghost before = out@;
                    out.push(p);
                    assert(pairs_view(out@) =~= pairs_view(before).push((p.0.text(), p.1@)));
                },
                None => {
                    assert(pairs_view(out@) =~= seq![]);
                },
            }
            cur = Some((name, ArgValue::Empty));
            assert(pairs_view(out@).push((cur->Some_0.0.text(), cur->Some_0.1@)) =~= groups(
                ts.take(i + 1),
            ));
        } else {
            if i == 0 {
                assert(ts[0] == ts.take(1).last());
                return Err(ArgError::MalformedArgumentStream);
            }
            match cur {
                Some(p) => {
                    proof {
                        lemma_groups_nonempty(prev);
                    }
                    let (nm, v) = p;
                    let v2 = v.append(t);
                    cur = Some((nm, v2));
                    assert(pairs_view(out@).push((cur->Some_0.0.text(), cur->Some_0.1@))
                        =~= groups(ts.take(i + 1)));
                },
                None => {
                    return Err(ArgError::MalformedArgumentStream);
                },
            }
        }
    }
    assert(ts.take(n as int) == ts);
    match cur {
        Some(p) => {
            let ghost before = out@;
            out.push(p);
            assert(pairs_view(out@) =~= pairs_view(before).push((p.0.text(), p.1@)));
        },
        None => {
            assert(pairs_view(out@) =~= seq![]);
        },
    }
    Ok(out)
}

/// The value of key `k` in a list of pairs: that of its last occurrence.
pub open spec fn lookup(ps: Seq<(Seq<char>, RawValue)>, k: Seq<char>) -> Option<RawValue>
    decreases ps.len(),
{
    if ps.len() == 0 {
        None
    } else if ps.last().0 == k {
        Some(ps.last().1)
    } else {
        lookup(ps.drop_last(), k)
    }
}

/// The mapping from flag text to gathered values that a list of pairs
/// gives, where a later occurrence of a key replaces an earlier one.
pub open spec fn table_of(ps: Seq<(Seq<char>, RawValue)>) -> Map<Seq<char>, RawValue> {
    Map::new(|k: Seq<char>| lookup(ps, k) is Some, |k: Seq<char>| lookup(ps, k)->Some_0)
}

/// Keyed pairs in mathematical form.
pub open spec fn keyed_view(ps: Seq<(String, ArgValue)>) -> Seq<(Seq<char>, RawValue)> {
    ps.map_values(|p: (String, ArgValue)| (p.0@, p.1@))
}

/// Flag text, dashes included, mapped to the values gathered behind it.
pub struct ArgTable {
    pairs: Vec<(String, ArgValue)>,
}

impl ArgTable {
    /// The pairs the table was built from, in mathematical form.
    pub closed spec fn entries(&self) -> Seq<(Seq<char>, RawValue)> {
        keyed_view(self.pairs@)
    }
}

impl View for ArgTable {
    type V = Map<Seq<char>, RawValue>;

    open spec fn view(&self) -> Map<Seq<char>, RawValue> {
        table_of(self.entries())
    }
}

impl ArgTable {
    /// The values gathered behind flag `key` (dashes included), if it occurred.
    pub fn get(&self, key: &String) -> (r: Option<&ArgValue>)
        ensures
            r is Some <==> self@.contains_key(key@),
            r matches Some(v) ==> v@ == self@[key@],
    {
        let ghost ps = self.entries();
        let mut i: usize = self.pairs.len();
        assert(ps.take(i as int) =~= ps);
        while i > 0
            invariant
                i <= self.pairs.len(),
                ps == self.entries(),
                lookup(ps, key@) == lookup(ps.take(i as int), key@),
            decreases i,
        {
            let ghost pre = ps.take(i as int);
            assert(pre.drop_last() == ps.take(i - 1));
            assert(pre.last() == (self.pairs[i - 1].0@, self.pairs[i - 1].1@));
            if self.pairs[i - 1].0.eq(key) {
                assert(lookup(pre, key@) == Some(pre.last().1));
                return Some(&self.pairs[i - 1].1);
            }
            i = i - 1;
        }
        assert(ps.take(0).len() == 0);
        None
    }
}

/// Builds the table of a token stream (program name already removed).
pub fn collect_args(tokens: &Vec<String>) -> (r: Result<ArgTable, ArgError>)
    ensures
        r is Err <==> malformed(token_texts(tokens@)),
        r matches Err(e) ==> e == ArgError::MalformedArgumentStream,
        r matches Ok(t) ==> t@ == table_of(groups(token_texts(tokens@))),
{
    let named = tokenize(tokens)?;
    let ghost gs = pairs_view(named@);
    let mut pairs: Vec<(String, ArgValue)> = Vec::new();
    for p in it: named
        invariant
            it.seq() == named@,
            gs == pairs_view(named@),
            keyed_view(pairs@) == gs.take(it.index() as int),
    {
        let ghost before = pairs@;
        let ghost j = it.index();
        assert(p == named@[j]);
        assert(gs[j] == (p.0.text(), p.1@));
        let (k, v) = p;
        pairs.push((k.into_text(), v));
        assert(gs.take(j + 1) =~= gs.take(j).push(gs[j]));
        assert(keyed_view(pairs@) =~= keyed_view(before).push(gs[j]));
    }
    assert(gs.take(named@.len() as int) == gs);
    let t = ArgTable { pairs };
    assert(t@ =~= table_of(gs));
    Ok(t)
}

} // verus!
