use vstd::prelude::*;

verus! {

/// The values gathered behind one flag occurrence, in mathematical form.
pub enum RawValue {
    /// The flag was followed directly by another flag or by the end.
    Absent,
    /// Exactly one value token followed the flag.
    Single(Seq<char>),
    /// Two or more value tokens followed the flag, in order.
    Multiple(Seq<Seq<char>>),
}

/// Folds one more value token into what a flag has gathered so far.
pub open spec fn fold_one(r: RawValue, t: Seq<char>) -> RawValue {
    match r {
        RawValue::Absent => RawValue::Single(t),
        RawValue::Single(p) => RawValue::Multiple(seq![p, t]),
        RawValue::Multiple(ps) => RawValue::Multiple(ps.push(t)),
    }
}

/// Folds the value tokens `vs` from left to right, starting from `Absent`.
pub open spec fn fold_all(vs: Seq<Seq<char>>) -> RawValue
    decreases vs.len(),
{
    if vs.len() == 0 {
        RawValue::Absent
    } else {
        fold_one(fold_all(vs.drop_last()), vs.last())
    }
}

/// Folding no token gives `Absent`, one token gives `Single` of it, and two or
/// more give `Multiple` of all of them in their original order.
pub proof fn lemma_fold_all(vs: Seq<Seq<char>>)
    ensures
        fold_all(vs) == (if vs.len() == 0 {
            RawValue::Absent
        } else if vs.len() == 1 {
            RawValue::Single(vs[0])
        } else {
            RawValue::Multiple(vs)
        }),
    decreases vs.len(),
{
    if vs.len() > 0 {
        let pre = vs.drop_last();
        lemma_fold_all(pre);
        if vs.len() == 2 {
            assert(seq![pre[0], vs.last()] =~= vs);
        } else if vs.len() > 2 {
            assert(pre.push(vs.last()) =~= vs);
        }
    }
}

/// The values gathered behind one flag occurrence.
#[derive(Debug, Clone, PartialEq, Eq)]
pub enum ArgValue {
    Empty,
    One(String),
    Many(Vec<String>),
}

/// The texts of a vector of strings.
pub open spec fn texts(v: Seq<String>) -> Seq<Seq<char>> {
    v.map_values(|s: String| s@)
}

impl View for ArgValue {
    type V = RawValue;

    open spec fn view(&self) -> RawValue {
        match self {
            ArgValue::Empty => RawValue::Absent,
            ArgValue::One(s) => RawValue::Single(s@),
            ArgValue::Many(vs) => RawValue::Multiple(texts(vs@)),
        }
    }
}

impl ArgValue {
    /// Adds one more value token.
    pub fn append(self, val: String) -> (r: Self)
        ensures
            r@ == fold_one(self@, val@),
    {
        match self {
            ArgValue::Empty => ArgValue::One(val),
            ArgValue::One(prev) => {
                let v = vec![prev, val];
                assert(texts(v@) =~= seq![prev@, val@]);
                ArgValue::Many(v)
            },
            ArgValue::Many(mut vs) => {
                let ghost before = vs@;
                vs.push(val);
                assert(texts(vs@) =~= texts(before).push(val@));
                ArgValue::Many(vs)
            },
        }
    }
}

} // verus!
