use vstd::prelude::*;

verus! {

/// How a single raw token reads: a long flag, a short flag, or a plain value.
#[derive(PartialEq, Eq, Structural, Debug, Clone, Copy)]
pub enum Choice {
    Long,
    Short,
    Plain,
}

/// Whether `c` has the Unicode Alphabetic property.
pub uninterp spec fn alphabetic(c: char) -> bool;

/// Relies on `char::is_alphabetic`: the Unicode Alphabetic property of `c`,
/// which depends on `c` alone.
#[verifier::external_body]
fn is_alphabetic(c: char) -> (r: bool)
    ensures
        r == alphabetic(c),
{
    c.is_alphabetic()
}

/// The reading of a token: `--` followed by at least one character is a long
/// flag; `-` followed by exactly one alphabetic character is a short flag;
/// anything else (`-7`, `-`, `foo`) is a value.
pub open spec fn classify(t: Seq<char>) -> Choice {
    if t.len() > 2 && t[0] == '-' && t[1] == '-' {
        Choice::Long
    } else if t.len() == 2 && t[0] == '-' && alphabetic(t[1]) {
        Choice::Short
    } else {
        Choice::Plain
    }
}

/// Every token has exactly one reading, and the reading depends on the token
/// alone: equal tokens read alike.
pub proof fn lemma_classify_total(t: Seq<char>, u: Seq<char>)
    ensures
        (classify(t) == Choice::Long) as int + (classify(t) == Choice::Short) as int + (classify(t)
            == Choice::Plain) as int == 1,
        t == u ==> classify(t) == classify(u),
{
}

/// The characters of `s`, in order.
pub fn chars_of(s: &str) -> (r: Vec<char>)
    ensures
        r@ == s@,
{
    let mut r: Vec<char> = Vec::new();
    for c in it: s.chars()
        invariant
            it.seq() == s@,
            r@ == it.seq().take(it.index() as int),
    {
        r.push(c);
    }
    r
}

/// A flag as it was written, dashes included.
#[derive(PartialEq, Eq, Hash, Debug, Clone)]
pub enum ArgName {
    Long(String),
    Short(String),
}

impl ArgName {
    /// The text of the flag, dashes included.
    pub open spec fn text(&self) -> Seq<char> {
        match self {
            ArgName::Long(s) => s@,
            ArgName::Short(s) => s@,
        }
    }

    /// Reads a token as a long flag, a short flag, or a plain value.
    pub fn is_name(val: &str) -> (r: Choice)
        ensures
            r == classify(val@),
    {
        let cs = chars_of(val);
        let n = cs.len();
        if n > 2 && cs[0] == '-' && cs[1] == '-' {
            Choice::Long
        } else if n == 2 && cs[0] == '-' && is_alphabetic(cs[1]) {
            Choice::Short
        } else {
            Choice::Plain
        }
    }

    /// The flag that `val` spells, or `None` where `val` is a plain value.
    pub fn from_token(val: String) -> (r: Option<ArgName>)
        ensures
            r is Some <==> classify(val@) != Choice::Plain,
            r matches Some(a) ==> a.text() == val@ && (a is Long <==> classify(val@)
                == Choice::Long),
    {
        match ArgName::is_name(val.as_str()) {
            Choice::Long => Some(ArgName::Long(val)),
            Choice::Short => Some(ArgName::Short(val)),
            Choice::Plain => None,
        }
    }

    /// The text of the flag, dashes included.
    pub fn into_text(self) -> (r: String)
        ensures
            r@ == self.text(),
    {
        match self {
            ArgName::Long(s) => s,
            ArgName::Short(s) => s,
        }
    }
}

} // verus!
