//! What syn said of the texts of a definition: whether a token is an
//! identifier, whether bracket content is an attribute's, and whether
//! parenthesis content is a type. The parser reads these verdicts only; they
//! are gathered from syn beforehand, or given.

use vstd::prelude::*;
use crate::outside::{accepts_ident, meta_kind, type_kind};
use crate::tokens::{Delimiter, ParseError, Tok};

verus! {

/// Verdicts by text. For an identifier: `Ok` where it is one, else syn's
/// message. For an attribute's content: `Ok(true)` where the whole text is
/// one, `Ok(false)` where tokens follow one, else syn's message. For a type:
/// `None` where it is none, else whether it is a reference type.
pub struct Verdicts {
    pub idents: Vec<(String, Result<(), String>)>,
    pub metas: Vec<(String, Result<bool, String>)>,
    pub types: Vec<(String, Option<bool>)>,
}

/// Verdicts by text, as sequences.
pub struct VerdictsView {
    pub idents: Seq<(String, Result<(), String>)>,
    pub metas: Seq<(String, Result<bool, String>)>,
    pub types: Seq<(String, Option<bool>)>,
}

impl View for Verdicts {
    type V = VerdictsView;

    open spec fn view(&self) -> VerdictsView {
        VerdictsView { idents: self.idents@, metas: self.metas@, types: self.types@ }
    }
}

/// No verdicts.
pub open spec fn no_verdicts() -> VerdictsView {
    VerdictsView { idents: Seq::empty(), metas: Seq::empty(), types: Seq::empty() }
}

/// The verdict of the first entry of `s` for the text `x`, if any.
pub open spec fn listed<T>(s: Seq<(String, T)>, x: Seq<char>) -> Option<T>
    decreases s.len(),
{
    if s.len() == 0 {
        None
    } else if s[0].0@ == x {
        Some(s[0].1)
    } else {
        listed(s.drop_first(), x)
    }
}

/// Whether the text `x` is an identifier: so where the verdict says so.
pub open spec fn ident_ok(k: VerdictsView, x: Seq<char>) -> bool {
    listed(k.idents, x) matches Some(Ok(_))
}

/// The error for an identifier token `x` that is not taken for an
/// identifier: syn's message where there is one.
pub open spec fn ident_refusal(k: VerdictsView, x: Seq<char>) -> ParseError {
    match listed(k.idents, x) {
        Some(Err(m)) => ParseError::RefusedIdent(m),
        _ => ParseError::ExpectedIdent,
    }
}

/// Whether the text `x` is an attribute's content, and then whether wholly;
/// else the error, with syn's message where there is one.
pub open spec fn meta_of(k: VerdictsView, x: Seq<char>) -> Result<bool, ParseError> {
    match listed(k.metas, x) {
        Some(Ok(b)) => Ok(b),
        Some(Err(m)) => Err(ParseError::InvalidAttribute(Some(m))),
        None => Err(ParseError::InvalidAttribute(None)),
    }
}

/// Whether the text `x` is a type, and then whether a reference type: none
/// where there is no verdict.
pub open spec fn type_of(k: VerdictsView, x: Seq<char>) -> Option<bool> {
    match listed(k.types, x) {
        Some(b) => b,
        None => None,
    }
}

/// Whether `s` begins with `base`.
pub open spec fn begins_with<T>(s: Seq<T>, base: Seq<T>) -> bool {
    &&& base.len() <= s.len()
    &&& forall|i: int| 0 <= i < base.len() ==> s[i] == base[i]
}

/// Whether `k` keeps every verdict of `base` and adds after them.
pub open spec fn extends(k: VerdictsView, base: VerdictsView) -> bool {
    &&& begins_with(k.idents, base.idents)
    &&& begins_with(k.metas, base.metas)
    &&& begins_with(k.types, base.types)
}

/// Whether the first `n` tokens of `t` have verdicts, at any depth: each
/// identifier as an identifier, the content of each pair of parentheses as a
/// type, the content of each pair of brackets as an attribute's.
pub open spec fn covers_upto(k: VerdictsView, t: Seq<Tok>, n: int) -> bool
    decreases t, n,
{
    if n <= 0 {
        true
    } else if n > t.len() {
        false
    } else {
        &&& covers_upto(k, t, n - 1)
        &&& match t[n - 1] {
            Tok::Ident(s, _) => listed(k.idents, s@) is Some,
            Tok::Group(d, _, s) => {
                let inner = t[n - 1]->Group_1@;
                proof {
                    assert(decreases_to!(t => inner));
                }
                &&& (d == Delimiter::Parenthesis ==> listed(k.types, s@) is Some)
                &&& (d == Delimiter::Bracket ==> listed(k.metas, s@) is Some)
                &&& covers_upto(k, inner, inner.len() as int)
            },
            _ => true,
        }
    }
}

/// Whether every text of `t` that the parser asks about, at any depth, has a
/// verdict in `k`.
pub open spec fn covers(k: VerdictsView, t: Seq<Tok>) -> bool {
    covers_upto(k, t, t.len() as int)
}

/// A verdict stays where entries are added after it.
proof fn lemma_listed_extends<T>(s: Seq<(String, T)>, b: Seq<(String, T)>, x: Seq<char>)
    requires
        begins_with(s, b),
        listed(b, x) is Some,
    ensures
        listed(s, x) == listed(b, x),
    decreases b.len(),
{
    if b[0].0@ != x {
        assert(begins_with(s.drop_first(), b.drop_first()));
        lemma_listed_extends(s.drop_first(), b.drop_first(), x);
    }
}

/// An added entry gives its text a verdict.
proof fn lemma_listed_push<T>(s: Seq<(String, T)>, e: (String, T))
    ensures
        listed(s.push(e), e.0@) is Some,
    decreases s.len(),
{
    if s.len() > 0 && s[0].0@ != e.0@ {
        assert(s.push(e).drop_first() =~= s.drop_first().push(e));
        lemma_listed_push(s.drop_first(), e);
    }
}

/// Coverage stays where verdicts are added.
proof fn lemma_covers_extends(k1: VerdictsView, k2: VerdictsView, t: Seq<Tok>, n: int)
    requires
        extends(k2, k1),
        covers_upto(k1, t, n),
    ensures
        covers_upto(k2, t, n),
    decreases t, n,
{
    if n > 0 && n <= t.len() {
        lemma_covers_extends(k1, k2, t, n - 1);
        match t[n - 1] {
            Tok::Ident(s, _) => {
                lemma_listed_extends(k2.idents, k1.idents, s@);
            },
            Tok::Group(d, _, s) => {
                let inner = t[n - 1]->Group_1@;
                assert(decreases_to!(t => inner));
                lemma_covers_extends(k1, k2, inner, inner.len() as int);
                if d == Delimiter::Parenthesis {
                    lemma_listed_extends(k2.types, k1.types, s@);
                }
                if d == Delimiter::Bracket {
                    lemma_listed_extends(k2.metas, k1.metas, s@);
                }
            },
            _ => {},
        }
    }
}

/// Finds the entry that holds the verdict for `x` in `s`.
pub fn find_entry<T>(s: &Vec<(String, T)>, x: &String) -> (r: Option<usize>)
    ensures
        match r {
            Some(i) => i < s@.len() && listed(s@, x@) == Some(s@[i as int].1),
            None => listed(s@, x@) is None,
        },
{
    assert(s@.skip(0) =~= s@);
    for i in 0..s.len()
        invariant
            listed(s@, x@) == listed(s@.skip(i as int), x@),
    {
        assert(s@.skip(i as int).drop_first() =~= s@.skip(i + 1));
        if s[i].0 == *x {
            return Some(i);
        }
    }
    None
}

impl Verdicts {
    /// No verdicts.
    pub fn new() -> (r: Verdicts)
        ensures
            r@ == no_verdicts(),
    {
        Verdicts { idents: Vec::new(), metas: Vec::new(), types: Vec::new() }
    }

    /// Decides `ident_ok`, giving `ident_refusal` where it fails.
    pub fn ident(&self, x: &String) -> (r: Result<(), ParseError>)
        ensures
            r == (if ident_ok(self@, x@) {
                Ok::<(), ParseError>(())
            } else {
                Err::<(), ParseError>(ident_refusal(self@, x@))
            }),
    {
        match find_entry(&self.idents, x) {
            Some(i) => match &self.idents[i].1 {
                Ok(()) => Ok(()),
                Err(m) => Err(ParseError::RefusedIdent(m.clone())),
            },
            None => Err(ParseError::ExpectedIdent),
        }
    }

    /// Computes `meta_of`.
    pub fn meta(&self, x: &String) -> (r: Result<bool, ParseError>)
        ensures
            r == meta_of(self@, x@),
    {
        match find_entry(&self.metas, x) {
            Some(i) => match &self.metas[i].1 {
                Ok(b) => Ok(*b),
                Err(m) => Err(ParseError::InvalidAttribute(Some(m.clone()))),
            },
            None => Err(ParseError::InvalidAttribute(None)),
        }
    }

    /// Computes `type_of`.
    pub fn type_kind(&self, x: &String) -> (r: Option<bool>)
        ensures
            r == type_of(self@, x@),
    {
        match find_entry(&self.types, x) {
            Some(i) => self.types[i].1,
            None => None,
        }
    }

    /// Asks syn about every text of `t` that has no verdict yet, at any
    /// depth: each identifier whether it is one, the content of each pair of
    /// parentheses whether it is a type, and the content of each pair of
    /// brackets whether it is an attribute's. The verdicts there were stay,
    /// first; syn's follow; afterwards every such text has one.
    pub fn ask_syn(&mut self, t: &Vec<Tok>)
        ensures
            extends(final(self)@, old(self)@),
            covers(final(self)@, t@),
        decreases t@,
    {
        for i in 0..t.len()
            invariant
                extends(self@, old(self)@),
                covers_upto(self@, t@, i as int),
        {
            let ghost before = self@;
            match &t[i] {
                Tok::Ident(s, _) => {
                    if find_entry(&self.idents, s).is_none() {
                        let b = accepts_ident(s.as_str());
                        let e = (s.clone(), b);
                        proof {
                            lemma_listed_push(self.idents@, e);
                        }
                        self.idents.push(e);
                    }
                },
                Tok::Group(d, inner, s) => {
                    match d {
                        Delimiter::Parenthesis => {
                            if find_entry(&self.types, s).is_none() {
                                let b = type_kind(s.as_str());
                                let e = (s.clone(), b);
                                proof {
                                    lemma_listed_push(self.types@, e);
                                }
                                self.types.push(e);
                            }
                        },
                        Delimiter::Bracket => {
                            if find_entry(&self.metas, s).is_none() {
                                let b = meta_kind(s.as_str());
                                let e = (s.clone(), b);
                                proof {
                                    lemma_listed_push(self.metas@, e);
                                }
                                self.metas.push(e);
                            }
                        },
                        Delimiter::Brace => {},
                    }
                    let ghost mid = self@;
                    assert(decreases_to!(t@ => inner@));
                    self.ask_syn(inner);
                    proof {
                        if *d == Delimiter::Parenthesis {
                            lemma_listed_extends(self@.types, mid.types, s@);
                        }
                        if *d == Delimiter::Bracket {
                            lemma_listed_extends(self@.metas, mid.metas, s@);
                        }
                    }
                },
                _ => {},
            }
            proof {
                lemma_covers_extends(before, self@, t@, i as int);
            }
        }
    }
}

} // verus!
