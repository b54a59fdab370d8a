//! Capture-avoiding variable machinery: `shift` adjusts the indices of free
//! variables, `subst` replaces a free variable by an expression.
//!
//! Both operations are specified on the ghost model `Term` and return
//! `Option`: `None` marks an input on which the exact result would need an
//! index outside the machine range (an index below zero or above
//! `usize::MAX`). On every other input they return the shifted or
//! substituted term.
use vstd::prelude::*;

use crate::ast::{
    bx, chunk_term, chunks_of, dup, dup_bytes, dup_import, dup_v, eq_bytes, fields_of,
    lemma_chunks_of, lemma_fields_of, lemma_terms_of, opt_term_of, res_chunks, res_fields,
    res_opt, res_term, res_terms, term_of, terms_of, Expr, Label, Term, TermChunk, TextChunk, V,
};

verus! {

/// Add `d` to every free occurrence of a variable named `x` whose index is
/// at least `m`. Entering a binder that binds `x` raises the cutoff by one
/// for the body (and for the type annotation of a `let`); the right-hand
/// side of a `let` keeps the outer cutoff.
pub open spec fn spec_shift(d: int, x: Seq<u8>, m: nat, t: Term) -> Option<Term>
    decreases t, 2int,
{
    match t {
        Term::Const(_) => Some(t),
        Term::Var(y, k) => {
            if y == x && k >= m {
                if 0 <= k + d && k + d <= usize::MAX as int {
                    Some(Term::Var(y, (k + d) as nat))
                } else {
                    None
                }
            } else {
                Some(t)
            }
        },
        Term::Lam(y, ta, b) => {
            if y == x && m >= usize::MAX as nat {
                None
            } else {
                let m2: nat = if y == x {
                    m + 1
                } else {
                    m
                };
                match (spec_shift(d, x, m, *ta), spec_shift(d, x, m2, *b)) {
                    (Some(ta2), Some(b2)) => Some(Term::Lam(y, Box::new(ta2), Box::new(b2))),
                    _ => None,
                }
            }
        },
        Term::Pi(y, ta, tb) => {
            if y == x && m >= usize::MAX as nat {
                None
            } else {
                let m2: nat = if y == x {
                    m + 1
                } else {
                    m
                };
                match (spec_shift(d, x, m, *ta), spec_shift(d, x, m2, *tb)) {
                    (Some(ta2), Some(tb2)) => Some(Term::Pi(y, Box::new(ta2), Box::new(tb2))),
                    _ => None,
                }
            }
        },
        Term::App(f, a) => match (spec_shift(d, x, m, *f), spec_shift(d, x, m, *a)) {
            (Some(f2), Some(a2)) => Some(Term::App(Box::new(f2), Box::new(a2))),
            _ => None,
        },
        Term::Let(y, ta, r, b) => {
            if y == x && m >= usize::MAX as nat {
                None
            } else {
                let m2: nat = if y == x {
                    m + 1
                } else {
                    m
                };
                match (
                    shift_opt_child(d, x, m2, ta),
                    spec_shift(d, x, m, *r),
                    spec_shift(d, x, m2, *b),
                ) {
                    (Some(ta2), Some(r2), Some(b2)) => Some(
                        Term::Let(y, ta2, Box::new(r2), Box::new(b2)),
                    ),
                    _ => None,
                }
            }
        },
        Term::Annot(a, tt) => match (spec_shift(d, x, m, *a), spec_shift(d, x, m, *tt)) {
            (Some(a2), Some(t2)) => Some(Term::Annot(Box::new(a2), Box::new(t2))),
            _ => None,
        },
        Term::Builtin(_) => Some(t),
        Term::BoolLit(_) => Some(t),
        Term::BoolIf(c, tb, fb) => match (
            spec_shift(d, x, m, *c),
            spec_shift(d, x, m, *tb),
            spec_shift(d, x, m, *fb),
        ) {
            (Some(c2), Some(t2), Some(f2)) => Some(
                Term::BoolIf(Box::new(c2), Box::new(t2), Box::new(f2)),
            ),
            _ => None,
        },
        Term::NaturalLit(_) => Some(t),
        Term::IntegerLit(_) => Some(t),
        Term::DoubleLit(_) => Some(t),
        Term::TextLit(cs) => match shift_chunks(d, x, m, cs) {
            Some(cs2) => Some(Term::TextLit(cs2)),
            None => None,
        },
        Term::BinOp(op, a, b) => match (spec_shift(d, x, m, *a), spec_shift(d, x, m, *b)) {
            (Some(a2), Some(b2)) => Some(Term::BinOp(op, Box::new(a2), Box::new(b2))),
            _ => None,
        },
        Term::ListLit(ta, es) => match (shift_opt_child(d, x, m, ta), shift_terms(d, x, m, es)) {
            (Some(ta2), Some(es2)) => Some(Term::ListLit(ta2, es2)),
            _ => None,
        },
        Term::OptionalLit(ta, i) => match (
            shift_opt_child(d, x, m, ta),
            shift_opt_child(d, x, m, i),
        ) {
            (Some(ta2), Some(i2)) => Some(Term::OptionalLit(ta2, i2)),
            _ => None,
        },
        Term::Record(fs) => match shift_fields(d, x, m, fs) {
            Some(fs2) => Some(Term::Record(fs2)),
            None => None,
        },
        Term::RecordLit(fs) => match shift_fields(d, x, m, fs) {
            Some(fs2) => Some(Term::RecordLit(fs2)),
            None => None,
        },
        Term::Union(fs) => match shift_fields(d, x, m, fs) {
            Some(fs2) => Some(Term::Union(fs2)),
            None => None,
        },
        Term::UnionLit(y, v, fs) => match (spec_shift(d, x, m, *v), shift_fields(d, x, m, fs)) {
            (Some(v2), Some(fs2)) => Some(Term::UnionLit(y, Box::new(v2), fs2)),
            _ => None,
        },
        Term::Merge(h, s, ta) => match (
            spec_shift(d, x, m, *h),
            spec_shift(d, x, m, *s),
            shift_opt_child(d, x, m, ta),
        ) {
            (Some(h2), Some(s2), Some(ta2)) => Some(
                Term::Merge(Box::new(h2), Box::new(s2), ta2),
            ),
            _ => None,
        },
        Term::Field(r, y) => match spec_shift(d, x, m, *r) {
            Some(r2) => Some(Term::Field(Box::new(r2), y)),
            None => None,
        },
        Term::Note(p, q, inner) => match spec_shift(d, x, m, *inner) {
            Some(i2) => Some(Term::Note(p, q, Box::new(i2))),
            None => None,
        },
        Term::Embed(_) => Some(t),
    }
}

/// Replace every free occurrence of the variable named `x` with index `n`
/// by `r`. Crossing any binder shifts `r` by `+1` on that binder's name,
/// and raises `n` by one when the binder is also named `x`; the type
/// annotation of a `let` is treated like its body, while its right-hand
/// side keeps the outer state.
pub open spec fn spec_subst(x: Seq<u8>, n: nat, r: Term, t: Term) -> Option<Term>
    decreases t, 2int,
{
    match t {
        Term::Const(_) => Some(t),
        Term::Var(y, k) => if y == x && k == n {
            Some(r)
        } else {
            Some(t)
        },
        Term::Lam(y, ta, b) => {
            if y == x && n >= usize::MAX as nat {
                None
            } else {
                let n2: nat = if y == x {
                    n + 1
                } else {
                    n
                };
                match spec_shift(1, y, 0, r) {
                    Some(r2) => match (spec_subst(x, n, r, *ta), spec_subst(x, n2, r2, *b)) {
                        (Some(ta2), Some(b2)) => Some(
                            Term::Lam(y, Box::new(ta2), Box::new(b2)),
                        ),
                        _ => None,
                    },
                    None => None,
                }
            }
        },
        Term::Pi(y, ta, tb) => {
            if y == x && n >= usize::MAX as nat {
                None
            } else {
                let n2: nat = if y == x {
                    n + 1
                } else {
                    n
                };
                match spec_shift(1, y, 0, r) {
                    Some(r2) => match (spec_subst(x, n, r, *ta), spec_subst(x, n2, r2, *tb)) {
                        (Some(ta2), Some(tb2)) => Some(
                            Term::Pi(y, Box::new(ta2), Box::new(tb2)),
                        ),
                        _ => None,
                    },
                    None => None,
                }
            }
        },
        Term::App(f, a) => match (spec_subst(x, n, r, *f), spec_subst(x, n, r, *a)) {
            (Some(f2), Some(a2)) => Some(Term::App(Box::new(f2), Box::new(a2))),
            _ => None,
        },
        Term::Let(y, ta, rhs, b) => {
            if y == x && n >= usize::MAX as nat {
                None
            } else {
                let n2: nat = if y == x {
                    n + 1
                } else {
                    n
                };
                match spec_shift(1, y, 0, r) {
                    Some(r2) => match (
                        subst_opt_child(x, n2, r2, ta),
                        spec_subst(x, n, r, *rhs),
                        spec_subst(x, n2, r2, *b),
                    ) {
                        (Some(ta2), Some(rhs2), Some(b2)) => Some(
                            Term::Let(y, ta2, Box::new(rhs2), Box::new(b2)),
                        ),
                        _ => None,
                    },
                    None => None,
                }
            }
        },
        Term::Annot(a, tt) => match (spec_subst(x, n, r, *a), spec_subst(x, n, r, *tt)) {
            (Some(a2), Some(t2)) => Some(Term::Annot(Box::new(a2), Box::new(t2))),
            _ => None,
        },
        Term::Builtin(_) => Some(t),
        Term::BoolLit(_) => Some(t),
        Term::BoolIf(c, tb, fb) => match (
            spec_subst(x, n, r, *c),
            spec_subst(x, n, r, *tb),
            spec_subst(x, n, r, *fb),
        ) {
            (Some(c2), Some(t2), Some(f2)) => Some(
                Term::BoolIf(Box::new(c2), Box::new(t2), Box::new(f2)),
            ),
            _ => None,
        },
        Term::NaturalLit(_) => Some(t),
        Term::IntegerLit(_) => Some(t),
        Term::DoubleLit(_) => Some(t),
        Term::TextLit(cs) => match subst_chunks(x, n, r, cs) {
            Some(cs2) => Some(Term::TextLit(cs2)),
            None => None,
        },
        Term::BinOp(op, a, b) => match (spec_subst(x, n, r, *a), spec_subst(x, n, r, *b)) {
            (Some(a2), Some(b2)) => Some(Term::BinOp(op, Box::new(a2), Box::new(b2))),
            _ => None,
        },
        Term::ListLit(ta, es) => match (subst_opt_child(x, n, r, ta), subst_terms(x, n, r, es)) {
            (Some(ta2), Some(es2)) => Some(Term::ListLit(ta2, es2)),
            _ => None,
        },
        Term::OptionalLit(ta, i) => match (
            subst_opt_child(x, n, r, ta),
            subst_opt_child(x, n, r, i),
        ) {
            (Some(ta2), Some(i2)) => Some(Term::OptionalLit(ta2, i2)),
            _ => None,
        },
        Term::Record(fs) => match subst_fields(x, n, r, fs) {
            Some(fs2) => Some(Term::Record(fs2)),
            None => None,
        },
        Term::RecordLit(fs) => match subst_fields(x, n, r, fs) {
            Some(fs2) => Some(Term::RecordLit(fs2)),
            None => None,
        },
        Term::Union(fs) => match subst_fields(x, n, r, fs) {
            Some(fs2) => Some(Term::Union(fs2)),
            None => None,
        },
        Term::UnionLit(y, v, fs) => match (spec_subst(x, n, r, *v), subst_fields(x, n, r, fs)) {
            (Some(v2), Some(fs2)) => Some(Term::UnionLit(y, Box::new(v2), fs2)),
            _ => None,
        },
        Term::Merge(h, s, ta) => match (
            spec_subst(x, n, r, *h),
            spec_subst(x, n, r, *s),
            subst_opt_child(x, n, r, ta),
        ) {
            (Some(h2), Some(s2), Some(ta2)) => Some(
                Term::Merge(Box::new(h2), Box::new(s2), ta2),
            ),
            _ => None,
        },
        Term::Field(rec, y) => match spec_subst(x, n, r, *rec) {
            Some(r2) => Some(Term::Field(Box::new(r2), y)),
            None => None,
        },
        Term::Note(p, q, inner) => match spec_subst(x, n, r, *inner) {
            Some(i2) => Some(Term::Note(p, q, Box::new(i2))),
            None => None,
        },
        Term::Embed(_) => Some(t),
    }
}

/// `spec_subst` on an optional child.
pub open spec fn subst_opt_child(x: Seq<u8>, n: nat, r: Term, o: Option<Box<Term>>) -> Option<
    Option<Box<Term>>,
>
    decreases o, 2int,
{
    match o {
        Some(b) => match spec_subst(x, n, r, *b) {
            Some(b2) => Some(Some(Box::new(b2))),
            None => None,
        },
        None => Some(None),
    }
}

/// `spec_subst` on each element of a sequence.
pub open spec fn subst_terms(x: Seq<u8>, n: nat, r: Term, s: Seq<Term>) -> Option<Seq<Term>>
    decreases s, 0int,
{
    if s.len() == 0 {
        Some(Seq::empty())
    } else {
        match (spec_subst(x, n, r, s[0]), subst_terms(x, n, r, s.drop_first())) {
            (Some(h), Some(rest)) => Some(seq![h] + rest),
            _ => None,
        }
    }
}

/// `spec_subst` on each field value of a field list.
pub open spec fn subst_fields(x: Seq<u8>, n: nat, r: Term, s: Seq<(Seq<u8>, Term)>) -> Option<
    Seq<(Seq<u8>, Term)>,
>
    decreases s, 0int,
{
    if s.len() == 0 {
        Some(Seq::empty())
    } else {
        match (spec_subst(x, n, r, s[0].1), subst_fields(x, n, r, s.drop_first())) {
            (Some(h), Some(rest)) => Some(seq![(s[0].0, h)] + rest),
            _ => None,
        }
    }
}

/// `spec_subst` under each hole of a chunk list.
pub open spec fn subst_chunks(x: Seq<u8>, n: nat, r: Term, s: Seq<TermChunk>) -> Option<
    Seq<TermChunk>,
>
    decreases s, 0int,
{
    if s.len() == 0 {
        Some(Seq::empty())
    } else {
        let head = match s[0] {
            TermChunk::Chars(b) => Some(TermChunk::Chars(b)),
            TermChunk::Interp(e) => match spec_subst(x, n, r, e) {
                Some(e2) => Some(TermChunk::Interp(e2)),
                None => None,
            },
        };
        match (head, subst_chunks(x, n, r, s.drop_first())) {
            (Some(h), Some(rest)) => Some(seq![h] + rest),
            _ => None,
        }
    }
}

/// `spec_shift` on an optional child.
pub open spec fn shift_opt_child(d: int, x: Seq<u8>, m: nat, o: Option<Box<Term>>) -> Option<
    Option<Box<Term>>,
>
    decreases o, 2int,
{
    match o {
        Some(b) => match spec_shift(d, x, m, *b) {
            Some(b2) => Some(Some(Box::new(b2))),
            None => None,
        },
        None => Some(None),
    }
}

/// `spec_shift` on each element of a sequence.
pub open spec fn shift_terms(d: int, x: Seq<u8>, m: nat, s: Seq<Term>) -> Option<Seq<Term>>
    decreases s, 0int,
{
    if s.len() == 0 {
        Some(Seq::empty())
    } else {
        match (spec_shift(d, x, m, s[0]), shift_terms(d, x, m, s.drop_first())) {
            (Some(h), Some(rest)) => Some(seq![h] + rest),
            _ => None,
        }
    }
}

/// `spec_shift` on each field value of a field list.
pub open spec fn shift_fields(d: int, x: Seq<u8>, m: nat, s: Seq<(Seq<u8>, Term)>) -> Option<
    Seq<(Seq<u8>, Term)>,
>
    decreases s, 0int,
{
    if s.len() == 0 {
        Some(Seq::empty())
    } else {
        match (spec_shift(d, x, m, s[0].1), shift_fields(d, x, m, s.drop_first())) {
            (Some(h), Some(rest)) => Some(seq![(s[0].0, h)] + rest),
            _ => None,
        }
    }
}

/// `spec_shift` under each hole of a chunk list.
pub open spec fn shift_chunks(d: int, x: Seq<u8>, m: nat, s: Seq<TermChunk>) -> Option<
    Seq<TermChunk>,
>
    decreases s, 0int,
{
    if s.len() == 0 {
        Some(Seq::empty())
    } else {
        let head = match s[0] {
            TermChunk::Chars(b) => Some(TermChunk::Chars(b)),
            TermChunk::Interp(e) => match spec_shift(d, x, m, e) {
                Some(e2) => Some(TermChunk::Interp(e2)),
                None => None,
            },
        };
        match (head, shift_chunks(d, x, m, s.drop_first())) {
            (Some(h), Some(rest)) => Some(seq![h] + rest),
            _ => None,
        }
    }
}

/// Shifting up by one and then down by one is the identity: whenever
/// `spec_shift(1, x, m, t)` succeeds, shifting its result by `-1` on the
/// same variable gives back `t`.
pub proof fn lemma_shift_roundtrip(x: Seq<u8>, m: nat, t: Term)
    ensures
        spec_shift(1, x, m, t) matches Some(t1) ==> spec_shift(-1, x, m, t1) == Some(t),
    decreases t, 2int,
{
    match t {
        Term::Const(_) => {},
        Term::Var(_, _) => {},
        Term::Lam(y, ta, b) => {
            let m2: nat = if y == x {
                m + 1
            } else {
                m
            };
            lemma_shift_roundtrip(x, m, *ta);
            lemma_shift_roundtrip(x, m2, *b);
        },
        Term::Pi(y, ta, tb) => {
            let m2: nat = if y == x {
                m + 1
            } else {
                m
            };
            lemma_shift_roundtrip(x, m, *ta);
            lemma_shift_roundtrip(x, m2, *tb);
        },
        Term::App(f, a) => {
            lemma_shift_roundtrip(x, m, *f);
            lemma_shift_roundtrip(x, m, *a);
        },
        Term::Let(y, ta, r, b) => {
            let m2: nat = if y == x {
                m + 1
            } else {
                m
            };
            lemma_shift_opt_roundtrip(x, m2, ta);
            lemma_shift_roundtrip(x, m, *r);
            lemma_shift_roundtrip(x, m2, *b);
        },
        Term::Annot(a, tt) => {
            lemma_shift_roundtrip(x, m, *a);
            lemma_shift_roundtrip(x, m, *tt);
        },
        Term::Builtin(_) => {},
        Term::BoolLit(_) => {},
        Term::BoolIf(c, tb, fb) => {
            lemma_shift_roundtrip(x, m, *c);
            lemma_shift_roundtrip(x, m, *tb);
            lemma_shift_roundtrip(x, m, *fb);
        },
        Term::NaturalLit(_) => {},
        Term::IntegerLit(_) => {},
        Term::DoubleLit(_) => {},
        Term::TextLit(cs) => {
            lemma_shift_chunks_roundtrip(x, m, cs);
        },
        Term::BinOp(_, a, b) => {
            lemma_shift_roundtrip(x, m, *a);
            lemma_shift_roundtrip(x, m, *b);
        },
        Term::ListLit(ta, es) => {
            lemma_shift_opt_roundtrip(x, m, ta);
            lemma_shift_terms_roundtrip(x, m, es);
        },
        Term::OptionalLit(ta, i) => {
            lemma_shift_opt_roundtrip(x, m, ta);
            lemma_shift_opt_roundtrip(x, m, i);
        },
        Term::Record(fs) => {
            lemma_shift_fields_roundtrip(x, m, fs);
        },
        Term::RecordLit(fs) => {
            lemma_shift_fields_roundtrip(x, m, fs);
        },
        Term::Union(fs) => {
            lemma_shift_fields_roundtrip(x, m, fs);
        },
        Term::UnionLit(_, v, fs) => {
            lemma_shift_roundtrip(x, m, *v);
            lemma_shift_fields_roundtrip(x, m, fs);
        },
        Term::Merge(h, s, ta) => {
            lemma_shift_roundtrip(x, m, *h);
            lemma_shift_roundtrip(x, m, *s);
            lemma_shift_opt_roundtrip(x, m, ta);
        },
        Term::Field(r, _) => {
            lemma_shift_roundtrip(x, m, *r);
        },
        Term::Note(_, _, inner) => {
            lemma_shift_roundtrip(x, m, *inner);
        },
        Term::Embed(_) => {},
    }
}

/// Round trip of `shift_opt_child`.
pub proof fn lemma_shift_opt_roundtrip(x: Seq<u8>, m: nat, o: Option<Box<Term>>)
    ensures
        shift_opt_child(1, x, m, o) matches Some(o1) ==> shift_opt_child(-1, x, m, o1) == Some(o),
    decreases o, 2int,
{
    match o {
        Some(b) => {
            lemma_shift_roundtrip(x, m, *b);
        },
        None => {},
    }
}

/// Round trip of `shift_terms`.
pub proof fn lemma_shift_terms_roundtrip(x: Seq<u8>, m: nat, s: Seq<Term>)
    ensures
        shift_terms(1, x, m, s) matches Some(s1) ==> shift_terms(-1, x, m, s1) == Some(s),
    decreases s, 0int,
{
    if s.len() > 0 {
        lemma_shift_roundtrip(x, m, s[0]);
        lemma_shift_terms_roundtrip(x, m, s.drop_first());
        match (spec_shift(1, x, m, s[0]), shift_terms(1, x, m, s.drop_first())) {
            (Some(h), Some(rest)) => {
                assert((seq![h] + rest).drop_first() =~= rest);
                assert((seq![h] + rest)[0] == h);
                assert(seq![s[0]] + s.drop_first() =~= s);
            },
            _ => {},
        }
    }
}

/// Round trip of `shift_fields`.
pub proof fn lemma_shift_fields_roundtrip(x: Seq<u8>, m: nat, s: Seq<(Seq<u8>, Term)>)
    ensures
        shift_fields(1, x, m, s) matches Some(s1) ==> shift_fields(-1, x, m, s1) == Some(s),
    decreases s, 0int,
{
    if s.len() > 0 {
        lemma_shift_roundtrip(x, m, s[0].1);
        lemma_shift_fields_roundtrip(x, m, s.drop_first());
        match (spec_shift(1, x, m, s[0].1), shift_fields(1, x, m, s.drop_first())) {
            (Some(h), Some(rest)) => {
                assert((seq![(s[0].0, h)] + rest).drop_first() =~= rest);
                assert((seq![(s[0].0, h)] + rest)[0] == ((s[0].0, h)));
                assert(seq![s[0]] + s.drop_first() =~= s);
            },
            _ => {},
        }
    }
}

/// Round trip of `shift_chunks`.
pub proof fn lemma_shift_chunks_roundtrip(x: Seq<u8>, m: nat, s: Seq<TermChunk>)
    ensures
        shift_chunks(1, x, m, s) matches Some(s1) ==> shift_chunks(-1, x, m, s1) == Some(s),
    decreases s, 0int,
{
    if s.len() > 0 {
        match s[0] {
            TermChunk::Chars(_) => {},
            TermChunk::Interp(e) => {
                lemma_shift_roundtrip(x, m, e);
            },
        }
        lemma_shift_chunks_roundtrip(x, m, s.drop_first());
        let head = match s[0] {
            TermChunk::Chars(b) => Some(TermChunk::Chars(b)),
            TermChunk::Interp(e) => match spec_shift(1, x, m, e) {
                Some(e2) => Some(TermChunk::Interp(e2)),
                None => None,
            },
        };
        match (head, shift_chunks(1, x, m, s.drop_first())) {
            (Some(h), Some(rest)) => {
                assert((seq![h] + rest).drop_first() =~= rest);
                assert((seq![h] + rest)[0] == h);
                assert(seq![s[0]] + s.drop_first() =~= s);
            },
            _ => {},
        }
    }
}

/// Elementwise reading of `shift_terms`.
pub proof fn lemma_shift_terms_elem(d: int, x: Seq<u8>, m: nat, s: Seq<Term>)
    ensures
        (shift_terms(d, x, m, s) is Some) <==> (forall|i: int|
            0 <= i < s.len() ==> spec_shift(d, x, m, s[i]) is Some),
        shift_terms(d, x, m, s) matches Some(s2) ==> s2.len() == s.len() && (forall|i: int|
            0 <= i < s.len() ==> Some(s2[i]) == spec_shift(d, x, m, s[i])),
    decreases s.len(),
{
    if s.len() > 0 {
        lemma_shift_terms_elem(d, x, m, s.drop_first());
        assert(forall|i: int| 1 <= i < s.len() ==> s.drop_first()[i - 1] == s[i]);
        match (spec_shift(d, x, m, s[0]), shift_terms(d, x, m, s.drop_first())) {
            (Some(h), Some(rest)) => {
                assert(forall|i: int|
                    0 <= i < s.len() ==> (seq![h] + rest)[i] == (if i == 0 {
                        h
                    } else {
                        rest[i - 1]
                    }));
            },
            _ => {},
        }
    }
}

/// Elementwise reading of `shift_fields`.
pub proof fn lemma_shift_fields_elem(d: int, x: Seq<u8>, m: nat, s: Seq<(Seq<u8>, Term)>)
    ensures
        (shift_fields(d, x, m, s) is Some) <==> (forall|i: int|
            0 <= i < s.len() ==> spec_shift(d, x, m, s[i].1) is Some),
        shift_fields(d, x, m, s) matches Some(s2) ==> s2.len() == s.len() && (forall|i: int|
            0 <= i < s.len() ==> s2[i].0 == s[i].0 && Some(s2[i].1) == spec_shift(
                d,
                x,
                m,
                s[i].1,
            )),
    decreases s.len(),
{
    if s.len() > 0 {
        lemma_shift_fields_elem(d, x, m, s.drop_first());
        assert(forall|i: int| 1 <= i < s.len() ==> s.drop_first()[i - 1] == s[i]);
        match (spec_shift(d, x, m, s[0].1), shift_fields(d, x, m, s.drop_first())) {
            (Some(h), Some(rest)) => {
                assert(forall|i: int|
                    0 <= i < s.len() ==> (seq![(s[0].0, h)] + rest)[i] == (if i == 0 {
                        (s[0].0, h)
                    } else {
                        rest[i - 1]
                    }));
            },
            _ => {},
        }
    }
}

/// The shift of one chunk, if it is defined.
pub open spec fn shift_chunk1(d: int, x: Seq<u8>, m: nat, c: TermChunk) -> Option<TermChunk> {
    match c {
        TermChunk::Chars(b) => Some(TermChunk::Chars(b)),
        TermChunk::Interp(e) => match spec_shift(d, x, m, e) {
            Some(e2) => Some(TermChunk::Interp(e2)),
            None => None,
        },
    }
}

/// Elementwise reading of `shift_chunks`.
pub proof fn lemma_shift_chunks_elem(d: int, x: Seq<u8>, m: nat, s: Seq<TermChunk>)
    ensures
        (shift_chunks(d, x, m, s) is Some) <==> (forall|i: int|
            0 <= i < s.len() ==> shift_chunk1(d, x, m, s[i]) is Some),
        shift_chunks(d, x, m, s) matches Some(s2) ==> s2.len() == s.len() && (forall|i: int|
            0 <= i < s.len() ==> Some(s2[i]) == shift_chunk1(d, x, m, s[i])),
    decreases s.len(),
{
    if s.len() > 0 {
        lemma_shift_chunks_elem(d, x, m, s.drop_first());
        assert(forall|i: int| 1 <= i < s.len() ==> s.drop_first()[i - 1] == s[i]);
        match (shift_chunk1(d, x, m, s[0]), shift_chunks(d, x, m, s.drop_first())) {
            (Some(h), Some(rest)) => {
                assert(forall|i: int|
                    0 <= i < s.len() ==> (seq![h] + rest)[i] == (if i == 0 {
                        h
                    } else {
                        rest[i - 1]
                    }));
            },
            _ => {},
        }
    }
}

/// Recursive worker for `shift`: total, returning `None` exactly where
/// `spec_shift` is undefined on the machine.
fn shift_term(d: isize, x: &Vec<u8>, m: usize, e: &Expr) -> (r: Option<Expr>)
    requires
        d == 1 || d == -1,
    ensures
        res_term(r) == spec_shift(d as int, x@, m as nat, e@),
    decreases *e,
{
    match e {
        Expr::Const(c) => Some(Expr::Const(*c)),
        Expr::Var(v) => {
            if eq_bytes(&v.0, x) && v.1 >= m {
                if d == 1 {
                    if v.1 == usize::MAX {
                        None
                    } else {
                        Some(Expr::Var(V(dup_bytes(&v.0), v.1 + 1)))
                    }
                } else {
                    if v.1 == 0 {
                        None
                    } else {
                        Some(Expr::Var(V(dup_bytes(&v.0), v.1 - 1)))
                    }
                }
            } else {
                Some(Expr::Var(dup_v(v)))
            }
        },
        Expr::Lam(y, ta, b) => {
            let same = eq_bytes(y, x);
            if same && m == usize::MAX {
                None
            } else {
                let m2: usize = if same {
                    m + 1
                } else {
                    m
                };
                match (shift_term(d, x, m, &**ta), shift_term(d, x, m2, &**b)) {
                    (Some(ta2), Some(b2)) => Some(Expr::Lam(dup_bytes(y), bx(ta2), bx(b2))),
                    _ => None,
                }
            }
        },
        Expr::Pi(y, ta, tb) => {
            let same = eq_bytes(y, x);
            if same && m == usize::MAX {
                None
            } else {
                let m2: usize = if same {
                    m + 1
                } else {
                    m
                };
                match (shift_term(d, x, m, &**ta), shift_term(d, x, m2, &**tb)) {
                    (Some(ta2), Some(tb2)) => Some(Expr::Pi(dup_bytes(y), bx(ta2), bx(tb2))),
                    _ => None,
                }
            }
        },
        Expr::App(f, a) => match (shift_term(d, x, m, &**f), shift_term(d, x, m, &**a)) {
            (Some(f2), Some(a2)) => Some(Expr::App(bx(f2), bx(a2))),
            _ => None,
        },
        Expr::Let(y, ta, r0, b) => {
            let same = eq_bytes(y, x);
            if same && m == usize::MAX {
                None
            } else {
                let m2: usize = if same {
                    m + 1
                } else {
                    m
                };
                match (
                    shift_opt(d, x, m2, ta),
                    shift_term(d, x, m, &**r0),
                    shift_term(d, x, m2, &**b),
                ) {
                    (Some(ta2), Some(r2), Some(b2)) => Some(
                        Expr::Let(dup_bytes(y), ta2, bx(r2), bx(b2)),
                    ),
                    _ => None,
                }
            }
        },
        Expr::Annot(a, tt) => match (shift_term(d, x, m, &**a), shift_term(d, x, m, &**tt)) {
            (Some(a2), Some(t2)) => Some(Expr::Annot(bx(a2), bx(t2))),
            _ => None,
        },
        Expr::Builtin(b) => Some(Expr::Builtin(*b)),
        Expr::BoolLit(b) => Some(Expr::BoolLit(*b)),
        Expr::BoolIf(c, tb, fb) => match (
            shift_term(d, x, m, &**c),
            shift_term(d, x, m, &**tb),
            shift_term(d, x, m, &**fb),
        ) {
            (Some(c2), Some(t2), Some(f2)) => Some(Expr::BoolIf(bx(c2), bx(t2), bx(f2))),
            _ => None,
        },
        Expr::NaturalLit(n) => Some(Expr::NaturalLit(*n)),
        Expr::IntegerLit(n) => Some(Expr::IntegerLit(*n)),
        Expr::DoubleLit(n) => Some(Expr::DoubleLit(*n)),
        Expr::TextLit(cs) => match shift_chunk_list(d, x, m, cs) {
            Some(cs2) => Some(Expr::TextLit(cs2)),
            None => None,
        },
        Expr::BinOp(op, a, b) => match (shift_term(d, x, m, &**a), shift_term(d, x, m, &**b)) {
            (Some(a2), Some(b2)) => Some(Expr::BinOp(*op, bx(a2), bx(b2))),
            _ => None,
        },
        Expr::ListLit(ta, es) => match (shift_opt(d, x, m, ta), shift_expr_list(d, x, m, es)) {
            (Some(ta2), Some(es2)) => Some(Expr::ListLit(ta2, es2)),
            _ => None,
        },
        Expr::OptionalLit(ta, i) => match (shift_opt(d, x, m, ta), shift_opt(d, x, m, i)) {
            (Some(ta2), Some(i2)) => Some(Expr::OptionalLit(ta2, i2)),
            _ => None,
        },
        Expr::Record(fs) => match shift_field_list(d, x, m, fs) {
            Some(fs2) => Some(Expr::Record(fs2)),
            None => None,
        },
        Expr::RecordLit(fs) => match shift_field_list(d, x, m, fs) {
            Some(fs2) => Some(Expr::RecordLit(fs2)),
            None => None,
        },
        Expr::Union(fs) => match shift_field_list(d, x, m, fs) {
            Some(fs2) => Some(Expr::Union(fs2)),
            None => None,
        },
        Expr::UnionLit(y, v, fs) => match (
            shift_term(d, x, m, &**v),
            shift_field_list(d, x, m, fs),
        ) {
            (Some(v2), Some(fs2)) => Some(Expr::UnionLit(dup_bytes(y), bx(v2), fs2)),
            _ => None,
        },
        Expr::Merge(h, s, ta) => match (
            shift_term(d, x, m, &**h),
            shift_term(d, x, m, &**s),
            shift_opt(d, x, m, ta),
        ) {
            (Some(h2), Some(s2), Some(ta2)) => Some(Expr::Merge(bx(h2), bx(s2), ta2)),
            _ => None,
        },
        Expr::Field(r0, y) => match shift_term(d, x, m, &**r0) {
            Some(r2) => Some(Expr::Field(bx(r2), dup_bytes(y))),
            None => None,
        },
        Expr::Note(p, q, inner) => match shift_term(d, x, m, &**inner) {
            Some(i2) => Some(Expr::Note(*p, *q, bx(i2))),
            None => None,
        },
        Expr::Embed(i) => Some(Expr::Embed(dup_import(i))),
    }
}

/// `shift_term` on an optional child.
fn shift_opt(d: isize, x: &Vec<u8>, m: usize, o: &Option<Box<Expr>>) -> (r: Option<
    Option<Box<Expr>>,
>)
    requires
        d == 1 || d == -1,
    ensures
        res_opt(r) == shift_opt_child(d as int, x@, m as nat, opt_term_of(*o)),
    decreases *o,
{
    match o {
        Some(b) => match shift_term(d, x, m, &**b) {
            Some(b2) => Some(Some(bx(b2))),
            None => None,
        },
        None => Some(None),
    }
}

/// `shift_term` on each element of a list.
#[verifier::rlimit(50)]
fn shift_expr_list(d: isize, x: &Vec<u8>, m: usize, es: &Vec<Expr>) -> (r: Option<Vec<Expr>>)
    requires
        d == 1 || d == -1,
    ensures
        res_terms(r) == shift_terms(d as int, x@, m as nat, terms_of(es@)),
    decreases *es,
{
    proof {
        lemma_terms_of(es@);
        lemma_shift_terms_elem(d as int, x@, m as nat, terms_of(es@));
    }
    let ghost s = terms_of(es@);
    let mut out: Vec<Expr> = Vec::new();
    let mut i: usize = 0;
    while i < es.len()
        invariant
            d == 1 || d == -1,
            i <= es.len(),
            out@.len() == i as int,
            s == terms_of(es@),
            s.len() == es@.len(),
            forall|j: int| 0 <= j < es@.len() ==> s[j] == es@[j]@,
            forall|j: int| 0 <= j < i ==> Some(out@[j]@) == spec_shift(d as int, x@, m as nat, s[j]),
        decreases es@.len() - i,
    {
        match shift_term(d, x, m, &es[i]) {
            Some(e2) => {
                out.push(e2);
            },
            None => {
                proof {
                    lemma_shift_terms_elem(d as int, x@, m as nat, s);
                    match shift_terms(d as int, x@, m as nat, s) {
                        Some(s2) => {
                            assert(Some(s2[i as int]) == spec_shift(
                                d as int,
                                x@,
                                m as nat,
                                s[i as int],
                            ));
                            assert(false);
                        },
                        None => {},
                    }
                }
                return None;
            },
        }
        i += 1;
    }
    proof {
        lemma_terms_of(out@);
        lemma_shift_terms_elem(d as int, x@, m as nat, s);
        match shift_terms(d as int, x@, m as nat, s) {
            Some(s2) => {
                assert(terms_of(out@) =~= s2);
            },
            None => {
                assert(false);
            },
        }
    }
    Some(out)
}

/// `shift_term` on each field value of a field list.
#[verifier::rlimit(50)]
fn shift_field_list(d: isize, x: &Vec<u8>, m: usize, fs: &Vec<(Label, Expr)>) -> (r: Option<
    Vec<(Label, Expr)>,
>)
    requires
        d == 1 || d == -1,
    ensures
        res_fields(r) == shift_fields(d as int, x@, m as nat, fields_of(fs@)),
    decreases *fs,
{
    proof {
        lemma_fields_of(fs@);
        lemma_shift_fields_elem(d as int, x@, m as nat, fields_of(fs@));
    }
    let ghost s = fields_of(fs@);
    let mut out: Vec<(Label, Expr)> = Vec::new();
    let mut i: usize = 0;
    while i < fs.len()
        invariant
            d == 1 || d == -1,
            i <= fs.len(),
            out@.len() == i as int,
            s == fields_of(fs@),
            s.len() == fs@.len(),
            forall|j: int| 0 <= j < fs@.len() ==> s[j] == ((fs@[j].0@, fs@[j].1@)),
            forall|j: int|
                0 <= j < i ==> out@[j].0@ == s[j].0 && Some(out@[j].1@) == spec_shift(
                    d as int,
                    x@,
                    m as nat,
                    s[j].1,
                ),
        decreases fs@.len() - i,
    {
        let p = &fs[i];
        match shift_term(d, x, m, &p.1) {
            Some(e2) => {
                out.push((dup_bytes(&p.0), e2));
            },
            None => {
                proof {
                    lemma_shift_fields_elem(d as int, x@, m as nat, s);
                    match shift_fields(d as int, x@, m as nat, s) {
                        Some(s2) => {
                            assert(Some(s2[i as int].1) == spec_shift(
                                d as int,
                                x@,
                                m as nat,
                                s[i as int].1,
                            ));
                            assert(false);
                        },
                        None => {},
                    }
                }
                return None;
            },
        }
        i += 1;
    }
    proof {
        lemma_fields_of(out@);
        lemma_shift_fields_elem(d as int, x@, m as nat, s);
        match shift_fields(d as int, x@, m as nat, s) {
            Some(s2) => {
                assert(fields_of(out@) =~= s2);
            },
            None => {
                assert(false);
            },
        }
    }
    Some(out)
}

/// `shift_term` under each hole of a chunk list.
#[verifier::rlimit(50)]
fn shift_chunk_list(d: isize, x: &Vec<u8>, m: usize, cs: &Vec<TextChunk>) -> (r: Option<
    Vec<TextChunk>,
>)
    requires
        d == 1 || d == -1,
    ensures
        res_chunks(r) == shift_chunks(d as int, x@, m as nat, chunks_of(cs@)),
    decreases *cs,
{
    proof {
        lemma_chunks_of(cs@);
        lemma_shift_chunks_elem(d as int, x@, m as nat, chunks_of(cs@));
    }
    let ghost s = chunks_of(cs@);
    let mut out: Vec<TextChunk> = Vec::new();
    let mut i: usize = 0;
    while i < cs.len()
        invariant
            d == 1 || d == -1,
            i <= cs.len(),
            out@.len() == i as int,
            s == chunks_of(cs@),
            s.len() == cs@.len(),
            forall|j: int| 0 <= j < cs@.len() ==> s[j] == chunk_term(cs@[j]),
            forall|j: int|
                0 <= j < i ==> Some(chunk_term(out@[j])) == shift_chunk1(
                    d as int,
                    x@,
                    m as nat,
                    s[j],
                ),
        decreases cs@.len() - i,
    {
        match &cs[i] {
            TextChunk::Chars(b) => {
                out.push(TextChunk::Chars(dup_bytes(b)));
            },
            TextChunk::Interp(e) => match shift_term(d, x, m, &**e) {
                Some(e2) => {
                    out.push(TextChunk::Interp(bx(e2)));
                },
                None => {
                    proof {
                        lemma_shift_chunks_elem(d as int, x@, m as nat, s);
                        match shift_chunks(d as int, x@, m as nat, s) {
                            Some(s2) => {
                                assert(Some(s2[i as int]) == shift_chunk1(
                                    d as int,
                                    x@,
                                    m as nat,
                                    s[i as int],
                                ));
                                assert(false);
                            },
                            None => {},
                        }
                    }
                    return None;
                },
            },
        }
        i += 1;
    }
    proof {
        lemma_chunks_of(out@);
        lemma_shift_chunks_elem(d as int, x@, m as nat, s);
        match shift_chunks(d as int, x@, m as nat, s) {
            Some(s2) => {
                assert(chunks_of(out@) =~= s2);
            },
            None => {
                assert(false);
            },
        }
    }
    Some(out)
}

/// Add `d` (`+1` or `-1`) to the index of every free occurrence of the
/// variable `v` in `e`. The precondition rules out the inputs on which the
/// result would leave the machine's index range, where the operation has
/// no result; `shift_checked` is the total variant.
pub fn shift(d: isize, v: &V, e: &Expr) -> (r: Expr)
    requires
        d == 1 || d == -1,
        spec_shift(d as int, v.0@, v.1 as nat, e@) is Some,
    ensures
        Some(r@) == spec_shift(d as int, v.0@, v.1 as nat, e@),
{
    match shift_term(d, &v.0, v.1, e) {
        Some(r) => r,
        None => unreached(),
    }
}

/// Total variant of `shift`: `None` exactly on the inputs where the shifted
/// index would leave the machine's range.
pub fn shift_checked(d: isize, v: &V, e: &Expr) -> (r: Option<Expr>)
    requires
        d == 1 || d == -1,
    ensures
        res_term(r) == spec_shift(d as int, v.0@, v.1 as nat, e@),
{
    shift_term(d, &v.0, v.1, e)
}

/// Elementwise reading of `subst_terms`.
pub proof fn lemma_subst_terms_elem(x: Seq<u8>, n: nat, r: Term, s: Seq<Term>)
    ensures
        (subst_terms(x, n, r, s) is Some) <==> (forall|i: int|
            0 <= i < s.len() ==> spec_subst(x, n, r, s[i]) is Some),
        subst_terms(x, n, r, s) matches Some(s2) ==> s2.len() == s.len() && (forall|i: int|
            0 <= i < s.len() ==> Some(s2[i]) == spec_subst(x, n, r, s[i])),
    decreases s.len(),
{
    if s.len() > 0 {
        lemma_subst_terms_elem(x, n, r, s.drop_first());
        assert(forall|i: int| 1 <= i < s.len() ==> s.drop_first()[i - 1] == s[i]);
        match (spec_subst(x, n, r, s[0]), subst_terms(x, n, r, s.drop_first())) {
            (Some(h), Some(rest)) => {
                assert(forall|i: int|
                    0 <= i < s.len() ==> (seq![h] + rest)[i] == (if i == 0 {
                        h
                    } else {
                        rest[i - 1]
                    }));
            },
            _ => {},
        }
    }
}

/// Elementwise reading of `subst_fields`.
pub proof fn lemma_subst_fields_elem(x: Seq<u8>, n: nat, r: Term, s: Seq<(Seq<u8>, Term)>)
    ensures
        (subst_fields(x, n, r, s) is Some) <==> (forall|i: int|
            0 <= i < s.len() ==> spec_subst(x, n, r, s[i].1) is Some),
        subst_fields(x, n, r, s) matches Some(s2) ==> s2.len() == s.len() && (forall|i: int|
            0 <= i < s.len() ==> s2[i].0 == s[i].0 && Some(s2[i].1) == spec_subst(
                x,
                n,
                r,
                s[i].1,
            )),
    decreases s.len(),
{
    if s.len() > 0 {
        lemma_subst_fields_elem(x, n, r, s.drop_first());
        assert(forall|i: int| 1 <= i < s.len() ==> s.drop_first()[i - 1] == s[i]);
        match (spec_subst(x, n, r, s[0].1), subst_fields(x, n, r, s.drop_first())) {
            (Some(h), Some(rest)) => {
                assert(forall|i: int|
                    0 <= i < s.len() ==> (seq![(s[0].0, h)] + rest)[i] == (if i == 0 {
                        (s[0].0, h)
                    } else {
                        rest[i - 1]
                    }));
            },
            _ => {},
        }
    }
}

/// The substitution under one chunk, if it is defined.
pub open spec fn subst_chunk1(x: Seq<u8>, n: nat, r: Term, c: TermChunk) -> Option<TermChunk> {
    match c {
        TermChunk::Chars(b) => Some(TermChunk::Chars(b)),
        TermChunk::Interp(e) => match spec_subst(x, n, r, e) {
            Some(e2) => Some(TermChunk::Interp(e2)),
            None => None,
        },
    }
}

/// Elementwise reading of `subst_chunks`.
pub proof fn lemma_subst_chunks_elem(x: Seq<u8>, n: nat, r: Term, s: Seq<TermChunk>)
    ensures
        (subst_chunks(x, n, r, s) is Some) <==> (forall|i: int|
            0 <= i < s.len() ==> subst_chunk1(x, n, r, s[i]) is Some),
        subst_chunks(x, n, r, s) matches Some(s2) ==> s2.len() == s.len() && (forall|i: int|
            0 <= i < s.len() ==> Some(s2[i]) == subst_chunk1(x, n, r, s[i])),
    decreases s.len(),
{
    if s.len() > 0 {
        lemma_subst_chunks_elem(x, n, r, s.drop_first());
        assert(forall|i: int| 1 <= i < s.len() ==> s.drop_first()[i - 1] == s[i]);
        match (subst_chunk1(x, n, r, s[0]), subst_chunks(x, n, r, s.drop_first())) {
            (Some(h), Some(rest)) => {
                assert(forall|i: int|
                    0 <= i < s.len() ==> (seq![h] + rest)[i] == (if i == 0 {
                        h
                    } else {
                        rest[i - 1]
                    }));
            },
            _ => {},
        }
    }
}

/// Recursive worker for `subst`: total, returning `None` exactly where
/// `spec_subst` is undefined on the machine.
fn subst_term(x: &Vec<u8>, n: usize, r: &Expr, e: &Expr) -> (res: Option<Expr>)
    ensures
        res_term(res) == spec_subst(x@, n as nat, r@, e@),
    decreases *e,
{
    match e {
        Expr::Const(c) => Some(Expr::Const(*c)),
        Expr::Var(v) => {
            if eq_bytes(&v.0, x) && v.1 == n {
                Some(dup(r))
            } else {
                Some(Expr::Var(dup_v(v)))
            }
        },
        Expr::Lam(y, ta, b) => {
            let same = eq_bytes(y, x);
            if same && n == usize::MAX {
                None
            } else {
                let n2: usize = if same {
                    n + 1
                } else {
                    n
                };
                match shift_term(1, y, 0, r) {
                    Some(r2) => match (subst_term(x, n, r, &**ta), subst_term(x, n2, &r2, &**b)) {
                        (Some(ta2), Some(b2)) => Some(Expr::Lam(dup_bytes(y), bx(ta2), bx(b2))),
                        _ => None,
                    },
                    None => None,
                }
            }
        },
        Expr::Pi(y, ta, tb) => {
            let same = eq_bytes(y, x);
            if same && n == usize::MAX {
                None
            } else {
                let n2: usize = if same {
                    n + 1
                } else {
                    n
                };
                match shift_term(1, y, 0, r) {
                    Some(r2) => match (subst_term(x, n, r, &**ta), subst_term(x, n2, &r2, &**tb)) {
                        (Some(ta2), Some(tb2)) => Some(Expr::Pi(dup_bytes(y), bx(ta2), bx(tb2))),
                        _ => None,
                    },
                    None => None,
                }
            }
        },
        Expr::App(f, a) => match (subst_term(x, n, r, &**f), subst_term(x, n, r, &**a)) {
            (Some(f2), Some(a2)) => Some(Expr::App(bx(f2), bx(a2))),
            _ => None,
        },
        Expr::Let(y, ta, r0, b) => {
            let same = eq_bytes(y, x);
            if same && n == usize::MAX {
                None
            } else {
                let n2: usize = if same {
                    n + 1
                } else {
                    n
                };
                match shift_term(1, y, 0, r) {
                    Some(r2) => match (
                        subst_opt_e(x, n2, &r2, ta),
                        subst_term(x, n, r, &**r0),
                        subst_term(x, n2, &r2, &**b),
                    ) {
                        (Some(ta2), Some(rhs2), Some(b2)) => Some(
                            Expr::Let(dup_bytes(y), ta2, bx(rhs2), bx(b2)),
                        ),
                        _ => None,
                    },
                    None => None,
                }
            }
        },
        Expr::Annot(a, tt) => match (subst_term(x, n, r, &**a), subst_term(x, n, r, &**tt)) {
            (Some(a2), Some(t2)) => Some(Expr::Annot(bx(a2), bx(t2))),
            _ => None,
        },
        Expr::Builtin(b) => Some(Expr::Builtin(*b)),
        Expr::BoolLit(b) => Some(Expr::BoolLit(*b)),
        Expr::BoolIf(c, tb, fb) => match (
            subst_term(x, n, r, &**c),
            subst_term(x, n, r, &**tb),
            subst_term(x, n, r, &**fb),
        ) {
            (Some(c2), Some(t2), Some(f2)) => Some(Expr::BoolIf(bx(c2), bx(t2), bx(f2))),
            _ => None,
        },
        Expr::NaturalLit(k) => Some(Expr::NaturalLit(*k)),
        Expr::IntegerLit(k) => Some(Expr::IntegerLit(*k)),
        Expr::DoubleLit(k) => Some(Expr::DoubleLit(*k)),
        Expr::TextLit(cs) => match subst_chunk_list(x, n, r, cs) {
            Some(cs2) => Some(Expr::TextLit(cs2)),
            None => None,
        },
        Expr::BinOp(op, a, b) => match (subst_term(x, n, r, &**a), subst_term(x, n, r, &**b)) {
            (Some(a2), Some(b2)) => Some(Expr::BinOp(*op, bx(a2), bx(b2))),
            _ => None,
        },
        Expr::ListLit(ta, es) => match (subst_opt_e(x, n, r, ta), subst_expr_list(x, n, r, es)) {
            (Some(ta2), Some(es2)) => Some(Expr::ListLit(ta2, es2)),
            _ => None,
        },
        Expr::OptionalLit(ta, i) => match (subst_opt_e(x, n, r, ta), subst_opt_e(x, n, r, i)) {
            (Some(ta2), Some(i2)) => Some(Expr::OptionalLit(ta2, i2)),
            _ => None,
        },
        Expr::Record(fs) => match subst_field_list(x, n, r, fs) {
            Some(fs2) => Some(Expr::Record(fs2)),
            None => None,
        },
        Expr::RecordLit(fs) => match subst_field_list(x, n, r, fs) {
            Some(fs2) => Some(Expr::RecordLit(fs2)),
            None => None,
        },
        Expr::Union(fs) => match subst_field_list(x, n, r, fs) {
            Some(fs2) => Some(Expr::Union(fs2)),
            None => None,
        },
        Expr::UnionLit(y, v, fs) => match (
            subst_term(x, n, r, &**v),
            subst_field_list(x, n, r, fs),
        ) {
            (Some(v2), Some(fs2)) => Some(Expr::UnionLit(dup_bytes(y), bx(v2), fs2)),
            _ => None,
        },
        Expr::Merge(h, s, ta) => match (
            subst_term(x, n, r, &**h),
            subst_term(x, n, r, &**s),
            subst_opt_e(x, n, r, ta),
        ) {
            (Some(h2), Some(s2), Some(ta2)) => Some(Expr::Merge(bx(h2), bx(s2), ta2)),
            _ => None,
        },
        Expr::Field(r0, y) => match subst_term(x, n, r, &**r0) {
            Some(r2) => Some(Expr::Field(bx(r2), dup_bytes(y))),
            None => None,
        },
        Expr::Note(p, q, inner) => match subst_term(x, n, r, &**inner) {
            Some(i2) => Some(Expr::Note(*p, *q, bx(i2))),
            None => None,
        },
        Expr::Embed(i) => Some(Expr::Embed(dup_import(i))),
    }
}

/// `subst_term` on an optional child.
fn subst_opt_e(x: &Vec<u8>, n: usize, r: &Expr, o: &Option<Box<Expr>>) -> (res: Option<
    Option<Box<Expr>>,
>)
    ensures
        res_opt(res) == subst_opt_child(x@, n as nat, r@, opt_term_of(*o)),
    decreases *o,
{
    match o {
        Some(b) => match subst_term(x, n, r, &**b) {
            Some(b2) => Some(Some(bx(b2))),
            None => None,
        },
        None => Some(None),
    }
}

/// `subst_term` on each element of a list.
#[verifier::rlimit(50)]
fn subst_expr_list(x: &Vec<u8>, n: usize, r: &Expr, es: &Vec<Expr>) -> (res: Option<Vec<Expr>>)
    ensures
        res_terms(res) == subst_terms(x@, n as nat, r@, terms_of(es@)),
    decreases *es,
{
    proof {
        lemma_terms_of(es@);
    }
    let ghost s = terms_of(es@);
    let mut out: Vec<Expr> = Vec::new();
    let mut i: usize = 0;
    while i < es.len()
        invariant
            i <= es.len(),
            out@.len() == i as int,
            s == terms_of(es@),
            s.len() == es@.len(),
            forall|j: int| 0 <= j < es@.len() ==> s[j] == es@[j]@,
            forall|j: int| 0 <= j < i ==> Some(out@[j]@) == spec_subst(x@, n as nat, r@, s[j]),
        decreases es@.len() - i,
    {
        match subst_term(x, n, r, &es[i]) {
            Some(e2) => {
                out.push(e2);
            },
            None => {
                proof {
                    lemma_subst_terms_elem(x@, n as nat, r@, s);
                    match subst_terms(x@, n as nat, r@, s) {
                        Some(s2) => {
                            assert(Some(s2[i as int]) == spec_subst(
                                x@,
                                n as nat,
                                r@,
                                s[i as int],
                            ));
                            assert(false);
                        },
                        None => {},
                    }
                }
                return None;
            },
        }
        i += 1;
    }
    proof {
        lemma_terms_of(out@);
        lemma_subst_terms_elem(x@, n as nat, r@, s);
        match subst_terms(x@, n as nat, r@, s) {
            Some(s2) => {
                assert(terms_of(out@) =~= s2);
            },
            None => {
                assert(false);
            },
        }
    }
    Some(out)
}

/// `subst_term` on each field value of a field list.
#[verifier::rlimit(50)]
fn subst_field_list(x: &Vec<u8>, n: usize, r: &Expr, fs: &Vec<(Label, Expr)>) -> (res: Option<
    Vec<(Label, Expr)>,
>)
    ensures
        res_fields(res) == subst_fields(x@, n as nat, r@, fields_of(fs@)),
    decreases *fs,
{
    proof {
        lemma_fields_of(fs@);
    }
    let ghost s = fields_of(fs@);
    let mut out: Vec<(Label, Expr)> = Vec::new();
    let mut i: usize = 0;
    while i < fs.len()
        invariant
            i <= fs.len(),
            out@.len() == i as int,
            s == fields_of(fs@),
            s.len() == fs@.len(),
            forall|j: int| 0 <= j < fs@.len() ==> s[j] == ((fs@[j].0@, fs@[j].1@)),
            forall|j: int|
                0 <= j < i ==> out@[j].0@ == s[j].0 && Some(out@[j].1@) == spec_subst(
                    x@,
                    n as nat,
                    r@,
                    s[j].1,
                ),
        decreases fs@.len() - i,
    {
        let p = &fs[i];
        match subst_term(x, n, r, &p.1) {
            Some(e2) => {
                out.push((dup_bytes(&p.0), e2));
            },
            None => {
                proof {
                    lemma_subst_fields_elem(x@, n as nat, r@, s);
                    match subst_fields(x@, n as nat, r@, s) {
                        Some(s2) => {
                            assert(Some(s2[i as int].1) == spec_subst(
                                x@,
                                n as nat,
                                r@,
                                s[i as int].1,
                            ));
                            assert(false);
                        },
                        None => {},
                    }
                }
                return None;
            },
        }
        i += 1;
    }
    proof {
        lemma_fields_of(out@);
        lemma_subst_fields_elem(x@, n as nat, r@, s);
        match subst_fields(x@, n as nat, r@, s) {
            Some(s2) => {
                assert(fields_of(out@) =~= s2);
            },
            None => {
                assert(false);
            },
        }
    }
    Some(out)
}

/// `subst_term` under each hole of a chunk list.
#[verifier::rlimit(50)]
fn subst_chunk_list(x: &Vec<u8>, n: usize, r: &Expr, cs: &Vec<TextChunk>) -> (res: Option<
    Vec<TextChunk>,
>)
    ensures
        res_chunks(res) == subst_chunks(x@, n as nat, r@, chunks_of(cs@)),
    decreases *cs,
{
    proof {
        lemma_chunks_of(cs@);
    }
    let ghost s = chunks_of(cs@);
    let mut out: Vec<TextChunk> = Vec::new();
    let mut i: usize = 0;
    while i < cs.len()
        invariant
            i <= cs.len(),
            out@.len() == i as int,
            s == chunks_of(cs@),
            s.len() == cs@.len(),
            forall|j: int| 0 <= j < cs@.len() ==> s[j] == chunk_term(cs@[j]),
            forall|j: int|
                0 <= j < i ==> Some(chunk_term(out@[j])) == subst_chunk1(x@, n as nat, r@, s[j]),
        decreases cs@.len() - i,
    {
        match &cs[i] {
            TextChunk::Chars(b) => {
                out.push(TextChunk::Chars(dup_bytes(b)));
            },
            TextChunk::Interp(e) => match subst_term(x, n, r, &**e) {
                Some(e2) => {
                    out.push(TextChunk::Interp(bx(e2)));
                },
                None => {
                    proof {
                        lemma_subst_chunks_elem(x@, n as nat, r@, s);
                        match subst_chunks(x@, n as nat, r@, s) {
                            Some(s2) => {
                                assert(Some(s2[i as int]) == subst_chunk1(
                                    x@,
                                    n as nat,
                                    r@,
                                    s[i as int],
                                ));
                                assert(false);
                            },
                            None => {},
                        }
                    }
                    return None;
                },
            },
        }
        i += 1;
    }
    proof {
        lemma_chunks_of(out@);
        lemma_subst_chunks_elem(x@, n as nat, r@, s);
        match subst_chunks(x@, n as nat, r@, s) {
            Some(s2) => {
                assert(chunks_of(out@) =~= s2);
            },
            None => {
                assert(false);
            },
        }
    }
    Some(out)
}

/// Replace every free occurrence of the variable `v` in `e` by `r`.
/// The precondition rules out the inputs on which an internal shift would
/// leave the machine's index range; `subst_checked` is the total variant.
pub fn subst(v: &V, r: &Expr, e: &Expr) -> (res: Expr)
    requires
        spec_subst(v.0@, v.1 as nat, r@, e@) is Some,
    ensures
        Some(res@) == spec_subst(v.0@, v.1 as nat, r@, e@),
{
    match subst_term(&v.0, v.1, r, e) {
        Some(res) => res,
        None => unreached(),
    }
}

/// Total variant of `subst`: `None` exactly on the inputs where an internal
/// shift would leave the machine's index range.
pub fn subst_checked(v: &V, r: &Expr, e: &Expr) -> (res: Option<Expr>)
    ensures
        res_term(res) == spec_subst(v.0@, v.1 as nat, r@, e@),
{
    subst_term(&v.0, v.1, r, e)
}

} // verus!
