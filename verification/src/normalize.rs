//! The normalizer: beta reduction, `let` expansion, built-in rewrite rules
//! for `Natural`, `List`, `Optional`, booleans, records and unions, applied
//! by recursive descent.
//!
//! The reduction relation is stated by `spec_norm`, a fueled function on
//! the ghost model: one unit of fuel is spent on every step that rewrites a
//! redex into a fresh term (beta, `let`, a built-in rule firing). `None`
//! means the fuel ran out, or an index underflow or overflow made a shift
//! impossible; the executable `normalize` then returns its input unchanged,
//! so it is total and never panics.
use vstd::prelude::*;

use crate::ast::{
    bx, chunk_term, chunks_of, dup, dup_bytes, dup_import, dup_opt, dup_v, eq_bytes, fields_of,
    lemma_chunks_of,
    lemma_fields_of, lemma_terms_of, lemma_view_variant, lex_lt, lt_bytes, opt_term_of, res_chunks, res_fields,
    res_opt, res_term, res_terms, term_of, terms_of, BinOp, Builtin, Expr, Label, Term,
    TermChunk, TextChunk, V,
};
use crate::binding::{spec_shift, spec_subst, shift_checked, subst_checked};

verus! {

/// Size of a term: the number of its constructors, at least one.
pub open spec fn t_size(t: Term) -> nat
    decreases t, 1int,
{
    match t {
        Term::Const(_) => 1,
        Term::Var(_, _) => 1,
        Term::Lam(_, ta, b) => 1 + t_size(*ta) + t_size(*b),
        Term::Pi(_, ta, tb) => 1 + t_size(*ta) + t_size(*tb),
        Term::App(f, a) => 1 + t_size(*f) + t_size(*a),
        Term::Let(_, ta, r, b) => 1 + opt_size(ta) + t_size(*r) + t_size(*b),
        Term::Annot(a, tt) => 1 + t_size(*a) + t_size(*tt),
        Term::Builtin(_) => 1,
        Term::BoolLit(_) => 1,
        Term::BoolIf(c, tb, fb) => 1 + t_size(*c) + t_size(*tb) + t_size(*fb),
        Term::NaturalLit(_) => 1,
        Term::IntegerLit(_) => 1,
        Term::DoubleLit(_) => 1,
        Term::TextLit(cs) => 1 + cs_size(cs),
        Term::BinOp(_, a, b) => 1 + t_size(*a) + t_size(*b),
        Term::ListLit(ta, es) => 1 + opt_size(ta) + ts_size(es),
        Term::OptionalLit(ta, i) => 1 + opt_size(ta) + opt_size(i),
        Term::Record(fs) => 1 + fs_size(fs),
        Term::RecordLit(fs) => 1 + fs_size(fs),
        Term::Union(fs) => 1 + fs_size(fs),
        Term::UnionLit(_, v, fs) => 1 + t_size(*v) + fs_size(fs),
        Term::Merge(h, s, ta) => 1 + t_size(*h) + t_size(*s) + opt_size(ta),
        Term::Field(r, _) => 1 + t_size(*r),
        Term::Note(_, _, inner) => 1 + t_size(*inner),
        Term::Embed(_) => 1,
    }
}

/// Size of an optional child.
pub open spec fn opt_size(o: Option<Box<Term>>) -> nat
    decreases o, 1int,
{
    match o {
        Some(b) => t_size(*b),
        None => 0,
    }
}

/// Size of a term sequence.
pub open spec fn ts_size(s: Seq<Term>) -> nat
    decreases s, 0int,
{
    if s.len() == 0 {
        0
    } else {
        t_size(s[0]) + ts_size(s.drop_first())
    }
}

/// Size of a field list.
pub open spec fn fs_size(s: Seq<(Seq<u8>, Term)>) -> nat
    decreases s, 0int,
{
    if s.len() == 0 {
        0
    } else {
        t_size(s[0].1) + fs_size(s.drop_first())
    }
}

/// Size of a chunk list.
pub open spec fn cs_size(s: Seq<TermChunk>) -> nat
    decreases s, 0int,
{
    if s.len() == 0 {
        0
    } else {
        (match s[0] {
            TermChunk::Chars(_) => 1,
            TermChunk::Interp(e) => t_size(e),
        }) + cs_size(s.drop_first())
    }
}

/// Recursive merge of two field lists, both ordered by label: on a
/// collision the values are combined recursively by `spec_combine`.
pub open spec fn combine_fields(
    kind: BinOp,
    a: Seq<(Seq<u8>, Term)>,
    b: Seq<(Seq<u8>, Term)>,
) -> Seq<(Seq<u8>, Term)>
    decreases fs_size(a) + fs_size(b), 1int, a.len() + b.len(),
{
    if a.len() == 0 {
        b
    } else if b.len() == 0 {
        a
    } else if a[0].0 == b[0].0 {
        seq![(a[0].0, spec_combine(kind, a[0].1, b[0].1))] + combine_fields(
            kind,
            a.drop_first(),
            b.drop_first(),
        )
    } else if lex_lt(a[0].0, b[0].0) {
        seq![a[0]] + combine_fields(kind, a.drop_first(), b)
    } else {
        seq![b[0]] + combine_fields(kind, a, b.drop_first())
    }
}

/// One step of the `∧` / `⩓` rules: two record literals (for `Combine`) or
/// two record types (for `CombineTypes`) merge recursively; anything else
/// is left as an operator node.
pub open spec fn spec_combine(kind: BinOp, x: Term, y: Term) -> Term
    decreases t_size(x) + t_size(y), 0int, 0int,
{
    if kind == BinOp::Combine {
        match (x, y) {
            (Term::RecordLit(fa), Term::RecordLit(fb)) => Term::RecordLit(
                combine_fields(kind, fa, fb),
            ),
            _ => Term::BinOp(kind, Box::new(x), Box::new(y)),
        }
    } else {
        match (x, y) {
            (Term::Record(fa), Term::Record(fb)) => Term::Record(combine_fields(kind, fa, fb)),
            _ => Term::BinOp(kind, Box::new(x), Box::new(y)),
        }
    }
}

/// Right-biased merge of two field lists ordered by label: the `⫽` rule.
pub open spec fn prefer_fields(a: Seq<(Seq<u8>, Term)>, b: Seq<(Seq<u8>, Term)>) -> Seq<
    (Seq<u8>, Term),
>
    decreases a.len() + b.len(),
{
    if a.len() == 0 {
        b
    } else if b.len() == 0 {
        a
    } else if a[0].0 == b[0].0 {
        seq![b[0]] + prefer_fields(a.drop_first(), b.drop_first())
    } else if lex_lt(a[0].0, b[0].0) {
        seq![a[0]] + prefer_fields(a.drop_first(), b)
    } else {
        seq![b[0]] + prefer_fields(a, b.drop_first())
    }
}

/// Concatenation of two interpolated texts, merging the raw-text chunks
/// that meet at the boundary.
pub open spec fn text_concat(a: Seq<TermChunk>, b: Seq<TermChunk>) -> Seq<TermChunk> {
    if a.len() > 0 && b.len() > 0 {
        match (a.last(), b[0]) {
            (TermChunk::Chars(la), TermChunk::Chars(lb)) => a.drop_last() + seq![
                TermChunk::Chars(la + lb),
            ] + b.drop_first(),
            _ => a + b,
        }
    } else {
        a + b
    }
}

/// The operator rules on two already-normalized operands: each operator
/// reduces when the operands have the matching literal shapes and is
/// otherwise preserved. Natural arithmetic reduces only when the exact
/// result fits in 64 bits.
pub open spec fn spec_binop(op: BinOp, x: Term, y: Term) -> Term {
    match op {
        BinOp::BoolAnd => match (x, y) {
            (Term::BoolLit(a), Term::BoolLit(b)) => Term::BoolLit(a && b),
            _ => Term::BinOp(op, Box::new(x), Box::new(y)),
        },
        BinOp::BoolOr => match (x, y) {
            (Term::BoolLit(a), Term::BoolLit(b)) => Term::BoolLit(a || b),
            _ => Term::BinOp(op, Box::new(x), Box::new(y)),
        },
        BinOp::BoolEQ => match (x, y) {
            (Term::BoolLit(a), Term::BoolLit(b)) => Term::BoolLit(a == b),
            _ => Term::BinOp(op, Box::new(x), Box::new(y)),
        },
        BinOp::BoolNE => match (x, y) {
            (Term::BoolLit(a), Term::BoolLit(b)) => Term::BoolLit(a != b),
            _ => Term::BinOp(op, Box::new(x), Box::new(y)),
        },
        BinOp::NaturalPlus => match (x, y) {
            (Term::NaturalLit(a), Term::NaturalLit(b)) => if a + b <= u64::MAX {
                Term::NaturalLit((a + b) as u64)
            } else {
                Term::BinOp(op, Box::new(x), Box::new(y))
            },
            _ => Term::BinOp(op, Box::new(x), Box::new(y)),
        },
        BinOp::NaturalTimes => match (x, y) {
            (Term::NaturalLit(a), Term::NaturalLit(b)) => if a * b <= u64::MAX {
                Term::NaturalLit((a * b) as u64)
            } else {
                Term::BinOp(op, Box::new(x), Box::new(y))
            },
            _ => Term::BinOp(op, Box::new(x), Box::new(y)),
        },
        BinOp::TextAppend => match (x, y) {
            (Term::TextLit(a), Term::TextLit(b)) => Term::TextLit(text_concat(a, b)),
            _ => Term::BinOp(op, Box::new(x), Box::new(y)),
        },
        BinOp::ListAppend => match (x, y) {
            (Term::ListLit(ta, xs), Term::ListLit(tb, ys)) => Term::ListLit(
                if ta is Some {
                    ta
                } else {
                    tb
                },
                xs + ys,
            ),
            _ => Term::BinOp(op, Box::new(x), Box::new(y)),
        },
        BinOp::Combine => spec_combine(BinOp::Combine, x, y),
        BinOp::CombineTypes => spec_combine(BinOp::CombineTypes, x, y),
        BinOp::Prefer => match (x, y) {
            (Term::RecordLit(fa), Term::RecordLit(fb)) => Term::RecordLit(
                prefer_fields(fa, fb),
            ),
            _ => Term::BinOp(op, Box::new(x), Box::new(y)),
        },
        BinOp::ImportAlt => Term::BinOp(op, Box::new(x), Box::new(y)),
    }
}

/// Look a label up in a field list.
pub open spec fn lookup_field(fs: Seq<(Seq<u8>, Term)>, x: Seq<u8>) -> Option<Term>
    decreases fs.len(),
{
    if fs.len() == 0 {
        None
    } else if fs[0].0 == x {
        Some(fs[0].1)
    } else {
        lookup_field(fs.drop_first(), x)
    }
}

/// The label `Cons`, used by the `List/build` evaluation trick.
pub open spec fn cons_label() -> Seq<u8> {
    seq![67u8, 111u8, 110u8, 115u8]
}

/// The label `Nil`, used by the `List/build` evaluation trick.
pub open spec fn nil_label() -> Seq<u8> {
    seq![78u8, 105u8, 108u8]
}

/// The label `x`, used as the binder of internally built lambdas.
pub open spec fn x_label() -> Seq<u8> {
    seq![120u8]
}

/// Decode a `Cons`/`Nil` spine produced by evaluating a `List/build`
/// argument: `Cons h t` becomes an element, `Nil` ends the list.
pub open spec fn spine_items(t: Term) -> Option<Seq<Term>>
    decreases t,
{
    match t {
        Term::Var(name, _) => if name == nil_label() {
            Some(Seq::empty())
        } else {
            None
        },
        Term::App(f, rest) => match *f {
            Term::App(c, x) => match *c {
                Term::Var(name, _) => if name == cons_label() {
                    match spine_items(*rest) {
                        Some(items) => Some(seq![*x] + items),
                        None => None,
                    }
                } else {
                    None
                },
                _ => None,
            },
            _ => None,
        },
        _ => None,
    }
}

/// `succ` applied `n` times to `zero`.
pub open spec fn iter_succ(succ: Term, zero: Term, n: nat) -> Term
    decreases n,
{
    if n == 0 {
        zero
    } else {
        Term::App(Box::new(succ), Box::new(iter_succ(succ, zero, (n - 1) as nat)))
    }
}

/// The right fold of `cons` over `xs` ending in `nil`.
pub open spec fn fold_list(cons: Term, xs: Seq<Term>, nil: Term) -> Term
    decreases xs.len(),
{
    if xs.len() == 0 {
        nil
    } else {
        Term::App(
            Box::new(Term::App(Box::new(cons), Box::new(xs[0]))),
            Box::new(fold_list(cons, xs.drop_first(), nil)),
        )
    }
}

/// The digits of `n` in decimal.
pub open spec fn nat_digits(n: nat) -> Seq<u8>
    decreases n,
{
    if n < 10 {
        seq![(48 + n) as u8]
    } else {
        nat_digits(n / 10) + seq![(48 + n % 10) as u8]
    }
}

/// Decimal digits of a natural number as a text literal.
pub open spec fn show_natural(n: u64) -> Term {
    Term::TextLit(seq![TermChunk::Chars(nat_digits(n as nat))])
}

/// The fused argument of the build/fold collapses, when the pair of an
/// already-normalized function and argument matches one: `b ∘ f` and
/// `f ∘ b` collapse to the inner expression, for `List`, `Natural` and
/// `Optional`.
pub open spec fn fusion_body(nf: Term, na: Term) -> Option<Term> {
    match (nf, na) {
        (Term::Builtin(bf), Term::App(g, e2)) => match *g {
            Term::Builtin(bg) => {
                if bf == Builtin::NaturalBuild && bg == Builtin::NaturalFold {
                    Some(*e2)
                } else if bf == Builtin::NaturalFold && bg == Builtin::NaturalBuild {
                    Some(*e2)
                } else {
                    None
                }
            },
            _ => None,
        },
        (Term::App(bf, _), Term::App(g, e2)) => match (*bf, *g) {
            (Term::Builtin(hb), Term::App(g2, _)) => match *g2 {
                Term::Builtin(hg) => {
                    if hb == Builtin::ListBuild && hg == Builtin::ListFold {
                        Some(*e2)
                    } else if hb == Builtin::ListFold && hg == Builtin::ListBuild {
                        Some(*e2)
                    } else if hb == Builtin::OptionalBuild && hg == Builtin::OptionalFold {
                        Some(*e2)
                    } else if hb == Builtin::OptionalFold && hg == Builtin::OptionalBuild {
                        Some(*e2)
                    } else {
                        None
                    }
                },
                _ => None,
            },
            _ => None,
        },
        _ => None,
    }
}

/// The unary `Natural` rules on a literal argument; `Natural/toInteger`
/// reduces only when the value fits in the integer type.
pub open spec fn natural_unary(nf: Term, na: Term) -> Option<Term> {
    match (nf, na) {
        (Term::Builtin(b), Term::NaturalLit(n)) => match b {
            Builtin::NaturalIsZero => Some(Term::BoolLit(n == 0)),
            Builtin::NaturalEven => Some(Term::BoolLit(n % 2 == 0)),
            Builtin::NaturalOdd => Some(Term::BoolLit(n % 2 != 0)),
            Builtin::NaturalToInteger => if n <= i64::MAX as u64 {
                Some(Term::IntegerLit(n as i64))
            } else {
                None
            },
            Builtin::NaturalShow => Some(show_natural(n)),
            _ => None,
        },
        _ => None,
    }
}

/// The term a full `Natural/fold n A succ zero` application unfolds to.
pub open spec fn natural_fold_body(nf: Term, na: Term) -> Option<Term> {
    match nf {
        Term::App(s3, succ) => match *s3 {
            Term::App(s2, _) => match *s2 {
                Term::App(s1, nlit) => match (*s1, *nlit) {
                    (Term::Builtin(b), Term::NaturalLit(n)) => if b == Builtin::NaturalFold {
                        Some(iter_succ(*succ, na, n as nat))
                    } else {
                        None
                    },
                    _ => None,
                },
                _ => None,
            },
            _ => None,
        },
        _ => None,
    }
}

/// The term a `Natural/build g` application evaluates internally:
/// `g Natural (λ(x : Natural) → x + 1) 0`.
pub open spec fn natural_build_probe(g: Term) -> Term {
    Term::App(
        Box::new(
            Term::App(
                Box::new(Term::App(Box::new(g), Box::new(Term::Builtin(Builtin::Natural)))),
                Box::new(
                    Term::Lam(
                        x_label(),
                        Box::new(Term::Builtin(Builtin::Natural)),
                        Box::new(
                            Term::BinOp(
                                BinOp::NaturalPlus,
                                Box::new(Term::Var(x_label(), 0)),
                                Box::new(Term::NaturalLit(1)),
                            ),
                        ),
                    ),
                ),
            ),
        ),
        Box::new(Term::NaturalLit(0)),
    )
}

/// The term a `List/build A g` application evaluates internally:
/// `g (List A) Cons Nil` with free `Cons`/`Nil` markers.
pub open spec fn list_build_probe(ta: Term, g: Term) -> Term {
    Term::App(
        Box::new(
            Term::App(
                Box::new(
                    Term::App(
                        Box::new(g),
                        Box::new(
                            Term::App(
                                Box::new(Term::Builtin(Builtin::List)),
                                Box::new(ta),
                            ),
                        ),
                    ),
                ),
                Box::new(Term::Var(cons_label(), 0)),
            ),
        ),
        Box::new(Term::Var(nil_label(), 0)),
    )
}

/// The term an `Optional/build A g` application unfolds to:
/// `g (Optional A) (λ(x : A) → [x] : Optional A) ([] : Optional A)`.
pub open spec fn optional_build_body(ta: Term, g: Term) -> Term {
    Term::App(
        Box::new(
            Term::App(
                Box::new(
                    Term::App(
                        Box::new(g),
                        Box::new(
                            Term::App(
                                Box::new(Term::Builtin(Builtin::Optional)),
                                Box::new(ta),
                            ),
                        ),
                    ),
                ),
                Box::new(
                    Term::Lam(
                        x_label(),
                        Box::new(ta),
                        Box::new(
                            Term::OptionalLit(
                                Some(Box::new(ta)),
                                Some(Box::new(Term::Var(x_label(), 0))),
                            ),
                        ),
                    ),
                ),
            ),
        ),
        Box::new(Term::OptionalLit(Some(Box::new(ta)), None)),
    )
}

/// The term a full `List/fold A xs B cons nil` application unfolds to.
pub open spec fn list_fold_body(nf: Term, na: Term) -> Option<Term> {
    match nf {
        Term::App(s4, cons) => match *s4 {
            Term::App(s3, _) => match *s3 {
                Term::App(s2, lst) => match (*s2, *lst) {
                    (Term::App(s1, _), Term::ListLit(_, xs)) => match *s1 {
                        Term::Builtin(b) => if b == Builtin::ListFold {
                            Some(fold_list(*cons, xs, na))
                        } else {
                            None
                        },
                        _ => None,
                    },
                    _ => None,
                },
                _ => None,
            },
            _ => None,
        },
        _ => None,
    }
}

/// The full `Optional/fold A opt B just nothing` application: `Some` holds
/// the handler application to normalize when the optional holds an item;
/// `None` in the inner option means the fold returns `nothing` as it is.
pub open spec fn optional_fold_body(nf: Term) -> Option<Option<Term>> {
    match nf {
        Term::App(s4, just) => match *s4 {
            Term::App(s3, _) => match *s3 {
                Term::App(s2, opt) => match (*s2, *opt) {
                    (Term::App(s1, _), Term::OptionalLit(_, item)) => match *s1 {
                        Term::Builtin(b) => if b == Builtin::OptionalFold {
                            match item {
                                Some(x) => Some(
                                    Some(Term::App(Box::new(*just), Box::new(*x))),
                                ),
                                None => Some(None),
                            }
                        } else {
                            None
                        },
                        _ => None,
                    },
                    _ => None,
                },
                _ => None,
            },
            _ => None,
        },
        _ => None,
    }
}

/// The record type `{ index : Natural, value : T }` of `List/indexed`.
pub open spec fn indexed_entry_type(tv: Term) -> Term {
    Term::Record(
        seq![
            (index_label(), Term::Builtin(Builtin::Natural)),
            (value_label(), tv),
        ],
    )
}

/// The label `index`.
pub open spec fn index_label() -> Seq<u8> {
    seq![105u8, 110u8, 100u8, 101u8, 120u8]
}

/// The label `value`.
pub open spec fn value_label() -> Seq<u8> {
    seq![118u8, 97u8, 108u8, 117u8, 101u8]
}

/// The element list of `List/indexed`: each item paired with its position.
pub open spec fn indexed_items(xs: Seq<Term>) -> Seq<Term> {
    Seq::new(
        xs.len(),
        |i: int|
            Term::RecordLit(
                seq![
                    (index_label(), Term::NaturalLit(i as u64)),
                    (value_label(), xs[i]),
                ],
            ),
    )
}

/// The unary `List` rules: a builtin applied to a type argument, then to a
/// list literal.
pub open spec fn list_unary(nf: Term, na: Term) -> Option<Term> {
    match (nf, na) {
        (Term::App(f, targ), Term::ListLit(tl, xs)) => match *f {
            Term::Builtin(b) => match b {
                Builtin::ListLength => if xs.len() <= u64::MAX {
                    Some(Term::NaturalLit(xs.len() as u64))
                } else {
                    None
                },
                Builtin::ListHead => Some(
                    Term::OptionalLit(
                        tl,
                        if xs.len() > 0 {
                            Some(Box::new(xs[0]))
                        } else {
                            None
                        },
                    ),
                ),
                Builtin::ListLast => Some(
                    Term::OptionalLit(
                        tl,
                        if xs.len() > 0 {
                            Some(Box::new(xs.last()))
                        } else {
                            None
                        },
                    ),
                ),
                Builtin::ListReverse => Some(Term::ListLit(tl, xs.reverse())),
                Builtin::ListIndexed => if xs.len() <= u64::MAX {
                    Some(
                        Term::ListLit(
                            Some(
                                Box::new(
                                    indexed_entry_type(
                                        match tl {
                                            Some(tv) => *tv,
                                            None => *targ,
                                        },
                                    ),
                                ),
                            ),
                            indexed_items(xs),
                        ),
                    )
                } else {
                    None
                },
                _ => None,
            },
            _ => None,
        },
        _ => None,
    }
}

/// Normal form of a term, by recursive descent, with the given fuel.
/// `None` means the fuel ran out or an index left the machine range; on
/// every other input the result is the normal form.
pub open spec fn spec_norm(t: Term, fuel: nat) -> Option<Term>
    decreases fuel, 1int, t, 1int,
{
    match t {
        Term::Const(_) => Some(t),
        Term::Var(_, _) => Some(t),
        Term::Lam(x, ta, b) => match (spec_norm(*ta, fuel), spec_norm(*b, fuel)) {
            (Some(ta2), Some(b2)) => Some(Term::Lam(x, Box::new(ta2), Box::new(b2))),
            _ => None,
        },
        Term::Pi(x, ta, tb) => match (spec_norm(*ta, fuel), spec_norm(*tb, fuel)) {
            (Some(ta2), Some(tb2)) => Some(Term::Pi(x, Box::new(ta2), Box::new(tb2))),
            _ => None,
        },
        Term::App(f, a) => match spec_norm(*f, fuel) {
            Some(nf) => match nf {
                Term::Lam(x, _, body) => {
                    if fuel == 0 {
                        None
                    } else {
                        match spec_shift(1, x, 0, *a) {
                            Some(a2) => match spec_subst(x, 0, a2, *body) {
                                Some(b2) => match spec_shift(-1, x, 0, b2) {
                                    Some(b3) => spec_norm(b3, (fuel - 1) as nat),
                                    None => None,
                                },
                                None => None,
                            },
                            None => None,
                        }
                    }
                },
                _ => match spec_norm(*a, fuel) {
                    Some(na) => spec_apply(nf, na, fuel),
                    None => None,
                },
            },
            None => None,
        },
        Term::Let(x, _, r, b) => {
            if fuel == 0 {
                None
            } else {
                match spec_shift(1, x, 0, *r) {
                    Some(r2) => match spec_subst(x, 0, r2, *b) {
                        Some(b2) => match spec_shift(-1, x, 0, b2) {
                            Some(b3) => spec_norm(b3, (fuel - 1) as nat),
                            None => None,
                        },
                        None => None,
                    },
                    None => None,
                }
            }
        },
        Term::Annot(a, _) => spec_norm(*a, fuel),
        Term::Builtin(_) => Some(t),
        Term::BoolLit(_) => Some(t),
        Term::BoolIf(c, tb, fb) => match spec_norm(*c, fuel) {
            Some(nc) => match nc {
                Term::BoolLit(bv) => if bv {
                    spec_norm(*tb, fuel)
                } else {
                    spec_norm(*fb, fuel)
                },
                _ => match (spec_norm(*tb, fuel), spec_norm(*fb, fuel)) {
                    (Some(t2), Some(f2)) => Some(
                        Term::BoolIf(Box::new(nc), Box::new(t2), Box::new(f2)),
                    ),
                    _ => None,
                },
            },
            None => None,
        },
        Term::NaturalLit(_) => Some(t),
        Term::IntegerLit(_) => Some(t),
        Term::DoubleLit(_) => Some(t),
        Term::TextLit(cs) => match norm_chunks(cs, fuel) {
            Some(cs2) => Some(Term::TextLit(cs2)),
            None => None,
        },
        Term::BinOp(op, a, b) => match (spec_norm(*a, fuel), spec_norm(*b, fuel)) {
            (Some(a2), Some(b2)) => Some(spec_binop(op, a2, b2)),
            _ => None,
        },
        Term::ListLit(ta, es) => match (norm_opt(ta, fuel), norm_terms(es, fuel)) {
            (Some(ta2), Some(es2)) => Some(Term::ListLit(ta2, es2)),
            _ => None,
        },
        Term::OptionalLit(ta, i) => match (norm_opt(ta, fuel), norm_opt(i, fuel)) {
            (Some(ta2), Some(i2)) => Some(Term::OptionalLit(ta2, i2)),
            _ => None,
        },
        Term::Record(fs) => match norm_fields(fs, fuel) {
            Some(fs2) => Some(Term::Record(fs2)),
            None => None,
        },
        Term::RecordLit(fs) => match norm_fields(fs, fuel) {
            Some(fs2) => Some(Term::RecordLit(fs2)),
            None => None,
        },
        Term::Union(fs) => match norm_fields(fs, fuel) {
            Some(fs2) => Some(Term::Union(fs2)),
            None => None,
        },
        Term::UnionLit(x, v, fs) => match (spec_norm(*v, fuel), norm_fields(fs, fuel)) {
            (Some(v2), Some(fs2)) => Some(Term::UnionLit(x, Box::new(v2), fs2)),
            _ => None,
        },
        Term::Merge(h, s, ta) => match (
            spec_norm(*h, fuel),
            spec_norm(*s, fuel),
            norm_opt(ta, fuel),
        ) {
            (Some(nh), Some(ns), Some(nta)) => match (nh, ns) {
                (Term::RecordLit(kvs), Term::UnionLit(tag, v, alts)) => match lookup_field(
                    kvs,
                    tag,
                ) {
                    Some(handler) => {
                        if fuel == 0 {
                            None
                        } else {
                            spec_norm(
                                Term::App(Box::new(handler), Box::new(*v)),
                                (fuel - 1) as nat,
                            )
                        }
                    },
                    None => Some(
                        Term::Merge(
                            Box::new(Term::RecordLit(kvs)),
                            Box::new(Term::UnionLit(tag, v, alts)),
                            nta,
                        ),
                    ),
                },
                (nh2, ns2) => Some(Term::Merge(Box::new(nh2), Box::new(ns2), nta)),
            },
            _ => None,
        },
        Term::Field(r, y) => match spec_norm(*r, fuel) {
            Some(nr) => match nr {
                Term::RecordLit(kvs) => match lookup_field(kvs, y) {
                    Some(v) => Some(v),
                    None => Some(Term::Field(Box::new(Term::RecordLit(kvs)), y)),
                },
                _ => Some(Term::Field(Box::new(nr), y)),
            },
            None => None,
        },
        Term::Note(_, _, inner) => spec_norm(*inner, fuel),
        Term::Embed(_) => Some(t),
    }
}

/// The rewrite table for an application whose function part is not a
/// lambda, applied to already-normalized `nf` and `na`. Fusion fires
/// first; a pair matching no rule is left as a stuck application.
pub open spec fn spec_apply(nf: Term, na: Term, fuel: nat) -> Option<Term>
    decreases fuel, 0int, na, 1int,
{
    match fusion_body(nf, na) {
        Some(e2) => if fuel == 0 {
            None
        } else {
            spec_norm(e2, (fuel - 1) as nat)
        },
        None => match natural_unary(nf, na) {
            Some(r) => Some(r),
            None => match natural_fold_body(nf, na) {
                Some(body) => if fuel == 0 {
                    None
                } else {
                    spec_norm(body, (fuel - 1) as nat)
                },
                None => if nf == Term::Builtin(Builtin::NaturalBuild) {
                    if fuel == 0 {
                        None
                    } else {
                        match spec_norm(natural_build_probe(na), (fuel - 1) as nat) {
                            Some(r) => match r {
                                Term::NaturalLit(_) => Some(r),
                                _ => Some(Term::App(Box::new(nf), Box::new(na))),
                            },
                            None => None,
                        }
                    }
                } else {
                    spec_apply_list(nf, na, fuel)
                },
            },
        },
    }
}

/// Continuation of the rewrite table: the `List` and `Optional` rules.
pub open spec fn spec_apply_list(nf: Term, na: Term, fuel: nat) -> Option<Term>
    decreases fuel, 0int, na, 0int,
{
    if is_list_build(nf) {
        if fuel == 0 {
            None
        } else {
            match spec_norm(list_build_probe(build_type_arg(nf), na), (fuel - 1) as nat) {
                Some(lab) => match spine_items(lab) {
                    Some(items) => Some(
                        Term::ListLit(Some(Box::new(build_type_arg(nf))), items),
                    ),
                    None => Some(Term::App(Box::new(nf), Box::new(na))),
                },
                None => None,
            }
        }
    } else {
        match list_fold_body(nf, na) {
            Some(body) => if fuel == 0 {
                None
            } else {
                spec_norm(body, (fuel - 1) as nat)
            },
            None => match optional_fold_body(nf) {
                Some(step) => match step {
                    Some(app) => if fuel == 0 {
                        None
                    } else {
                        spec_norm(app, (fuel - 1) as nat)
                    },
                    None => Some(na),
                },
                None => if is_optional_build(nf) {
                    if fuel == 0 {
                        None
                    } else {
                        spec_norm(optional_build_body(build_type_arg(nf), na), (fuel - 1) as nat)
                    }
                } else {
                    match list_unary(nf, na) {
                        Some(r) => Some(r),
                        None => Some(Term::App(Box::new(nf), Box::new(na))),
                    }
                },
            },
        }
    }
}

/// Whether `nf` is `List/build` applied to a type argument.
pub open spec fn is_list_build(nf: Term) -> bool {
    match nf {
        Term::App(f, _) => *f == Term::Builtin(Builtin::ListBuild),
        _ => false,
    }
}

/// Whether `nf` is `Optional/build` applied to a type argument.
pub open spec fn is_optional_build(nf: Term) -> bool {
    match nf {
        Term::App(f, _) => *f == Term::Builtin(Builtin::OptionalBuild),
        _ => false,
    }
}

/// The type argument of a one-argument application.
pub open spec fn build_type_arg(nf: Term) -> Term {
    match nf {
        Term::App(_, targ) => *targ,
        _ => nf,
    }
}

/// `spec_norm` on an optional child.
pub open spec fn norm_opt(o: Option<Box<Term>>, fuel: nat) -> Option<Option<Box<Term>>>
    decreases fuel, 1int, o, 1int,
{
    match o {
        Some(b) => match spec_norm(*b, fuel) {
            Some(b2) => Some(Some(Box::new(b2))),
            None => None,
        },
        None => Some(None),
    }
}

/// `spec_norm` on each element of a sequence.
pub open spec fn norm_terms(s: Seq<Term>, fuel: nat) -> Option<Seq<Term>>
    decreases fuel, 1int, s, 0int,
{
    if s.len() == 0 {
        Some(Seq::empty())
    } else {
        match (spec_norm(s[0], fuel), norm_terms(s.drop_first(), fuel)) {
            (Some(h), Some(rest)) => Some(seq![h] + rest),
            _ => None,
        }
    }
}

/// `spec_norm` on each field value of a field list.
pub open spec fn norm_fields(s: Seq<(Seq<u8>, Term)>, fuel: nat) -> Option<Seq<(Seq<u8>, Term)>>
    decreases fuel, 1int, s, 0int,
{
    if s.len() == 0 {
        Some(Seq::empty())
    } else {
        match (spec_norm(s[0].1, fuel), norm_fields(s.drop_first(), fuel)) {
            (Some(h), Some(rest)) => Some(seq![(s[0].0, h)] + rest),
            _ => None,
        }
    }
}

/// The normalization of one chunk, if it is defined.
pub open spec fn norm_chunk1(c: TermChunk, fuel: nat) -> Option<TermChunk>
    decreases fuel, 1int, c, 1int,
{
    match c {
        TermChunk::Chars(b) => Some(TermChunk::Chars(b)),
        TermChunk::Interp(e) => match spec_norm(e, fuel) {
            Some(e2) => Some(TermChunk::Interp(e2)),
            None => None,
        },
    }
}

/// `spec_norm` under each hole of a chunk list.
pub open spec fn norm_chunks(s: Seq<TermChunk>, fuel: nat) -> Option<Seq<TermChunk>>
    decreases fuel, 1int, s, 0int,
{
    if s.len() == 0 {
        Some(Seq::empty())
    } else {
        match (norm_chunk1(s[0], fuel), norm_chunks(s.drop_first(), fuel)) {
            (Some(h), Some(rest)) => Some(seq![h] + rest),
            _ => None,
        }
    }
}

/// Skipping past a mismatching head does not change a lookup.
proof fn lemma_lookup_skip_step(s: Seq<(Seq<u8>, Term)>, x: Seq<u8>, i: int)
    requires
        0 <= i < s.len(),
        s[i].0 != x,
    ensures
        lookup_field(s.skip(i), x) == lookup_field(s.skip(i + 1), x),
{
    assert(s.skip(i)[0] == s[i]);
    assert(s.skip(i).drop_first() =~= s.skip(i + 1));
}

/// Find the first field with the given label; `None` when no field has it.
pub fn lookup_idx(fs: &Vec<(Label, Expr)>, x: &Vec<u8>) -> (r: Option<usize>)
    ensures
        r matches Some(i) ==> i < fs@.len() && fs@[i as int].0@ == x@ && lookup_field(
            fields_of(fs@),
            x@,
        ) == Some(fs@[i as int].1@),
        r is None ==> lookup_field(fields_of(fs@), x@) is None,
{
    proof {
        lemma_fields_of(fs@);
    }
    let ghost s = fields_of(fs@);
    proof {
        assert(s.skip(0) =~= s);
    }
    let mut i: usize = 0;
    while i < fs.len()
        invariant
            i <= fs.len(),
            s == fields_of(fs@),
            s.len() == fs@.len(),
            forall|j: int| 0 <= j < fs@.len() ==> s[j] == ((fs@[j].0@, fs@[j].1@)),
            lookup_field(s.skip(i as int), x@) == lookup_field(s, x@),
        decreases fs@.len() - i,
    {
        if eq_bytes(&fs[i].0, x) {
            proof {
                assert(s.skip(i as int)[0] == s[i as int]);
            }
            return Some(i);
        }
        proof {
            lemma_lookup_skip_step(s, x@, i as int);
        }
        i += 1;
    }
    proof {
        assert(s.skip(s.len() as int) =~= Seq::empty());
    }
    None
}

/// Copy the tail of a field list, from position `i` on.
fn dup_fields_from(fs: &Vec<(Label, Expr)>, i: usize) -> (r: Vec<(Label, Expr)>)
    requires
        i <= fs@.len(),
    ensures
        fields_of(r@) == fields_of(fs@).skip(i as int),
{
    proof {
        lemma_fields_of(fs@);
    }
    let mut out: Vec<(Label, Expr)> = Vec::new();
    let mut k: usize = i;
    while k < fs.len()
        invariant
            i <= k <= fs.len(),
            out@.len() == k - i,
            forall|j: int|
                0 <= j < out@.len() ==> out@[j].0@ == fs@[i + j].0@ && out@[j].1@ == fs@[i
                    + j].1@,
        decreases fs@.len() - k,
    {
        let p = &fs[k];
        out.push((dup_bytes(&p.0), dup(&p.1)));
        k += 1;
    }
    proof {
        lemma_fields_of(out@);
        lemma_fields_of(fs@);
        assert(fields_of(out@) =~= fields_of(fs@).skip(i as int));
    }
    out
}

/// Recursive merge of the tails of two ordered field lists; the executable
/// side of `combine_fields`.
fn combine_fields_from(
    kind: BinOp,
    xs: &Vec<(Label, Expr)>,
    i: usize,
    ys: &Vec<(Label, Expr)>,
    j: usize,
) -> (r: Vec<(Label, Expr)>)
    requires
        kind == BinOp::Combine || kind == BinOp::CombineTypes,
        i <= xs@.len(),
        j <= ys@.len(),
    ensures
        fields_of(r@) == combine_fields(
            kind,
            fields_of(xs@).skip(i as int),
            fields_of(ys@).skip(j as int),
        ),
    decreases fs_size(fields_of(xs@).skip(i as int)) + fs_size(
        fields_of(ys@).skip(j as int),
    ), 1int,
{
    proof {
        lemma_fields_of(xs@);
        lemma_fields_of(ys@);
    }
    let ghost sa = fields_of(xs@).skip(i as int);
    let ghost sb = fields_of(ys@).skip(j as int);
    if i == xs.len() {
        proof {
            assert(sa =~= Seq::empty());
        }
        dup_fields_from(ys, j)
    } else if j == ys.len() {
        proof {
            assert(sb =~= Seq::empty());
        }
        dup_fields_from(xs, i)
    } else {
        proof {
            lemma_t_size_pos(sa[0].1);
            lemma_t_size_pos(sb[0].1);
            assert(sa[0] == fields_of(xs@)[i as int]);
            assert(sb[0] == fields_of(ys@)[j as int]);
            assert(sa.drop_first() =~= fields_of(xs@).skip(i as int + 1));
            assert(sb.drop_first() =~= fields_of(ys@).skip(j as int + 1));
            assert(fs_size(sa) == t_size(sa[0].1) + fs_size(sa.drop_first()));
            assert(fs_size(sb) == t_size(sb[0].1) + fs_size(sb.drop_first()));
        }
        let px = &xs[i];
        let py = &ys[j];
        if eq_bytes(&px.0, &py.0) {
            let merged = combine_vals(kind, &px.1, &py.1);
            let mut out: Vec<(Label, Expr)> = Vec::new();
            out.push((dup_bytes(&px.0), merged));
            let mut rest = combine_fields_from(kind, xs, i + 1, ys, j + 1);
            let ghost rest0 = rest@;
            out.append(&mut rest);
            proof {
                lemma_fields_of(out@);
                lemma_fields_of(rest0);
                assert(fields_of(out@) =~= combine_fields(kind, sa, sb));
            }
            out
        } else if lt_bytes(&px.0, &py.0) {
            let mut out: Vec<(Label, Expr)> = Vec::new();
            out.push((dup_bytes(&px.0), dup(&px.1)));
            let mut rest = combine_fields_from(kind, xs, i + 1, ys, j);
            let ghost rest0 = rest@;
            out.append(&mut rest);
            proof {
                lemma_fields_of(out@);
                lemma_fields_of(rest0);
                assert(fields_of(out@) =~= combine_fields(kind, sa, sb));
            }
            out
        } else {
            let mut out: Vec<(Label, Expr)> = Vec::new();
            out.push((dup_bytes(&py.0), dup(&py.1)));
            let mut rest = combine_fields_from(kind, xs, i, ys, j + 1);
            let ghost rest0 = rest@;
            out.append(&mut rest);
            proof {
                lemma_fields_of(out@);
                lemma_fields_of(rest0);
                assert(fields_of(out@) =~= combine_fields(kind, sa, sb));
            }
            out
        }
    }
}

/// Every term has a positive size.
pub proof fn lemma_t_size_pos(t: Term)
    ensures
        t_size(t) >= 1,
{
}

/// The executable side of `spec_combine`: merge two record values.
fn combine_vals(kind: BinOp, x: &Expr, y: &Expr) -> (r: Expr)
    requires
        kind == BinOp::Combine || kind == BinOp::CombineTypes,
    ensures
        r@ == spec_combine(kind, x@, y@),
    decreases t_size(x@) + t_size(y@), 0int,
{
    if kind == BinOp::Combine {
        match (x, y) {
            (Expr::RecordLit(fa), Expr::RecordLit(fb)) => {
                proof {
                    assert(fs_size(fields_of(fa@).skip(0)) + fs_size(fields_of(fb@).skip(0))
                        < t_size(x@) + t_size(y@)) by {
                        assert(fields_of(fa@).skip(0) =~= fields_of(fa@));
                        assert(fields_of(fb@).skip(0) =~= fields_of(fb@));
                    };
                }
                let merged = combine_fields_from(kind, fa, 0, fb, 0);
                proof {
                    assert(fields_of(fa@).skip(0) =~= fields_of(fa@));
                    assert(fields_of(fb@).skip(0) =~= fields_of(fb@));
                }
                Expr::RecordLit(merged)
            },
            _ => Expr::BinOp(kind, bx(dup(x)), bx(dup(y))),
        }
    } else {
        match (x, y) {
            (Expr::Record(fa), Expr::Record(fb)) => {
                proof {
                    assert(fs_size(fields_of(fa@).skip(0)) + fs_size(fields_of(fb@).skip(0))
                        < t_size(x@) + t_size(y@)) by {
                        assert(fields_of(fa@).skip(0) =~= fields_of(fa@));
                        assert(fields_of(fb@).skip(0) =~= fields_of(fb@));
                    };
                }
                let merged = combine_fields_from(kind, fa, 0, fb, 0);
                proof {
                    assert(fields_of(fa@).skip(0) =~= fields_of(fa@));
                    assert(fields_of(fb@).skip(0) =~= fields_of(fb@));
                }
                Expr::Record(merged)
            },
            _ => Expr::BinOp(kind, bx(dup(x)), bx(dup(y))),
        }
    }
}

/// The executable side of `prefer_fields`.
fn prefer_fields_from(
    xs: &Vec<(Label, Expr)>,
    i: usize,
    ys: &Vec<(Label, Expr)>,
    j: usize,
) -> (r: Vec<(Label, Expr)>)
    requires
        i <= xs@.len(),
        j <= ys@.len(),
    ensures
        fields_of(r@) == prefer_fields(
            fields_of(xs@).skip(i as int),
            fields_of(ys@).skip(j as int),
        ),
    decreases xs@.len() - i + ys@.len() - j,
{
    proof {
        lemma_fields_of(xs@);
        lemma_fields_of(ys@);
    }
    let ghost sa = fields_of(xs@).skip(i as int);
    let ghost sb = fields_of(ys@).skip(j as int);
    if i == xs.len() {
        proof {
            assert(sa =~= Seq::empty());
        }
        dup_fields_from(ys, j)
    } else if j == ys.len() {
        proof {
            assert(sb =~= Seq::empty());
        }
        dup_fields_from(xs, i)
    } else {
        proof {
            assert(sa[0] == fields_of(xs@)[i as int]);
            assert(sb[0] == fields_of(ys@)[j as int]);
            assert(sa.drop_first() =~= fields_of(xs@).skip(i as int + 1));
            assert(sb.drop_first() =~= fields_of(ys@).skip(j as int + 1));
        }
        let px = &xs[i];
        let py = &ys[j];
        if eq_bytes(&px.0, &py.0) {
            let mut out: Vec<(Label, Expr)> = Vec::new();
            out.push((dup_bytes(&py.0), dup(&py.1)));
            let mut rest = prefer_fields_from(xs, i + 1, ys, j + 1);
            let ghost rest0 = rest@;
            out.append(&mut rest);
            proof {
                lemma_fields_of(out@);
                lemma_fields_of(rest0);
                assert(fields_of(out@) =~= prefer_fields(sa, sb));
            }
            out
        } else if lt_bytes(&px.0, &py.0) {
            let mut out: Vec<(Label, Expr)> = Vec::new();
            out.push((dup_bytes(&px.0), dup(&px.1)));
            let mut rest = prefer_fields_from(xs, i + 1, ys, j);
            let ghost rest0 = rest@;
            out.append(&mut rest);
            proof {
                lemma_fields_of(out@);
                lemma_fields_of(rest0);
                assert(fields_of(out@) =~= prefer_fields(sa, sb));
            }
            out
        } else {
            let mut out: Vec<(Label, Expr)> = Vec::new();
            out.push((dup_bytes(&py.0), dup(&py.1)));
            let mut rest = prefer_fields_from(xs, i, ys, j + 1);
            let ghost rest0 = rest@;
            out.append(&mut rest);
            proof {
                lemma_fields_of(out@);
                lemma_fields_of(rest0);
                assert(fields_of(out@) =~= prefer_fields(sa, sb));
            }
            out
        }
    }
}

/// Copy a chunk-list range.
fn dup_chunks_range(cs: &Vec<TextChunk>, from: usize, to: usize) -> (r: Vec<TextChunk>)
    requires
        from <= to <= cs@.len(),
    ensures
        chunks_of(r@) == chunks_of(cs@).subrange(from as int, to as int),
{
    proof {
        lemma_chunks_of(cs@);
    }
    let mut out: Vec<TextChunk> = Vec::new();
    let mut k: usize = from;
    while k < to
        invariant
            from <= k <= to <= cs@.len(),
            out@.len() == k - from,
            forall|j: int|
                0 <= j < out@.len() ==> chunk_term(out@[j]) == chunk_term(cs@[from + j]),
        decreases to - k,
    {
        let c2 = match &cs[k] {
            TextChunk::Chars(b) => TextChunk::Chars(dup_bytes(b)),
            TextChunk::Interp(e2) => TextChunk::Interp(bx(dup(&**e2))),
        };
        out.push(c2);
        k += 1;
    }
    proof {
        lemma_chunks_of(out@);
        lemma_chunks_of(cs@);
        assert(chunks_of(out@) =~= chunks_of(cs@).subrange(from as int, to as int));
    }
    out
}

/// Concatenate two byte strings.
fn concat_bytes(a: &Vec<u8>, b: &Vec<u8>) -> (r: Vec<u8>)
    ensures
        r@ == a@ + b@,
{
    let mut out = dup_bytes(a);
    let mut tail = dup_bytes(b);
    out.append(&mut tail);
    out
}

/// Concatenation of the chunk models of two chunk lists, without merging.
fn text_concat_plain(a: &Vec<TextChunk>, b: &Vec<TextChunk>) -> (r: Vec<TextChunk>)
    ensures
        chunks_of(r@) == chunks_of(a@) + chunks_of(b@),
{
    let mut out = dup_chunks_range(a, 0, a.len());
    let ghost o0 = out@;
    let mut tail = dup_chunks_range(b, 0, b.len());
    let ghost t0 = tail@;
    out.append(&mut tail);
    proof {
        lemma_chunks_of(out@);
        lemma_chunks_of(o0);
        lemma_chunks_of(t0);
        lemma_chunks_of(a@);
        lemma_chunks_of(b@);
        assert(chunks_of(a@).subrange(0, a@.len() as int) =~= chunks_of(a@));
        assert(chunks_of(b@).subrange(0, b@.len() as int) =~= chunks_of(b@));
        assert(chunks_of(out@) =~= chunks_of(a@) + chunks_of(b@));
    }
    out
}

/// The executable side of `text_concat`.
#[verifier::rlimit(100)]
fn text_concat_exec(a: &Vec<TextChunk>, b: &Vec<TextChunk>) -> (r: Vec<TextChunk>)
    ensures
        chunks_of(r@) == text_concat(chunks_of(a@), chunks_of(b@)),
{
    proof {
        lemma_chunks_of(a@);
        lemma_chunks_of(b@);
    }
    if a.len() > 0 && b.len() > 0 {
        match (&a[a.len() - 1], &b[0]) {
            (TextChunk::Chars(la), TextChunk::Chars(lb)) => {
                let joined = concat_bytes(la, lb);
                let mut out = dup_chunks_range(a, 0, a.len() - 1);
                let ghost o0 = out@;
                out.push(TextChunk::Chars(joined));
                let ghost o1 = out@;
                let mut tail = dup_chunks_range(b, 1, b.len());
                let ghost t0 = tail@;
                out.append(&mut tail);
                proof {
                    lemma_chunks_of(out@);
                    lemma_chunks_of(o0);
                    lemma_chunks_of(o1);
                    lemma_chunks_of(t0);
                    assert(o1 =~= o0 + seq![TextChunk::Chars(joined)]);
                    assert(out@ =~= o0 + seq![TextChunk::Chars(joined)] + t0);
                    assert(chunks_of(a@).drop_last() =~= chunks_of(a@).subrange(
                        0,
                        a@.len() - 1,
                    ));
                    assert(chunks_of(b@).drop_first() =~= chunks_of(b@).subrange(
                        1,
                        b@.len() as int,
                    ));
                    assert(chunks_of(a@).last() == chunk_term(a@[a@.len() - 1]));
                    assert(chunks_of(out@) =~= text_concat(chunks_of(a@), chunks_of(b@)));
                }
                out
            },
            _ => {
                let out = text_concat_plain(a, b);
                proof {
                    assert(chunks_of(a@).last() == chunk_term(a@[a@.len() - 1]));
                    assert(chunks_of(b@)[0] == chunk_term(b@[0]));
                }
                out
            },
        }
    } else {
        let out = text_concat_plain(a, b);
        out
    }
}

/// Apply an operator to two already-normalized operands: reduce when the
/// literal shapes match the operator's rule, otherwise keep the operator
/// node.
#[verifier::rlimit(100)]
pub fn with_binop(op: BinOp, x: Expr, y: Expr) -> (r: Expr)
    ensures
        r@ == spec_binop(op, x@, y@),
{
    match op {
        BinOp::BoolAnd => match (x, y) {
            (Expr::BoolLit(a), Expr::BoolLit(b)) => Expr::BoolLit(a && b),
            (x2, y2) => Expr::BinOp(op, bx(x2), bx(y2)),
        },
        BinOp::BoolOr => match (x, y) {
            (Expr::BoolLit(a), Expr::BoolLit(b)) => Expr::BoolLit(a || b),
            (x2, y2) => Expr::BinOp(op, bx(x2), bx(y2)),
        },
        BinOp::BoolEQ => match (x, y) {
            (Expr::BoolLit(a), Expr::BoolLit(b)) => Expr::BoolLit(a == b),
            (x2, y2) => Expr::BinOp(op, bx(x2), bx(y2)),
        },
        BinOp::BoolNE => match (x, y) {
            (Expr::BoolLit(a), Expr::BoolLit(b)) => Expr::BoolLit(a != b),
            (x2, y2) => Expr::BinOp(op, bx(x2), bx(y2)),
        },
        BinOp::NaturalPlus => match (x, y) {
            (Expr::NaturalLit(a), Expr::NaturalLit(b)) => if a <= u64::MAX - b {
                Expr::NaturalLit(a + b)
            } else {
                Expr::BinOp(op, bx(Expr::NaturalLit(a)), bx(Expr::NaturalLit(b)))
            },
            (x2, y2) => Expr::BinOp(op, bx(x2), bx(y2)),
        },
        BinOp::NaturalTimes => match (x, y) {
            (Expr::NaturalLit(a), Expr::NaturalLit(b)) => match a.checked_mul(b) {
                Some(p) => Expr::NaturalLit(p),
                None => Expr::BinOp(op, bx(Expr::NaturalLit(a)), bx(Expr::NaturalLit(b))),
            },
            (x2, y2) => Expr::BinOp(op, bx(x2), bx(y2)),
        },
        BinOp::TextAppend => match (x, y) {
            (Expr::TextLit(a), Expr::TextLit(b)) => {
                let joined = text_concat_exec(&a, &b);
                Expr::TextLit(joined)
            },
            (x2, y2) => Expr::BinOp(op, bx(x2), bx(y2)),
        },
        BinOp::ListAppend => match (x, y) {
            (Expr::ListLit(ta, xs), Expr::ListLit(tb, ys)) => {
                let ghost gta = ta;
                let ghost gtb = tb;
                let mut out = dup_exprs_local(&xs);
                let ghost g1 = out@;
                let mut tail = dup_exprs_local(&ys);
                let ghost g2 = tail@;
                out.append(&mut tail);
                proof {
                    lemma_terms_of(out@);
                    lemma_terms_of(g1);
                    lemma_terms_of(g2);
                    lemma_terms_of(xs@);
                    lemma_terms_of(ys@);
                    assert(terms_of(out@) =~= terms_of(xs@) + terms_of(ys@));
                }
                let chosen = if ta.is_some() {
                    ta
                } else {
                    tb
                };
                proof {
                    assert(opt_term_of(chosen) == (if opt_term_of(gta) is Some {
                        opt_term_of(gta)
                    } else {
                        opt_term_of(gtb)
                    }));
                }
                Expr::ListLit(chosen, out)
            },
            (x2, y2) => Expr::BinOp(op, bx(x2), bx(y2)),
        },
        BinOp::Combine => combine_vals(BinOp::Combine, &x, &y),
        BinOp::CombineTypes => combine_vals(BinOp::CombineTypes, &x, &y),
        BinOp::Prefer => match (x, y) {
            (Expr::RecordLit(fa), Expr::RecordLit(fb)) => {
                let merged = prefer_fields_from(&fa, 0, &fb, 0);
                proof {
                    assert(fields_of(fa@).skip(0) =~= fields_of(fa@));
                    assert(fields_of(fb@).skip(0) =~= fields_of(fb@));
                }
                Expr::RecordLit(merged)
            },
            (x2, y2) => Expr::BinOp(op, bx(x2), bx(y2)),
        },
        BinOp::ImportAlt => Expr::BinOp(op, bx(x), bx(y)),
    }
}

/// Copy an expression list; a local duplicate used where the list is
/// consumed.
fn dup_exprs_local(es: &Vec<Expr>) -> (r: Vec<Expr>)
    ensures
        terms_of(r@) == terms_of(es@),
{
    crate::ast::dup_exprs(es)
}


/// Elementwise reading of `norm_terms`.
pub proof fn lemma_norm_terms_elem(s: Seq<Term>, fuel: nat)
    ensures
        (norm_terms(s, fuel) is Some) <==> (forall|i: int|
            0 <= i < s.len() ==> spec_norm(s[i], fuel) is Some),
        norm_terms(s, fuel) matches Some(s2) ==> s2.len() == s.len() && (forall|i: int|
            0 <= i < s.len() ==> Some(s2[i]) == spec_norm(s[i], fuel)),
    decreases s.len(),
{
    if s.len() > 0 {
        lemma_norm_terms_elem(s.drop_first(), fuel);
        assert(forall|i: int| 1 <= i < s.len() ==> s.drop_first()[i - 1] == s[i]);
        match (spec_norm(s[0], fuel), norm_terms(s.drop_first(), fuel)) {
            (Some(h), Some(rest)) => {
                assert(forall|i: int|
                    0 <= i < s.len() ==> (seq![h] + rest)[i] == (if i == 0 {
                        h
                    } else {
                        rest[i - 1]
                    }));
            },
            _ => {},
        }
    }
}

/// Elementwise reading of `norm_fields`.
pub proof fn lemma_norm_fields_elem(s: Seq<(Seq<u8>, Term)>, fuel: nat)
    ensures
        (norm_fields(s, fuel) is Some) <==> (forall|i: int|
            0 <= i < s.len() ==> spec_norm(s[i].1, fuel) is Some),
        norm_fields(s, fuel) matches Some(s2) ==> s2.len() == s.len() && (forall|i: int|
            0 <= i < s.len() ==> s2[i].0 == s[i].0 && Some(s2[i].1) == spec_norm(s[i].1, fuel)),
    decreases s.len(),
{
    if s.len() > 0 {
        lemma_norm_fields_elem(s.drop_first(), fuel);
        assert(forall|i: int| 1 <= i < s.len() ==> s.drop_first()[i - 1] == s[i]);
        match (spec_norm(s[0].1, fuel), norm_fields(s.drop_first(), fuel)) {
            (Some(h), Some(rest)) => {
                assert(forall|i: int|
                    0 <= i < s.len() ==> (seq![(s[0].0, h)] + rest)[i] == (if i == 0 {
                        (s[0].0, h)
                    } else {
                        rest[i - 1]
                    }));
            },
            _ => {},
        }
    }
}

/// Elementwise reading of `norm_chunks`.
pub proof fn lemma_norm_chunks_elem(s: Seq<TermChunk>, fuel: nat)
    ensures
        (norm_chunks(s, fuel) is Some) <==> (forall|i: int|
            0 <= i < s.len() ==> norm_chunk1(s[i], fuel) is Some),
        norm_chunks(s, fuel) matches Some(s2) ==> s2.len() == s.len() && (forall|i: int|
            0 <= i < s.len() ==> Some(s2[i]) == norm_chunk1(s[i], fuel)),
    decreases s.len(),
{
    if s.len() > 0 {
        lemma_norm_chunks_elem(s.drop_first(), fuel);
        assert(forall|i: int| 1 <= i < s.len() ==> s.drop_first()[i - 1] == s[i]);
        match (norm_chunk1(s[0], fuel), norm_chunks(s.drop_first(), fuel)) {
            (Some(h), Some(rest)) => {
                assert(forall|i: int|
                    0 <= i < s.len() ==> (seq![h] + rest)[i] == (if i == 0 {
                        h
                    } else {
                        rest[i - 1]
                    }));
            },
            _ => {},
        }
    }
}

/// The label `Cons` as bytes.
fn cons_label_exec() -> (r: Vec<u8>)
    ensures
        r@ == cons_label(),
{
    let mut v: Vec<u8> = Vec::new();
    v.push(67);
    v.push(111);
    v.push(110);
    v.push(115);
    proof {
        assert(v@ =~= cons_label());
    }
    v
}

/// The label `Nil` as bytes.
fn nil_label_exec() -> (r: Vec<u8>)
    ensures
        r@ == nil_label(),
{
    let mut v: Vec<u8> = Vec::new();
    v.push(78);
    v.push(105);
    v.push(108);
    proof {
        assert(v@ =~= nil_label());
    }
    v
}

/// The label `x` as bytes.
fn x_label_exec() -> (r: Vec<u8>)
    ensures
        r@ == x_label(),
{
    let mut v: Vec<u8> = Vec::new();
    v.push(120);
    proof {
        assert(v@ =~= x_label());
    }
    v
}

/// The label `index` as bytes.
fn index_label_exec() -> (r: Vec<u8>)
    ensures
        r@ == index_label(),
{
    let mut v: Vec<u8> = Vec::new();
    v.push(105);
    v.push(110);
    v.push(100);
    v.push(101);
    v.push(120);
    proof {
        assert(v@ =~= index_label());
    }
    v
}

/// The label `value` as bytes.
fn value_label_exec() -> (r: Vec<u8>)
    ensures
        r@ == value_label(),
{
    let mut v: Vec<u8> = Vec::new();
    v.push(118);
    v.push(97);
    v.push(108);
    v.push(117);
    v.push(101);
    proof {
        assert(v@ =~= value_label());
    }
    v
}

/// The fused inner expression, when the pair matches a fusion pattern.
fn fusion_arg_exec(nf: &Expr, na: &Expr) -> (r: Option<Expr>)
    ensures
        res_term(r) == fusion_body(nf@, na@),
{
    proof {
        lemma_view_variant(*nf);
        lemma_view_variant(*na);
    }
    match (nf, na) {
        (Expr::Builtin(bf), Expr::App(g, e2)) => {
            proof {
                assert(na@ == Term::App(Box::new((**g)@), Box::new((**e2)@)));
                lemma_view_variant(**g);
            }
            match &**g {
                Expr::Builtin(bg) => {
                    if *bf == Builtin::NaturalBuild && *bg == Builtin::NaturalFold {
                        Some(dup(&**e2))
                    } else if *bf == Builtin::NaturalFold && *bg == Builtin::NaturalBuild {
                        Some(dup(&**e2))
                    } else {
                        None
                    }
                },
                _ => None,
            }
        },
        (Expr::App(bf, xa), Expr::App(g, e2)) => {
            proof {
                assert(nf@ == Term::App(Box::new((**bf)@), Box::new((**xa)@)));
                assert(na@ == Term::App(Box::new((**g)@), Box::new((**e2)@)));
                lemma_view_variant(**bf);
                lemma_view_variant(**g);
            }
            match (&**bf, &**g) {
                (Expr::Builtin(hb), Expr::App(g2, g2a)) => {
                    proof {
                        assert((**g)@ == Term::App(Box::new((**g2)@), Box::new((**g2a)@)));
                        lemma_view_variant(**g2);
                    }
                    match &**g2 {
                        Expr::Builtin(hg) => {
                            if *hb == Builtin::ListBuild && *hg == Builtin::ListFold {
                                Some(dup(&**e2))
                            } else if *hb == Builtin::ListFold && *hg == Builtin::ListBuild {
                                Some(dup(&**e2))
                            } else if *hb == Builtin::OptionalBuild && *hg
                                == Builtin::OptionalFold {
                                Some(dup(&**e2))
                            } else if *hb == Builtin::OptionalFold && *hg
                                == Builtin::OptionalBuild {
                                Some(dup(&**e2))
                            } else {
                                None
                            }
                        },
                        _ => None,
                    }
                },
                _ => None,
            }
        },
        _ => None,
    }
}

/// Decimal digits of `n`.
fn digits_exec(n: u64) -> (r: Vec<u8>)
    ensures
        r@ == nat_digits(n as nat),
    decreases n,
{
    if n < 10 {
        let mut v: Vec<u8> = Vec::new();
        v.push(48 + (n as u8));
        proof {
            assert(v@ =~= nat_digits(n as nat));
        }
        v
    } else {
        let mut v = digits_exec(n / 10);
        v.push(48 + ((n % 10) as u8));
        proof {
            assert(v@ =~= nat_digits(n as nat));
        }
        v
    }
}

/// The unary `Natural` rules on a literal argument.
fn natural_unary_exec(nf: &Expr, na: &Expr) -> (r: Option<Expr>)
    ensures
        res_term(r) == natural_unary(nf@, na@),
{
    proof {
        lemma_view_variant(*nf);
        lemma_view_variant(*na);
    }
    match (nf, na) {
        (Expr::Builtin(b), Expr::NaturalLit(n)) => match b {
            Builtin::NaturalIsZero => Some(Expr::BoolLit(*n == 0)),
            Builtin::NaturalEven => Some(Expr::BoolLit(*n % 2 == 0)),
            Builtin::NaturalOdd => Some(Expr::BoolLit(*n % 2 != 0)),
            Builtin::NaturalToInteger => if *n <= (i64::MAX as u64) {
                Some(Expr::IntegerLit(*n as i64))
            } else {
                None
            },
            Builtin::NaturalShow => {
                let ds = digits_exec(*n);
                let mut cs: Vec<TextChunk> = Vec::new();
                cs.push(TextChunk::Chars(ds));
                proof {
                    lemma_chunks_of(cs@);
                    assert(chunks_of(cs@) =~= seq![
                        TermChunk::Chars(nat_digits(*n as nat)),
                    ]);
                }
                Some(Expr::TextLit(cs))
            },
            _ => None,
        },
        _ => None,
    }
}

/// `succ` applied `n` times to `zero`.
fn iter_succ_exec(succ: &Expr, zero: Expr, n: u64) -> (r: Expr)
    ensures
        r@ == iter_succ(succ@, zero@, n as nat),
{
    let ghost z0 = zero@;
    let mut acc = zero;
    let mut i: u64 = 0;
    while i < n
        invariant
            i <= n,
            acc@ == iter_succ(succ@, z0, i as nat),
        decreases n - i,
    {
        acc = Expr::App(bx(dup(succ)), bx(acc));
        i += 1;
    }
    acc
}

/// The iterated application of a full `Natural/fold`, when `nf` is one.
fn natural_fold_exec(nf: &Expr, na: &Expr) -> (r: Option<Expr>)
    ensures
        res_term(r) == natural_fold_body(nf@, na@),
{
    proof {
        lemma_view_variant(*nf);
    }
    match nf {
        Expr::App(s3, succ) => {
            proof {
                assert(nf@ == Term::App(Box::new((**s3)@), Box::new((**succ)@)));
                lemma_view_variant(**s3);
            }
            match &**s3 {
                Expr::App(s2, mid) => {
                    proof {
                        assert((**s3)@ == Term::App(Box::new((**s2)@), Box::new((**mid)@)));
                        lemma_view_variant(**s2);
                    }
                    match &**s2 {
                        Expr::App(s1, nlit) => {
                            proof {
                                assert((**s2)@ == Term::App(
                                    Box::new((**s1)@),
                                    Box::new((**nlit)@),
                                ));
                                lemma_view_variant(**s1);
                                lemma_view_variant(**nlit);
                            }
                            match (&**s1, &**nlit) {
                                (Expr::Builtin(b), Expr::NaturalLit(n)) => if *b
                                    == Builtin::NaturalFold {
                                    Some(iter_succ_exec(&**succ, dup(na), *n))
                                } else {
                                    None
                                },
                                _ => None,
                            }
                        },
                        _ => None,
                    }
                },
                _ => None,
            }
        },
        _ => None,
    }
}

/// Construct the probe term of `Natural/build`.
fn natural_build_probe_exec(g: &Expr) -> (r: Expr)
    ensures
        r@ == natural_build_probe(g@),
{
    let vx = Expr::Var(V(x_label_exec(), 0));
    proof {
        reveal_with_fuel(term_of, 2);
        assert(vx@ == Term::Var(x_label(), 0));
    }
    let plus = Expr::BinOp(BinOp::NaturalPlus, bx(vx), bx(Expr::NaturalLit(1)));
    let ghost gplus = plus@;
    proof {
        reveal_with_fuel(term_of, 2);
        assert(gplus == Term::BinOp(
            BinOp::NaturalPlus,
            Box::new(Term::Var(x_label(), 0)),
            Box::new(Term::NaturalLit(1)),
        ));
    }
    let lam = Expr::Lam(x_label_exec(), bx(Expr::Builtin(Builtin::Natural)), bx(plus));
    let ghost glam = lam@;
    proof {
        reveal_with_fuel(term_of, 2);
        assert(glam == Term::Lam(
            x_label(),
            Box::new(Term::Builtin(Builtin::Natural)),
            Box::new(gplus),
        ));
    }
    let a1 = Expr::App(bx(dup(g)), bx(Expr::Builtin(Builtin::Natural)));
    let ghost ga1 = a1@;
    proof {
        reveal_with_fuel(term_of, 2);
        assert(ga1 == Term::App(Box::new(g@), Box::new(Term::Builtin(Builtin::Natural))));
    }
    let a2 = Expr::App(bx(a1), bx(lam));
    let ghost ga2 = a2@;
    proof {
        reveal_with_fuel(term_of, 2);
        assert(ga2 == Term::App(Box::new(ga1), Box::new(glam)));
    }
    let r = Expr::App(bx(a2), bx(Expr::NaturalLit(0)));
    proof {
        reveal_with_fuel(term_of, 2);
        assert(r@ == Term::App(Box::new(ga2), Box::new(Term::NaturalLit(0))));
        assert(r@ == natural_build_probe(g@));
    }
    r
}

/// Construct the probe term of `List/build`.
fn list_build_probe_exec(ta: &Expr, g: &Expr) -> (r: Expr)
    ensures
        r@ == list_build_probe(ta@, g@),
{
    let lta = Expr::App(bx(Expr::Builtin(Builtin::List)), bx(dup(ta)));
    let ghost glta = lta@;
    proof {
        reveal_with_fuel(term_of, 2);
        assert(glta == Term::App(Box::new(Term::Builtin(Builtin::List)), Box::new(ta@)));
    }
    let a1 = Expr::App(bx(dup(g)), bx(lta));
    let ghost ga1 = a1@;
    proof {
        reveal_with_fuel(term_of, 2);
        assert(ga1 == Term::App(Box::new(g@), Box::new(glta)));
    }
    let vcons = Expr::Var(V(cons_label_exec(), 0));
    proof {
        reveal_with_fuel(term_of, 2);
        assert(vcons@ == Term::Var(cons_label(), 0));
    }
    let a2 = Expr::App(bx(a1), bx(vcons));
    let ghost ga2 = a2@;
    proof {
        reveal_with_fuel(term_of, 2);
        assert(ga2 == Term::App(Box::new(ga1), Box::new(Term::Var(cons_label(), 0))));
    }
    let vnil = Expr::Var(V(nil_label_exec(), 0));
    proof {
        reveal_with_fuel(term_of, 2);
        assert(vnil@ == Term::Var(nil_label(), 0));
    }
    let r = Expr::App(bx(a2), bx(vnil));
    proof {
        reveal_with_fuel(term_of, 2);
        assert(r@ == Term::App(Box::new(ga2), Box::new(Term::Var(nil_label(), 0))));
        assert(r@ == list_build_probe(ta@, g@));
    }
    r
}

/// Construct the unfolding of `Optional/build`.
fn optional_build_body_exec(ta: &Expr, g: &Expr) -> (r: Expr)
    ensures
        r@ == optional_build_body(ta@, g@),
{
    let ota = Expr::App(bx(Expr::Builtin(Builtin::Optional)), bx(dup(ta)));
    let ghost gota = ota@;
    proof {
        reveal_with_fuel(term_of, 2);
        assert(gota == Term::App(Box::new(Term::Builtin(Builtin::Optional)), Box::new(ta@)));
    }
    let a1 = Expr::App(bx(dup(g)), bx(ota));
    let ghost ga1 = a1@;
    proof {
        reveal_with_fuel(term_of, 2);
        assert(ga1 == Term::App(Box::new(g@), Box::new(gota)));
    }
    let vx = Expr::Var(V(x_label_exec(), 0));
    proof {
        reveal_with_fuel(term_of, 2);
        assert(vx@ == Term::Var(x_label(), 0));
    }
    let some_x = Expr::OptionalLit(Some(bx(dup(ta))), Some(bx(vx)));
    let ghost gsome = some_x@;
    proof {
        reveal_with_fuel(term_of, 2);
        assert(gsome == Term::OptionalLit(
            Some(Box::new(ta@)),
            Some(Box::new(Term::Var(x_label(), 0))),
        ));
    }
    let lam = Expr::Lam(x_label_exec(), bx(dup(ta)), bx(some_x));
    let ghost glam = lam@;
    proof {
        reveal_with_fuel(term_of, 2);
        assert(glam == Term::Lam(x_label(), Box::new(ta@), Box::new(gsome)));
    }
    let a2 = Expr::App(bx(a1), bx(lam));
    let ghost ga2 = a2@;
    proof {
        reveal_with_fuel(term_of, 2);
        assert(ga2 == Term::App(Box::new(ga1), Box::new(glam)));
    }
    let none_lit = Expr::OptionalLit(Some(bx(dup(ta))), None);
    let ghost gnone = none_lit@;
    proof {
        reveal_with_fuel(term_of, 2);
        assert(gnone == Term::OptionalLit(Some(Box::new(ta@)), None));
    }
    let r = Expr::App(bx(a2), bx(none_lit));
    proof {
        reveal_with_fuel(term_of, 2);
        assert(r@ == Term::App(Box::new(ga2), Box::new(gnone)));
        assert(r@ == optional_build_body(ta@, g@));
    }
    r
}

/// Decode a `Cons`/`Nil` spine into its element list.
fn spine_to_items(e: &Expr) -> (r: Option<Vec<Expr>>)
    ensures
        res_terms(r) == spine_items(e@),
    decreases *e,
{
    proof {
        lemma_view_variant(*e);
    }
    match e {
        Expr::Var(v) => {
            let nil = nil_label_exec();
            if eq_bytes(&v.0, &nil) {
                let out: Vec<Expr> = Vec::new();
                proof {
                    assert(terms_of(out@) =~= Seq::<Term>::empty());
                }
                Some(out)
            } else {
                None
            }
        },
        Expr::App(f, rest) => {
            proof {
                assert(e@ == Term::App(Box::new((**f)@), Box::new((**rest)@)));
                lemma_view_variant(**f);
            }
            match &**f {
                Expr::App(c, xhead) => {
                    proof {
                        assert((**f)@ == Term::App(Box::new((**c)@), Box::new((**xhead)@)));
                        lemma_view_variant(**c);
                    }
                    match &**c {
                        Expr::Var(v) => {
                            let cons = cons_label_exec();
                            if eq_bytes(&v.0, &cons) {
                                match spine_to_items(&**rest) {
                                    Some(items) => {
                                        let mut out: Vec<Expr> = Vec::new();
                                        out.push(dup(&**xhead));
                                        let ghost o0 = out@;
                                        let mut tail = items;
                                        let ghost t0 = tail@;
                                        out.append(&mut tail);
                                        proof {
                                            lemma_terms_of(out@);
                                            lemma_terms_of(o0);
                                            lemma_terms_of(t0);
                                            match spine_items(e@) {
                                                Some(si) => {
                                                    assert(terms_of(out@) =~= si);
                                                },
                                                None => {
                                                    assert(false);
                                                },
                                            }
                                        }
                                        Some(out)
                                    },
                                    None => None,
                                }
                            } else {
                                None
                            }
                        },
                        _ => None,
                    }
                },
                _ => None,
            }
        },
        _ => None,
    }
}

/// The type argument of a `List/build` or `Optional/build` application.
fn build_targ_exec(nf: &Expr, which: Builtin) -> (r: Option<Expr>)
    requires
        which == Builtin::ListBuild || which == Builtin::OptionalBuild,
    ensures
        r matches Some(t) ==> t@ == build_type_arg(nf@) && (which == Builtin::ListBuild
            ==> is_list_build(nf@)) && (which == Builtin::OptionalBuild ==> is_optional_build(
            nf@,
        )),
        r is None ==> (which == Builtin::ListBuild ==> !is_list_build(nf@)) && (which
            == Builtin::OptionalBuild ==> !is_optional_build(nf@)),
{
    proof {
        lemma_view_variant(*nf);
    }
    match nf {
        Expr::App(f, targ) => {
            proof {
                assert(nf@ == Term::App(Box::new((**f)@), Box::new((**targ)@)));
                lemma_view_variant(**f);
            }
            match &**f {
                Expr::Builtin(b) => if *b == which {
                    Some(dup(&**targ))
                } else {
                    None
                },
                _ => None,
            }
        },
        _ => None,
    }
}

/// Build the right fold of `cons` over `xs[i..]` ending in `nil`.
fn fold_from(cons: &Expr, xs: &Vec<Expr>, i: usize, nil: &Expr) -> (r: Expr)
    requires
        i <= xs@.len(),
    ensures
        r@ == fold_list(cons@, terms_of(xs@).skip(i as int), nil@),
    decreases xs@.len() - i,
{
    proof {
        lemma_terms_of(xs@);
    }
    let ghost s = terms_of(xs@).skip(i as int);
    if i == xs.len() {
        proof {
            assert(s =~= Seq::<Term>::empty());
        }
        dup(nil)
    } else {
        proof {
            assert(s[0] == terms_of(xs@)[i as int]);
            assert(s.drop_first() =~= terms_of(xs@).skip(i as int + 1));
        }
        let inner = Expr::App(bx(dup(cons)), bx(dup(&xs[i])));
        let ghost ginner = inner@;
        let rest = fold_from(cons, xs, i + 1, nil);
        let ghost grest = rest@;
        let r = Expr::App(bx(inner), bx(rest));
        proof {
            assert(r@ == Term::App(Box::new(ginner), Box::new(grest)));
        }
        r
    }
}

/// The right fold of a full `List/fold`, when `nf` is one.
fn list_fold_exec(nf: &Expr, na: &Expr) -> (r: Option<Expr>)
    ensures
        res_term(r) == list_fold_body(nf@, na@),
{
    proof {
        lemma_view_variant(*nf);
    }
    match nf {
        Expr::App(s4, cons) => {
            proof {
                assert(nf@ == Term::App(Box::new((**s4)@), Box::new((**cons)@)));
                lemma_view_variant(**s4);
            }
            match &**s4 {
                Expr::App(s3, mid3) => {
                    proof {
                        assert((**s4)@ == Term::App(Box::new((**s3)@), Box::new((**mid3)@)));
                        lemma_view_variant(**s3);
                    }
                    match &**s3 {
                        Expr::App(s2, lst) => {
                            proof {
                                assert((**s3)@ == Term::App(
                                    Box::new((**s2)@),
                                    Box::new((**lst)@),
                                ));
                                lemma_view_variant(**s2);
                                lemma_view_variant(**lst);
                            }
                            match (&**s2, &**lst) {
                                (Expr::App(s1, mid1), Expr::ListLit(tl, xs)) => {
                                    proof {
                                        assert((**s2)@ == Term::App(
                                            Box::new((**s1)@),
                                            Box::new((**mid1)@),
                                        ));
                                        assert((**lst)@ == Term::ListLit(
                                            opt_term_of(*tl),
                                            terms_of(xs@),
                                        ));
                                        lemma_view_variant(**s1);
                                    }
                                    match &**s1 {
                                        Expr::Builtin(b) => if *b == Builtin::ListFold {
                                            proof {
                                                assert(terms_of(xs@).skip(0) =~= terms_of(
                                                    xs@,
                                                ));
                                            }
                                            Some(fold_from(&**cons, xs, 0, na))
                                        } else {
                                            None
                                        },
                                        _ => None,
                                    }
                                },
                                _ => None,
                            }
                        },
                        _ => None,
                    }
                },
                _ => None,
            }
        },
        _ => None,
    }
}

/// The handler application of a full `Optional/fold`, when `nf` is one:
/// the outer `None` means no match, the inner `None` that the optional is
/// empty and the fold returns its last argument.
fn optional_fold_exec(nf: &Expr) -> (r: Option<Option<Expr>>)
    ensures
        (match r {
            Some(step) => Some(
                match step {
                    Some(e) => Some(e@),
                    None => None,
                },
            ),
            None => None,
        }) == optional_fold_body(nf@) || (r is None && optional_fold_body(nf@) is None),
{
    proof {
        lemma_view_variant(*nf);
    }
    match nf {
        Expr::App(s4, just) => {
            proof {
                assert(nf@ == Term::App(Box::new((**s4)@), Box::new((**just)@)));
                lemma_view_variant(**s4);
            }
            match &**s4 {
                Expr::App(s3, mid3) => {
                    proof {
                        assert((**s4)@ == Term::App(Box::new((**s3)@), Box::new((**mid3)@)));
                        lemma_view_variant(**s3);
                    }
                    match &**s3 {
                        Expr::App(s2, opt) => {
                            proof {
                                assert((**s3)@ == Term::App(
                                    Box::new((**s2)@),
                                    Box::new((**opt)@),
                                ));
                                lemma_view_variant(**s2);
                                lemma_view_variant(**opt);
                            }
                            match (&**s2, &**opt) {
                                (Expr::App(s1, mid1), Expr::OptionalLit(tl, item)) => {
                                    proof {
                                        assert((**s2)@ == Term::App(
                                            Box::new((**s1)@),
                                            Box::new((**mid1)@),
                                        ));
                                        assert((**opt)@ == Term::OptionalLit(
                                            opt_term_of(*tl),
                                            opt_term_of(*item),
                                        ));
                                        lemma_view_variant(**s1);
                                    }
                                    match &**s1 {
                                        Expr::Builtin(b) => if *b == Builtin::OptionalFold {
                                            match item {
                                                Some(x) => Some(
                                                    Some(
                                                        Expr::App(
                                                            bx(dup(&**just)),
                                                            bx(dup(&**x)),
                                                        ),
                                                    ),
                                                ),
                                                None => Some(None),
                                            }
                                        } else {
                                            None
                                        },
                                        _ => None,
                                    }
                                },
                                _ => None,
                            }
                        },
                        _ => None,
                    }
                },
                _ => None,
            }
        },
        _ => None,
    }
}

/// Reverse an expression list.
fn reverse_exprs(xs: &Vec<Expr>) -> (r: Vec<Expr>)
    ensures
        terms_of(r@) == terms_of(xs@).reverse(),
{
    proof {
        lemma_terms_of(xs@);
    }
    let mut out: Vec<Expr> = Vec::new();
    let mut i: usize = 0;
    while i < xs.len()
        invariant
            i <= xs.len(),
            out@.len() == i as int,
            forall|j: int| 0 <= j < i ==> out@[j]@ == xs@[xs@.len() - 1 - j]@,
        decreases xs@.len() - i,
    {
        out.push(dup(&xs[xs.len() - 1 - i]));
        i += 1;
    }
    proof {
        lemma_terms_of(out@);
        lemma_terms_of(xs@);
        assert(terms_of(out@) =~= terms_of(xs@).reverse());
    }
    out
}

/// Pair each element with its position, as `List/indexed` does.
fn indexed_exec(xs: &Vec<Expr>) -> (r: Vec<Expr>)
    ensures
        terms_of(r@) == indexed_items(terms_of(xs@)),
{
    proof {
        lemma_terms_of(xs@);
    }
    let mut out: Vec<Expr> = Vec::new();
    let mut i: usize = 0;
    while i < xs.len()
        invariant
            i <= xs.len(),
            out@.len() == i as int,
            forall|j: int| 0 <= j < i ==> out@[j]@ == indexed_items(terms_of(xs@))[j],
        decreases xs@.len() - i,
    {
        proof {
            assert(usize::MAX <= u64::MAX);
            lemma_terms_of(xs@);
        }
        let mut fsv: Vec<(Label, Expr)> = Vec::new();
        fsv.push((index_label_exec(), Expr::NaturalLit(i as u64)));
        fsv.push((value_label_exec(), dup(&xs[i])));
        let entry = Expr::RecordLit(fsv);
        proof {
            lemma_fields_of(fsv@);
            assert(fields_of(fsv@) =~= seq![
                (index_label(), Term::NaturalLit(i as u64)),
                (value_label(), terms_of(xs@)[i as int]),
            ]);
        }
        out.push(entry);
        i += 1;
    }
    proof {
        lemma_terms_of(out@);
        assert(terms_of(out@) =~= indexed_items(terms_of(xs@)));
    }
    out
}

/// The element-and-type result of `List/indexed`.
fn list_indexed_result(targ: &Expr, tl: &Option<Box<Expr>>, xs: &Vec<Expr>) -> (r: Expr)
    ensures
        r@ == Term::ListLit(
            Some(
                Box::new(
                    indexed_entry_type(
                        match opt_term_of(*tl) {
                            Some(tv0) => *tv0,
                            None => targ@,
                        },
                    ),
                ),
            ),
            indexed_items(terms_of(xs@)),
        ),
{
    let ghost tvg = (match opt_term_of(*tl) {
        Some(tv0) => *tv0,
        None => targ@,
    });
    let tv = match tl {
        Some(t0) => dup(&**t0),
        None => dup(targ),
    };
    proof {
        reveal_with_fuel(term_of, 2);
        assert(tv@ == tvg);
    }
    let mut fsv: Vec<(Label, Expr)> = Vec::new();
    fsv.push((index_label_exec(), Expr::Builtin(Builtin::Natural)));
    fsv.push((value_label_exec(), tv));
    let tyrec = Expr::Record(fsv);
    proof {
        reveal_with_fuel(term_of, 2);
        lemma_fields_of(fsv@);
        assert(fields_of(fsv@) =~= seq![
            (index_label(), Term::Builtin(Builtin::Natural)),
            (value_label(), tvg),
        ]);
        assert(tyrec@ == indexed_entry_type(tvg));
    }
    let ghost gtyrec = tyrec@;
    let items = indexed_exec(xs);
    let ghost gitems = terms_of(items@);
    let r = Expr::ListLit(Some(bx(tyrec)), items);
    proof {
        reveal_with_fuel(term_of, 2);
        assert(r@ == Term::ListLit(Some(Box::new(gtyrec)), gitems));
        assert(r@ == Term::ListLit(
            Some(Box::new(indexed_entry_type(tvg))),
            indexed_items(terms_of(xs@)),
        ));
    }
    r
}

/// The unary `List` rules on a type argument and a list literal.
fn list_unary_exec(nf: &Expr, na: &Expr) -> (r: Option<Expr>)
    ensures
        res_term(r) == list_unary(nf@, na@),
{
    proof {
        lemma_view_variant(*nf);
        lemma_view_variant(*na);
    }
    match (nf, na) {
        (Expr::App(f, targ), Expr::ListLit(tl, xs)) => {
            proof {
                assert(nf@ == Term::App(Box::new((**f)@), Box::new((**targ)@)));
                assert(na@ == Term::ListLit(opt_term_of(*tl), terms_of(xs@)));
                lemma_view_variant(**f);
                lemma_terms_of(xs@);
            }
            match &**f {
                Expr::Builtin(b) => match b {
                    Builtin::ListLength => {
                        proof {
                            assert(xs.len() <= usize::MAX);
                            assert(usize::MAX <= u64::MAX);
                        }
                        let rr = Expr::NaturalLit(xs.len() as u64);
                        proof {
                            assert(Some(rr@) == list_unary(nf@, na@));
                        }
                        Some(rr)
                    },
                    Builtin::ListHead => if xs.len() > 0 {
                        let rr = Expr::OptionalLit(dup_opt(tl), Some(bx(dup(&xs[0]))));
                        proof {
                            reveal_with_fuel(term_of, 2);
                            assert(Some(rr@) == list_unary(nf@, na@));
                        }
                        Some(rr)
                    } else {
                        let rr = Expr::OptionalLit(dup_opt(tl), None);
                        proof {
                            reveal_with_fuel(term_of, 2);
                            assert(Some(rr@) == list_unary(nf@, na@));
                        }
                        Some(rr)
                    },
                    Builtin::ListLast => if xs.len() > 0 {
                        let rr = Expr::OptionalLit(
                            dup_opt(tl),
                            Some(bx(dup(&xs[xs.len() - 1]))),
                        );
                        proof {
                            reveal_with_fuel(term_of, 2);
                            assert(Some(rr@) == list_unary(nf@, na@));
                        }
                        Some(rr)
                    } else {
                        let rr = Expr::OptionalLit(dup_opt(tl), None);
                        proof {
                            reveal_with_fuel(term_of, 2);
                            assert(Some(rr@) == list_unary(nf@, na@));
                        }
                        Some(rr)
                    },
                    Builtin::ListReverse => {
                        let rr = Expr::ListLit(dup_opt(tl), reverse_exprs(xs));
                        proof {
                            assert(Some(rr@) == list_unary(nf@, na@));
                        }
                        Some(rr)
                    },
                    Builtin::ListIndexed => {
                        proof {
                            assert(xs.len() <= usize::MAX);
                            assert(usize::MAX <= u64::MAX);
                        }
                        let rr = list_indexed_result(&**targ, tl, xs);
                        proof {
                            assert(Some(rr@) == list_unary(nf@, na@));
                        }
                        Some(rr)
                    },
                    _ => None,
                },
                _ => None,
            }
        },
        _ => None,
    }
}


/// `normalize_fuel` on an optional child.
fn norm_opt_exec(o: &Option<Box<Expr>>, fuel: u64) -> (r: Option<Option<Box<Expr>>>)
    ensures
        res_opt(r) == norm_opt(opt_term_of(*o), fuel as nat),
    decreases fuel, 1int, *o, 1int,
{
    match o {
        Some(b) => match normalize_fuel(&**b, fuel) {
            Some(b2) => Some(Some(bx(b2))),
            None => None,
        },
        None => Some(None),
    }
}

/// `normalize_fuel` on each element of a list.
#[verifier::rlimit(50)]
fn norm_expr_list(es: &Vec<Expr>, fuel: u64) -> (r: Option<Vec<Expr>>)
    ensures
        res_terms(r) == norm_terms(terms_of(es@), fuel as nat),
    decreases fuel, 1int, *es, 0int,
{
    proof {
        lemma_terms_of(es@);
    }
    let ghost s = terms_of(es@);
    let mut out: Vec<Expr> = Vec::new();
    let mut i: usize = 0;
    while i < es.len()
        invariant
            i <= es.len(),
            out@.len() == i as int,
            s == terms_of(es@),
            s.len() == es@.len(),
            forall|j: int| 0 <= j < es@.len() ==> s[j] == es@[j]@,
            forall|j: int| 0 <= j < i ==> Some(out@[j]@) == spec_norm(s[j], fuel as nat),
        decreases es@.len() - i,
    {
        match normalize_fuel(&es[i], fuel) {
            Some(e2) => {
                out.push(e2);
            },
            None => {
                proof {
                    lemma_norm_terms_elem(s, fuel as nat);
                    match norm_terms(s, fuel as nat) {
                        Some(s2) => {
                            assert(Some(s2[i as int]) == spec_norm(s[i as int], fuel as nat));
                            assert(false);
                        },
                        None => {},
                    }
                }
                return None;
            },
        }
        i += 1;
    }
    proof {
        lemma_terms_of(out@);
        lemma_norm_terms_elem(s, fuel as nat);
        match norm_terms(s, fuel as nat) {
            Some(s2) => {
                assert(terms_of(out@) =~= s2);
            },
            None => {
                assert(false);
            },
        }
    }
    Some(out)
}

/// `normalize_fuel` on each field value of a field list.
#[verifier::rlimit(50)]
fn norm_field_list(fs: &Vec<(Label, Expr)>, fuel: u64) -> (r: Option<Vec<(Label, Expr)>>)
    ensures
        res_fields(r) == norm_fields(fields_of(fs@), fuel as nat),
    decreases fuel, 1int, *fs, 0int,
{
    proof {
        lemma_fields_of(fs@);
    }
    let ghost s = fields_of(fs@);
    let mut out: Vec<(Label, Expr)> = Vec::new();
    let mut i: usize = 0;
    while i < fs.len()
        invariant
            i <= fs.len(),
            out@.len() == i as int,
            s == fields_of(fs@),
            s.len() == fs@.len(),
            forall|j: int| 0 <= j < fs@.len() ==> s[j] == ((fs@[j].0@, fs@[j].1@)),
            forall|j: int|
                0 <= j < i ==> out@[j].0@ == s[j].0 && Some(out@[j].1@) == spec_norm(
                    s[j].1,
                    fuel as nat,
                ),
        decreases fs@.len() - i,
    {
        let p = &fs[i];
        match normalize_fuel(&p.1, fuel) {
            Some(e2) => {
                out.push((dup_bytes(&p.0), e2));
            },
            None => {
                proof {
                    lemma_norm_fields_elem(s, fuel as nat);
                    match norm_fields(s, fuel as nat) {
                        Some(s2) => {
                            assert(Some(s2[i as int].1) == spec_norm(
                                s[i as int].1,
                                fuel as nat,
                            ));
                            assert(false);
                        },
                        None => {},
                    }
                }
                return None;
            },
        }
        i += 1;
    }
    proof {
        lemma_fields_of(out@);
        lemma_norm_fields_elem(s, fuel as nat);
        match norm_fields(s, fuel as nat) {
            Some(s2) => {
                assert(fields_of(out@) =~= s2);
            },
            None => {
                assert(false);
            },
        }
    }
    Some(out)
}

/// `normalize_fuel` under each hole of a chunk list.
#[verifier::rlimit(50)]
fn norm_chunk_list(cs: &Vec<TextChunk>, fuel: u64) -> (r: Option<Vec<TextChunk>>)
    ensures
        res_chunks(r) == norm_chunks(chunks_of(cs@), fuel as nat),
    decreases fuel, 1int, *cs, 0int,
{
    proof {
        lemma_chunks_of(cs@);
    }
    let ghost s = chunks_of(cs@);
    let mut out: Vec<TextChunk> = Vec::new();
    let mut i: usize = 0;
    while i < cs.len()
        invariant
            i <= cs.len(),
            out@.len() == i as int,
            s == chunks_of(cs@),
            s.len() == cs@.len(),
            forall|j: int| 0 <= j < cs@.len() ==> s[j] == chunk_term(cs@[j]),
            forall|j: int|
                0 <= j < i ==> Some(chunk_term(out@[j])) == norm_chunk1(s[j], fuel as nat),
        decreases cs@.len() - i,
    {
        match &cs[i] {
            TextChunk::Chars(b) => {
                out.push(TextChunk::Chars(dup_bytes(b)));
            },
            TextChunk::Interp(e) => match normalize_fuel(&**e, fuel) {
                Some(e2) => {
                    out.push(TextChunk::Interp(bx(e2)));
                },
                None => {
                    proof {
                        lemma_norm_chunks_elem(s, fuel as nat);
                        match norm_chunks(s, fuel as nat) {
                            Some(s2) => {
                                assert(Some(s2[i as int]) == norm_chunk1(
                                    s[i as int],
                                    fuel as nat,
                                ));
                                assert(false);
                            },
                            None => {},
                        }
                    }
                    return None;
                },
            },
        }
        i += 1;
    }
    proof {
        lemma_chunks_of(out@);
        lemma_norm_chunks_elem(s, fuel as nat);
        match norm_chunks(s, fuel as nat) {
            Some(s2) => {
                assert(chunks_of(out@) =~= s2);
            },
            None => {
                assert(false);
            },
        }
    }
    Some(out)
}

/// The rewrite table on two already-normalized parts of an application.
fn apply_exec(nf: Expr, na: Expr, fuel: u64) -> (r: Option<Expr>)
    ensures
        res_term(r) == spec_apply(nf@, na@, fuel as nat),
    decreases fuel, 0int, na, 1int,
{
    match fusion_arg_exec(&nf, &na) {
        Some(e2) => if fuel == 0 {
            None
        } else {
            normalize_fuel(&e2, fuel - 1)
        },
        None => match natural_unary_exec(&nf, &na) {
            Some(r0) => Some(r0),
            None => match natural_fold_exec(&nf, &na) {
                Some(body) => if fuel == 0 {
                    None
                } else {
                    normalize_fuel(&body, fuel - 1)
                },
                None => {
                    let is_nb = match &nf {
                        Expr::Builtin(b) => *b == Builtin::NaturalBuild,
                        _ => false,
                    };
                    proof {
                        lemma_view_variant(nf);
                    }
                    if is_nb {
                        if fuel == 0 {
                            None
                        } else {
                            let probe = natural_build_probe_exec(&na);
                            match normalize_fuel(&probe, fuel - 1) {
                                Some(rr) => {
                                    let ghost grr = rr@;
                                    match rr {
                                        Expr::NaturalLit(n) => Some(Expr::NaturalLit(n)),
                                        rr2 => {
                                            proof {
                                                lemma_view_variant(rr2);
                                            }
                                            Some(Expr::App(bx(nf), bx(na)))
                                        },
                                    }
                                },
                                None => None,
                            }
                        }
                    } else {
                        apply_list_exec(nf, na, fuel)
                    }
                },
            },
        },
    }
}

/// The `List` and `Optional` part of the rewrite table.
fn apply_list_exec(nf: Expr, na: Expr, fuel: u64) -> (r: Option<Expr>)
    ensures
        res_term(r) == spec_apply_list(nf@, na@, fuel as nat),
    decreases fuel, 0int, na, 0int,
{
    match build_targ_exec(&nf, Builtin::ListBuild) {
        Some(targ) => {
            if fuel == 0 {
                None
            } else {
                let probe = list_build_probe_exec(&targ, &na);
                match normalize_fuel(&probe, fuel - 1) {
                    Some(lab) => match spine_to_items(&lab) {
                        Some(items) => {
                            let rr = Expr::ListLit(Some(bx(targ)), items);
                            proof {
                                reveal_with_fuel(term_of, 2);
                                assert(Some(rr@) == spec_apply_list(nf@, na@, fuel as nat));
                            }
                            Some(rr)
                        },
                        None => Some(Expr::App(bx(nf), bx(na))),
                    },
                    None => None,
                }
            }
        },
        None => match list_fold_exec(&nf, &na) {
            Some(body) => if fuel == 0 {
                None
            } else {
                normalize_fuel(&body, fuel - 1)
            },
            None => match optional_fold_exec(&nf) {
                Some(step) => match step {
                    Some(app) => if fuel == 0 {
                        None
                    } else {
                        normalize_fuel(&app, fuel - 1)
                    },
                    None => Some(na),
                },
                None => match build_targ_exec(&nf, Builtin::OptionalBuild) {
                    Some(targ) => if fuel == 0 {
                        None
                    } else {
                        let body = optional_build_body_exec(&targ, &na);
                        normalize_fuel(&body, fuel - 1)
                    },
                    None => match list_unary_exec(&nf, &na) {
                        Some(r0) => Some(r0),
                        None => Some(Expr::App(bx(nf), bx(na))),
                    },
                },
            },
        },
    }
}

/// Recursive worker of the normalizer: `None` exactly where `spec_norm`
/// runs out of fuel or out of the machine's index range.
#[verifier::rlimit(100)]
fn normalize_fuel(e: &Expr, fuel: u64) -> (r: Option<Expr>)
    ensures
        res_term(r) == spec_norm(e@, fuel as nat),
    decreases fuel, 1int, *e, 1int,
{
    match e {
        Expr::Const(c) => Some(Expr::Const(*c)),
        Expr::Var(v) => Some(Expr::Var(dup_v(v))),
        Expr::Lam(x, ta, b) => match (normalize_fuel(&**ta, fuel), normalize_fuel(&**b, fuel)) {
            (Some(ta2), Some(b2)) => Some(Expr::Lam(dup_bytes(x), bx(ta2), bx(b2))),
            _ => None,
        },
        Expr::Pi(x, ta, tb) => match (normalize_fuel(&**ta, fuel), normalize_fuel(&**tb, fuel)) {
            (Some(ta2), Some(tb2)) => Some(Expr::Pi(dup_bytes(x), bx(ta2), bx(tb2))),
            _ => None,
        },
        Expr::App(f, a) => match normalize_fuel(&**f, fuel) {
            Some(nf) => {
                let ghost gnf = nf@;
                match nf {
                    Expr::Lam(x, ta0, body) => {
                        proof {
                            assert(gnf == Term::Lam(
                                x@,
                                Box::new((*ta0)@),
                                Box::new((*body)@),
                            ));
                        }
                        if fuel == 0 {
                            None
                        } else {
                            let vx = V(x, 0);
                            match shift_checked(1, &vx, &**a) {
                                Some(a2) => match subst_checked(&vx, &a2, &*body) {
                                    Some(b2) => match shift_checked(-1, &vx, &b2) {
                                        Some(b3) => normalize_fuel(&b3, fuel - 1),
                                        None => None,
                                    },
                                    None => None,
                                },
                                None => None,
                            }
                        }
                    },
                    nf2 => {
                        proof {
                            lemma_view_variant(nf2);
                        }
                        match normalize_fuel(&**a, fuel) {
                            Some(na) => apply_exec(nf2, na, fuel),
                            None => None,
                        }
                    },
                }
            },
            None => None,
        },
        Expr::Let(x, _, r0, b) => {
            if fuel == 0 {
                None
            } else {
                let vx = V(dup_bytes(x), 0);
                match shift_checked(1, &vx, &**r0) {
                    Some(r2) => match subst_checked(&vx, &r2, &**b) {
                        Some(b2) => match shift_checked(-1, &vx, &b2) {
                            Some(b3) => normalize_fuel(&b3, fuel - 1),
                            None => None,
                        },
                        None => None,
                    },
                    None => None,
                }
            }
        },
        Expr::Annot(a, _) => normalize_fuel(&**a, fuel),
        Expr::Builtin(b) => Some(Expr::Builtin(*b)),
        Expr::BoolLit(b) => Some(Expr::BoolLit(*b)),
        Expr::BoolIf(c, tb, fb) => match normalize_fuel(&**c, fuel) {
            Some(nc) => {
                let ghost gnc = nc@;
                match nc {
                    Expr::BoolLit(bv) => if bv {
                        normalize_fuel(&**tb, fuel)
                    } else {
                        normalize_fuel(&**fb, fuel)
                    },
                    nc2 => {
                        proof {
                            lemma_view_variant(nc2);
                        }
                        match (normalize_fuel(&**tb, fuel), normalize_fuel(&**fb, fuel)) {
                            (Some(t2), Some(f2)) => Some(Expr::BoolIf(bx(nc2), bx(t2), bx(f2))),
                            _ => None,
                        }
                    },
                }
            },
            None => None,
        },
        Expr::NaturalLit(n) => Some(Expr::NaturalLit(*n)),
        Expr::IntegerLit(n) => Some(Expr::IntegerLit(*n)),
        Expr::DoubleLit(n) => Some(Expr::DoubleLit(*n)),
        Expr::TextLit(cs) => match norm_chunk_list(cs, fuel) {
            Some(cs2) => Some(Expr::TextLit(cs2)),
            None => None,
        },
        Expr::BinOp(op, a, b) => match (normalize_fuel(&**a, fuel), normalize_fuel(&**b, fuel)) {
            (Some(a2), Some(b2)) => Some(with_binop(*op, a2, b2)),
            _ => None,
        },
        Expr::ListLit(ta, es) => match (norm_opt_exec(ta, fuel), norm_expr_list(es, fuel)) {
            (Some(ta2), Some(es2)) => Some(Expr::ListLit(ta2, es2)),
            _ => None,
        },
        Expr::OptionalLit(ta, i) => match (norm_opt_exec(ta, fuel), norm_opt_exec(i, fuel)) {
            (Some(ta2), Some(i2)) => Some(Expr::OptionalLit(ta2, i2)),
            _ => None,
        },
        Expr::Record(fs) => match norm_field_list(fs, fuel) {
            Some(fs2) => Some(Expr::Record(fs2)),
            None => None,
        },
        Expr::RecordLit(fs) => match norm_field_list(fs, fuel) {
            Some(fs2) => Some(Expr::RecordLit(fs2)),
            None => None,
        },
        Expr::Union(fs) => match norm_field_list(fs, fuel) {
            Some(fs2) => Some(Expr::Union(fs2)),
            None => None,
        },
        Expr::UnionLit(x, v, fs) => match (
            normalize_fuel(&**v, fuel),
            norm_field_list(fs, fuel),
        ) {
            (Some(v2), Some(fs2)) => Some(Expr::UnionLit(dup_bytes(x), bx(v2), fs2)),
            _ => None,
        },
        Expr::Merge(h, s, t) => match (
            normalize_fuel(&**h, fuel),
            normalize_fuel(&**s, fuel),
            norm_opt_exec(t, fuel),
        ) {
            (Some(nh), Some(ns), Some(nta)) => {
                let ghost gnh = nh@;
                let ghost gns = ns@;
                match (nh, ns) {
                    (Expr::RecordLit(kvs), Expr::UnionLit(tag, v, alts)) => {
                        proof {
                            assert(gnh == Term::RecordLit(fields_of(kvs@)));
                            assert(gns == Term::UnionLit(
                                tag@,
                                Box::new((*v)@),
                                fields_of(alts@),
                            ));
                        }
                        match lookup_idx(&kvs, &tag) {
                            Some(idx) => {
                                if fuel == 0 {
                                    None
                                } else {
                                    let handler = dup(&kvs[idx].1);
                                    let app = Expr::App(bx(handler), v);
                                    normalize_fuel(&app, fuel - 1)
                                }
                            },
                            None => Some(
                                Expr::Merge(
                                    bx(Expr::RecordLit(kvs)),
                                    bx(Expr::UnionLit(tag, v, alts)),
                                    nta,
                                ),
                            ),
                        }
                    },
                    (nh2, ns2) => {
                        proof {
                            lemma_view_variant(nh2);
                            lemma_view_variant(ns2);
                        }
                        Some(Expr::Merge(bx(nh2), bx(ns2), nta))
                    },
                }
            },
            _ => None,
        },
        Expr::Field(r0, y) => match normalize_fuel(&**r0, fuel) {
            Some(nr) => {
                let ghost gnr = nr@;
                match nr {
                    Expr::RecordLit(kvs) => {
                        proof {
                            assert(gnr == Term::RecordLit(fields_of(kvs@)));
                        }
                        match lookup_idx(&kvs, y) {
                            Some(idx) => Some(dup(&kvs[idx].1)),
                            None => Some(Expr::Field(bx(Expr::RecordLit(kvs)), dup_bytes(y))),
                        }
                    },
                    nr2 => {
                        proof {
                            lemma_view_variant(nr2);
                        }
                        Some(Expr::Field(bx(nr2), dup_bytes(y)))
                    },
                }
            },
            None => None,
        },
        Expr::Note(_, _, inner) => normalize_fuel(&**inner, fuel),
        Expr::Embed(i) => Some(Expr::Embed(dup_import(i))),
    }
}

/// The fuel the public normalizer runs with; far beyond any reduction
/// sequence a real input performs.
pub const NORMALIZE_FUEL: u64 = u64::MAX;

/// Reduce an expression to its normal form, performing beta reduction.
///
/// `normalize` does not type-check the expression and does not fail on an
/// ill-typed one: sub-expressions matching no rule are left unevaluated,
/// and on the inputs where the reduction cannot be carried out on this
/// machine (`spec_norm` yields `None`) the input is returned unchanged.
pub fn normalize(e: &Expr) -> (r: Expr)
    ensures
        (match spec_norm(e@, NORMALIZE_FUEL as nat) {
            Some(t) => r@ == t,
            None => r@ == e@,
        }),
{
    match normalize_fuel(e, NORMALIZE_FUEL) {
        Some(r) => r,
        None => dup(e),
    }
}

} // verus!
