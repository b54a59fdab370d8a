//! The expression data model: labels, variable references, and the `Expr`
//! sum type covering every construct of the language, together with the
//! ghost counterpart `Term` that contracts and proofs speak about.
use vstd::prelude::*;

verus! {

/// Universe levels.
#[derive(Clone, Copy, Debug, PartialEq, Eq, Structural)]
pub enum Const {
    Type,
    Kind,
}

/// Binary operators, in increasing binding power as parsed.
#[derive(Clone, Copy, Debug, PartialEq, Eq, Structural)]
pub enum BinOp {
    BoolOr,
    BoolAnd,
    BoolEQ,
    BoolNE,
    NaturalPlus,
    NaturalTimes,
    TextAppend,
    ListAppend,
    Combine,
    CombineTypes,
    Prefer,
    ImportAlt,
}

/// Built-in identifiers: type constructors and the built-in functions the
/// normalizer knows rewrite rules for.
#[derive(Clone, Copy, Debug, PartialEq, Eq, Structural)]
pub enum Builtin {
    Bool,
    Natural,
    Integer,
    Double,
    Text,
    List,
    Optional,
    NaturalFold,
    NaturalBuild,
    NaturalIsZero,
    NaturalEven,
    NaturalOdd,
    NaturalToInteger,
    NaturalShow,
    ListBuild,
    ListFold,
    ListLength,
    ListHead,
    ListLast,
    ListIndexed,
    ListReverse,
    OptionalFold,
    OptionalBuild,
}

/// How a local import path is anchored.
#[derive(Clone, Copy, Debug, PartialEq, Eq, Structural)]
pub enum FilePrefix {
    Parent,
    Here,
    Home,
    Absolute,
}

/// Whether an import is interpreted as code or as raw text.
#[derive(Clone, Copy, Debug, PartialEq, Eq, Structural)]
pub enum ImportMode {
    Code,
    RawText,
}

/// Where an import points. Paths, URLs and names are byte strings.
#[derive(Clone, Debug, PartialEq, Eq)]
pub enum ImportLocation {
    Local(FilePrefix, Vec<u8>),
    Remote(Vec<u8>),
    Env(Vec<u8>),
    Missing,
}

/// An import descriptor, carried opaquely by `Expr::Embed`.
#[derive(Clone, Debug, PartialEq, Eq)]
pub struct Import {
    pub mode: ImportMode,
    pub hash: Option<Vec<u8>>,
    pub location: ImportLocation,
}

/// An identifier, held as its UTF-8 bytes. Equality is by bytes; ordering is
/// lexicographic on bytes (used to key record and union fields).
pub type Label = Vec<u8>;

/// A reference to the `n`-th most recent binder named `x`: `V(x, n)`.
/// `n = 0` means the innermost binder of that name; shadowing is per-name.
#[derive(Clone, Debug, PartialEq, Eq)]
pub struct V(pub Label, pub usize);

/// One piece of an interpolated text literal: either raw text or an
/// expression hole.
#[derive(Debug, PartialEq, Eq)]
pub enum TextChunk {
    Chars(Vec<u8>),
    Interp(Box<Expr>),
}

/// A Dhall expression. Sub-expressions are held by owning handles; see `bx`.
#[derive(Debug, PartialEq, Eq)]
pub enum Expr {
    /// A universe: `Type` or `Kind`.
    Const(Const),
    /// A variable reference.
    Var(V),
    /// `λ(x : A) → b`
    Lam(Label, Box<Expr>, Box<Expr>),
    /// `∀(x : A) → B`
    Pi(Label, Box<Expr>, Box<Expr>),
    /// `f a`
    App(Box<Expr>, Box<Expr>),
    /// `let x (: A)? = r in body`
    Let(Label, Option<Box<Expr>>, Box<Expr>, Box<Expr>),
    /// `e : T`
    Annot(Box<Expr>, Box<Expr>),
    /// A built-in identifier.
    Builtin(Builtin),
    /// `True` or `False`
    BoolLit(bool),
    /// `if c then t else f`
    BoolIf(Box<Expr>, Box<Expr>, Box<Expr>),
    /// A natural number literal.
    NaturalLit(u64),
    /// An integer literal.
    IntegerLit(i64),
    /// A double literal, held as the raw bits of its 64-bit representation;
    /// the kernel never computes with it.
    DoubleLit(u64),
    /// An interpolated text literal.
    TextLit(Vec<TextChunk>),
    /// `x <op> y`
    BinOp(BinOp, Box<Expr>, Box<Expr>),
    /// `[a, b, c]`, with an optional element-type annotation.
    ListLit(Option<Box<Expr>>, Vec<Expr>),
    /// An optional literal holding zero or one item.
    OptionalLit(Option<Box<Expr>>, Option<Box<Expr>>),
    /// A record type `{ a : T }`; fields sorted by label, keys unique.
    Record(Vec<(Label, Expr)>),
    /// A record literal `{ a = v }`; fields sorted by label, keys unique.
    RecordLit(Vec<(Label, Expr)>),
    /// A union type `< a : T | b : U >`; sorted by label, keys unique.
    Union(Vec<(Label, Expr)>),
    /// A union literal `< a = v | b : U >`: the chosen tag, its value, and
    /// the other variants.
    UnionLit(Label, Box<Expr>, Vec<(Label, Expr)>),
    /// `merge handlers scrutinee (: T)?`
    Merge(Box<Expr>, Box<Expr>, Option<Box<Expr>>),
    /// `record.label`
    Field(Box<Expr>, Label),
    /// A source span attached by the parser; transparent to semantics.
    Note(usize, usize, Box<Expr>),
    /// An opaque import payload.
    Embed(Import),
}

/// Wrap an expression into an owning handle.
pub fn bx(e: Expr) -> (r: Box<Expr>)
    ensures
        *r == e,
{
    Box::new(e)
}

/// Ghost counterpart of `ImportLocation`.
pub enum TermLocation {
    Local(FilePrefix, Seq<u8>),
    Remote(Seq<u8>),
    Env(Seq<u8>),
    Missing,
}

/// Ghost counterpart of `Import`.
pub struct TermImport {
    pub mode: ImportMode,
    pub hash: Option<Seq<u8>>,
    pub location: TermLocation,
}

/// Ghost counterpart of `TextChunk`.
pub enum TermChunk {
    Chars(Seq<u8>),
    Interp(Term),
}

/// The mathematical model of an expression: like `Expr`, with labels as
/// `Seq<u8>`, indices as `nat`, and children as `Seq`s.
pub enum Term {
    Const(Const),
    Var(Seq<u8>, nat),
    Lam(Seq<u8>, Box<Term>, Box<Term>),
    Pi(Seq<u8>, Box<Term>, Box<Term>),
    App(Box<Term>, Box<Term>),
    Let(Seq<u8>, Option<Box<Term>>, Box<Term>, Box<Term>),
    Annot(Box<Term>, Box<Term>),
    Builtin(Builtin),
    BoolLit(bool),
    BoolIf(Box<Term>, Box<Term>, Box<Term>),
    NaturalLit(u64),
    IntegerLit(i64),
    DoubleLit(u64),
    TextLit(Seq<TermChunk>),
    BinOp(BinOp, Box<Term>, Box<Term>),
    ListLit(Option<Box<Term>>, Seq<Term>),
    OptionalLit(Option<Box<Term>>, Option<Box<Term>>),
    Record(Seq<(Seq<u8>, Term)>),
    RecordLit(Seq<(Seq<u8>, Term)>),
    Union(Seq<(Seq<u8>, Term)>),
    UnionLit(Seq<u8>, Box<Term>, Seq<(Seq<u8>, Term)>),
    Merge(Box<Term>, Box<Term>, Option<Box<Term>>),
    Field(Box<Term>, Seq<u8>),
    Note(nat, nat, Box<Term>),
    Embed(TermImport),
}

/// The model of an import descriptor.
pub open spec fn import_term(i: Import) -> TermImport {
    TermImport {
        mode: i.mode,
        hash: match i.hash {
            Some(h) => Some(h@),
            None => None,
        },
        location: match i.location {
            ImportLocation::Local(p, b) => TermLocation::Local(p, b@),
            ImportLocation::Remote(b) => TermLocation::Remote(b@),
            ImportLocation::Env(b) => TermLocation::Env(b@),
            ImportLocation::Missing => TermLocation::Missing,
        },
    }
}

/// The model of an expression.
pub open spec fn term_of(e: Expr) -> Term
    decreases e, 1int,
{
    match e {
        Expr::Const(c) => Term::Const(c),
        Expr::Var(v) => Term::Var(v.0@, v.1 as nat),
        Expr::Lam(x, ta, b) => Term::Lam(x@, Box::new(term_of(*ta)), Box::new(term_of(*b))),
        Expr::Pi(x, ta, tb) => Term::Pi(x@, Box::new(term_of(*ta)), Box::new(term_of(*tb))),
        Expr::App(f, a) => Term::App(Box::new(term_of(*f)), Box::new(term_of(*a))),
        Expr::Let(x, t, r, b) => Term::Let(
            x@,
            opt_term_of(t),
            Box::new(term_of(*r)),
            Box::new(term_of(*b)),
        ),
        Expr::Annot(a, t) => Term::Annot(Box::new(term_of(*a)), Box::new(term_of(*t))),
        Expr::Builtin(b) => Term::Builtin(b),
        Expr::BoolLit(b) => Term::BoolLit(b),
        Expr::BoolIf(c, t, f) => Term::BoolIf(
            Box::new(term_of(*c)),
            Box::new(term_of(*t)),
            Box::new(term_of(*f)),
        ),
        Expr::NaturalLit(n) => Term::NaturalLit(n),
        Expr::IntegerLit(n) => Term::IntegerLit(n),
        Expr::DoubleLit(n) => Term::DoubleLit(n),
        Expr::TextLit(cs) => Term::TextLit(chunks_of(cs@)),
        Expr::BinOp(op, x, y) => Term::BinOp(op, Box::new(term_of(*x)), Box::new(term_of(*y))),
        Expr::ListLit(t, es) => Term::ListLit(opt_term_of(t), terms_of(es@)),
        Expr::OptionalLit(t, i) => Term::OptionalLit(opt_term_of(t), opt_term_of(i)),
        Expr::Record(fs) => Term::Record(fields_of(fs@)),
        Expr::RecordLit(fs) => Term::RecordLit(fields_of(fs@)),
        Expr::Union(fs) => Term::Union(fields_of(fs@)),
        Expr::UnionLit(x, v, fs) => Term::UnionLit(x@, Box::new(term_of(*v)), fields_of(fs@)),
        Expr::Merge(h, s, t) => Term::Merge(
            Box::new(term_of(*h)),
            Box::new(term_of(*s)),
            opt_term_of(t),
        ),
        Expr::Field(r, x) => Term::Field(Box::new(term_of(*r)), x@),
        Expr::Note(a, b, inner) => Term::Note(a as nat, b as nat, Box::new(term_of(*inner))),
        Expr::Embed(i) => Term::Embed(import_term(i)),
    }
}

/// The model of an optional child.
pub open spec fn opt_term_of(o: Option<Box<Expr>>) -> Option<Box<Term>>
    decreases o, 1int,
{
    match o {
        Some(b) => Some(Box::new(term_of(*b))),
        None => None,
    }
}

/// The model of a sequence of expressions, elementwise.
pub open spec fn terms_of(s: Seq<Expr>) -> Seq<Term>
    decreases s, 0int,
{
    if s.len() == 0 {
        Seq::empty()
    } else {
        seq![term_of(s[0])] + terms_of(s.drop_first())
    }
}

/// The model of a field list, elementwise.
pub open spec fn fields_of(s: Seq<(Label, Expr)>) -> Seq<(Seq<u8>, Term)>
    decreases s, 0int,
{
    if s.len() == 0 {
        Seq::empty()
    } else {
        seq![(s[0].0@, term_of(s[0].1))] + fields_of(s.drop_first())
    }
}

/// The model of one text chunk.
pub open spec fn chunk_term(c: TextChunk) -> TermChunk
    decreases c, 1int,
{
    match c {
        TextChunk::Chars(b) => TermChunk::Chars(b@),
        TextChunk::Interp(e) => TermChunk::Interp(term_of(*e)),
    }
}

/// The model of a chunk list, elementwise.
pub open spec fn chunks_of(s: Seq<TextChunk>) -> Seq<TermChunk>
    decreases s, 0int,
{
    if s.len() == 0 {
        Seq::empty()
    } else {
        seq![chunk_term(s[0])] + chunks_of(s.drop_first())
    }
}

/// The model of an optional expression result.
pub open spec fn res_term(o: Option<Expr>) -> Option<Term> {
    match o {
        Some(e) => Some(term_of(e)),
        None => None,
    }
}

/// The model of an optional expression-list result.
pub open spec fn res_terms(o: Option<Vec<Expr>>) -> Option<Seq<Term>> {
    match o {
        Some(v) => Some(terms_of(v@)),
        None => None,
    }
}

/// The model of an optional field-list result.
pub open spec fn res_fields(o: Option<Vec<(Label, Expr)>>) -> Option<Seq<(Seq<u8>, Term)>> {
    match o {
        Some(v) => Some(fields_of(v@)),
        None => None,
    }
}

/// The model of an optional chunk-list result.
pub open spec fn res_chunks(o: Option<Vec<TextChunk>>) -> Option<Seq<TermChunk>> {
    match o {
        Some(v) => Some(chunks_of(v@)),
        None => None,
    }
}

/// The model of an optional optional-child result.
pub open spec fn res_opt(o: Option<Option<Box<Expr>>>) -> Option<Option<Box<Term>>> {
    match o {
        Some(v) => Some(opt_term_of(v)),
        None => None,
    }
}

/// The model keeps the constructor: each variant of an expression maps to
/// the same variant of its model.
pub proof fn lemma_view_variant(e: Expr)
    ensures
        (term_of(e) is Const <==> e is Const),
        (term_of(e) is Var <==> e is Var),
        (term_of(e) is Lam <==> e is Lam),
        (term_of(e) is Pi <==> e is Pi),
        (term_of(e) is App <==> e is App),
        (term_of(e) is Let <==> e is Let),
        (term_of(e) is Annot <==> e is Annot),
        (term_of(e) is Builtin <==> e is Builtin),
        (term_of(e) is BoolLit <==> e is BoolLit),
        (term_of(e) is BoolIf <==> e is BoolIf),
        (term_of(e) is NaturalLit <==> e is NaturalLit),
        (term_of(e) is IntegerLit <==> e is IntegerLit),
        (term_of(e) is DoubleLit <==> e is DoubleLit),
        (term_of(e) is TextLit <==> e is TextLit),
        (term_of(e) is BinOp <==> e is BinOp),
        (term_of(e) is ListLit <==> e is ListLit),
        (term_of(e) is OptionalLit <==> e is OptionalLit),
        (term_of(e) is Record <==> e is Record),
        (term_of(e) is RecordLit <==> e is RecordLit),
        (term_of(e) is Union <==> e is Union),
        (term_of(e) is UnionLit <==> e is UnionLit),
        (term_of(e) is Merge <==> e is Merge),
        (term_of(e) is Field <==> e is Field),
        (term_of(e) is Note <==> e is Note),
        (term_of(e) is Embed <==> e is Embed),
{
}

impl View for Expr {
    type V = Term;

    open spec fn view(&self) -> Term {
        term_of(*self)
    }
}

/// Strict lexicographic order on byte strings; the order on labels.
pub open spec fn lex_lt(a: Seq<u8>, b: Seq<u8>) -> bool
    decreases a.len(),
{
    if b.len() == 0 {
        false
    } else if a.len() == 0 {
        true
    } else if a[0] < b[0] {
        true
    } else if a[0] > b[0] {
        false
    } else {
        lex_lt(a.drop_first(), b.drop_first())
    }
}

/// Dropping a common prefix does not change the lexicographic comparison.
pub proof fn lemma_lex_skip(a: Seq<u8>, b: Seq<u8>, k: int)
    requires
        0 <= k <= a.len(),
        k <= b.len(),
        forall|j: int| 0 <= j < k ==> a[j] == b[j],
    ensures
        lex_lt(a, b) == lex_lt(a.skip(k), b.skip(k)),
    decreases k,
{
    if k > 0 {
        assert(a.skip(k) =~= a.drop_first().skip(k - 1));
        assert(b.skip(k) =~= b.drop_first().skip(k - 1));
        lemma_lex_skip(a.drop_first(), b.drop_first(), k - 1);
    } else {
        assert(a.skip(0) =~= a);
        assert(b.skip(0) =~= b);
    }
}

/// Byte-string equality.
pub fn eq_bytes(a: &Vec<u8>, b: &Vec<u8>) -> (r: bool)
    ensures
        r == (a@ == b@),
{
    if a.len() != b.len() {
        return false;
    }
    let mut i: usize = 0;
    while i < a.len()
        invariant
            i <= a.len(),
            a@.len() == b@.len(),
            forall|j: int| 0 <= j < i ==> a@[j] == b@[j],
        decreases a@.len() - i,
    {
        if a[i] != b[i] {
            return false;
        }
        i += 1;
    }
    proof {
        assert(a@ =~= b@);
    }
    true
}

/// Byte-string comparison: `lex_lt` on the contents.
pub fn lt_bytes(a: &Vec<u8>, b: &Vec<u8>) -> (r: bool)
    ensures
        r == lex_lt(a@, b@),
{
    let mut i: usize = 0;
    while i < a.len() && i < b.len()
        invariant
            i <= a.len(),
            i <= b.len(),
            forall|j: int| 0 <= j < i ==> a@[j] == b@[j],
        decreases a@.len() - i,
    {
        if a[i] < b[i] {
            proof {
                lemma_lex_skip(a@, b@, i as int);
            }
            return true;
        }
        if a[i] > b[i] {
            proof {
                lemma_lex_skip(a@, b@, i as int);
            }
            return false;
        }
        i += 1;
    }
    proof {
        lemma_lex_skip(a@, b@, i as int);
    }
    a.len() < b.len()
}

/// Copy a byte string.
pub fn dup_bytes(v: &Vec<u8>) -> (r: Vec<u8>)
    ensures
        r@ == v@,
{
    let mut out: Vec<u8> = Vec::new();
    let mut i: usize = 0;
    while i < v.len()
        invariant
            i <= v.len(),
            out@ =~= v@.subrange(0, i as int),
        decreases v@.len() - i,
    {
        out.push(v[i]);
        i += 1;
    }
    proof {
        assert(out@ =~= v@);
    }
    out
}

/// `terms_of` maps `term_of` elementwise.
pub proof fn lemma_terms_of(s: Seq<Expr>)
    ensures
        terms_of(s).len() == s.len(),
        forall|i: int| 0 <= i < s.len() ==> terms_of(s)[i] == term_of(s[i]),
    decreases s.len(),
{
    if s.len() > 0 {
        lemma_terms_of(s.drop_first());
    }
}

/// `fields_of` maps labels and values elementwise.
pub proof fn lemma_fields_of(s: Seq<(Label, Expr)>)
    ensures
        fields_of(s).len() == s.len(),
        forall|i: int|
            0 <= i < s.len() ==> fields_of(s)[i] == ((s[i].0@, term_of(s[i].1))),
    decreases s.len(),
{
    if s.len() > 0 {
        lemma_fields_of(s.drop_first());
    }
}

/// `chunks_of` maps chunks elementwise.
pub proof fn lemma_chunks_of(s: Seq<TextChunk>)
    ensures
        chunks_of(s).len() == s.len(),
        forall|i: int| 0 <= i < s.len() ==> chunks_of(s)[i] == chunk_term(s[i]),
    decreases s.len(),
{
    if s.len() > 0 {
        lemma_chunks_of(s.drop_first());
    }
}

/// Copy an import descriptor.
pub fn dup_import(i: &Import) -> (r: Import)
    ensures
        import_term(r) == import_term(*i),
{
    Import {
        mode: i.mode,
        hash: match &i.hash {
            Some(h) => Some(dup_bytes(h)),
            None => None,
        },
        location: match &i.location {
            ImportLocation::Local(p, b) => ImportLocation::Local(*p, dup_bytes(b)),
            ImportLocation::Remote(b) => ImportLocation::Remote(dup_bytes(b)),
            ImportLocation::Env(b) => ImportLocation::Env(dup_bytes(b)),
            ImportLocation::Missing => ImportLocation::Missing,
        },
    }
}

/// Copy a variable reference.
pub fn dup_v(v: &V) -> (r: V)
    ensures
        r.0@ == v.0@,
        r.1 == v.1,
{
    V(dup_bytes(&v.0), v.1)
}

/// Deep copy of an expression. Handles are owning, so this is structural.
pub fn dup(e: &Expr) -> (r: Expr)
    ensures
        r@ == e@,
    decreases *e,
{
    match e {
        Expr::Const(c) => Expr::Const(*c),
        Expr::Var(v) => Expr::Var(dup_v(v)),
        Expr::Lam(x, ta, b) => Expr::Lam(dup_bytes(x), bx(dup(&**ta)), bx(dup(&**b))),
        Expr::Pi(x, ta, tb) => Expr::Pi(dup_bytes(x), bx(dup(&**ta)), bx(dup(&**tb))),
        Expr::App(f, a) => Expr::App(bx(dup(&**f)), bx(dup(&**a))),
        Expr::Let(x, t, r0, b) => Expr::Let(
            dup_bytes(x),
            dup_opt(t),
            bx(dup(&**r0)),
            bx(dup(&**b)),
        ),
        Expr::Annot(a, t) => Expr::Annot(bx(dup(&**a)), bx(dup(&**t))),
        Expr::Builtin(b) => Expr::Builtin(*b),
        Expr::BoolLit(b) => Expr::BoolLit(*b),
        Expr::BoolIf(c, t, f) => Expr::BoolIf(bx(dup(&**c)), bx(dup(&**t)), bx(dup(&**f))),
        Expr::NaturalLit(n) => Expr::NaturalLit(*n),
        Expr::IntegerLit(n) => Expr::IntegerLit(*n),
        Expr::DoubleLit(n) => Expr::DoubleLit(*n),
        Expr::TextLit(cs) => Expr::TextLit(dup_chunks(cs)),
        Expr::BinOp(op, x, y) => Expr::BinOp(*op, bx(dup(&**x)), bx(dup(&**y))),
        Expr::ListLit(t, es) => Expr::ListLit(dup_opt(t), dup_exprs(es)),
        Expr::OptionalLit(t, i) => Expr::OptionalLit(dup_opt(t), dup_opt(i)),
        Expr::Record(fs) => Expr::Record(dup_fields(fs)),
        Expr::RecordLit(fs) => Expr::RecordLit(dup_fields(fs)),
        Expr::Union(fs) => Expr::Union(dup_fields(fs)),
        Expr::UnionLit(x, v, fs) => Expr::UnionLit(dup_bytes(x), bx(dup(&**v)), dup_fields(fs)),
        Expr::Merge(h, s, t) => Expr::Merge(bx(dup(&**h)), bx(dup(&**s)), dup_opt(t)),
        Expr::Field(r0, x) => Expr::Field(bx(dup(&**r0)), dup_bytes(x)),
        Expr::Note(a, b, inner) => Expr::Note(*a, *b, bx(dup(&**inner))),
        Expr::Embed(i) => Expr::Embed(dup_import(i)),
    }
}

/// Deep copy of an optional child.
pub fn dup_opt(o: &Option<Box<Expr>>) -> (r: Option<Box<Expr>>)
    ensures
        opt_term_of(r) == opt_term_of(*o),
    decreases *o,
{
    match o {
        Some(b) => Some(bx(dup(&**b))),
        None => None,
    }
}

/// Deep copy of an expression list.
pub fn dup_exprs(es: &Vec<Expr>) -> (r: Vec<Expr>)
    ensures
        terms_of(r@) == terms_of(es@),
    decreases *es,
{
    let mut out: Vec<Expr> = Vec::new();
    let mut i: usize = 0;
    while i < es.len()
        invariant
            i <= es.len(),
            out@.len() == i as int,
            forall|j: int| 0 <= j < i ==> out@[j]@ == es@[j]@,
        decreases es@.len() - i,
    {
        out.push(dup(&es[i]));
        i += 1;
    }
    proof {
        lemma_terms_of(out@);
        lemma_terms_of(es@);
        assert(terms_of(out@) =~= terms_of(es@));
    }
    out
}

/// Deep copy of a field list.
pub fn dup_fields(fs: &Vec<(Label, Expr)>) -> (r: Vec<(Label, Expr)>)
    ensures
        fields_of(r@) == fields_of(fs@),
    decreases *fs,
{
    let mut out: Vec<(Label, Expr)> = Vec::new();
    let mut i: usize = 0;
    while i < fs.len()
        invariant
            i <= fs.len(),
            out@.len() == i as int,
            forall|j: int| 0 <= j < i ==> out@[j].0@ == fs@[j].0@ && out@[j].1@ == fs@[j].1@,
        decreases fs@.len() - i,
    {
        let p = &fs[i];
        out.push((dup_bytes(&p.0), dup(&p.1)));
        i += 1;
    }
    proof {
        lemma_fields_of(out@);
        lemma_fields_of(fs@);
        assert(fields_of(out@) =~= fields_of(fs@));
    }
    out
}

/// Deep copy of a chunk list.
pub fn dup_chunks(cs: &Vec<TextChunk>) -> (r: Vec<TextChunk>)
    ensures
        chunks_of(r@) == chunks_of(cs@),
    decreases *cs,
{
    let mut out: Vec<TextChunk> = Vec::new();
    let mut i: usize = 0;
    while i < cs.len()
        invariant
            i <= cs.len(),
            out@.len() == i as int,
            forall|j: int| 0 <= j < i ==> chunk_term(out@[j]) == chunk_term(cs@[j]),
        decreases cs@.len() - i,
    {
        let c2 = match &cs[i] {
            TextChunk::Chars(b) => TextChunk::Chars(dup_bytes(b)),
            TextChunk::Interp(e2) => TextChunk::Interp(bx(dup(&**e2))),
        };
        out.push(c2);
        i += 1;
    }
    proof {
        lemma_chunks_of(out@);
        lemma_chunks_of(cs@);
        assert(chunks_of(out@) =~= chunks_of(cs@));
    }
    out
}

} // verus!
