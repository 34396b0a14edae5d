use vstd::prelude::*;

verus! {

/// A variable reference; also the name of a function in a call.
pub struct Variable(pub String);

/// Literal text.
pub struct Literal(pub String);

/// Terms written side by side, rendered one after another.
pub struct Concat(pub Vec<Expr>);

/// `left == right`.
pub struct Equals(pub Box<Expr>, pub Box<Expr>);

/// `cond ? success : failure`.
pub struct Condition {
    pub cond: Box<Expr>,
    pub success: Box<Expr>,
    pub failure: Box<Expr>,
}

/// `cond ?? other`.
pub struct NullCheck {
    pub cond: Box<Expr>,
    pub other: Box<Expr>,
}

/// `#typ(file, name = value, -name, ...)`.
pub struct Call {
    pub typ: Variable,
    pub file: Box<Expr>,
    /// Names to define in the callee's variables, each once, in order of appearance.
    pub define: Vec<(Variable, Expr)>,
    /// Names to remove from the callee's variables.
    pub undefine: Vec<Variable>,
}

/// An expression found between `${` and `}`.
pub enum Expr {
    Empty,
    Variable(Variable),
    Literal(Literal),
    Concat(Concat),
    Equals(Equals),
    Condition(Condition),
    NullCheck(NullCheck),
    Call(Call),
}

/// The model of an [`Expr`]: names and texts as character sequences.
pub enum SExpr {
    Empty,
    Variable(Seq<char>),
    Literal(Seq<char>),
    Concat(Seq<SExpr>),
    Equals(Box<SExpr>, Box<SExpr>),
    Condition(Box<SExpr>, Box<SExpr>, Box<SExpr>),
    NullCheck(Box<SExpr>, Box<SExpr>),
    /// Function name, file argument, definitions, removals.
    Call(Seq<char>, Box<SExpr>, Seq<(Seq<char>, SExpr)>, Seq<Seq<char>>),
}

/// The definitions of a call as names and expression models.
pub open spec fn defs_model(d: Seq<(Variable, Expr)>) -> Seq<(Seq<char>, SExpr)>
    decreases d,
{
    Seq::new(
        d.len(),
        |i: int|
            if 0 <= i < d.len() {
                (d[i].0.0@, d[i].1.model())
            } else {
                (Seq::empty(), SExpr::Empty)
            },
    )
}

pub open spec fn names_model(u: Seq<Variable>) -> Seq<Seq<char>> {
    u.map_values(|v: Variable| v.0@)
}

impl Expr {
    pub open spec fn model(&self) -> SExpr
        decreases self,
    {
        match self {
            Expr::Empty => SExpr::Empty,
            Expr::Variable(v) => SExpr::Variable(v.0@),
            Expr::Literal(l) => SExpr::Literal(l.0@),
            Expr::Concat(c) => SExpr::Concat(
                Seq::new(
                    c.0@.len(),
                    |i: int|
                        if 0 <= i < c.0@.len() {
                            c.0@[i].model()
                        } else {
                            SExpr::Empty
                        },
                ),
            ),
            Expr::Equals(e) => SExpr::Equals(Box::new(e.0.model()), Box::new(e.1.model())),
            Expr::Condition(c) => SExpr::Condition(
                Box::new(c.cond.model()),
                Box::new(c.success.model()),
                Box::new(c.failure.model()),
            ),
            Expr::NullCheck(n) => SExpr::NullCheck(
                Box::new(n.cond.model()),
                Box::new(n.other.model()),
            ),
            Expr::Call(c) => SExpr::Call(
                c.typ.0@,
                Box::new(c.file.model()),
                defs_model(c.define@),
                names_model(c.undefine@),
            ),
        }
    }
}

/// Appends `b` to the terms of `a`: `a` itself if it was empty, a new list of two
/// if it was a single term.
pub open spec fn sconcat(a: SExpr, b: SExpr) -> SExpr {
    match a {
        SExpr::Empty => b,
        SExpr::Concat(v) => SExpr::Concat(v.push(b)),
        _ => SExpr::Concat(seq![a, b]),
    }
}

impl Expr {
    /// Adds `other` after the terms of this expression.
    pub fn concat(&mut self, other: Expr)
        ensures
            final(self).model() == sconcat(old(self).model(), other.model()),
    {
        match self {
            Expr::Empty => {
                *self = other;
            },
            Expr::Concat(c) => {
                c.0.push(other);
                assert(self.model() matches SExpr::Concat(v) && v =~= old(self).model()->Concat_0.push(
                    other.model(),
                ));
            },
            _ => {
                let mut first = Expr::Empty;
                std::mem::swap(self, &mut first);
                let ghost fm = first.model();
                *self = Expr::Concat(Concat(vec![first, other]));
                assert(self.model()->Concat_0 =~= seq![fm, other.model()]);
            },
        }
    }
}

impl Variable {
    pub fn new(name: String) -> (r: Variable)
        ensures
            r.0 == name,
    {
        Variable(name)
    }
}

impl Literal {
    pub fn new(value: String) -> (r: Literal)
        ensures
            r.0 == value,
    {
        Literal(value)
    }
}

impl Concat {
    pub fn new(exprs: Vec<Expr>) -> (r: Concat)
        ensures
            r.0 == exprs,
    {
        Concat(exprs)
    }
}

impl Equals {
    pub fn new(l: Expr, r: Expr) -> (res: Equals)
        ensures
            *res.0 == l,
            *res.1 == r,
    {
        Equals(Box::new(l), Box::new(r))
    }
}

impl Condition {
    pub fn new(cond: Expr, success: Expr, failure: Expr) -> (r: Condition)
        ensures
            *r.cond == cond,
            *r.success == success,
            *r.failure == failure,
    {
        Condition { cond: Box::new(cond), success: Box::new(success), failure: Box::new(failure) }
    }
}

impl NullCheck {
    pub fn new(cond: Expr, other: Expr) -> (r: NullCheck)
        ensures
            *r.cond == cond,
            *r.other == other,
    {
        NullCheck { cond: Box::new(cond), other: Box::new(other) }
    }
}

impl Call {
    pub fn new(typ: Variable, file: Expr, define: Vec<(Variable, Expr)>, undefine: Vec<Variable>) -> (r:
        Call)
        ensures
            r.typ == typ,
            *r.file == file,
            r.define == define,
            r.undefine == undefine,
    {
        Call { typ, file: Box::new(file), define, undefine }
    }
}

} // verus!
