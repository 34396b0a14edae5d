use vstd::prelude::*;

use crate::ast::{
    defs_model, names_model, Call, Concat, Condition, Equals, Expr, Literal, NullCheck, SExpr,
    Variable,
};
use crate::error::{Error, SError};
use crate::lexer::Lexer;
use crate::parser::{p_parse, sane, PState, Parser};
use crate::strmap::StringMap;
use crate::text::{chars_of, string_of};

verus! {

/// The files of a template that expressions may name, by path relative to its root:
/// those readable as text with their text, and every other entry (directories,
/// files that hold no text).
pub struct TemplateFiles {
    pub texts: StringMap,
    pub others: StringMap,
}

/// The model of [`TemplateFiles`].
pub struct SFiles {
    pub texts: Map<Seq<char>, Seq<char>>,
    pub others: Map<Seq<char>, Seq<char>>,
}

impl TemplateFiles {
    pub fn new() -> (r: TemplateFiles)
        ensures
            r@.texts == Map::<Seq<char>, Seq<char>>::empty(),
            r@.others == Map::<Seq<char>, Seq<char>>::empty(),
    {
        TemplateFiles { texts: StringMap::new(), others: StringMap::new() }
    }
}

impl View for TemplateFiles {
    type V = SFiles;

    open spec fn view(&self) -> SFiles {
        SFiles { texts: self.texts@, others: self.others@ }
    }
}

/// Whether anything stands at `path`.
pub open spec fn present(f: SFiles, path: Seq<char>) -> bool {
    f.texts.contains_key(path) || f.others.contains_key(path)
}

/// `out` with the path component `comp` added, unless it is empty or `.`.
pub open spec fn add_component(out: Seq<char>, comp: Seq<char>) -> Seq<char> {
    if comp.len() == 0 || comp == seq!['.'] {
        out
    } else if out.len() == 0 {
        comp
    } else {
        out + seq!['/'] + comp
    }
}

/// The components of `p` from index `i` on, after those already read (`out`)
/// and the one being read (`comp`).
pub open spec fn clean_from(p: Seq<char>, i: int, comp: Seq<char>, out: Seq<char>) -> Seq<char>
    decreases p.len() - i,
{
    if i < 0 || i >= p.len() {
        add_component(out, comp)
    } else if p[i] == '/' {
        clean_from(p, i + 1, Seq::empty(), add_component(out, comp))
    } else {
        clean_from(p, i + 1, comp.push(p[i]), out)
    }
}

/// A path named in an expression, as a path relative to the template's root:
/// its components joined by `/`, without empty and `.` components.
pub open spec fn clean_path(p: Seq<char>) -> Seq<char> {
    clean_from(p, 0, Seq::empty(), Seq::empty())
}

/// What an expansion reads: the variables, the template's files, and how many
/// `#make` calls may still nest.
pub struct SCtx {
    pub vars: Map<Seq<char>, Seq<char>>,
    pub files: SFiles,
    pub depth: nat,
}

/// The text an expression renders and whether it is present, or the first error.
pub type EvalResult = Result<(Seq<char>, bool), SError>;

/// Removes each name of `u` from `m`.
pub open spec fn remove_all(m: Map<Seq<char>, Seq<char>>, u: Seq<Seq<char>>) -> Map<
    Seq<char>,
    Seq<char>,
>
    decreases u.len(),
{
    if u.len() == 0 {
        m
    } else {
        remove_all(m, u.subrange(0, u.len() - 1)).remove(u[u.len() - 1])
    }
}

pub open spec fn name_exists() -> Seq<char> {
    seq!['e', 'x', 'i', 's', 't', 's']
}

pub open spec fn name_incl() -> Seq<char> {
    seq!['i', 'n', 'c', 'l', 'u', 'd', 'e']
}

pub open spec fn name_make() -> Seq<char> {
    seq!['m', 'a', 'k', 'e']
}

/// The number of nodes of an expression, counting those of its definitions.
pub open spec fn size(e: SExpr) -> nat
    decreases e,
{
    match e {
        SExpr::Concat(v) => 1 + seq_size(v),
        SExpr::Equals(l, r) => 1 + size(*l) + size(*r),
        SExpr::Condition(a, b, x) => 1 + size(*a) + size(*b) + size(*x),
        SExpr::NullCheck(a, b) => 1 + size(*a) + size(*b),
        SExpr::Call(_, f, d, _) => 1 + size(*f) + defs_size(d),
        _ => 1,
    }
}

pub open spec fn seq_size(v: Seq<SExpr>) -> nat
    decreases v,
{
    if v.len() == 0 {
        0
    } else {
        seq_size(v.subrange(0, v.len() - 1)) + size(v[v.len() - 1]) + 1
    }
}

pub open spec fn defs_size(d: Seq<(Seq<char>, SExpr)>) -> nat
    decreases d,
{
    if d.len() == 0 {
        0
    } else {
        defs_size(d.subrange(0, d.len() - 1)) + size(d[d.len() - 1].1) + 1
    }
}

/// Evaluates `e` against `c`.
pub open spec fn eval_expr(e: SExpr, c: SCtx) -> EvalResult
    decreases c.depth, 1int, size(e),
{
    match e {
        SExpr::Empty => Ok((Seq::empty(), false)),
        SExpr::Variable(n) => if c.vars.contains_key(n) {
            Ok((c.vars[n], true))
        } else {
            Ok((Seq::empty(), false))
        },
        SExpr::Literal(t) => Ok((t, true)),
        SExpr::Concat(v) => eval_seq(v, c),
        SExpr::Equals(l, r) => match eval_expr(*l, c) {
            Err(x) => Err(x),
            Ok((lt, lp)) => match eval_expr(*r, c) {
                Err(x) => Err(x),
                Ok((rt, rp)) => if lp == rp && lt == rt {
                    Ok((lt, true))
                } else {
                    Ok((Seq::empty(), false))
                },
            },
        },
        SExpr::Condition(cond, success, failure) => match eval_expr(*cond, c) {
            Err(x) => Err(x),
            Ok((_, p)) => if p {
                eval_expr(*success, c)
            } else {
                eval_expr(*failure, c)
            },
        },
        SExpr::NullCheck(cond, other) => match eval_expr(*cond, c) {
            Err(x) => Err(x),
            Ok((t, p)) => if p {
                Ok((t, true))
            } else {
                eval_expr(*other, c)
            },
        },
        SExpr::Call(name, file, defs, undefs) => {
            if name == name_exists() || name == name_incl() {
                if defs.len() > 0 || undefs.len() > 0 {
                    Err(SError::TooManyArguments(name))
                } else {
                    match eval_expr(*file, c) {
                        Err(x) => Err(x),
                        Ok((named, _)) => {
                            let path = clean_path(named);
                            if name == name_exists() {
                                Ok((Seq::empty(), present(c.files, path)))
                            } else if !present(c.files, path) {
                                Ok((Seq::empty(), false))
                            } else if c.files.texts.contains_key(path) {
                                Ok((c.files.texts[path], true))
                            } else {
                                Err(SError::Unreadable(path))
                            }
                        },
                    }
                }
            } else if name == name_make() {
                match eval_expr(*file, c) {
                    Err(x) => Err(x),
                    Ok((named, _)) => {
                        let path = clean_path(named);
                        if !present(c.files, path) {
                        Ok((Seq::empty(), false))
                    } else if !c.files.texts.contains_key(path) {
                        Err(SError::Unreadable(path))
                    } else {
                        match eval_defs(defs, c, remove_all(c.vars, undefs)) {
                            Err(x) => Err(x),
                            Ok(vars) => if c.depth == 0 {
                                Err(SError::TooDeep)
                            } else {
                                match expand_from(
                                    c.files.texts[path],
                                    0,
                                    SCtx { vars, files: c.files, depth: (c.depth - 1) as nat },
                                ) {
                                    Err(x) => Err(x),
                                    Ok(t) => Ok((t, true)),
                                }
                            },
                        }
                        }
                    },
                }
            } else {
                Err(SError::UnknownFunction(name))
            }
        },
    }
}

/// Evaluates terms in order: their texts joined, present if any one is.
pub open spec fn eval_seq(v: Seq<SExpr>, c: SCtx) -> EvalResult
    decreases c.depth, 1int, seq_size(v),
{
    if v.len() == 0 {
        Ok((Seq::empty(), false))
    } else {
        match eval_seq(v.subrange(0, v.len() - 1), c) {
            Err(x) => Err(x),
            Ok((t, p)) => match eval_expr(v[v.len() - 1], c) {
                Err(x) => Err(x),
                Ok((t2, q)) => Ok((t + t2, p || q)),
            },
        }
    }
}

/// Adds to `m` each definition of `d` in order, its value evaluated against `c`.
pub open spec fn eval_defs(d: Seq<(Seq<char>, SExpr)>, c: SCtx, m: Map<Seq<char>, Seq<char>>) -> Result<
    Map<Seq<char>, Seq<char>>,
    SError,
>
    decreases c.depth, 1int, defs_size(d),
{
    if d.len() == 0 {
        Ok(m)
    } else {
        match eval_defs(d.subrange(0, d.len() - 1), c, m) {
            Err(x) => Err(x),
            Ok(m2) => match eval_expr(d[d.len() - 1].1, c) {
                Err(x) => Err(x),
                Ok((t, _)) => Ok(m2.insert(d[d.len() - 1].0, t)),
            },
        }
    }
}

/// Expands the text `s` from index `p`: each `${...}` is replaced by what its
/// expression renders; everything else is kept.
pub open spec fn expand_from(s: Seq<char>, p: int, c: SCtx) -> Result<Seq<char>, SError>
    decreases c.depth, 2int, s.len() - p,
{
    if p < 0 || p >= s.len() {
        Ok(Seq::empty())
    } else if s[p] != '$' {
        match expand_from(s, p + 1, c) {
            Err(x) => Err(x),
            Ok(rest) => Ok(seq![s[p]] + rest),
        }
    } else if p + 1 >= s.len() {
        Ok(seq!['$'])
    } else if s[p + 1] != '{' {
        match expand_from(s, p + 2, c) {
            Err(x) => Err(x),
            Ok(rest) => Ok(seq!['$', s[p + 1]] + rest),
        }
    } else if p + 2 >= s.len() {
        Ok(seq!['$', '{'])
    } else {
        match p_parse(s, PState { pos: p + 2, cur: None }) {
            Err(x) => Err(x),
            Ok((e, st)) => if sane(s, st) && st.pos >= p + 2 {
                match eval_expr(e, c) {
                    Err(x) => Err(x),
                    Ok((out, _)) => match expand_from(s, st.pos, c) {
                        Err(x) => Err(x),
                        Ok(rest) => Ok(out + rest),
                    },
                }
            } else {
                arbitrary()
            },
        }
    }
}

/// The expansion of the whole text `s`.
pub open spec fn expand_text(s: Seq<char>, c: SCtx) -> Result<Seq<char>, SError> {
    expand_from(s, 0, c)
}

pub proof fn lemma_seq_size_elem(v: Seq<SExpr>, i: int)
    requires
        0 <= i < v.len(),
    ensures
        size(v[i]) <= seq_size(v),
    decreases v.len(),
{
    if i < v.len() - 1 {
        lemma_seq_size_elem(v.subrange(0, v.len() - 1), i);
    }
}

pub proof fn lemma_defs_size_elem(d: Seq<(Seq<char>, SExpr)>, i: int)
    requires
        0 <= i < d.len(),
    ensures
        size(d[i].1) <= defs_size(d),
    decreases d.len(),
{
    if i < d.len() - 1 {
        lemma_defs_size_elem(d.subrange(0, d.len() - 1), i);
    }
}

/// An error in the first `k` terms is the error of them all.
pub proof fn lemma_eval_seq_prefix_err(v: Seq<SExpr>, k: int, c: SCtx)
    requires
        0 <= k <= v.len(),
        eval_seq(v.subrange(0, k), c) is Err,
    ensures
        eval_seq(v, c) == eval_seq(v.subrange(0, k), c),
    decreases v.len(),
{
    if k == v.len() {
        assert(v.subrange(0, k) =~= v);
    } else {
        let w = v.subrange(0, v.len() - 1);
        assert(w.subrange(0, k) =~= v.subrange(0, k));
        lemma_eval_seq_prefix_err(w, k, c);
    }
}

/// An error in the first `k` definitions is the error of them all.
pub proof fn lemma_eval_defs_prefix_err(
    d: Seq<(Seq<char>, SExpr)>,
    k: int,
    c: SCtx,
    m: Map<Seq<char>, Seq<char>>,
)
    requires
        0 <= k <= d.len(),
        eval_defs(d.subrange(0, k), c, m) is Err,
    ensures
        eval_defs(d, c, m) == eval_defs(d.subrange(0, k), c, m),
    decreases d.len(),
{
    if k == d.len() {
        assert(d.subrange(0, k) =~= d);
    } else {
        let w = d.subrange(0, d.len() - 1);
        assert(w.subrange(0, k) =~= d.subrange(0, k));
        lemma_eval_defs_prefix_err(w, k, c, m);
    }
}

/// The variables, files and nesting budget of one expansion.
pub struct ExpandContext<'a> {
    pub vars: &'a StringMap,
    pub files: &'a TemplateFiles,
    /// How many `#make` calls may still nest inside this expansion.
    pub depth: usize,
}

impl<'a> ExpandContext<'a> {
    pub open spec fn model(&self) -> SCtx {
        SCtx { vars: self.vars@, files: self.files@, depth: self.depth as nat }
    }
}

/// `r` and the text appended from `out0` to `out1` are what `want` gives.
pub open spec fn evaluated(
    r: Result<bool, Error>,
    out0: Seq<char>,
    out1: Seq<char>,
    want: EvalResult,
) -> bool {
    match want {
        Ok((t, p)) => r == Ok::<bool, Error>(p) && out1 == out0 + t,
        Err(x) => r matches Err(e) && e@ == x,
    }
}

/// The text appended from `out0` to `out1` is the expansion `want`, or `r` is its error.
pub open spec fn expanded(
    r: Result<(), Error>,
    out0: Seq<char>,
    out1: Seq<char>,
    want: Result<Seq<char>, SError>,
) -> bool {
    match want {
        Ok(t) => r is Ok && out1 == out0 + t,
        Err(x) => r matches Err(e) && e@ == x,
    }
}

pub open spec fn call_model(c: &Call) -> SExpr {
    SExpr::Call(c.typ.0@, Box::new(c.file.model()), defs_model(c.define@), names_model(c.undefine@))
}

/// The same call under another function name.
pub open spec fn call_as(c: &Call, name: Seq<char>) -> SExpr {
    SExpr::Call(name, Box::new(c.file.model()), defs_model(c.define@), names_model(c.undefine@))
}

/// The path relative to the template's root that `named` stands for.
fn normalize_path(named: &Vec<char>) -> (r: String)
    ensures
        r@ == clean_path(named@),
{
    let mut out: Vec<char> = Vec::new();
    let mut comp: Vec<char> = Vec::new();
    let mut i: usize = 0;
    while i < named.len()
        invariant
            i <= named@.len(),
            clean_from(named@, i as int, comp@, out@) == clean_path(named@),
        decreases named@.len() - i,
    {
        if named[i] == '/' {
            push_component(&mut out, &comp);
            comp = Vec::new();
        } else {
            comp.push(named[i]);
        }
        i = i + 1;
    }
    push_component(&mut out, &comp);
    string_of(&out)
}

fn push_component(out: &mut Vec<char>, comp: &Vec<char>)
    ensures
        final(out)@ == add_component(old(out)@, comp@),
{
    if comp.len() == 0 || (comp.len() == 1 && comp[0] == '.') {
        assert(comp.len() == 1 ==> comp@ =~= seq!['.']);
        return;
    }
    assert(comp@ != seq!['.']);
    if out.len() > 0 {
        out.push('/');
    }
    let ghost before = out@;
    let mut i: usize = 0;
    while i < comp.len()
        invariant
            i <= comp@.len(),
            out@ == before + comp@.subrange(0, i as int),
        decreases comp@.len() - i,
    {
        out.push(comp[i]);
        assert(out@ =~= before + comp@.subrange(0, i + 1));
        i = i + 1;
    }
    assert(comp@.subrange(0, comp@.len() as int) =~= comp@);
    assert(old(out)@.len() == 0 ==> before + comp@ =~= comp@);
}

fn is_present(files: &TemplateFiles, path: &String) -> (r: bool)
    ensures
        r == present(files@, path@),
{
    files.texts.get(path).is_some() || files.others.get(path).is_some()
}

impl Expr {
    /// Renders this expression into `out` and tells whether it is present.
    pub fn eval(&self, ctx: &ExpandContext, out: &mut Vec<char>) -> (r: Result<bool, Error>)
        ensures
            evaluated(r, old(out)@, final(out)@, eval_expr(self.model(), ctx.model())),
        decreases ctx.depth, 1int, size(self.model()), 3int,
    {
        match self {
            Expr::Empty => Ok(false),
            Expr::Variable(v) => v.eval(ctx, out),
            Expr::Literal(l) => l.eval(out),
            Expr::Concat(c) => c.eval(ctx, out),
            Expr::Equals(e) => e.eval(ctx, out),
            Expr::Condition(c) => c.eval(ctx, out),
            Expr::NullCheck(n) => n.eval(ctx, out),
            Expr::Call(c) => c.eval(ctx, out),
        }
    }
}

impl Variable {
    /// Writes the variable's value, if it has one.
    pub fn eval(&self, ctx: &ExpandContext, out: &mut Vec<char>) -> (r: Result<bool, Error>)
        ensures
            evaluated(r, old(out)@, final(out)@, eval_expr(SExpr::Variable(self.0@), ctx.model())),
    {
        match ctx.vars.get(&self.0) {
            Some(v) => {
                let mut t = chars_of(v.as_str());
                out.append(&mut t);
                Ok(true)
            },
            None => Ok(false),
        }
    }
}

impl Literal {
    /// Writes the literal text; a literal is always present.
    pub fn eval(&self, out: &mut Vec<char>) -> (r: Result<bool, Error>)
        ensures
            r == Ok::<bool, Error>(true),
            final(out)@ == old(out)@ + self.0@,
    {
        let mut t = chars_of(self.0.as_str());
        out.append(&mut t);
        Ok(true)
    }
}

impl Concat {
    /// Renders each term in order; present if any term is.
    pub fn eval(&self, ctx: &ExpandContext, out: &mut Vec<char>) -> (r: Result<bool, Error>)
        ensures
            evaluated(r, old(out)@, final(out)@, eval_expr(Expr::Concat(*self).model(), ctx.model())),
        decreases ctx.depth, 1int, size(Expr::Concat(*self).model()), 2int,
    {
        let ghost v = Expr::Concat(*self).model()->Concat_0;
        let ghost c = ctx.model();
        let ghost out0 = out@;
        let len = self.0.len();
        let mut any = false;
        let mut i: usize = 0;
        assert(v.subrange(0, 0) =~= Seq::<SExpr>::empty());
        while i < len
            invariant
                len == self.0@.len(),
                len == v.len(),
                v == Expr::Concat(*self).model()->Concat_0,
                c == ctx.model(),
                i <= len,
                eval_seq(v.subrange(0, i as int), c) matches Ok((t, p)) && p == any && out@ == out0 + t,
            decreases len - i,
        {
            proof {
                lemma_seq_size_elem(v, i as int);
                assert(v.subrange(0, i + 1).subrange(0, i as int) =~= v.subrange(0, i as int));
            }
            let p = self.0[i].eval(ctx, out);
            match p {
                Err(e) => {
                    proof {
                        lemma_eval_seq_prefix_err(v, i + 1, c);
                    }
                    return Err(e);
                },
                Ok(p) => {
                    any = any || p;
                },
            }
            proof {
                let t = eval_seq(v.subrange(0, i as int), c)->Ok_0.0;
                let t2 = eval_expr(v[i as int], c)->Ok_0.0;
                assert(out@ =~= out0 + (t + t2));
            }
            i = i + 1;
        }
        assert(v.subrange(0, len as int) =~= v);
        Ok(any)
    }
}

impl Equals {
    /// Present, with the shared text, when both sides agree on presence and text.
    pub fn eval(&self, ctx: &ExpandContext, out: &mut Vec<char>) -> (r: Result<bool, Error>)
        ensures
            evaluated(r, old(out)@, final(out)@, eval_expr(Expr::Equals(*self).model(), ctx.model())),
        decreases ctx.depth, 1int, size(Expr::Equals(*self).model()), 2int,
    {
        let mut l: Vec<char> = Vec::new();
        let mut r: Vec<char> = Vec::new();
        let lres = self.0.eval(ctx, &mut l)?;
        let rres = self.1.eval(ctx, &mut r)?;
        let ls = string_of(&l);
        let rs = string_of(&r);
        if lres == rres && ls == rs {
            out.append(&mut l);
            Ok(true)
        } else {
            Ok(false)
        }
    }
}

impl Condition {
    /// Evaluates `success` when `cond` is present, else `failure`; what `cond`
    /// renders is dropped.
    pub fn eval(&self, ctx: &ExpandContext, out: &mut Vec<char>) -> (r: Result<bool, Error>)
        ensures
            evaluated(
                r,
                old(out)@,
                final(out)@,
                eval_expr(Expr::Condition(*self).model(), ctx.model()),
            ),
        decreases ctx.depth, 1int, size(Expr::Condition(*self).model()), 2int,
    {
        let mut sink: Vec<char> = Vec::new();
        if self.cond.eval(ctx, &mut sink)? {
            self.success.eval(ctx, out)
        } else {
            self.failure.eval(ctx, out)
        }
    }
}

impl NullCheck {
    /// What `cond` renders when it is present, else what `other` renders.
    pub fn eval(&self, ctx: &ExpandContext, out: &mut Vec<char>) -> (r: Result<bool, Error>)
        ensures
            evaluated(
                r,
                old(out)@,
                final(out)@,
                eval_expr(Expr::NullCheck(*self).model(), ctx.model()),
            ),
        decreases ctx.depth, 1int, size(Expr::NullCheck(*self).model()), 2int,
    {
        let mut w: Vec<char> = Vec::new();
        if self.cond.eval(ctx, &mut w)? {
            out.append(&mut w);
            Ok(true)
        } else {
            self.other.eval(ctx, out)
        }
    }
}

impl Call {
    /// Runs the function that the call names: `exists`, the text of a file, or `make`.
    pub fn eval(&self, ctx: &ExpandContext, out: &mut Vec<char>) -> (r: Result<bool, Error>)
        ensures
            evaluated(r, old(out)@, final(out)@, eval_expr(call_model(self), ctx.model())),
        decreases ctx.depth, 1int, size(call_model(self)), 2int,
    {
        proof {
            reveal_strlit("exists");
            reveal_strlit("make");
        }
        let exists_name = "exists".to_owned();
        let incl_name = string_of(&vec!['i', 'n', 'c', 'l', 'u', 'd', 'e']);
        let make_name = "make".to_owned();
        assert(exists_name@ =~= name_exists());
        assert(incl_name@ =~= name_incl());
        assert(make_name@ =~= name_make());
        if self.typ.0 == exists_name {
            self.file_exists(ctx)
        } else if self.typ.0 == incl_name {
            self.file_text(ctx, out)
        } else if self.typ.0 == make_name {
            self.make(ctx, out)
        } else {
            Err(Error::UnknownFunction(self.typ.0.clone()))
        }
    }

    /// `#exists(file)`: present when something stands at `file` in the template.
    pub fn file_exists(&self, ctx: &ExpandContext) -> (r: Result<bool, Error>)
        ensures
            evaluated(r, Seq::empty(), Seq::empty(), eval_expr(call_as(self, name_exists()), ctx.model())),
        decreases ctx.depth, 1int, size(call_model(self)), 1int,
    {
        proof {
            reveal_strlit("exists");
        }
        if self.define.len() > 0 || self.undefine.len() > 0 {
            let name = "exists".to_owned();
            assert(name@ =~= name_exists());
            return Err(Error::TooManyArguments(name));
        }
        let mut buf: Vec<char> = Vec::new();
        self.file.eval(ctx, &mut buf)?;
        let path = normalize_path(&buf);
        Ok(is_present(ctx.files, &path))
    }

    /// The function that writes the text of `file`, if it exists.
    pub fn file_text(&self, ctx: &ExpandContext, out: &mut Vec<char>) -> (r: Result<bool, Error>)
        ensures
            evaluated(r, old(out)@, final(out)@, eval_expr(call_as(self, name_incl()), ctx.model())),
        decreases ctx.depth, 1int, size(call_model(self)), 1int,
    {
        proof {
        }
        if self.define.len() > 0 || self.undefine.len() > 0 {
            let name = string_of(&vec!['i', 'n', 'c', 'l', 'u', 'd', 'e']);
            assert(name@ =~= name_incl());
            return Err(Error::TooManyArguments(name));
        }
        let mut buf: Vec<char> = Vec::new();
        self.file.eval(ctx, &mut buf)?;
        let path = normalize_path(&buf);
        if !is_present(ctx.files, &path) {
            return Ok(false);
        }
        match ctx.files.texts.get(&path) {
            Some(t) => {
                let mut chars = chars_of(t.as_str());
                out.append(&mut chars);
                Ok(true)
            },
            None => Err(Error::Unreadable(path)),
        }
    }

    /// `#make(file, ...)`: writes the expansion of `file`, with the call's variables.
    pub fn make(&self, ctx: &ExpandContext, out: &mut Vec<char>) -> (r: Result<bool, Error>)
        ensures
            evaluated(r, old(out)@, final(out)@, eval_expr(call_as(self, name_make()), ctx.model())),
        decreases ctx.depth, 1int, size(call_model(self)), 1int,
    {
        proof {
            reveal_strlit("make");
        }
        let mut buf: Vec<char> = Vec::new();
        self.file.eval(ctx, &mut buf)?;
        let path = normalize_path(&buf);
        if !is_present(ctx.files, &path) {
            return Ok(false);
        }
        let text = match ctx.files.texts.get(&path) {
            Some(t) => chars_of(t.as_str()),
            None => return Err(Error::Unreadable(path)),
        };
        if self.define.len() == 0 && self.undefine.len() == 0 {
            assert(defs_model(self.define@) =~= Seq::empty());
            assert(names_model(self.undefine@) =~= Seq::empty());
            if ctx.depth == 0 {
                return Err(Error::TooDeep);
            }
            let sub = ExpandContext { vars: ctx.vars, files: ctx.files, depth: ctx.depth - 1 };
            assert(remove_all(ctx.vars@, names_model(self.undefine@)) == ctx.vars@);
            assert(eval_defs(defs_model(self.define@), ctx.model(), ctx.vars@) == Ok::<Map<Seq<char>, Seq<char>>, SError>(ctx.vars@));
            assert(sub.model() == SCtx { vars: ctx.vars@, files: ctx.model().files, depth: (ctx.model().depth - 1) as nat });
            assert(text@ == ctx.model().files.texts[path@]);
            return match expand(&sub, &text, out) {
                Ok(_) => Ok(true),
                Err(e) => Err(e),
            };
        }
        let vars = self.derive_vars(ctx)?;
        if ctx.depth == 0 {
            return Err(Error::TooDeep);
        }
        let sub = ExpandContext { vars: &vars, files: ctx.files, depth: ctx.depth - 1 };
        expand(&sub, &text, out)?;
        Ok(true)
    }

    /// The variables of a `#make`: those of `ctx`, less the removals, plus the
    /// definitions evaluated against `ctx`.
    fn derive_vars(&self, ctx: &ExpandContext) -> (r: Result<StringMap, Error>)
        ensures
            match eval_defs(
                defs_model(self.define@),
                ctx.model(),
                remove_all(ctx.vars@, names_model(self.undefine@)),
            ) {
                Ok(m) => r matches Ok(v) && v@ == m,
                Err(x) => r matches Err(e) && e@ == x,
            },
        decreases ctx.depth, 1int, size(call_model(self)), 0int,
    {
        let ghost c = ctx.model();
        let mut vars = StringMap::new();
        vars.extend(ctx.vars);
        assert(vars@ =~= ctx.vars@);
        let ghost names = names_model(self.undefine@);
        let ulen = self.undefine.len();
        let mut i: usize = 0;
        assert(names.subrange(0, 0) =~= Seq::<Seq<char>>::empty());
        while i < ulen
            invariant
                ulen == self.undefine@.len(),
                names == names_model(self.undefine@),
                i <= ulen,
                vars@ == remove_all(ctx.vars@, names.subrange(0, i as int)),
            decreases ulen - i,
        {
            vars.remove(&self.undefine[i].0);
            assert(names.subrange(0, i + 1).subrange(0, i as int) =~= names.subrange(0, i as int));
            i = i + 1;
        }
        assert(names.subrange(0, ulen as int) =~= names);
        let ghost base = vars@;
        let ghost dm = defs_model(self.define@);
        let dlen = self.define.len();
        let mut j: usize = 0;
        assert(dm.subrange(0, 0) =~= Seq::<(Seq<char>, SExpr)>::empty());
        while j < dlen
            invariant
                dlen == self.define@.len(),
                dm == defs_model(self.define@),
                c == ctx.model(),
                names == names_model(self.undefine@),
                base == remove_all(ctx.vars@, names),
                j <= dlen,
                eval_defs(dm.subrange(0, j as int), c, base) == Ok::<Map<Seq<char>, Seq<char>>, SError>(vars@),
            decreases dlen - j,
        {
            proof {
                lemma_defs_size_elem(dm, j as int);
                assert(dm.subrange(0, j + 1).subrange(0, j as int) =~= dm.subrange(0, j as int));
            }
            let mut value: Vec<char> = Vec::new();
            match self.define[j].1.eval(ctx, &mut value) {
                Err(e) => {
                    proof {
                        lemma_eval_defs_prefix_err(dm, j + 1, c, base);
                    }
                    return Err(e);
                },
                Ok(_) => {},
            }
            vars.insert(self.define[j].0.0.clone(), string_of(&value));
            j = j + 1;
        }
        assert(dm.subrange(0, dlen as int) =~= dm);
        Ok(vars)
    }
}

/// `r` with `a` put before its text.
pub open spec fn prepend(a: Seq<char>, r: Result<Seq<char>, SError>) -> Result<Seq<char>, SError> {
    match r {
        Ok(t) => Ok(a + t),
        Err(x) => Err(x),
    }
}

pub proof fn lemma_prepend(a: Seq<char>, b: Seq<char>, r: Result<Seq<char>, SError>)
    ensures
        prepend(a, prepend(b, r)) == prepend(a + b, r),
{
    if let Ok(t) = r {
        assert(a + (b + t) =~= (a + b) + t);
    }
}

/// Copies `src` to `out`, each `${...}` replaced by what its expression renders.
/// A `$` not followed by `{`, and a `${` that ends the text, are kept as they are.
pub fn expand(ctx: &ExpandContext, src: &Vec<char>, out: &mut Vec<char>) -> (r: Result<(), Error>)
    ensures
        expanded(r, old(out)@, final(out)@, expand_from(src@, 0, ctx.model())),
    decreases ctx.depth, 2int, 0int, 0int,
{
    let ghost s = src@;
    let ghost c = ctx.model();
    let ghost out0 = out@;
    let ghost mut written: Seq<char> = Seq::empty();
    let len = src.len();
    let mut p: usize = 0;
    assert(out0 + written =~= out0);
    assert(written + Seq::<char>::empty() =~= Seq::<char>::empty());
    while p < len
        invariant
            s == src@,
            c == ctx.model(),
            len == s.len(),
            p <= len,
            out@ == out0 + written,
            prepend(written, expand_from(s, p as int, c)) == prepend(Seq::empty(), expand_from(s, 0, c)),
        decreases len - p,
    {
        let ch = src[p];
        if ch != '$' {
            out.push(ch);
            proof {
                lemma_prepend(written, seq![ch], expand_from(s, p + 1, c));
                written = written + seq![ch];
            }
            p = p + 1;
        } else if p + 1 >= len {
            out.push('$');
            proof {
                lemma_prepend(written, seq!['$'], expand_from(s, len as int, c));
                assert(seq!['$'] + Seq::<char>::empty() =~= seq!['$']);
                written = written + seq!['$'];
            }
            p = len;
        } else if src[p + 1] != '{' {
            let next = src[p + 1];
            out.push('$');
            out.push(next);
            proof {
                lemma_prepend(written, seq!['$', next], expand_from(s, p + 2, c));
                written = written + seq!['$', next];
            }
            p = p + 2;
        } else if p + 2 >= len {
            out.push('$');
            out.push('{');
            proof {
                lemma_prepend(written, seq!['$', '{'], expand_from(s, len as int, c));
                assert(seq!['$', '{'] + Seq::<char>::empty() =~= seq!['$', '{']);
                written = written + seq!['$', '{'];
            }
            p = len;
        } else {
            let mut parser = Parser::new(Lexer::new(src, p + 2));
            let e = match parser.parse() {
                Ok(e) => e,
                Err(x) => {
                    assert(expand_from(s, 0, c) == Err::<Seq<char>, SError>(x@));
                    return Err(x);
                },
            };
            let np = parser.lexer.pos;
            match e.eval(ctx, out) {
                Ok(_) => {},
                Err(x) => {
                    assert(expand_from(s, 0, c) == Err::<Seq<char>, SError>(x@));
                    return Err(x);
                },
            }
            proof {
                let t = eval_expr(e.model(), c)->Ok_0.0;
                lemma_prepend(written, t, expand_from(s, np as int, c));
                written = written + t;
            }
            p = np;
        }
    }
    assert(out@ =~= out0 + written);
    assert(prepend(Seq::empty(), expand_from(s, 0, c)) matches Ok(t) ==> t =~= Seq::empty() + t);
    Ok(())
}

/// Expands the whole text `src` against `ctx`.
pub fn expand_str(ctx: &ExpandContext, src: &str) -> (r: Result<String, Error>)
    ensures
        match expand_text(src@, ctx.model()) {
            Ok(t) => r matches Ok(x) && x@ == t,
            Err(x) => r matches Err(e) && e@ == x,
        },
{
    let chars = chars_of(src);
    let mut out: Vec<char> = Vec::new();
    expand(ctx, &chars, &mut out)?;
    assert(out@ =~= Seq::<char>::empty() + out@);
    Ok(string_of(&out))
}

} // verus!
