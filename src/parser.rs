use vstd::prelude::*;

use crate::ast::{
    defs_model, names_model, sconcat, Call, Condition, Equals, Expr, Literal, NullCheck, SExpr,
    Variable,
};
use crate::error::{Error, Expected, SError};
use crate::lexer::{lex, Lexer, SToken, Token};

verus! {

/// Where a parse stands: the index of the next character to lex, and the token
/// read ahead but not yet used.
pub struct PState {
    pub pos: int,
    pub cur: Option<SToken>,
}

/// An expression and the state after it, or the first error met.
pub type PResult = Result<(SExpr, PState), SError>;

pub open spec fn sane(s: Seq<char>, st: PState) -> bool {
    0 <= st.pos <= s.len()
}

/// How much is left to parse: two for each character, one for a token read ahead.
pub open spec fn meas(s: Seq<char>, st: PState) -> int {
    2 * (s.len() - st.pos) + if st.cur is Some {
        1int
    } else {
        0int
    }
}

/// `after` has not gone back from `before`.
pub open spec fn no_back(s: Seq<char>, before: PState, after: PState) -> bool {
    sane(s, after) && meas(s, after) <= meas(s, before)
}

/// `after` has gone forward from `before`.
pub open spec fn ahead(s: Seq<char>, before: PState, after: PState) -> bool {
    sane(s, after) && meas(s, after) < meas(s, before)
}

/// Drops the token read ahead: it has been used.
pub open spec fn take(st: PState) -> PState {
    PState { pos: st.pos, cur: None }
}

/// Reads the next token in place of the one read ahead.
pub open spec fn next_tok(s: Seq<char>, st: PState) -> Result<PState, SError> {
    let (r, p) = lex(s, st.pos);
    match r {
        Ok(t) => Ok(PState { pos: p, cur: t }),
        Err(e) => Err(e),
    }
}

/// Reads the next token unless one is read ahead already.
pub open spec fn get_tok(s: Seq<char>, st: PState) -> Result<PState, SError> {
    if st.cur is Some {
        Ok(st)
    } else {
        next_tok(s, st)
    }
}

/// The first index of `d` that defines `k`, or the length of `d`.
pub open spec fn def_index(d: Seq<(Seq<char>, SExpr)>, k: Seq<char>) -> int
    decreases d.len(),
{
    if d.len() == 0 {
        0
    } else {
        let i = def_index(d.drop_last(), k);
        if i < d.len() - 1 {
            i
        } else if d.last().0 == k {
            d.len() - 1
        } else {
            d.len() as int
        }
    }
}

/// Defines `k` as `v`: in place of an earlier definition of `k`, else at the end.
pub open spec fn def_insert(d: Seq<(Seq<char>, SExpr)>, k: Seq<char>, v: SExpr) -> Seq<
    (Seq<char>, SExpr),
> {
    let i = def_index(d, k);
    if i < d.len() {
        d.update(i, (k, v))
    } else {
        d.push((k, v))
    }
}

// In the functions below, each guard `no_back` / `ahead` holds whenever it is
// reached (the executable parser proves it); it only makes termination visible.

/// `expr := concatTerm (ternary | nullcheck)?`
pub open spec fn p_expr(s: Seq<char>, st: PState) -> PResult
    decreases meas(s, st), 2int,
    when sane(s, st)
{
    match get_tok(s, st) {
        Err(e) => Err(e),
        Ok(st1) => if no_back(s, st, st1) {
            p_expr_loop(s, st1, SExpr::Empty)
        } else {
            arbitrary()
        },
    }
}

/// The terms of an expression after `res`; the token read ahead is the next one.
pub open spec fn p_expr_loop(s: Seq<char>, st: PState, res: SExpr) -> PResult
    decreases meas(s, st), 1int,
    when sane(s, st)
{
    match st.cur {
        None => Ok((res, st)),
        Some(t) => {
            let st0 = take(st);
            let term: PResult = match t {
                SToken::OpenParen => match p_paren(s, st0) {
                    Err(e) => Err(e),
                    Ok((e, st2)) => Ok((sconcat(res, e), st2)),
                },
                SToken::Pound => match p_call(s, st0) {
                    Err(e) => Err(e),
                    Ok((e, st2)) => Ok((sconcat(res, e), st2)),
                },
                SToken::Equals => match p_concat(s, st0) {
                    Err(e) => Err(e),
                    Ok((r, st2)) => Ok((SExpr::Equals(Box::new(res), Box::new(r)), st2)),
                },
                SToken::Ident(i) => Ok((sconcat(res, SExpr::Variable(i)), st0)),
                SToken::Literal(l) => Ok((sconcat(res, SExpr::Literal(l)), st0)),
                _ => Ok((res, st)),
            };
            match t {
                SToken::Question => p_condition(s, st0, res),
                SToken::NullCheck => p_null_check(s, st0, res),
                SToken::OpenParen | SToken::Pound | SToken::Equals | SToken::Ident(_)
                | SToken::Literal(_) => match term {
                    Err(e) => Err(e),
                    Ok((r2, st2)) => match get_tok(s, st2) {
                        Err(e) => Err(e),
                        Ok(st3) => if ahead(s, st, st3) {
                            p_expr_loop(s, st3, r2)
                        } else {
                            arbitrary()
                        },
                    },
                },
                _ => Ok((res, st)),
            }
        },
    }
}

/// `'(' expr ')'`, from just after `(`.
pub open spec fn p_paren(s: Seq<char>, st: PState) -> PResult
    decreases meas(s, st), 3int,
    when sane(s, st)
{
    match p_expr(s, st) {
        Err(e) => Err(e),
        Ok((e, st1)) => if st1.cur matches Some(SToken::CloseParen) {
            Ok((e, take(st1)))
        } else {
            Err(SError::ParserExpected(Expected::CloseParen))
        },
    }
}

/// The right side of `==`: groups, names and literals side by side.
pub open spec fn p_concat(s: Seq<char>, st: PState) -> PResult
    decreases meas(s, st), 2int,
    when sane(s, st)
{
    match get_tok(s, st) {
        Err(e) => Err(e),
        Ok(st1) => if no_back(s, st, st1) {
            p_concat_loop(s, st1, SExpr::Empty)
        } else {
            arbitrary()
        },
    }
}

pub open spec fn p_concat_loop(s: Seq<char>, st: PState, res: SExpr) -> PResult
    decreases meas(s, st), 1int,
    when sane(s, st)
{
    match st.cur {
        None => Ok((res, st)),
        Some(t) => {
            let st0 = take(st);
            let term: PResult = match t {
                SToken::OpenParen => match p_paren(s, st0) {
                    Err(e) => Err(e),
                    Ok((e, st2)) => Ok((sconcat(res, e), st2)),
                },
                SToken::Ident(i) => Ok((sconcat(res, SExpr::Variable(i)), st0)),
                SToken::Literal(l) => Ok((sconcat(res, SExpr::Literal(l)), st0)),
                _ => Ok((res, st)),
            };
            match t {
                SToken::OpenParen | SToken::Ident(_) | SToken::Literal(_) => match term {
                    Err(e) => Err(e),
                    Ok((r2, st2)) => match next_tok(s, st2) {
                        Err(e) => Err(e),
                        Ok(st3) => if ahead(s, st, st3) {
                            p_concat_loop(s, st3, r2)
                        } else {
                            arbitrary()
                        },
                    },
                },
                _ => Ok((res, st)),
            }
        },
    }
}

/// `'?' expr ':' expr`, from just after `?`.
pub open spec fn p_condition(s: Seq<char>, st: PState, cond: SExpr) -> PResult
    decreases meas(s, st), 3int,
    when sane(s, st)
{
    match p_expr(s, st) {
        Err(e) => Err(e),
        Ok((success, st1)) => match get_tok(s, st1) {
            Err(e) => Err(e),
            Ok(st2) => if !(st2.cur matches Some(SToken::Colon)) {
                Err(SError::ParserExpected(Expected::Colon))
            } else {
                match next_tok(s, st2) {
                    Err(e) => Err(e),
                    Ok(st3) => if no_back(s, st, st3) {
                        match p_expr(s, st3) {
                            Err(e) => Err(e),
                            Ok((failure, st4)) => Ok(
                                (
                                    SExpr::Condition(
                                        Box::new(cond),
                                        Box::new(success),
                                        Box::new(failure),
                                    ),
                                    st4,
                                ),
                            ),
                        }
                    } else {
                        arbitrary()
                    },
                }
            },
        },
    }
}

/// `'??' expr`, from just after `??`.
pub open spec fn p_null_check(s: Seq<char>, st: PState, cond: SExpr) -> PResult
    decreases meas(s, st), 3int,
    when sane(s, st)
{
    match p_expr(s, st) {
        Err(e) => Err(e),
        Ok((other, st1)) => Ok((SExpr::NullCheck(Box::new(cond), Box::new(other)), st1)),
    }
}

/// `ident '(' expr (',' ('-' ident | ident ('=' expr)?))* ')'`, from just after `#`.
pub open spec fn p_call(s: Seq<char>, st: PState) -> PResult
    decreases meas(s, st), 4int,
    when sane(s, st)
{
    match get_tok(s, st) {
        Err(e) => Err(e),
        Ok(st1) => match st1.cur {
            Some(SToken::Ident(name)) => match get_tok(s, take(st1)) {
                Err(e) => Err(e),
                Ok(st2) => if !(st2.cur matches Some(SToken::OpenParen)) {
                    Err(SError::ParserExpected(Expected::OpenParen))
                } else {
                    match next_tok(s, st2) {
                        Err(e) => Err(e),
                        Ok(st3) => if no_back(s, st, st3) {
                            match p_expr(s, st3) {
                                Err(e) => Err(e),
                                Ok((file, st4)) => if no_back(s, st, st4) {
                                    p_args(s, st4, name, file, Seq::empty(), Seq::empty())
                                } else {
                                    arbitrary()
                                },
                            }
                        } else {
                            arbitrary()
                        },
                    }
                },
            },
            _ => Err(SError::ParserExpected(Expected::FunctionName)),
        },
    }
}

/// The closing `)` of a call.
pub open spec fn p_finish(
    s: Seq<char>,
    st: PState,
    name: Seq<char>,
    file: SExpr,
    defs: Seq<(Seq<char>, SExpr)>,
    undefs: Seq<Seq<char>>,
) -> PResult {
    match get_tok(s, st) {
        Err(e) => Err(e),
        Ok(st1) => if !(st1.cur matches Some(SToken::CloseParen)) {
            Err(SError::ParserExpected(Expected::CloseParen))
        } else {
            match next_tok(s, st1) {
                Err(e) => Err(e),
                Ok(st2) => Ok((SExpr::Call(name, Box::new(file), defs, undefs), st2)),
            }
        },
    }
}

/// The arguments of a call after its file argument.
pub open spec fn p_args(
    s: Seq<char>,
    st: PState,
    name: Seq<char>,
    file: SExpr,
    defs: Seq<(Seq<char>, SExpr)>,
    undefs: Seq<Seq<char>>,
) -> PResult
    decreases meas(s, st), 3int,
    when sane(s, st)
{
    if st.cur matches Some(SToken::Comma) {
        match next_tok(s, st) {
            Err(e) => Err(e),
            Ok(st1) => if st1.cur matches Some(SToken::CloseParen) {
                p_finish(s, st1, name, file, defs, undefs)
            } else {
                let undef = st1.cur matches Some(SToken::Minus);
                let after_minus = if undef {
                    next_tok(s, st1)
                } else {
                    Ok(st1)
                };
                match after_minus {
                    Err(e) => Err(e),
                    Ok(st2) => match st2.cur {
                        Some(SToken::Ident(id)) => match get_tok(s, take(st2)) {
                            Err(e) => Err(e),
                            Ok(st3) => {
                                let value: PResult = if st3.cur matches Some(SToken::Assign) {
                                    match next_tok(s, st3) {
                                        Err(e) => Err(e),
                                        Ok(st3b) => if ahead(s, st, st3b) {
                                            p_expr(s, st3b)
                                        } else {
                                            arbitrary()
                                        },
                                    }
                                } else {
                                    Ok((SExpr::Empty, st3))
                                };
                                match value {
                                    Err(e) => Err(e),
                                    Ok((v, st4)) => match get_tok(s, st4) {
                                        Err(e) => Err(e),
                                        Ok(st5) => if ahead(s, st, st5) {
                                            if undef {
                                                p_args(s, st5, name, file, defs, undefs.push(id))
                                            } else {
                                                p_args(
                                                    s,
                                                    st5,
                                                    name,
                                                    file,
                                                    def_insert(defs, id, v),
                                                    undefs,
                                                )
                                            }
                                        } else {
                                            arbitrary()
                                        },
                                    },
                                }
                            },
                        },
                        _ => Err(SError::ParserExpected(Expected::ArgumentName)),
                    },
                }
            },
        }
    } else {
        p_finish(s, st, name, file, defs, undefs)
    }
}

/// A whole expression: it must end at `}` or at the end of the text.
pub open spec fn p_parse(s: Seq<char>, st: PState) -> PResult {
    match p_expr(s, st) {
        Err(e) => Err(e),
        Ok((e, st1)) => match get_tok(s, st1) {
            Err(err) => Err(err),
            Ok(st2) => if st2.cur is None || st2.cur matches Some(SToken::CloseBracket) {
                Ok((e, st2))
            } else {
                Err(SError::ParserExpected(Expected::CloseBracket))
            },
        },
    }
}

/// Parses the expression that starts at index `pos` of `data`, just past its `${`;
/// gives it with the index just past its `}` (or the end of `data`).
pub fn parse(data: &Vec<char>, pos: usize) -> (r: Result<(Expr, usize), Error>)
    requires
        pos <= data@.len(),
    ensures
        match p_parse(data@, PState { pos: pos as int, cur: None }) {
            Ok((e, st)) => r matches Ok((x, end)) && x.model() == e && end == st.pos,
            Err(err) => r matches Err(x) && x@ == err,
        },
{
    let mut parser = Parser::new(Lexer::new(data, pos));
    let e = parser.parse()?;
    Ok((e, parser.lexer.pos))
}

pub proof fn lemma_def_index(d: Seq<(Seq<char>, SExpr)>, k: Seq<char>, j: int)
    requires
        0 <= j <= d.len(),
        forall|i: int| 0 <= i < j ==> d[i].0 != k,
        j < d.len() ==> d[j].0 == k,
    ensures
        def_index(d, k) == j,
    decreases d.len(),
{
    if d.len() > 0 {
        if j < d.len() {
            if j < d.len() - 1 {
                lemma_def_index(d.drop_last(), k, j);
            } else {
                lemma_def_index(d.drop_last(), k, d.len() - 1);
            }
        } else {
            lemma_def_index(d.drop_last(), k, d.len() - 1);
        }
    }
}

pub open spec fn opt_tok(c: Option<Token>) -> Option<SToken> {
    match c {
        Some(t) => Some(t@),
        None => None,
    }
}

/// Defines `name` as `value` among the definitions of a call.
fn insert_define(define: &mut Vec<(Variable, Expr)>, name: String, value: Expr)
    ensures
        defs_model(final(define)@) == def_insert(defs_model(old(define)@), name@, value.model()),
{
    let ghost d = defs_model(define@);
    let len = define.len();
    let mut j: usize = 0;
    let mut found = false;
    while j < len && !found
        invariant
            len == define@.len(),
            *define == *old(define),
            d == defs_model(define@),
            0 <= j <= len,
            forall|i: int| 0 <= i < j ==> d[i].0 != name@,
            found ==> j < len && d[j as int].0 == name@,
        decreases len - j, if found { 0int } else { 1int },
    {
        if define[j].0.0 == name {
            found = true;
        } else {
            j = j + 1;
        }
    }
    proof {
        lemma_def_index(d, name@, j as int);
    }
    let ghost vm = value.model();
    if j < len {
        define.set(j, (Variable::new(name), value));
        assert(defs_model(define@) =~= d.update(j as int, (name@, vm)));
    } else {
        define.push((Variable::new(name), value));
        assert(defs_model(define@) =~= d.push((name@, vm)));
    }
}

/// Recursive-descent parser of one expression, one token read ahead.
pub struct Parser<'a> {
    pub lexer: Lexer<'a>,
    pub cur: Option<Token>,
}

/// `end` stands where `want` says after a step from `start`, or failed as it says.
pub open spec fn moved(start: Parser, end: Parser, r: Result<(), Error>, want: Result<PState, SError>) -> bool {
    &&& end.lexer.data == start.lexer.data
    &&& match r {
        Ok(_) => {
            &&& want == Ok::<PState, SError>(end.state())
            &&& end.inv()
            &&& start.lexer.pos <= end.lexer.pos
            &&& no_back(end.text(), start.state(), end.state())
        },
        Err(x) => want == Err::<PState, SError>(x@),
    }
}

/// `end` has parsed `r` from `start` as `want` says, or failed as it says.
pub open spec fn parsed(start: Parser, end: Parser, r: Result<Expr, Error>, want: PResult) -> bool {
    &&& end.lexer.data == start.lexer.data
    &&& match r {
        Ok(e) => {
            &&& want == Ok::<(SExpr, PState), SError>((e.model(), end.state()))
            &&& end.inv()
            &&& no_back(end.text(), start.state(), end.state())
        },
        Err(x) => want == Err::<(SExpr, PState), SError>(x@),
    }
}

impl<'a> Parser<'a> {
    pub open spec fn text(&self) -> Seq<char> {
        self.lexer.data@
    }

    pub open spec fn state(&self) -> PState {
        PState { pos: self.lexer.pos as int, cur: opt_tok(self.cur) }
    }

    pub open spec fn inv(&self) -> bool {
        self.lexer.pos <= self.lexer.data@.len()
    }

    pub fn new(lexer: Lexer<'a>) -> (r: Parser<'a>)
        ensures
            r.lexer == lexer,
            r.cur is None,
    {
        Parser { lexer, cur: None }
    }

    /// Parses one whole expression, which must end at `}` or at the end of the text.
    pub fn parse(&mut self) -> (r: Result<Expr, Error>)
        requires
            old(self).inv(),
        ensures
            parsed(*old(self), *final(self), r, p_parse(old(self).text(), old(self).state())),
    {
        let res = self.expr()?;
        self.get_tok()?;
        match self.cur {
            None => Ok(res),
            Some(Token::CloseBracket) => Ok(res),
            _ => Err(Error::ParserExpected(Expected::CloseBracket)),
        }
    }

    fn expr(&mut self) -> (r: Result<Expr, Error>)
        requires
            old(self).inv(),
        ensures
            parsed(*old(self), *final(self), r, p_expr(old(self).text(), old(self).state())),
        decreases meas(old(self).text(), old(self).state()), 2int,
    {
        let ghost s = self.text();
        let ghost st = self.state();
        self.get_tok()?;
        let mut res = Expr::Empty;
        loop
            invariant
                self.lexer.data == old(self).lexer.data,
                s == self.text(),
                s == old(self).text(),
                st == old(self).state(),
                self.inv(),
                no_back(s, st, self.state()),
                p_expr_loop(s, self.state(), res.model()) == p_expr(s, st),
            decreases meas(s, self.state()),
        {
            let ghost here = self.state();
            let t = match self.cur.take() {
                None => return Ok(res),
                Some(t) => t,
            };
            match t {
                Token::Question => return self.condition(res),
                Token::NullCheck => return self.null_check(res),
                Token::OpenParen => {
                    let e = self.paren()?;
                    res.concat(e);
                },
                Token::Pound => {
                    let e = self.call()?;
                    res.concat(e);
                },
                Token::Equals => {
                    let r = self.concat()?;
                    res = Expr::Equals(Equals::new(res, r));
                },
                Token::Ident(i) => res.concat(Expr::Variable(Variable::new(i))),
                Token::Literal(l) => res.concat(Expr::Literal(Literal::new(l))),
                other => {
                    self.cur = Some(other);
                    return Ok(res);
                },
            }
            self.get_tok()?;
            assert(ahead(s, here, self.state()));
        }
    }

    fn paren(&mut self) -> (r: Result<Expr, Error>)
        requires
            old(self).inv(),
        ensures
            parsed(*old(self), *final(self), r, p_paren(old(self).text(), old(self).state())),
        decreases meas(old(self).text(), old(self).state()), 3int,
    {
        let res = self.expr()?;
        if matches!(self.cur, Some(Token::CloseParen)) {
            self.cur = None;
            Ok(res)
        } else {
            Err(Error::ParserExpected(Expected::CloseParen))
        }
    }

    fn concat(&mut self) -> (r: Result<Expr, Error>)
        requires
            old(self).inv(),
        ensures
            parsed(*old(self), *final(self), r, p_concat(old(self).text(), old(self).state())),
        decreases meas(old(self).text(), old(self).state()), 2int,
    {
        let ghost s = self.text();
        let ghost st = self.state();
        self.get_tok()?;
        let mut res = Expr::Empty;
        loop
            invariant
                self.lexer.data == old(self).lexer.data,
                s == self.text(),
                s == old(self).text(),
                st == old(self).state(),
                self.inv(),
                no_back(s, st, self.state()),
                p_concat_loop(s, self.state(), res.model()) == p_concat(s, st),
            decreases meas(s, self.state()),
        {
            let ghost here = self.state();
            let t = match self.cur.take() {
                None => return Ok(res),
                Some(t) => t,
            };
            match t {
                Token::OpenParen => {
                    let e = self.paren()?;
                    res.concat(e);
                },
                Token::Ident(i) => res.concat(Expr::Variable(Variable::new(i))),
                Token::Literal(l) => res.concat(Expr::Literal(Literal::new(l))),
                other => {
                    self.cur = Some(other);
                    return Ok(res);
                },
            }
            self.next_tok()?;
            assert(ahead(s, here, self.state()));
        }
    }

    fn condition(&mut self, cond: Expr) -> (r: Result<Expr, Error>)
        requires
            old(self).inv(),
        ensures
            parsed(
                *old(self),
                *final(self),
                r,
                p_condition(old(self).text(), old(self).state(), cond.model()),
            ),
        decreases meas(old(self).text(), old(self).state()), 3int,
    {
        let success = self.expr()?;
        self.get_tok()?;
        if !matches!(self.cur, Some(Token::Colon)) {
            return Err(Error::ParserExpected(Expected::Colon));
        }
        self.next_tok()?;
        let failure = self.expr()?;
        Ok(Expr::Condition(Condition::new(cond, success, failure)))
    }

    fn null_check(&mut self, cond: Expr) -> (r: Result<Expr, Error>)
        requires
            old(self).inv(),
        ensures
            parsed(
                *old(self),
                *final(self),
                r,
                p_null_check(old(self).text(), old(self).state(), cond.model()),
            ),
        decreases meas(old(self).text(), old(self).state()), 3int,
    {
        let other = self.expr()?;
        Ok(Expr::NullCheck(NullCheck::new(cond, other)))
    }

    fn call(&mut self) -> (r: Result<Expr, Error>)
        requires
            old(self).inv(),
        ensures
            parsed(*old(self), *final(self), r, p_call(old(self).text(), old(self).state())),
        decreases meas(old(self).text(), old(self).state()), 4int,
    {
        let ghost s = self.text();
        let ghost st = self.state();
        self.get_tok()?;
        let name = match self.cur.take() {
            Some(Token::Ident(n)) => n,
            _ => return Err(Error::ParserExpected(Expected::FunctionName)),
        };
        self.get_tok()?;
        if !matches!(self.cur, Some(Token::OpenParen)) {
            return Err(Error::ParserExpected(Expected::OpenParen));
        }
        self.next_tok()?;
        let file = self.expr()?;
        let ghost fm = file.model();
        let mut define: Vec<(Variable, Expr)> = Vec::new();
        let mut undefine: Vec<Variable> = Vec::new();
        let ghost target = p_args(s, self.state(), name@, fm, Seq::empty(), Seq::empty());
        assert(defs_model(define@) =~= Seq::empty());
        assert(names_model(undefine@) =~= Seq::empty());
        loop
            invariant_except_break
                p_args(s, self.state(), name@, fm, defs_model(define@), names_model(undefine@))
                    == target,
            invariant
                self.lexer.data == old(self).lexer.data,
                s == self.text(),
                s == old(self).text(),
                st == old(self).state(),
                self.inv(),
                no_back(s, st, self.state()),
                target == p_call(s, st),
            ensures
                p_finish(s, self.state(), name@, fm, defs_model(define@), names_model(undefine@))
                    == target,
            decreases meas(s, self.state()),
        {
            let ghost here = self.state();
            if !matches!(self.cur, Some(Token::Comma)) {
                break;
            }
            self.next_tok()?;
            if matches!(self.cur, Some(Token::CloseParen)) {
                break;
            }
            let mut undef = false;
            if matches!(self.cur, Some(Token::Minus)) {
                undef = true;
                self.next_tok()?;
            }
            let id = match self.cur.take() {
                Some(Token::Ident(i)) => i,
                _ => return Err(Error::ParserExpected(Expected::ArgumentName)),
            };
            self.get_tok()?;
            let mut value = Expr::Empty;
            if matches!(self.cur, Some(Token::Assign)) {
                self.next_tok()?;
                value = self.expr()?;
            }
            self.get_tok()?;
            assert(ahead(s, here, self.state()));
            if undef {
                let ghost u = names_model(undefine@);
                undefine.push(Variable::new(id));
                assert(names_model(undefine@) =~= u.push(id@));
            } else {
                insert_define(&mut define, id, value);
            }
        }
        self.get_tok()?;
        if !matches!(self.cur, Some(Token::CloseParen)) {
            return Err(Error::ParserExpected(Expected::CloseParen));
        }
        self.next_tok()?;
        Ok(Expr::Call(Call::new(Variable::new(name), file, define, undefine)))
    }

    fn next_tok(&mut self) -> (r: Result<(), Error>)
        requires
            old(self).inv(),
        ensures
            moved(*old(self), *final(self), r, next_tok(old(self).text(), old(self).state())),
            r is Ok && final(self).cur is Some ==> old(self).lexer.pos < final(self).lexer.pos,
    {
        let t = self.lexer.next_token()?;
        self.cur = t;
        Ok(())
    }

    fn get_tok(&mut self) -> (r: Result<(), Error>)
        requires
            old(self).inv(),
        ensures
            moved(*old(self), *final(self), r, get_tok(old(self).text(), old(self).state())),
    {
        if self.cur.is_none() {
            self.next_tok()
        } else {
            Ok(())
        }
    }
}

} // verus!
