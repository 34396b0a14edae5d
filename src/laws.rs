use vstd::prelude::*;

use crate::ast::SExpr;
use crate::chars::{is_ident_char, is_ident_start};
use crate::error::SError;
use crate::eval::{eval_expr, expand_from, expand_text, SCtx};
use crate::lexer::{ident_end, lex, lex_literal, SToken};
use crate::maker::{after_visit, info_of, step_of, EntryKind, FileInfo, MakeInfo, MakeType, StepKind};
use crate::parser::{get_tok, next_tok, p_concat, p_concat_loop, p_expr, p_expr_loop, p_parse, PState};

verus! {

/// Comparing two variables: present and empty when neither is set; absent when
/// exactly one is set; present with the text when both are set to the same text;
/// absent when both are set to different texts.
pub proof fn law_equals_of_variables(a: Seq<char>, b: Seq<char>, c: SCtx)
    ensures
        eval_expr(
            SExpr::Equals(Box::new(SExpr::Variable(a)), Box::new(SExpr::Variable(b))),
            c,
        ) == if !c.vars.contains_key(a) && !c.vars.contains_key(b) {
            Ok::<(Seq<char>, bool), SError>((Seq::empty(), true))
        } else if c.vars.contains_key(a) != c.vars.contains_key(b) {
            Ok((Seq::empty(), false))
        } else if c.vars[a] == c.vars[b] {
            Ok((c.vars[a], true))
        } else {
            Ok((Seq::empty(), false))
        },
{
    reveal_with_fuel(eval_expr, 2);
}

/// `x ?? 'fallback'` renders the fallback when `x` is not set, and the value of
/// `x` when it is set, even to the empty text.
pub proof fn law_null_check_of_variable(x: Seq<char>, fallback: Seq<char>, c: SCtx)
    ensures
        eval_expr(
            SExpr::NullCheck(Box::new(SExpr::Variable(x)), Box::new(SExpr::Literal(fallback))),
            c,
        ) == if c.vars.contains_key(x) {
            Ok::<(Seq<char>, bool), SError>((c.vars[x], true))
        } else {
            Ok((fallback, true))
        },
{
    reveal_with_fuel(eval_expr, 2);
}

/// `cond ? 'Y' : 'N'` renders `Y` exactly when `cond` is present, whatever
/// `cond` itself renders.
pub proof fn law_condition_follows_presence(
    cond: SExpr,
    yes: Seq<char>,
    no: Seq<char>,
    c: SCtx,
)
    requires
        eval_expr(cond, c) is Ok,
    ensures
        eval_expr(
            SExpr::Condition(
                Box::new(cond),
                Box::new(SExpr::Literal(yes)),
                Box::new(SExpr::Literal(no)),
            ),
            c,
        ) == Ok::<(Seq<char>, bool), SError>(
            (
                if eval_expr(cond, c)->Ok_0.1 {
                    yes
                } else {
                    no
                },
                true,
            ),
        ),
{
    reveal_with_fuel(eval_expr, 2);
}

/// How a character is written inside a literal: `\` and `'` get a `\` before them.
pub open spec fn escape_char(c: char) -> Seq<char> {
    if c == '\\' || c == '\'' {
        seq!['\\', c]
    } else {
        seq![c]
    }
}

/// How a text is written inside a literal.
pub open spec fn escaped(s: Seq<char>) -> Seq<char>
    decreases s.len(),
{
    if s.len() == 0 {
        Seq::empty()
    } else {
        escape_char(s[0]) + escaped(s.drop_first())
    }
}

/// `${'...'}` around the escaped form of `s`.
pub open spec fn literal_expression(s: Seq<char>) -> Seq<char> {
    seq!['$', '{', '\''] + escaped(s) + seq!['\'', '}']
}

proof fn lemma_lex_escaped(t: Seq<char>, q: int, s: Seq<char>, acc: Seq<char>)
    requires
        0 <= q,
        q + escaped(s).len() < t.len(),
        t.subrange(q, q + escaped(s).len()) == escaped(s),
        t[q + escaped(s).len()] == '\'',
    ensures
        lex_literal(t, q, acc) == (
        Ok::<Option<SToken>, SError>(Some(SToken::Literal(acc + s))),
        q + escaped(s).len() + 1,
        ),
    decreases s.len(),
{
    if s.len() == 0 {
        assert(acc + s =~= acc);
    } else {
        let e1 = escape_char(s[0]);
        let rest = s.drop_first();
        let n = escaped(s).len();
        assert(escaped(s) == e1 + escaped(rest));
        assert(t[q] == t.subrange(q, q + n)[0]);
        if e1.len() == 2 {
            assert(t[q + 1] == t.subrange(q, q + n)[1]);
        }
        let k = e1.len() as int;
        assert forall|i: int| 0 <= i < escaped(rest).len() implies t[q + k + i] == escaped(rest)[i] by {
            assert(escaped(s)[k + i] == escaped(rest)[i]);
            assert(t.subrange(q, q + n)[k + i] == t[q + k + i]);
        }
        assert(t.subrange(q + k, q + k + escaped(rest).len()) =~= escaped(rest));
        lemma_lex_escaped(t, q + e1.len(), rest, acc.push(s[0]));
        assert(acc.push(s[0]) + rest =~= acc + s);
    }
}

/// A literal written with `\` before each `\` and `'` of a text expands to exactly
/// that text, whatever the variables.
pub proof fn law_literal_round_trip(s: Seq<char>, c: SCtx)
    ensures
        expand_text(literal_expression(s), c) == Ok::<Seq<char>, SError>(s),
{
    let e = escaped(s);
    let t = literal_expression(s);
    let n = t.len() as int;
    assert(t.subrange(3, 3 + e.len() as int) =~= e);
    lemma_lex_escaped(t, 3, s, Seq::empty());
    assert(Seq::<char>::empty() + s =~= s);
    let lit = SToken::Literal(s);
    assert(lex(t, 2) == (Ok::<Option<SToken>, SError>(Some(lit)), n - 1));
    assert(lex(t, n - 1) == (Ok::<Option<SToken>, SError>(Some(SToken::CloseBracket)), n));
    let st = PState { pos: 2, cur: None };
    let st1 = PState { pos: n - 1, cur: Some(lit) };
    let st0 = PState { pos: n - 1, cur: None };
    let st3 = PState { pos: n, cur: Some(SToken::CloseBracket) };
    assert(get_tok(t, st) == Ok::<PState, SError>(st1));
    assert(get_tok(t, st0) == Ok::<PState, SError>(st3));
    let res = SExpr::Literal(s);
    assert(p_expr_loop(t, st3, res) == Ok::<(SExpr, PState), SError>((res, st3)));
    assert(p_expr_loop(t, st1, SExpr::Empty) == Ok::<(SExpr, PState), SError>((res, st3)));
    assert(p_parse(t, st) == Ok::<(SExpr, PState), SError>((res, st3)));
    assert(expand_from(t, n, c) == Ok::<Seq<char>, SError>(Seq::empty()));
    assert(s + Seq::<char>::empty() =~= s);
    assert(t[0] == '$' && t[1] == '{');
    assert(eval_expr(res, c) == Ok::<(Seq<char>, bool), SError>((s, true)));
    assert(expand_from(t, 0, c) == Ok::<Seq<char>, SError>(s));
}

/// A name made of ASCII letters, digits and `_`, not starting with a digit.
pub open spec fn is_ascii_name(v: Seq<char>) -> bool {
    &&& v.len() > 0
    &&& (v[0] == '_' || ('a' <= v[0] && v[0] <= 'z') || ('A' <= v[0] && v[0] <= 'Z'))
    &&& forall|i: int|
        0 <= i < v.len() ==> (#[trigger] v[i] == '_' || ('a' <= v[i] && v[i] <= 'z') || ('A'
            <= v[i] && v[i] <= 'Z') || ('0' <= v[i] && v[i] <= '9'))
}

proof fn lemma_ident_run(t: Seq<char>, p: int, e: int)
    requires
        0 <= p <= e < t.len(),
        forall|i: int| p <= i < e ==> is_ident_char(#[trigger] t[i]),
        !is_ident_char(t[e]),
    ensures
        ident_end(t, p) == e,
    decreases e - p,
{
    if p < e {
        lemma_ident_run(t, p + 1, e);
    }
}

/// `${a == b}` for two names.
pub open spec fn equals_expression(a: Seq<char>, b: Seq<char>) -> Seq<char> {
    seq!['$', '{'] + a + seq![' ', '=', '=', ' '] + b + seq!['}']
}

/// `${a == b}` is read as the comparison of the variables `a` and `b`, ending at
/// its `}`.
pub proof fn law_equals_expression_parses(a: Seq<char>, b: Seq<char>)
    requires
        is_ascii_name(a),
        is_ascii_name(b),
    ensures
        p_parse(equals_expression(a, b), PState { pos: 2, cur: None }) == Ok::<
            (SExpr, PState),
            SError,
        >(
            (
                SExpr::Equals(Box::new(SExpr::Variable(a)), Box::new(SExpr::Variable(b))),
                PState { pos: equals_expression(a, b).len() as int, cur: Some(SToken::CloseBracket) },
            ),
        ),
{
    let t = equals_expression(a, b);
    let n = t.len() as int;
    let la = a.len() as int;
    let lb = b.len() as int;
    assert(n == 7 + la + lb);
    assert(forall|i: int| 0 <= i < la ==> t[2 + i] == a[i]);
    assert(forall|i: int| 0 <= i < lb ==> t[6 + la + i] == b[i]);
    assert(t[2 + la] == ' ' && t[3 + la] == '=' && t[4 + la] == '=' && t[5 + la] == ' ');
    assert(t[n - 1] == '}');
    assert forall|i: int| 3 <= i < 2 + la implies is_ident_char(#[trigger] t[i]) by {
        assert(t[i] == a[i - 2]);
    }
    assert forall|i: int| 7 + la <= i < n - 1 implies is_ident_char(#[trigger] t[i]) by {
        assert(t[i] == b[i - 6 - la]);
    }
    lemma_ident_run(t, 3, 2 + la);
    lemma_ident_run(t, 7 + la, n - 1);
    assert(is_ident_start(t[2]));
    assert(is_ident_start(t[6 + la]));
    assert(t.subrange(2, 2 + la) =~= a);
    assert(t.subrange(6 + la, n - 1) =~= b);
    let ia = SToken::Ident(a);
    let ib = SToken::Ident(b);
    let cb = SToken::CloseBracket;
    assert(lex(t, 2) == (Ok::<Option<SToken>, SError>(Some(ia)), 2 + la));
    assert(lex(t, 3 + la) == (Ok::<Option<SToken>, SError>(Some(SToken::Equals)), 5 + la));
    assert(lex(t, 2 + la) == lex(t, 3 + la));
    assert(lex(t, 6 + la) == (Ok::<Option<SToken>, SError>(Some(ib)), n - 1));
    assert(lex(t, 5 + la) == lex(t, 6 + la));
    assert(lex(t, n - 1) == (Ok::<Option<SToken>, SError>(Some(cb)), n));
    let va = SExpr::Variable(a);
    let vb = SExpr::Variable(b);
    let eq = SExpr::Equals(Box::new(va), Box::new(vb));
    let end = PState { pos: n, cur: Some(cb) };
    let st_eq = PState { pos: 5 + la, cur: Some(SToken::Equals) };
    let st_b = PState { pos: n - 1, cur: Some(ib) };
    assert(get_tok(t, PState { pos: n - 1, cur: None }) == Ok::<PState, SError>(end));
    assert(next_tok(t, PState { pos: n - 1, cur: None }) == Ok::<PState, SError>(end));
    assert(p_concat_loop(t, end, vb) == Ok::<(SExpr, PState), SError>((vb, end)));
    assert(p_concat_loop(t, st_b, SExpr::Empty) == Ok::<(SExpr, PState), SError>((vb, end)));
    assert(get_tok(t, PState { pos: 5 + la, cur: None }) == Ok::<PState, SError>(st_b));
    assert(p_concat(t, PState { pos: 5 + la, cur: None }) == Ok::<(SExpr, PState), SError>(
        (vb, end),
    ));
    assert(p_expr_loop(t, end, eq) == Ok::<(SExpr, PState), SError>((eq, end)));
    assert(p_expr_loop(t, st_eq, va) == Ok::<(SExpr, PState), SError>((eq, end)));
    assert(get_tok(t, PState { pos: 2 + la, cur: None }) == Ok::<PState, SError>(st_eq));
    let st_a = PState { pos: 2 + la, cur: Some(ia) };
    assert(p_expr_loop(t, st_a, SExpr::Empty) == Ok::<(SExpr, PState), SError>((eq, end)));
    assert(get_tok(t, PState { pos: 2, cur: None }) == Ok::<PState, SError>(st_a));
    assert(p_expr(t, PState { pos: 2, cur: None }) == Ok::<(SExpr, PState), SError>((eq, end)));
}

/// `${v}` for a name `v` that is not set expands to nothing.
pub proof fn lemma_unset_variable_expands_empty(v: Seq<char>, c: SCtx)
    requires
        is_ascii_name(v),
        !c.vars.contains_key(v),
    ensures
        expand_text(seq!['$', '{'] + v + seq!['}'], c) == Ok::<Seq<char>, SError>(Seq::empty()),
{
    let t = seq!['$', '{'] + v + seq!['}'];
    let n = t.len() as int;
    assert(forall|i: int| 0 <= i < v.len() ==> t[2 + i] == v[i]);
    assert(forall|i: int| 3 <= i < n - 1 ==> is_ident_char(#[trigger] t[i])) by {
        assert forall|i: int| 3 <= i < n - 1 implies is_ident_char(#[trigger] t[i]) by {
            assert(t[i] == v[i - 2]);
        }
    }
    assert(t[n - 1] == '}');
    lemma_ident_run(t, 3, n - 1);
    assert(is_ident_start(t[2]));
    assert(t.subrange(2, n - 1) =~= v);
    let id = SToken::Ident(v);
    assert(lex(t, 2) == (Ok::<Option<SToken>, SError>(Some(id)), n - 1));
    assert(lex(t, n - 1) == (Ok::<Option<SToken>, SError>(Some(SToken::CloseBracket)), n));
    let st = PState { pos: 2, cur: None };
    let st1 = PState { pos: n - 1, cur: Some(id) };
    let st0 = PState { pos: n - 1, cur: None };
    let st3 = PState { pos: n, cur: Some(SToken::CloseBracket) };
    assert(get_tok(t, st) == Ok::<PState, SError>(st1));
    assert(get_tok(t, st0) == Ok::<PState, SError>(st3));
    let res = SExpr::Variable(v);
    assert(p_expr_loop(t, st3, res) == Ok::<(SExpr, PState), SError>((res, st3)));
    assert(p_expr_loop(t, st1, SExpr::Empty) == Ok::<(SExpr, PState), SError>((res, st3)));
    assert(p_parse(t, st) == Ok::<(SExpr, PState), SError>((res, st3)));
    assert(expand_from(t, n, c) == Ok::<Seq<char>, SError>(Seq::empty()));
    assert(Seq::<char>::empty() + Seq::<char>::empty() =~= Seq::<char>::empty());
    assert(t[0] == '$' && t[1] == '{');
    assert(eval_expr(res, c) == Ok::<(Seq<char>, bool), SError>((Seq::empty(), false)));
    assert(expand_from(t, 0, c) == Ok::<Seq<char>, SError>(Seq::empty()));
}

/// A manifest entry whose name template is only `${v}`, with `v` not set, leaves
/// the entry out, whatever its action.
pub proof fn law_empty_name_leaves_entry_out(
    c: SCtx,
    files: Seq<(String, MakeInfo)>,
    kind: EntryKind,
    rel: Seq<char>,
    dst: Seq<char>,
    info: FileInfo,
    v: Seq<char>,
)
    requires
        kind != EntryKind::Other,
        info_of(files, rel) == Some(MakeInfo::Info(info)),
        info.name@ == seq!['$', '{'] + v + seq!['}'],
        is_ascii_name(v),
        !c.vars.contains_key(v),
    ensures
        step_of(c, files, kind, rel, dst) == Ok::<(StepKind, Seq<char>), SError>(
            (StepKind::Skip, dst),
        ),
{
    lemma_unset_variable_expands_empty(v, c);
}

/// An entry that the manifest marks `Ignore` is left out; for a directory, the
/// walk then adds none of the entries below it.
pub proof fn law_ignored_entry_left_out(
    c: SCtx,
    files: Seq<(String, MakeInfo)>,
    kind: EntryKind,
    rel: Seq<char>,
    dst: Seq<char>,
    list: Seq<(Seq<char>, Seq<char>)>,
    names: Seq<String>,
)
    requires
        kind != EntryKind::Other,
        info_of(files, rel) == Some(MakeInfo::TypeOnly(MakeType::Ignore)),
    ensures
        step_of(c, files, kind, rel, dst) == Ok::<(StepKind, Seq<char>), SError>(
            (StepKind::Skip, dst),
        ),
        after_visit(list, StepKind::Skip, rel, dst, names) == list,
{
}

} // verus!
