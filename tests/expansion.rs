use makemake::error::{Error, Expected};
use makemake::eval::{expand_str, ExpandContext, TemplateFiles};
use makemake::strmap::StringMap;

fn vars(pairs: &[(&str, &str)]) -> StringMap {
    let mut m = StringMap::new();
    for (k, v) in pairs {
        m.insert(k.to_string(), v.to_string());
    }
    m
}

fn files(texts: &[(&str, &str)], others: &[&str]) -> TemplateFiles {
    let mut f = TemplateFiles::new();
    for (k, v) in texts {
        f.texts.insert(k.to_string(), v.to_string());
    }
    for k in others {
        f.others.insert(k.to_string(), String::new());
    }
    f
}

fn run(text: &str, v: &StringMap, f: &TemplateFiles) -> Result<String, Error> {
    let ctx = ExpandContext { vars: v, files: f, depth: 8 };
    expand_str(&ctx, text)
}

fn ok(text: &str, pairs: &[(&str, &str)]) -> String {
    run(text, &vars(pairs), &files(&[], &[])).unwrap()
}

#[test]
fn literal_with_escapes_round_trips() {
    assert_eq!(ok(r"${'it\'s a \\ path'}", &[]), r"it's a \ path");
    assert_eq!(ok(r"${'tab\there\nnew'}", &[]), "tab\there\nnew");
    assert_eq!(ok(r"${'\q'}", &[]), "q");
    assert_eq!(ok("${''}", &[]), "");
}

#[test]
fn text_without_expressions_is_copied() {
    assert_eq!(ok("plain text\nline two", &[]), "plain text\nline two");
    assert_eq!(ok("", &[]), "");
}

#[test]
fn dollar_not_opening_an_expression_is_kept() {
    assert_eq!(ok("cost: $5", &[]), "cost: $5");
    assert_eq!(ok("end$", &[]), "end$");
    assert_eq!(ok("end${", &[]), "end${");
    assert_eq!(ok("$$", &[]), "$$");
}

#[test]
fn variable_is_substituted() {
    assert_eq!(ok("Hello, ${name}!", &[("name", "Rust")]), "Hello, Rust!");
    assert_eq!(ok("[${missing}]", &[]), "[]");
}

#[test]
fn concatenation_joins_terms() {
    assert_eq!(ok("${a '-' b}", &[("a", "x"), ("b", "y")]), "x-y");
    assert_eq!(ok("${ ( a ) 'z' }", &[("a", "x")]), "xz");
}

#[test]
fn equals_with_both_variables_absent_is_present_and_empty() {
    assert_eq!(ok("[${a == b}]", &[]), "[]");
    assert_eq!(ok("${(a == b) ? 'Y' : 'N'}", &[]), "Y");
}

#[test]
fn equals_with_one_variable_absent_is_absent() {
    assert_eq!(ok("${(a == b) ? 'Y' : 'N'}", &[("a", "")]), "N");
    assert_eq!(ok("${(a == b) ? 'Y' : 'N'}", &[("b", "x")]), "N");
}

#[test]
fn equals_with_same_text_renders_it() {
    assert_eq!(ok("${a == b}", &[("a", "same"), ("b", "same")]), "same");
    assert_eq!(ok("${(a == b) ? 'Y' : 'N'}", &[("a", "same"), ("b", "same")]), "Y");
}

#[test]
fn equals_with_different_text_is_absent() {
    assert_eq!(ok("[${a == b}]", &[("a", "one"), ("b", "two")]), "[]");
    assert_eq!(ok("${(a == b) ? 'Y' : 'N'}", &[("a", "one"), ("b", "two")]), "N");
    assert_eq!(ok("${os == 'linux' ? 'L' : 'O'}", &[("os", "linux")]), "L");
}

#[test]
fn null_check_falls_back_for_undefined_variable() {
    assert_eq!(ok("${x ?? 'fallback'}", &[]), "fallback");
    assert_eq!(ok("${x ?? 'fallback'}", &[("x", "value")]), "value");
    assert_eq!(ok("[${x ?? 'fallback'}]", &[("x", "")]), "[]");
}

#[test]
fn condition_follows_presence_not_text() {
    assert_eq!(ok("${cond ? 'Y' : 'N'}", &[("cond", "")]), "Y");
    assert_eq!(ok("${cond ? 'Y' : 'N'}", &[("cond", "false")]), "Y");
    assert_eq!(ok("${cond ? 'Y' : 'N'}", &[]), "N");
}

#[test]
fn concatenation_is_present_if_any_term_is() {
    assert_eq!(ok("${(missing '') ? 'Y' : 'N'}", &[]), "Y");
    assert_eq!(ok("${(missing other) ? 'Y' : 'N'}", &[]), "N");
}

#[test]
fn non_ascii_names_and_spaces_are_read() {
    assert_eq!(ok("${é}", &[("é", "accent")]), "accent");
    assert_eq!(ok("${\u{2003}x\u{2003}}", &[("x", "wide")]), "wide");
}

#[test]
fn exists_checks_the_template_files() {
    let f = files(&[("sub/file.tmpl", "text")], &["sub"]);
    let v = vars(&[]);
    assert_eq!(run("${#exists('sub/file.tmpl') ? 'yes' : 'no'}", &v, &f).unwrap(), "yes");
    assert_eq!(run("${#exists('sub') ? 'yes' : 'no'}", &v, &f).unwrap(), "yes");
    assert_eq!(run("${#exists('nope') ? 'yes' : 'no'}", &v, &f).unwrap(), "no");
}

#[test]
fn file_paths_are_taken_from_the_template_root() {
    let f = files(&[("sub/file.tmpl", "text")], &["sub", ""]);
    let v = vars(&[("dir", "sub")]);
    assert_eq!(run("${#exists('./sub//file.tmpl') ? 'yes' : 'no'}", &v, &f).unwrap(), "yes");
    assert_eq!(run("${#exists(dir '/./file.tmpl') ? 'yes' : 'no'}", &v, &f).unwrap(), "yes");
    assert_eq!(run("${#exists('sub/') ? 'yes' : 'no'}", &v, &f).unwrap(), "yes");
    assert_eq!(run("${#exists(nothing) ? 'yes' : 'no'}", &v, &f).unwrap(), "yes");
    assert_eq!(run("${#include('./sub/file.tmpl')}", &v, &f).unwrap(), "text");
}

#[test]
fn include_copies_text_without_expanding_it() {
    let f = files(&[("part.txt", "raw ${x}")], &[]);
    let v = vars(&[("x", "1")]);
    assert_eq!(run("<${#include('part.txt')}>", &v, &f).unwrap(), "<raw ${x}>");
    assert_eq!(run("<${#include('absent.txt')}>", &v, &f).unwrap(), "<>");
}

#[test]
fn make_expands_file_with_overridden_variable() {
    let f = files(&[("sub/file.tmpl", "${greeting}, ${name}!")], &[]);
    let v = vars(&[("greeting", "Hello"), ("name", "Ada")]);
    let out = run("${#make('sub/file.tmpl', greeting='Hi')}", &v, &f).unwrap();
    assert_eq!(out, "Hi, Ada!");
    let plain = run("${#make('sub/file.tmpl')}", &v, &f).unwrap();
    assert_eq!(plain, "Hello, Ada!");
}

#[test]
fn make_removes_and_clears_variables() {
    let f = files(&[("f", "${name ?? 'nobody'}|${greeting ?? 'none'}")], &[]);
    let v = vars(&[("greeting", "Hello"), ("name", "Ada")]);
    assert_eq!(run("${#make('f', -name)}", &v, &f).unwrap(), "nobody|Hello");
    assert_eq!(run("${#make('f', greeting)}", &v, &f).unwrap(), "Ada|");
    assert_eq!(run("${#make('f', greeting = 'a', greeting = 'b')}", &v, &f).unwrap(), "Ada|b");
    assert_eq!(run("${#make('missing')}", &v, &f).unwrap(), "");
}

#[test]
fn unknown_function_is_an_error() {
    let r = run("${#frobnicate('x')}", &vars(&[]), &files(&[], &[]));
    assert!(matches!(r, Err(Error::UnknownFunction(ref n)) if n == "frobnicate"));
}

#[test]
fn exists_with_arguments_is_an_error() {
    let r = run("${#exists('x', a='1')}", &vars(&[]), &files(&[], &[]));
    assert!(matches!(r, Err(Error::TooManyArguments(ref n)) if n == "exists"));
}

#[test]
fn unreadable_file_is_an_error() {
    let f = files(&[], &["bin.dat"]);
    let r = run("${#include('bin.dat')}", &vars(&[]), &f);
    assert!(matches!(r, Err(Error::Unreadable(ref p)) if p == "bin.dat"));
}

#[test]
fn make_nesting_is_bounded() {
    let f = files(&[("loop", "${#make('loop')}")], &[]);
    let r = run("${#make('loop')}", &vars(&[]), &f);
    assert!(matches!(r, Err(Error::TooDeep)));
}

#[test]
fn lexer_errors_are_reported() {
    assert!(matches!(run("${a @}", &vars(&[]), &files(&[], &[])), Err(Error::LexerUnexpected('@'))));
    assert!(matches!(
        run("${'open", &vars(&[]), &files(&[], &[])),
        Err(Error::LexerExpect(Expected::CloseQuote))
    ));
    assert!(matches!(
        run("${'open\\", &vars(&[]), &files(&[], &[])),
        Err(Error::LexerExpect(Expected::EscapeSequence))
    ));
}

#[test]
fn parser_errors_are_reported() {
    let v = vars(&[]);
    let f = files(&[], &[]);
    assert!(matches!(run("${a ? b}", &v, &f), Err(Error::ParserExpected(Expected::Colon))));
    assert!(matches!(run("${(a}", &v, &f), Err(Error::ParserExpected(Expected::CloseParen))));
    assert!(matches!(run("${a)}", &v, &f), Err(Error::ParserExpected(Expected::CloseBracket))));
    assert!(matches!(run("${#('x')}", &v, &f), Err(Error::ParserExpected(Expected::FunctionName))));
    assert!(matches!(run("${#make 'x'}", &v, &f), Err(Error::ParserExpected(Expected::OpenParen))));
    assert!(matches!(
        run("${#make('x', 'y')}", &v, &f),
        Err(Error::ParserExpected(Expected::ArgumentName))
    ));
}

#[test]
fn expression_may_end_with_the_text() {
    assert_eq!(ok("x${a", &[("a", "1")]), "x1");
}
