use makemake::args::{Action, Args, Yna};
use makemake::commander::parse_command;
use makemake::config::{alias, configure, Config};
use makemake::error::Error;
use makemake::lexer::{Lexer, Token};
use makemake::parser::parse;
use makemake::strmap::StringMap;

fn s(x: &str) -> String {
    x.to_string()
}

fn chars_of(x: &str) -> Vec<char> {
    x.chars().collect()
}

#[test]
fn string_map_overrides_and_removes() {
    let mut m = StringMap::new();
    m.insert(s("a"), s("1"));
    m.insert(s("a"), s("2"));
    assert_eq!(m.get(&s("a")).unwrap(), "2");
    m.insert_if_absent(s("a"), s("3"));
    m.insert_if_absent(s("b"), s("4"));
    assert_eq!(m.get(&s("a")).unwrap(), "2");
    assert_eq!(m.get(&s("b")).unwrap(), "4");
    m.remove(&s("a"));
    assert!(m.get(&s("a")).is_none());
    let mut d = StringMap::new();
    d.insert(s("b"), s("default"));
    d.insert(s("c"), s("5"));
    m.add_defaults(&d);
    assert_eq!(m.get(&s("b")).unwrap(), "4");
    assert_eq!(m.get(&s("c")).unwrap(), "5");
}

#[test]
fn lexer_produces_tokens_in_order() {
    let data = chars_of("a == 'x' ?? #f(-b, c=d) : ?}rest");
    let mut lx = Lexer::new(&data, 0);
    let mut seen = Vec::new();
    while let Some(t) = lx.next_token().unwrap() {
        let done = matches!(t, Token::CloseBracket);
        seen.push(format!("{:?}", t));
        if done {
            break;
        }
    }
    assert_eq!(
        seen,
        vec![
            "Ident(\"a\")", "Equals", "Literal(\"x\")", "NullCheck", "Pound", "Ident(\"f\")",
            "OpenParen", "Minus", "Ident(\"b\")", "Comma", "Ident(\"c\")", "Assign", "Ident(\"d\")",
            "CloseParen", "Colon", "Question", "CloseBracket",
        ]
    );
    assert_eq!(lx.pos, 28);
}

#[test]
fn tokens_are_written_back() {
    assert_eq!(Token::NullCheck.text(), "??");
    assert_eq!(Token::Equals.text(), "==");
    assert_eq!(Token::CloseBracket.text(), "}");
    assert_eq!(Token::Ident(s("name")).text(), "name");
    assert_eq!(Token::Literal(s("it's")).text(), "it's");
}

#[test]
fn parse_stops_after_closing_bracket() {
    let data = chars_of("${a}tail");
    let (_, end) = parse(&data, 2).unwrap();
    assert_eq!(end, 4);
}

#[test]
fn command_is_split_into_words() {
    let words = parse_command("./setup.sh --name 'my project'").unwrap();
    assert_eq!(words, vec![s("./setup.sh"), s("--name"), s("my project")]);
}

#[test]
fn command_errors_are_reported() {
    assert!(matches!(parse_command("echo 'open"), Err(Error::CommandSyntax)));
    assert!(matches!(parse_command("   "), Err(Error::MissingProgram)));
}

#[test]
fn configure_adds_and_removes_variables() {
    let mut conf = Config::new();
    conf.vars.insert(s("old"), s("x"));
    let mut vars = StringMap::new();
    vars.insert(s("-old"), s(""));
    vars.insert(s("+plus"), s("p"));
    vars.insert(s("name"), s("n"));
    configure(&mut conf, &vars);
    assert!(conf.vars.get(&s("old")).is_none());
    assert_eq!(conf.vars.get(&s("plus")).unwrap(), "p");
    assert_eq!(conf.vars.get(&s("name")).unwrap(), "n");
}

#[test]
fn aliases_are_set_found_and_removed() {
    let mut conf = Config::new();
    let mut v = StringMap::new();
    v.insert(s("lang"), s("rust"));
    alias(&mut conf, s("r"), s("rust-template"), v);
    assert_eq!(conf.find_alias(&s("r")).unwrap().template, "rust-template");
    alias(&mut conf, s("r"), s("other"), StringMap::new());
    assert_eq!(conf.find_alias(&s("r")).unwrap().template, "other");
    assert!(conf.remove_alias(&s("r")));
    assert!(conf.find_alias(&s("r")).is_none());
    assert!(!conf.remove_alias(&s("r")));
}

#[test]
fn actions_that_need_a_template() {
    assert!(Action::Create.needs_template());
    assert!(Action::Alias(s("a")).needs_template());
    assert!(Action::Load.needs_template());
    assert!(!Action::Help.needs_template());
    assert!(!Action::List.needs_template());
}

#[test]
fn color_follows_the_setting() {
    let args = Args {
        use_color: Yna::Yes,
        template: String::new(),
        directory: s("."),
        action: Action::Help,
        vars: StringMap::new(),
        prompt_answer: Yna::Auto,
    };
    assert!(args.use_color());
    let plain = Args { use_color: Yna::No, ..args };
    assert!(!plain.use_color());
}
