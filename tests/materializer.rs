use makemake::error::Error;
use makemake::eval::TemplateFiles;
use makemake::maker::{
    load_internal_variables, EntryKind, FileInfo, MakeConfig, MakeInfo, MakeType, Os, StepKind,
    WorkList,
};
use makemake::strmap::StringMap;

fn config(files: Vec<(&str, MakeInfo)>, pairs: &[(&str, &str)]) -> MakeConfig {
    let mut vars = StringMap::new();
    for (k, v) in pairs {
        vars.insert(k.to_string(), v.to_string());
    }
    MakeConfig {
        pre_command: None,
        post_command: None,
        expand_variables: false,
        files: files.into_iter().map(|(k, i)| (k.to_string(), i)).collect(),
        vars,
        template: TemplateFiles::new(),
    }
}

fn s(x: &str) -> String {
    x.to_string()
}

#[test]
fn file_without_manifest_entry_is_copied_verbatim() {
    let conf = config(vec![], &[]);
    let step = conf.make_entry(EntryKind::File, &s("greeting.txt"), &s("/out/greeting.txt")).unwrap();
    assert_eq!(step.kind, StepKind::CopyFile);
    assert_eq!(step.dst, "/out/greeting.txt");
}

#[test]
fn greeting_marked_make_is_expanded() {
    let text = "Hello, ${name ?? 'World'}!";
    let conf = config(vec![("greeting.txt", MakeInfo::TypeOnly(MakeType::Make))], &[("name", "Rust")]);
    let step = conf.make_entry(EntryKind::File, &s("greeting.txt"), &s("/out/greeting.txt")).unwrap();
    assert_eq!(step.kind, StepKind::ExpandFile);
    assert_eq!(conf.expand(text).unwrap(), "Hello, Rust!");
    let bare = config(vec![("greeting.txt", MakeInfo::TypeOnly(MakeType::Make))], &[]);
    assert_eq!(bare.expand(text).unwrap(), "Hello, World!");
}

#[test]
fn ignored_directory_is_skipped_and_not_walked() {
    let conf = config(vec![("build", MakeInfo::TypeOnly(MakeType::Ignore))], &[]);
    let step = conf.make_entry(EntryKind::Dir, &s("build"), &s("/out/build")).unwrap();
    assert_eq!(step.kind, StepKind::Skip);
    let mut list = WorkList::new(s("/out"));
    list.pop();
    list.visit(&step, &s("build"), &vec![s("a.o"), s("b.o")]);
    assert!(list.is_empty());
}

#[test]
fn name_expanding_to_nothing_leaves_file_out() {
    let info = FileInfo { action: MakeType::Auto, name: s("${missingvar}") };
    let conf = config(vec![("notes.txt", MakeInfo::Info(info))], &[]);
    let step = conf.make_entry(EntryKind::File, &s("notes.txt"), &s("/out/notes.txt")).unwrap();
    assert_eq!(step.kind, StepKind::Skip);
}

#[test]
fn name_template_renames_destination() {
    let info = FileInfo { action: MakeType::Make, name: s("${project}.rs") };
    let conf = config(vec![("src/main.rs", MakeInfo::Info(info))], &[("project", "app")]);
    let step = conf.make_entry(EntryKind::File, &s("src/main.rs"), &s("/out/src/main.rs")).unwrap();
    assert_eq!(step.kind, StepKind::ExpandFile);
    assert_eq!(step.dst, "/out/src/app.rs");
}

#[test]
fn directory_actions_choose_copy_or_walk() {
    let conf = config(
        vec![
            ("vendor", MakeInfo::TypeOnly(MakeType::Copy)),
            ("src", MakeInfo::TypeOnly(MakeType::Auto)),
            ("gen", MakeInfo::TypeOnly(MakeType::Make)),
        ],
        &[],
    );
    assert_eq!(conf.make_entry(EntryKind::Dir, &s("vendor"), &s("/o/vendor")).unwrap().kind, StepKind::CopyTree);
    assert_eq!(conf.make_entry(EntryKind::Dir, &s("src"), &s("/o/src")).unwrap().kind, StepKind::Descend);
    assert_eq!(conf.make_entry(EntryKind::Dir, &s("gen"), &s("/o/gen")).unwrap().kind, StepKind::Descend);
    assert_eq!(conf.make_entry(EntryKind::Dir, &s("other"), &s("/o/other")).unwrap().kind, StepKind::Descend);
}

#[test]
fn symlinks_are_replicated_unless_ignored() {
    let conf = config(vec![("skip", MakeInfo::TypeOnly(MakeType::Ignore))], &[]);
    assert_eq!(conf.make_entry(EntryKind::Symlink, &s("link"), &s("/o/link")).unwrap().kind, StepKind::Link);
    assert_eq!(conf.make_entry(EntryKind::Symlink, &s("skip"), &s("/o/skip")).unwrap().kind, StepKind::Skip);
}

#[test]
fn unsupported_entry_is_an_error() {
    let conf = config(vec![], &[]);
    let r = conf.make_entry(EntryKind::Other, &s("fifo"), &s("/o/fifo"));
    assert!(matches!(r, Err(Error::UnsupportedEntry(ref p)) if p == "fifo"));
}

#[test]
fn later_manifest_entry_overrides_earlier() {
    let conf = config(
        vec![("a", MakeInfo::TypeOnly(MakeType::Ignore)), ("a", MakeInfo::TypeOnly(MakeType::Make))],
        &[],
    );
    assert_eq!(conf.make_entry(EntryKind::File, &s("a"), &s("/o/a")).unwrap().kind, StepKind::ExpandFile);
}

#[test]
fn work_list_walks_children_last_first() {
    let mut list = WorkList::new(s("/out"));
    let (rel, dst) = list.pop().unwrap();
    assert_eq!(rel, "");
    assert_eq!(dst, "/out");
    let step = makemake::maker::Step { kind: StepKind::Descend, dst: s("/out") };
    list.visit(&step, &rel, &vec![s("a"), s("b")]);
    let (r1, d1) = list.pop().unwrap();
    assert_eq!((r1.as_str(), d1.as_str()), ("b", "/out/b"));
    list.push_children(&s("a"), &s("/out/a"), &vec![s("c")]);
    assert_eq!(list.pop().unwrap(), (s("a/c"), s("/out/a/c")));
    assert_eq!(list.pop().unwrap(), (s("a"), s("/out/a")));
    assert!(list.pop().is_none());
}

#[test]
fn computed_variables_fill_gaps_only() {
    let mut vars = StringMap::new();
    vars.insert(s("_OS"), s("custom"));
    load_internal_variables(&mut vars, &s("/home/me/project"), Os::Linux);
    assert_eq!(vars.get(&s("_PDIR")).unwrap(), "project");
    assert_eq!(vars.get(&s("_LINUX")).unwrap(), "linux");
    assert_eq!(vars.get(&s("_OS")).unwrap(), "custom");
    let mut other = StringMap::new();
    load_internal_variables(&mut other, &s("/"), Os::Other);
    assert!(other.get(&s("_PDIR")).is_none());
    assert!(other.get(&s("_OS")).is_none());
}

#[test]
fn init_merges_and_expands_manifest_variables() {
    let mut conf = config(vec![], &[("greeting", "Hi ${user}"), ("user", "default")]);
    conf.expand_variables = true;
    let mut given = StringMap::new();
    given.insert(s("user"), s("ada"));
    conf.init(given, &s("/work/demo"), Os::Windows).unwrap();
    assert_eq!(conf.vars.get(&s("greeting")).unwrap(), "Hi ada");
    assert_eq!(conf.vars.get(&s("user")).unwrap(), "ada");
    assert_eq!(conf.vars.get(&s("_WINDOWS")).unwrap(), "windows");
    assert_eq!(conf.vars.get(&s("_PDIR")).unwrap(), "demo");
}

#[test]
fn init_without_expansion_keeps_templates() {
    let mut conf = config(vec![], &[("greeting", "Hi ${user}")]);
    conf.init(StringMap::new(), &s("/work/demo"), Os::MacOs).unwrap();
    assert_eq!(conf.vars.get(&s("greeting")).unwrap(), "Hi ${user}");
    assert_eq!(conf.vars.get(&s("_OS")).unwrap(), "macos");
}
