use vstd::prelude::*;

pub use crate::eval::{expand, ExpandContext};

use crate::error::{Error, SError};
use crate::eval::{expand_str, expand_text, SCtx, TemplateFiles};
use crate::paths::{file_name, file_name_of, join, joined, rename, renamed};
use crate::strmap::StringMap;

verus! {

/// How deep `#make` calls may nest inside one expansion.
pub const MAX_MAKE_DEPTH: usize = 64;

/// What the manifest asks for an entry of the template.
#[derive(Clone, Copy, Debug, PartialEq, Eq, Structural)]
pub enum MakeType {
    /// a file is copied; a directory is walked with the manifest
    Auto,
    /// a file is copied; a directory is copied whole, the manifest no longer read below it
    Copy,
    /// a file is expanded; a directory is walked with the manifest
    Make,
    /// the entry is left out
    Ignore,
}

/// An action with a name template for the destination.
pub struct FileInfo {
    pub action: MakeType,
    /// Expanded to give the destination's file name; empty keeps the name.
    pub name: String,
}

/// One entry of the manifest's `files`.
pub enum MakeInfo {
    TypeOnly(MakeType),
    Info(FileInfo),
}

/// What kind of thing stands at a path of the template, symlinks not followed.
#[derive(Clone, Copy, Debug, PartialEq, Eq, Structural)]
pub enum EntryKind {
    File,
    Dir,
    Symlink,
    Other,
}

/// What to do with one entry of the template.
#[derive(Clone, Copy, Debug, PartialEq, Eq, Structural)]
pub enum StepKind {
    /// leave it out
    Skip,
    /// make a symlink at the destination with the same target
    Link,
    /// copy the file's bytes
    CopyFile,
    /// write the expansion of the file's text
    ExpandFile,
    /// copy the whole directory without the manifest
    CopyTree,
    /// create the directory and walk its entries
    Descend,
}

/// A step and the destination path it writes.
pub struct Step {
    pub kind: StepKind,
    pub dst: String,
}

/// The operating system that the computed variables describe.
#[derive(Clone, Copy, Debug, PartialEq, Eq, Structural)]
pub enum Os {
    Linux,
    Windows,
    MacOs,
    Ios,
    FreeBsd,
    Other,
}

/// A template's manifest with the variables of one load.
pub struct MakeConfig {
    pub pre_command: Option<String>,
    pub post_command: Option<String>,
    /// Whether the manifest's own variables are expanded against those of the load.
    pub expand_variables: bool,
    /// Entries by path relative to the template's root; a later one overrides.
    pub files: Vec<(String, MakeInfo)>,
    pub vars: StringMap,
    /// The template's files, which expressions may name.
    pub template: TemplateFiles,
}

/// The manifest entry for `rel`.
pub open spec fn info_of(files: Seq<(String, MakeInfo)>, rel: Seq<char>) -> Option<MakeInfo>
    decreases files.len(),
{
    if files.len() == 0 {
        None
    } else if files.last().0@ == rel {
        Some(files.last().1)
    } else {
        info_of(files.drop_last(), rel)
    }
}

/// The action for an entry and its destination after renaming. A name template
/// that expands to nothing leaves the entry out.
pub open spec fn action_of(c: SCtx, info: MakeInfo, dst: Seq<char>) -> Result<
    (MakeType, Seq<char>),
    SError,
> {
    match info {
        MakeInfo::TypeOnly(a) => Ok((a, dst)),
        MakeInfo::Info(i) => if i.name@.len() == 0 {
            Ok((i.action, dst))
        } else {
            match expand_text(i.name@, c) {
                Err(x) => Err(x),
                Ok(n) => if n.len() == 0 {
                    Ok((MakeType::Ignore, dst))
                } else {
                    Ok((i.action, renamed(dst, n)))
                },
            }
        },
    }
}

/// The step for an entry of kind `kind` at `rel`, bound for `dst`.
pub open spec fn step_of(
    c: SCtx,
    files: Seq<(String, MakeInfo)>,
    kind: EntryKind,
    rel: Seq<char>,
    dst: Seq<char>,
) -> Result<(StepKind, Seq<char>), SError> {
    if kind == EntryKind::Other {
        Err(SError::UnsupportedEntry(rel))
    } else {
        match info_of(files, rel) {
            None => Ok(
                (
                    match kind {
                        EntryKind::Symlink => StepKind::Link,
                        EntryKind::File => StepKind::CopyFile,
                        _ => StepKind::Descend,
                    },
                    dst,
                ),
            ),
            Some(info) => match action_of(c, info, dst) {
                Err(x) => Err(x),
                Ok((a, d)) => Ok(
                    (
                        match kind {
                            EntryKind::Symlink => if a == MakeType::Ignore {
                                StepKind::Skip
                            } else {
                                StepKind::Link
                            },
                            EntryKind::File => match a {
                                MakeType::Copy | MakeType::Auto => StepKind::CopyFile,
                                MakeType::Make => StepKind::ExpandFile,
                                MakeType::Ignore => StepKind::Skip,
                            },
                            _ => match a {
                                MakeType::Copy => StepKind::CopyTree,
                                MakeType::Auto | MakeType::Make => StepKind::Descend,
                                MakeType::Ignore => StepKind::Skip,
                            },
                        },
                        d,
                    ),
                ),
            },
        }
    }
}

pub open spec fn step_matches(r: Result<Step, Error>, want: Result<(StepKind, Seq<char>), SError>) -> bool {
    match want {
        Ok((k, d)) => r matches Ok(s) && s.kind == k && s.dst@ == d,
        Err(x) => r matches Err(e) && e@ == x,
    }
}

impl MakeConfig {
    /// The model of the context that expansions of this manifest run in.
    pub open spec fn ctx(&self) -> SCtx {
        SCtx { vars: self.vars@, files: self.template@, depth: MAX_MAKE_DEPTH as nat }
    }

    pub fn context(&self) -> (r: ExpandContext)
        ensures
            r.model() == self.ctx(),
    {
        ExpandContext { vars: &self.vars, files: &self.template, depth: MAX_MAKE_DEPTH }
    }

    /// Expands `src` against the manifest's variables.
    pub fn expand(&self, src: &str) -> (r: Result<String, Error>)
        ensures
            match expand_text(src@, self.ctx()) {
                Ok(t) => r matches Ok(x) && x@ == t,
                Err(x) => r matches Err(e) && e@ == x,
            },
    {
        expand_str(&self.context(), src)
    }

    /// The manifest entry for the path `rel`, relative to the template's root.
    pub fn lookup(&self, rel: &String) -> (r: Option<&MakeInfo>)
        ensures
            match info_of(self.files@, rel@) {
                None => r is None,
                Some(i) => r matches Some(x) && *x == i,
            },
    {
        let mut i = self.files.len();
        assert(self.files@.subrange(0, i as int) =~= self.files@);
        while i > 0
            invariant
                i <= self.files@.len(),
                info_of(self.files@, rel@) == info_of(self.files@.subrange(0, i as int), rel@),
            decreases i,
        {
            let ghost pre = self.files@.subrange(0, i as int);
            assert(pre.drop_last() =~= self.files@.subrange(0, i - 1));
            if self.files[i - 1].0 == *rel {
                return Some(&self.files[i - 1].1);
            }
            i = i - 1;
        }
        None
    }

    /// The action of `info` and the destination renamed by its name template.
    pub fn make_name(&self, info: &FileInfo, dst: &String) -> (r: Result<(MakeType, String), Error>)
        ensures
            match action_of(self.ctx(), MakeInfo::Info(*info), dst@) {
                Ok((a, d)) => r matches Ok((ra, rd)) && ra == a && rd@ == d,
                Err(x) => r matches Err(e) && e@ == x,
            },
    {
        if info.name.as_str().is_empty() {
            return Ok((info.action, dst.clone()));
        }
        let name = self.expand(info.name.as_str())?;
        if name.as_str().is_empty() {
            Ok((MakeType::Ignore, dst.clone()))
        } else {
            Ok((info.action, rename(dst, &name)))
        }
    }

    fn action(&self, info: &MakeInfo, dst: &String) -> (r: Result<(MakeType, String), Error>)
        ensures
            match action_of(self.ctx(), *info, dst@) {
                Ok((a, d)) => r matches Ok((ra, rd)) && ra == a && rd@ == d,
                Err(x) => r matches Err(e) && e@ == x,
            },
    {
        match info {
            MakeInfo::TypeOnly(a) => Ok((*a, dst.clone())),
            MakeInfo::Info(i) => self.make_name(i, dst),
        }
    }

    /// The step for a symlink at `rel`, bound for `dst`.
    pub fn make_symlink_name(&self, rel: &String, dst: &String) -> (r: Result<Step, Error>)
        ensures
            step_matches(r, step_of(self.ctx(), self.files@, EntryKind::Symlink, rel@, dst@)),
    {
        match self.lookup(rel) {
            None => Ok(Step { kind: StepKind::Link, dst: dst.clone() }),
            Some(info) => {
                let (a, d) = self.action(info, dst)?;
                let kind = match a {
                    MakeType::Ignore => StepKind::Skip,
                    _ => StepKind::Link,
                };
                Ok(Step { kind, dst: d })
            },
        }
    }

    /// The step for a regular file at `rel`, bound for `dst`.
    pub fn make_file_name(&self, rel: &String, dst: &String) -> (r: Result<Step, Error>)
        ensures
            step_matches(r, step_of(self.ctx(), self.files@, EntryKind::File, rel@, dst@)),
    {
        match self.lookup(rel) {
            None => Ok(Step { kind: StepKind::CopyFile, dst: dst.clone() }),
            Some(info) => {
                let (a, d) = self.action(info, dst)?;
                let kind = match a {
                    MakeType::Copy | MakeType::Auto => StepKind::CopyFile,
                    MakeType::Make => StepKind::ExpandFile,
                    MakeType::Ignore => StepKind::Skip,
                };
                Ok(Step { kind, dst: d })
            },
        }
    }

    /// The step for a directory at `rel`, bound for `dst`.
    pub fn make_dir_name(&self, rel: &String, dst: &String) -> (r: Result<Step, Error>)
        ensures
            step_matches(r, step_of(self.ctx(), self.files@, EntryKind::Dir, rel@, dst@)),
    {
        match self.lookup(rel) {
            None => Ok(Step { kind: StepKind::Descend, dst: dst.clone() }),
            Some(info) => {
                let (a, d) = self.action(info, dst)?;
                let kind = match a {
                    MakeType::Copy => StepKind::CopyTree,
                    MakeType::Auto | MakeType::Make => StepKind::Descend,
                    MakeType::Ignore => StepKind::Skip,
                };
                Ok(Step { kind, dst: d })
            },
        }
    }

    /// The step for any entry of the template.
    pub fn make_entry(&self, kind: EntryKind, rel: &String, dst: &String) -> (r: Result<Step, Error>)
        ensures
            step_matches(r, step_of(self.ctx(), self.files@, kind, rel@, dst@)),
    {
        match kind {
            EntryKind::Symlink => self.make_symlink_name(rel, dst),
            EntryKind::File => self.make_file_name(rel, dst),
            EntryKind::Dir => self.make_dir_name(rel, dst),
            EntryKind::Other => Err(Error::UnsupportedEntry(rel.clone())),
        }
    }
}

/// `m` with `k` mapped to `v` unless `k` is mapped already.
pub open spec fn or_insert(m: Map<Seq<char>, Seq<char>>, k: Seq<char>, v: Seq<char>) -> Map<
    Seq<char>,
    Seq<char>,
> {
    if m.contains_key(k) {
        m
    } else {
        m.insert(k, v)
    }
}

/// The flag variable and the name that describe `os`.
pub open spec fn os_names(os: Os) -> (Seq<char>, Seq<char>) {
    match os {
        Os::Linux => ("_LINUX"@, "linux"@),
        Os::Windows => ("_WINDOWS"@, "windows"@),
        Os::MacOs => ("_MACOS"@, "macos"@),
        Os::Ios => ("_IOS"@, "ios"@),
        Os::FreeBsd => ("_FREEBSD"@, "freebsd"@),
        Os::Other => (Seq::empty(), Seq::empty()),
    }
}

/// `m` with the computed variables added where `m` has none of the same name:
/// `_PDIR`, the destination directory's name, then the operating system's flag
/// and `_OS`.
pub open spec fn internal_vars(m: Map<Seq<char>, Seq<char>>, dst_name: Option<Seq<char>>, os: Os) -> Map<
    Seq<char>,
    Seq<char>,
> {
    let m1 = match dst_name {
        Some(n) => or_insert(m, "_PDIR"@, n),
        None => m,
    };
    if os == Os::Other {
        m1
    } else {
        or_insert(or_insert(m1, os_names(os).0, os_names(os).1), "_OS"@, os_names(os).1)
    }
}

/// The manifest's variables with each value expanded against `c`: a later entry
/// overrides an earlier one; the first failing expansion is the error.
pub open spec fn expanded_entries(es: Seq<(String, String)>, c: SCtx) -> Result<
    Map<Seq<char>, Seq<char>>,
    SError,
>
    decreases es.len(),
{
    if es.len() == 0 {
        Ok(Map::empty())
    } else {
        match expanded_entries(es.drop_last(), c) {
            Err(x) => Err(x),
            Ok(m) => match expand_text(es.last().1@, c) {
                Err(x) => Err(x),
                Ok(t) => Ok(m.insert(es.last().0@, t)),
            },
        }
    }
}

pub proof fn lemma_expanded_entries_prefix_err(es: Seq<(String, String)>, k: int, c: SCtx)
    requires
        0 <= k <= es.len(),
        expanded_entries(es.subrange(0, k), c) is Err,
    ensures
        expanded_entries(es, c) == expanded_entries(es.subrange(0, k), c),
    decreases es.len(),
{
    if k == es.len() {
        assert(es.subrange(0, k) =~= es);
    } else {
        let w = es.drop_last();
        assert(w.subrange(0, k) =~= es.subrange(0, k));
        lemma_expanded_entries_prefix_err(w, k, c);
    }
}

/// Adds the computed variables to `vars` where it has none of the same name.
pub fn load_internal_variables(vars: &mut StringMap, dst: &String, os: Os)
    ensures
        final(vars)@ == internal_vars(old(vars)@, file_name_of(dst@), os),
{
    if let Some(name) = file_name(dst) {
        vars.insert_if_absent("_PDIR".to_owned(), name);
    }
    let (flag, value) = match os {
        Os::Linux => ("_LINUX", "linux"),
        Os::Windows => ("_WINDOWS", "windows"),
        Os::MacOs => ("_MACOS", "macos"),
        Os::Ios => ("_IOS", "ios"),
        Os::FreeBsd => ("_FREEBSD", "freebsd"),
        Os::Other => return,
    };
    vars.insert_if_absent(flag.to_owned(), value.to_owned());
    vars.insert_if_absent("_OS".to_owned(), value.to_owned());
}

impl MakeConfig {
    /// Expands each of the manifest's variables against `vars`.
    pub fn expand_variables(&mut self, vars: &StringMap) -> (r: Result<(), Error>)
        ensures
            final(self).template == old(self).template,
            final(self).files == old(self).files,
            final(self).expand_variables == old(self).expand_variables,
            final(self).pre_command == old(self).pre_command,
            final(self).post_command == old(self).post_command,
            match expanded_entries(
                old(self).vars.entries@,
                SCtx { vars: vars@, files: old(self).template@, depth: MAX_MAKE_DEPTH as nat },
            ) {
                Ok(m) => r is Ok && final(self).vars@ == m,
                Err(x) => r matches Err(e) && e@ == x,
            },
    {
        let ctx = ExpandContext { vars, files: &self.template, depth: MAX_MAKE_DEPTH };
        let ghost c = ctx.model();
        let ghost es = self.vars.entries@;
        let mut done = StringMap::new();
        let len = self.vars.entries.len();
        let mut i: usize = 0;
        assert(es.subrange(0, 0) =~= Seq::<(String, String)>::empty());
        while i < len
            invariant
                es == self.vars.entries@,
                es == old(self).vars.entries@,
                len == es.len(),
                c == ctx.model(),
                c == (SCtx { vars: vars@, files: old(self).template@, depth: MAX_MAKE_DEPTH as nat }),
                i <= len,
                expanded_entries(es.subrange(0, i as int), c) == Ok::<
                    Map<Seq<char>, Seq<char>>,
                    SError,
                >(done@),
            decreases len - i,
        {
            assert(es.subrange(0, i + 1).drop_last() =~= es.subrange(0, i as int));
            let value = match expand_str(&ctx, self.vars.entries[i].1.as_str()) {
                Ok(v) => v,
                Err(e) => {
                    proof {
                        lemma_expanded_entries_prefix_err(es, i + 1, c);
                    }
                    return Err(e);
                },
            };
            done.insert(self.vars.entries[i].0.clone(), value);
            i = i + 1;
        }
        assert(es.subrange(0, len as int) =~= es);
        self.vars = done;
        Ok(())
    }

    /// Prepares the variables of a load: the computed ones join `vars`; the
    /// manifest's own are expanded against `vars` if it asks for that; then
    /// `vars` override them.
    pub fn init(&mut self, vars: StringMap, dst: &String, os: Os) -> (r: Result<(), Error>)
        ensures
            final(self).template == old(self).template,
            final(self).files == old(self).files,
            final(self).pre_command == old(self).pre_command,
            final(self).post_command == old(self).post_command,
            ({
                let iv = internal_vars(vars@, file_name_of(dst@), os);
                if old(self).expand_variables {
                    match expanded_entries(
                        old(self).vars.entries@,
                        SCtx { vars: iv, files: old(self).template@, depth: MAX_MAKE_DEPTH as nat },
                    ) {
                        Ok(m) => r is Ok && final(self).vars@ == m.union_prefer_right(iv),
                        Err(x) => r matches Err(e) && e@ == x,
                    }
                } else {
                    r is Ok && final(self).vars@ == old(self).vars@.union_prefer_right(iv)
                }
            }),
    {
        let mut vars = vars;
        load_internal_variables(&mut vars, dst, os);
        if self.expand_variables {
            self.expand_variables(&vars)?;
        }
        self.vars.extend(&vars);
        Ok(())
    }
}

/// The entries still to visit, each a path relative to the template's root and
/// the destination it is bound for; the last one is visited first.
pub struct WorkList {
    pub items: Vec<(String, String)>,
}

pub open spec fn pair_view(p: (String, String)) -> (Seq<char>, Seq<char>) {
    (p.0@, p.1@)
}

impl View for WorkList {
    type V = Seq<(Seq<char>, Seq<char>)>;

    open spec fn view(&self) -> Seq<(Seq<char>, Seq<char>)> {
        self.items@.map_values(|p: (String, String)| pair_view(p))
    }
}

/// The entries of a directory at `rel` bound for `dst`, for each name in order.
pub open spec fn children(rel: Seq<char>, dst: Seq<char>, names: Seq<String>) -> Seq<
    (Seq<char>, Seq<char>),
> {
    names.map_values(|n: String| (joined(rel, n@), joined(dst, n@)))
}

/// The work list after a step of kind `kind` for the entry at `rel`, bound for `dst`.
pub open spec fn after_visit(
    list: Seq<(Seq<char>, Seq<char>)>,
    kind: StepKind,
    rel: Seq<char>,
    dst: Seq<char>,
    names: Seq<String>,
) -> Seq<(Seq<char>, Seq<char>)> {
    if kind == StepKind::Descend {
        list + children(rel, dst, names)
    } else {
        list
    }
}

impl WorkList {
    /// The list holding the template's root, bound for `dst`.
    pub fn new(dst: String) -> (r: WorkList)
        ensures
            r@ == seq![(Seq::<char>::empty(), dst@)],
    {
        let mut items: Vec<(String, String)> = Vec::new();
        items.push((String::new(), dst));
        let r = WorkList { items };
        assert(r@ =~= seq![(Seq::<char>::empty(), r.items@[0].1@)]);
        r
    }

    /// Takes the entry pushed last.
    pub fn pop(&mut self) -> (r: Option<(String, String)>)
        ensures
            old(self)@.len() == 0 ==> r is None && final(self)@ == old(self)@,
            old(self)@.len() > 0 ==> (r matches Some(p) && pair_view(p) == old(self)@.last()
                && final(self)@ == old(self)@.drop_last()),
    {
        let r = self.items.pop();
        assert(self@ =~= old(self)@.subrange(0, self@.len() as int));
        r
    }

    /// Records what a step of the walk adds: the entries `names` of a directory
    /// that the step descends into, and nothing for any other step.
    pub fn visit(&mut self, step: &Step, rel: &String, names: &Vec<String>)
        ensures
            final(self)@ == after_visit(old(self)@, step.kind, rel@, step.dst@, names@),
    {
        if step.kind == StepKind::Descend {
            self.push_children(rel, &step.dst, names);
        }
    }

    pub fn is_empty(&self) -> (r: bool)
        ensures
            r == (self@.len() == 0),
    {
        self.items.len() == 0
    }

    /// Adds the entries named `names` of the directory at `rel`, bound for `dst`.
    pub fn push_children(&mut self, rel: &String, dst: &String, names: &Vec<String>)
        ensures
            final(self)@ == old(self)@ + children(rel@, dst@, names@),
    {
        let len = names.len();
        let mut i: usize = 0;
        while i < len
            invariant
                len == names@.len(),
                i <= len,
                self@ == old(self)@ + children(rel@, dst@, names@.subrange(0, i as int)),
            decreases len - i,
        {
            let r = join(rel, &names[i]);
            let d = join(dst, &names[i]);
            let ghost before = self@;
            let ghost pv = (r@, d@);
            self.items.push((r, d));
            assert(self@ =~= before.push(pv));
            assert(children(rel@, dst@, names@.subrange(0, i + 1)) =~= children(
                rel@,
                dst@,
                names@.subrange(0, i as int),
            ).push(pv));
            assert(self@ =~= old(self)@ + children(rel@, dst@, names@.subrange(0, i + 1)));
            i = i + 1;
        }
        assert(names@.subrange(0, len as int) =~= names@);
    }
}

} // verus!
