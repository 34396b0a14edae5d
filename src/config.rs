use vstd::prelude::*;

use crate::strmap::StringMap;
use crate::text::{chars_of, string_of};

verus! {

/// Another name for a template, with variables of its own.
pub struct Alias {
    pub template: String,
    pub vars: StringMap,
}

/// The global configuration: variables for every load, and the aliases.
pub struct Config {
    pub vars: StringMap,
    /// Aliases by name; a later one overrides.
    pub aliases: Vec<(String, Alias)>,
}

/// The alias named `name`.
pub open spec fn alias_of(a: Seq<(String, Alias)>, name: Seq<char>) -> Option<Alias>
    decreases a.len(),
{
    if a.len() == 0 {
        None
    } else if a.last().0@ == name {
        Some(a.last().1)
    } else {
        alias_of(a.drop_last(), name)
    }
}

pub proof fn lemma_alias_of_remove(a: Seq<(String, Alias)>, i: int, n: Seq<char>)
    requires
        0 <= i < a.len(),
        a[i].0@ != n,
    ensures
        alias_of(a.remove(i), n) == alias_of(a, n),
    decreases a.len(),
{
    if i == a.len() - 1 {
        assert(a.remove(i) =~= a.drop_last());
    } else {
        assert(a.remove(i).drop_last() =~= a.drop_last().remove(i));
        assert(a.remove(i).last() == a.last());
        lemma_alias_of_remove(a.drop_last(), i, n);
    }
}

pub proof fn lemma_alias_of_absent(a: Seq<(String, Alias)>, n: Seq<char>)
    requires
        forall|j: int| 0 <= j < a.len() ==> a[j].0@ != n,
    ensures
        alias_of(a, n) is None,
    decreases a.len(),
{
    if a.len() > 0 {
        lemma_alias_of_absent(a.drop_last(), n);
    }
}

/// The configured variables after the settings of `es`, in order: a name
/// starting with `-` removes the rest of the name; one starting with `+` sets
/// the rest of the name; any other name is set as it is.
pub open spec fn configured(m: Map<Seq<char>, Seq<char>>, es: Seq<(String, String)>) -> Map<
    Seq<char>,
    Seq<char>,
>
    decreases es.len(),
{
    if es.len() == 0 {
        m
    } else {
        let m1 = configured(m, es.drop_last());
        let k = es.last().0@;
        let v = es.last().1@;
        if k.len() > 0 && k[0] == '-' {
            m1.remove(k.drop_first())
        } else if k.len() > 0 && k[0] == '+' {
            m1.insert(k.drop_first(), v)
        } else {
            m1.insert(k, v)
        }
    }
}

fn drop_first_char(s: &Vec<char>) -> (r: String)
    requires
        s@.len() > 0,
    ensures
        r@ == s@.drop_first(),
{
    let mut rest: Vec<char> = Vec::new();
    let mut i: usize = 1;
    while i < s.len()
        invariant
            1 <= i <= s@.len(),
            rest@ == s@.subrange(1, i as int),
        decreases s@.len() - i,
    {
        rest.push(s[i]);
        i = i + 1;
    }
    string_of(&rest)
}

/// Applies the variable settings of a `--config` command line to `conf`.
pub fn configure(conf: &mut Config, vars: &StringMap)
    ensures
        final(conf).vars@ == configured(old(conf).vars@, vars.entries@),
        final(conf).aliases == old(conf).aliases,
{
    let es = &vars.entries;
    let len = es.len();
    let mut i: usize = 0;
    assert(es@.subrange(0, 0) =~= Seq::<(String, String)>::empty());
    while i < len
        invariant
            len == es@.len(),
            i <= len,
            conf.vars@ == configured(old(conf).vars@, es@.subrange(0, i as int)),
            conf.aliases == old(conf).aliases,
        decreases len - i,
    {
        assert(es@.subrange(0, i + 1).drop_last() =~= es@.subrange(0, i as int));
        let k = chars_of(es[i].0.as_str());
        if k.len() > 0 && k[0] == '-' {
            let name = drop_first_char(&k);
            conf.vars.remove(&name);
        } else if k.len() > 0 && k[0] == '+' {
            let name = drop_first_char(&k);
            conf.vars.insert(name, es[i].1.clone());
        } else {
            conf.vars.insert(es[i].0.clone(), es[i].1.clone());
        }
        i = i + 1;
    }
    assert(es@.subrange(0, len as int) =~= es@);
}

/// Records the alias `name` of `template`, with `vars` as its variables.
pub fn alias(conf: &mut Config, name: String, template: String, vars: StringMap)
    ensures
        alias_of(final(conf).aliases@, name@) matches Some(a) && a.template == template && a.vars
            == vars,
        forall|n: Seq<char>| n != name@ ==> alias_of(final(conf).aliases@, n) == alias_of(
            old(conf).aliases@,
            n,
        ),
        final(conf).vars == old(conf).vars,
{
    conf.set_alias(name, Alias { template, vars });
}

impl Config {
    pub fn new() -> (r: Config)
        ensures
            r.vars@ == Map::<Seq<char>, Seq<char>>::empty(),
            r.aliases@.len() == 0,
    {
        Config { vars: StringMap::new(), aliases: Vec::new() }
    }

    /// The alias named `name`.
    pub fn find_alias(&self, name: &String) -> (r: Option<&Alias>)
        ensures
            match alias_of(self.aliases@, name@) {
                None => r is None,
                Some(a) => r matches Some(x) && *x == a,
            },
    {
        let mut i = self.aliases.len();
        assert(self.aliases@.subrange(0, i as int) =~= self.aliases@);
        while i > 0
            invariant
                i <= self.aliases@.len(),
                alias_of(self.aliases@, name@) == alias_of(self.aliases@.subrange(0, i as int), name@),
            decreases i,
        {
            assert(self.aliases@.subrange(0, i as int).drop_last() =~= self.aliases@.subrange(0, i - 1));
            if self.aliases[i - 1].0 == *name {
                return Some(&self.aliases[i - 1].1);
            }
            i = i - 1;
        }
        None
    }

    /// Makes `name` an alias as `alias` says, in place of any earlier one.
    pub fn set_alias(&mut self, name: String, alias: Alias)
        ensures
            alias_of(final(self).aliases@, name@) == Some(alias),
            forall|n: Seq<char>| n != name@ ==> alias_of(final(self).aliases@, n) == alias_of(
                old(self).aliases@,
                n,
            ),
            final(self).vars == old(self).vars,
    {
        self.aliases.push((name, alias));
        assert(self.aliases@.drop_last() =~= old(self).aliases@);
    }

    /// Removes the alias `name`; tells whether there was one.
    pub fn remove_alias(&mut self, name: &String) -> (r: bool)
        ensures
            r == alias_of(old(self).aliases@, name@) is Some,
            alias_of(final(self).aliases@, name@) is None,
            forall|n: Seq<char>| n != name@ ==> alias_of(final(self).aliases@, n) == alias_of(
                old(self).aliases@,
                n,
            ),
            final(self).vars == old(self).vars,
    {
        let found = self.find_alias(name).is_some();
        let mut i: usize = 0;
        while i < self.aliases.len()
            invariant
                i <= self.aliases@.len(),
                forall|j: int| 0 <= j < i ==> self.aliases@[j].0@ != name@,
                forall|n: Seq<char>| n != name@ ==> alias_of(self.aliases@, n) == alias_of(
                    old(self).aliases@,
                    n,
                ),
                self.vars == old(self).vars,
            decreases self.aliases@.len() - i,
        {
            if self.aliases[i].0 == *name {
                proof {
                    assert forall|n: Seq<char>| n != name@ implies alias_of(
                        self.aliases@.remove(i as int),
                        n,
                    ) == alias_of(self.aliases@, n) by {
                        lemma_alias_of_remove(self.aliases@, i as int, n);
                    }
                }
                self.aliases.remove(i);
            } else {
                i = i + 1;
            }
        }
        proof {
            lemma_alias_of_absent(self.aliases@, name@);
        }
        found
    }
}

} // verus!
