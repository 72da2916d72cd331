//! `--param NAME=value` substitution into a YAML document tree.
//!
//! Substitution happens in a first pass over the untyped YAML tree: every
//! `!param` node is rewritten into its resolved value, after which the tree can
//! be read into a typed specification. A placeholder takes either form:
//!
//! ```yaml
//! period: !param { key: FAST }                # required — must be passed
//! period: !param { key: SLOW, default: 8 }    # optional — falls back to 8
//! symbol: !param SYM                           # bare-string shorthand for { key: SYM }
//! ```
use vstd::prelude::*;

use super::yaml::{
    entries_view, items_view, lemma_entries_view, lemma_items_view, parse_yaml, yaml_text,
    yaml_view, Yaml, YamlView,
};

verus! {

// ---------------------------------------------------------------------------
// Errors
// ---------------------------------------------------------------------------

/// Why parsing or substituting parameters failed.
#[derive(Debug)]
pub enum ParamError {
    /// An argument without `=`; holds the argument.
    MissingEquals(String),
    /// The value side of the named parameter is not valid YAML.
    InvalidValue(String, serde_norway::Error),
    /// A `!param` mapping without a string `key`.
    KeyNotString,
    /// A `!param` body that is neither a key name nor a mapping.
    MalformedParam,
    /// A parameter that is neither passed nor given a default; holds its name.
    Unset(String),
}

/// The model of a [`ParamError`].
pub enum ParamFault {
    MissingEquals(Seq<char>),
    InvalidValue(Seq<char>),
    KeyNotString,
    MalformedParam,
    Unset(Seq<char>),
}

impl View for ParamError {
    type V = ParamFault;

    open spec fn view(&self) -> ParamFault {
        match self {
            ParamError::MissingEquals(arg) => ParamFault::MissingEquals(arg@),
            ParamError::InvalidValue(name, _) => ParamFault::InvalidValue(name@),
            ParamError::KeyNotString => ParamFault::KeyNotString,
            ParamError::MalformedParam => ParamFault::MalformedParam,
            ParamError::Unset(key) => ParamFault::Unset(key@),
        }
    }
}

/// The human-readable message of a fault.
pub open spec fn fault_message(fault: ParamFault) -> Seq<char> {
    match fault {
        ParamFault::MissingEquals(arg) => "invalid --param `"@ + arg + "`: expected NAME=value"@,
        ParamFault::InvalidValue(name) => "parsing value of --param `"@ + name + "`"@,
        ParamFault::KeyNotString => "`!param` mapping needs a string `key`"@,
        ParamFault::MalformedParam => "`!param` expects a key name or a `{ key: NAME }` mapping"@,
        ParamFault::Unset(key) => "parameter `"@ + key + "` is not set (pass `--param "@ + key
            + "=…` or add a `default`)"@,
    }
}

impl ParamError {
    /// The human-readable message of the error.
    pub fn message(&self) -> (r: String)
        ensures
            r@ == fault_message(self@),
    {
        match self {
            ParamError::MissingEquals(arg) => String::from_str("invalid --param `").concat(
                arg.as_str(),
            ).concat("`: expected NAME=value"),
            ParamError::InvalidValue(name, _) => String::from_str(
                "parsing value of --param `",
            ).concat(name.as_str()).concat("`"),
            ParamError::KeyNotString => String::from_str("`!param` mapping needs a string `key`"),
            ParamError::MalformedParam => String::from_str(
                "`!param` expects a key name or a `{ key: NAME }` mapping",
            ),
            ParamError::Unset(key) => String::from_str("parameter `").concat(key.as_str()).concat(
                "` is not set (pass `--param ",
            ).concat(key.as_str()).concat("=…` or add a `default`)"),
        }
    }
}


// ---------------------------------------------------------------------------
// The parameter table
// ---------------------------------------------------------------------------

/// The name → value table that a sequence of entries describes; a later entry
/// for a name overrides an earlier one.
pub open spec fn table_of(entries: Seq<(String, Yaml)>) -> Map<Seq<char>, YamlView>
    decreases entries.len(),
{
    if entries.len() == 0 {
        Map::empty()
    } else {
        table_of(entries.drop_last()).insert(entries.last().0@, entries.last().1@)
    }
}

/// No name occurs twice among the entries.
pub open spec fn distinct_names(entries: Seq<(String, Yaml)>) -> bool {
    forall|i: int, j: int|
        0 <= i < j < entries.len() ==> #[trigger] entries[i].0@ != #[trigger] entries[j].0@
}

proof fn lemma_table_of(entries: Seq<(String, Yaml)>)
    requires
        distinct_names(entries),
    ensures
        forall|i: int|
            0 <= i < entries.len() ==> #[trigger] table_of(entries).contains_key(entries[i].0@)
                && table_of(entries)[entries[i].0@] == entries[i].1@,
        forall|k: Seq<char>|
            #[trigger] table_of(entries).contains_key(k) ==> exists|i: int|
                0 <= i < entries.len() && entries[i].0@ == k,
    decreases entries.len(),
{
    if entries.len() > 0 {
        let init = entries.drop_last();
        assert(distinct_names(init));
        lemma_table_of(init);
        let last = entries.last();
        assert forall|i: int| 0 <= i < entries.len() implies #[trigger] table_of(
            entries,
        ).contains_key(entries[i].0@) && table_of(entries)[entries[i].0@] == entries[i].1@ by {
            assert(table_of(entries) == table_of(init).insert(last.0@, last.1@));
            if i < entries.len() - 1 {
                assert(init[i] == entries[i]);
                assert(table_of(init).contains_key(init[i].0@));
                assert(entries[i].0@ != entries[entries.len() - 1].0@);
            }
        }
        assert forall|k: Seq<char>| #[trigger] table_of(entries).contains_key(k) implies exists|
            i: int,
        | 0 <= i < entries.len() && entries[i].0@ == k by {
            if k != entries.last().0@ {
                assert(table_of(init).contains_key(k));
                let i = choose|i: int| 0 <= i < init.len() && init[i].0@ == k;
                assert(init[i] == entries[i]);
            } else {
                assert(entries[entries.len() - 1].0@ == k);
            }
        }
    }
}

/// A table of named parameter values, as `--param NAME=value` arguments give
/// them. Inserting a name that is already present replaces its value.
#[derive(Debug)]
pub struct Params {
    entries: Vec<(String, Yaml)>,
}

impl Params {
    #[verifier::type_invariant]
    spec fn names_are_distinct(self) -> bool {
        distinct_names(self.entries@)
    }
}

impl View for Params {
    type V = Map<Seq<char>, YamlView>;

    closed spec fn view(&self) -> Map<Seq<char>, YamlView> {
        table_of(self.entries@)
    }
}

impl Params {
    /// An empty table.
    pub fn new() -> (r: Params)
        ensures
            r@ == Map::<Seq<char>, YamlView>::empty(),
    {
        Params { entries: Vec::new() }
    }

    /// The number of names in the table.
    pub fn len(&self) -> (r: usize)
        ensures
            r == self@.len(),
    {
        proof {
            use_type_invariant(self);
            lemma_table_len(self.entries@);
        }
        self.entries.len()
    }

    /// The value of `name`, if the table holds it.
    pub fn get(&self, name: &str) -> (r: Option<&Yaml>)
        ensures
            match r {
                Some(v) => self@.contains_key(name@) && v@ == self@[name@],
                None => !self@.contains_key(name@),
            },
    {
        let key = name.to_owned();
        let mut i: usize = 0;
        while i < self.entries.len()
            invariant
                i <= self.entries@.len(),
                key@ == name@,
                forall|k: int| 0 <= k < i ==> #[trigger] self.entries@[k].0@ != name@,
            decreases self.entries.len() - i,
        {
            if self.entries[i].0 == key {
                proof {
                    use_type_invariant(self);
                    lemma_table_of(self.entries@);
                }
                return Some(&self.entries[i].1);
            }
            i += 1;
        }
        proof {
            use_type_invariant(self);
            lemma_table_of(self.entries@);
            if self@.contains_key(name@) {
                let k = choose|k: int| 0 <= k < self.entries@.len() && self.entries@[k].0@ == name@;
                assert(self.entries@[k].0@ != name@);
            }
        }
        None
    }

    /// Sets `name` to `value`, replacing any value it had.
    pub fn insert(&mut self, name: String, value: Yaml)
        ensures
            final(self)@ == old(self)@.insert(name@, value@),
    {
        proof {
            use_type_invariant(&*self);
        }
        let ghost before = self.entries@;
        let mut i: usize = 0;
        while i < self.entries.len()
            invariant
                self.entries@ == before,
                old(self).entries@ == before,
                distinct_names(before),
                i <= before.len(),
                forall|k: int| 0 <= k < i ==> #[trigger] before[k].0@ != name@,
            decreases self.entries.len() - i,
        {
            if self.entries[i].0 == name {
                let ghost idx = i as int;
                let mut entries: Vec<(String, Yaml)> = Vec::new();
                std::mem::swap(&mut entries, &mut self.entries);
                entries.set(i, (name, value));
                proof {
                    assert(entries@[idx] == (name, value));
                    lemma_replace_entry(before, idx, entries@);
                    assert(table_of(entries@) == table_of(before).insert(name@, value@));
                }
                self.entries = entries;
                return;
            }
            i += 1;
        }
        let mut entries: Vec<(String, Yaml)> = Vec::new();
                std::mem::swap(&mut entries, &mut self.entries);
        entries.push((name, value));
        proof {
            assert(entries@.drop_last() =~= before);
            assert forall|a: int, b: int|
                0 <= a < b < entries@.len() implies #[trigger] entries@[a].0@
                != #[trigger] entries@[b].0@ by {
                if b == before.len() {
                    assert(before[a].0@ != name@);
                }
            }
        }
        self.entries = entries;
    }
}

proof fn lemma_table_len(entries: Seq<(String, Yaml)>)
    requires
        distinct_names(entries),
    ensures
        table_of(entries).dom().finite(),
        table_of(entries).len() == entries.len(),
    decreases entries.len(),
{
    if entries.len() > 0 {
        let init = entries.drop_last();
        assert(distinct_names(init));
        lemma_table_len(init);
        lemma_table_of(init);
        if table_of(init).contains_key(entries.last().0@) {
            let i = choose|i: int| 0 <= i < init.len() && init[i].0@ == entries.last().0@;
            assert(entries[i].0@ == entries[entries.len() - 1].0@);
        }
    }
}

proof fn lemma_replace_entry(before: Seq<(String, Yaml)>, idx: int, after: Seq<(String, Yaml)>)
    requires
        distinct_names(before),
        0 <= idx < before.len(),
        after.len() == before.len(),
        forall|k: int| 0 <= k < before.len() && k != idx ==> #[trigger] after[k] == before[k],
        after[idx].0@ == before[idx].0@,
    ensures
        distinct_names(after),
        table_of(after) == table_of(before).insert(after[idx].0@, after[idx].1@),
{
    assert forall|a: int, b: int| 0 <= a < b < after.len() implies #[trigger] after[a].0@
        != #[trigger] after[b].0@ by {
        assert(before[a].0@ != before[b].0@);
    }
    lemma_table_of(before);
    lemma_table_of(after);
    let t1 = table_of(after);
    let t2 = table_of(before).insert(after[idx].0@, after[idx].1@);
    assert forall|k: Seq<char>| t1.contains_key(k) <==> t2.contains_key(k) by {
        if t1.contains_key(k) {
            let i = choose|i: int| 0 <= i < after.len() && after[i].0@ == k;
            assert(before[i].0@ == k);
        }
        if t2.contains_key(k) && k != after[idx].0@ {
            let i = choose|i: int| 0 <= i < before.len() && before[i].0@ == k;
            assert(after[i].0@ == k);
        }
    }
    assert forall|k: Seq<char>| #[trigger] t1.contains_key(k) implies t1[k] == t2[k] by {
        let i = choose|i: int| 0 <= i < after.len() && after[i].0@ == k;
        if i != idx {
            assert(before[i].0@ == k);
        }
    }
    assert(t1 =~= t2);
}


// ---------------------------------------------------------------------------
// Substitution
// ---------------------------------------------------------------------------

/// What a fallible node computation produces, as a model.
pub open spec fn outcome(r: Result<Yaml, ParamError>) -> Result<YamlView, ParamFault> {
    match r {
        Ok(v) => Ok(v@),
        Err(e) => Err(e@),
    }
}

/// Whether a tag names a parameter placeholder: `param`, with or without its
/// leading `!`.
pub open spec fn is_param_tag(tag: Seq<char>) -> bool {
    tag == "!param"@ || tag == "param"@
}

/// The value paired with the first key that is the string `key`.
pub open spec fn lookup(entries: Seq<(YamlView, YamlView)>, key: Seq<char>) -> Option<YamlView>
    decreases entries.len(),
{
    if entries.len() == 0 {
        None
    } else if entries[0].0 == YamlView::Text(key) {
        Some(entries[0].1)
    } else {
        lookup(entries.drop_first(), key)
    }
}

/// The string a node holds once any tags around it are looked through.
pub open spec fn untagged_text(v: YamlView) -> Option<Seq<char>>
    decreases v,
{
    match v {
        YamlView::Tagged(_, body) => untagged_text(*body),
        YamlView::Text(s) => Some(s),
        _ => None,
    }
}

/// The value of parameter `key`: as passed, else the default, else unset.
pub open spec fn picked(
    key: Seq<char>,
    default: Option<YamlView>,
    params: Map<Seq<char>, YamlView>,
) -> Result<YamlView, ParamFault> {
    if params.contains_key(key) {
        Ok(params[key])
    } else {
        match default {
            Some(d) => Ok(d),
            None => Err(ParamFault::Unset(key)),
        }
    }
}

/// What a `!param` body resolves to: a bare string names the key; a mapping
/// names it under `key` (a string, possibly tagged) and may give a `default`.
pub open spec fn resolved(body: YamlView, params: Map<Seq<char>, YamlView>) -> Result<
    YamlView,
    ParamFault,
> {
    match body {
        YamlView::Text(name) => picked(name, None, params),
        YamlView::Pairs(entries) => match lookup(entries, "key"@) {
            Some(k) => match untagged_text(k) {
                Some(name) => picked(name, lookup(entries, "default"@), params),
                None => Err(ParamFault::KeyNotString),
            },
            None => Err(ParamFault::KeyNotString),
        },
        _ => Err(ParamFault::MalformedParam),
    }
}

/// The tree with every `!param` node replaced by its resolved value, or the
/// first failure met in document order. Other tags are kept and looked into;
/// mapping keys are kept as they are.
pub open spec fn substituted(v: YamlView, params: Map<Seq<char>, YamlView>) -> Result<
    YamlView,
    ParamFault,
>
    decreases v,
{
    match v {
        YamlView::Tagged(tag, body) => if is_param_tag(tag) {
            resolved(*body, params)
        } else {
            match substituted(*body, params) {
                Ok(b) => Ok(YamlView::Tagged(tag, Box::new(b))),
                Err(e) => Err(e),
            }
        },
        YamlView::List(items) => match substituted_items(items, params) {
            Ok(s) => Ok(YamlView::List(s)),
            Err(e) => Err(e),
        },
        YamlView::Pairs(entries) => match substituted_entries(entries, params) {
            Ok(s) => Ok(YamlView::Pairs(s)),
            Err(e) => Err(e),
        },
        _ => Ok(v),
    }
}

/// Substitution over a sequence, element by element, stopping at the first
/// failure.
pub open spec fn substituted_items(items: Seq<YamlView>, params: Map<Seq<char>, YamlView>) -> Result<
    Seq<YamlView>,
    ParamFault,
>
    decreases items,
{
    if items.len() == 0 {
        Ok(Seq::empty())
    } else {
        match substituted_items(items.drop_last(), params) {
            Err(e) => Err(e),
            Ok(done) => match substituted(items.last(), params) {
                Ok(x) => Ok(done.push(x)),
                Err(e) => Err(e),
            },
        }
    }
}

/// Substitution over a mapping's values, pair by pair, stopping at the first
/// failure; keys are kept.
pub open spec fn substituted_entries(
    entries: Seq<(YamlView, YamlView)>,
    params: Map<Seq<char>, YamlView>,
) -> Result<Seq<(YamlView, YamlView)>, ParamFault>
    decreases entries,
{
    if entries.len() == 0 {
        Ok(Seq::empty())
    } else {
        match substituted_entries(entries.drop_last(), params) {
            Err(e) => Err(e),
            Ok(done) => match substituted(entries.last().1, params) {
                Ok(x) => Ok(done.push((entries.last().0, x))),
                Err(e) => Err(e),
            },
        }
    }
}


proof fn lemma_items_first_failure(items: Seq<YamlView>, k: int, params: Map<Seq<char>, YamlView>)
    requires
        0 <= k <= items.len(),
        substituted_items(items.take(k), params) is Err,
    ensures
        substituted_items(items, params) == substituted_items(items.take(k), params),
    decreases items.len(),
{
    if k == items.len() {
        assert(items.take(k) =~= items);
    } else {
        assert(items.drop_last().take(k) =~= items.take(k));
        lemma_items_first_failure(items.drop_last(), k, params);
    }
}

proof fn lemma_entries_first_failure(
    entries: Seq<(YamlView, YamlView)>,
    k: int,
    params: Map<Seq<char>, YamlView>,
)
    requires
        0 <= k <= entries.len(),
        substituted_entries(entries.take(k), params) is Err,
    ensures
        substituted_entries(entries, params) == substituted_entries(entries.take(k), params),
    decreases entries.len(),
{
    if k == entries.len() {
        assert(entries.take(k) =~= entries);
    } else {
        assert(entries.drop_last().take(k) =~= entries.take(k));
        lemma_entries_first_failure(entries.drop_last(), k, params);
    }
}

/// The value paired with the first key that is the string `key`.
fn lookup_entry<'a>(entries: &'a Vec<(Yaml, Yaml)>, key: &String) -> (r: Option<&'a Yaml>)
    ensures
        match r {
            Some(v) => lookup(entries_view(entries@), key@) == Some(v@),
            None => lookup(entries_view(entries@), key@) is None,
        },
{
    let ghost ev = entries_view(entries@);
    proof {
        lemma_entries_view(entries@);
        assert(ev.subrange(0, ev.len() as int) =~= ev);
    }
    let mut i: usize = 0;
    while i < entries.len()
        invariant
            ev == entries_view(entries@),
            ev.len() == entries@.len(),
            forall|k: int|
                0 <= k < entries@.len() ==> #[trigger] ev[k] == (
                    yaml_view(entries@[k].0),
                    yaml_view(entries@[k].1),
                ),
            i <= entries@.len(),
            lookup(ev, key@) == lookup(ev.subrange(i as int, ev.len() as int), key@),
        decreases entries.len() - i,
    {
        let ghost rest = ev.subrange(i as int, ev.len() as int);
        assert(rest[0] == ev[i as int]);
        let hit = match &entries[i].0 {
            Yaml::String(s) => *s == *key,
            _ => false,
        };
        if hit {
            return Some(&entries[i].1);
        }
        assert(rest.drop_first() =~= ev.subrange(i + 1, ev.len() as int));
        i += 1;
    }
    None
}

/// The string a node holds once any tags around it are looked through.
fn untagged(v: &Yaml) -> (r: Option<&String>)
    ensures
        match r {
            Some(s) => untagged_text(v@) == Some(s@),
            None => untagged_text(v@) is None,
        },
    decreases v,
{
    match v {
        Yaml::Tagged(_, body) => untagged(body),
        Yaml::String(s) => Some(s),
        _ => None,
    }
}

/// The value of parameter `key`: as passed, else the default, else unset.
fn pick(key: &String, default: Option<&Yaml>, params: &Params) -> (r: Result<Yaml, ParamError>)
    ensures
        outcome(r) == picked(
            key@,
            match default {
                Some(d) => Some(d@),
                None => None,
            },
            params@,
        ),
{
    match params.get(key.as_str()) {
        Some(v) => Ok(v.copy()),
        None => match default {
            Some(d) => Ok(d.copy()),
            None => Err(ParamError::Unset(key.clone())),
        },
    }
}

/// Resolves a single `!param` body against the parameters.
fn resolve(body: &Yaml, params: &Params) -> (r: Result<Yaml, ParamError>)
    ensures
        outcome(r) == resolved(body@, params@),
{
    match body {
        Yaml::String(name) => pick(name, None, params),
        Yaml::Mapping(entries) => {
            let key_field = String::from_str("key");
            match lookup_entry(entries, &key_field) {
                Some(k) => match untagged(k) {
                    Some(name) => {
                        let default_field = String::from_str("default");
                        let default = lookup_entry(entries, &default_field);
                        pick(name, default, params)
                    },
                    None => Err(ParamError::KeyNotString),
                },
                None => Err(ParamError::KeyNotString),
            }
        },
        _ => Err(ParamError::MalformedParam),
    }
}

/// Whether `tag` names a parameter placeholder.
fn param_tag(tag: &String) -> (r: bool)
    ensures
        r == is_param_tag(tag@),
{
    *tag == String::from_str("!param") || *tag == String::from_str("param")
}

/// The substitution of [`substitute`], on a borrowed tree.
fn substitute_node(value: &Yaml, params: &Params) -> (r: Result<Yaml, ParamError>)
    ensures
        outcome(r) == substituted(value@, params@),
    decreases value,
{
    match value {
        Yaml::Tagged(tag, body) => {
            if param_tag(tag) {
                resolve(body, params)
            } else {
                match substitute_node(body, params) {
                    Ok(b) => Ok(Yaml::Tagged(tag.clone(), Box::new(b))),
                    Err(e) => Err(e),
                }
            }
        },
        Yaml::Sequence(items) => {
            let ghost iv = items_view(items@);
            proof {
                lemma_items_view(items@);
            }
            let mut out: Vec<Yaml> = Vec::new();
            let mut i: usize = 0;
            while i < items.len()
                invariant
                    *value == Yaml::Sequence(*items),
                    iv == items_view(items@),
                    iv.len() == items@.len(),
                    forall|k: int| 0 <= k < items@.len() ==> #[trigger] iv[k] == yaml_view(items@[k]),
                    i <= items@.len(),
                    substituted_items(iv.take(i as int), params@) == Ok::<Seq<YamlView>, ParamFault>(
                        items_view(out@),
                    ),
                decreases items.len() - i,
            {
                assert(decreases_to!(*value => (*value)->Sequence_0));
                assert(decreases_to!(*items => items@[i as int]));
                assert(iv.take(i + 1).drop_last() =~= iv.take(i as int));
                match substitute_node(&items[i], params) {
                    Ok(x) => {
                        proof {
                            assert(out@.push(x).drop_last() =~= out@);
                        }
                        out.push(x);
                    },
                    Err(e) => {
                        proof {
                            lemma_items_first_failure(iv, i + 1, params@);
                        }
                        return Err(e);
                    },
                }
                i += 1;
            }
            proof {
                assert(iv.take(i as int) =~= iv);
            }
            Ok(Yaml::Sequence(out))
        },
        Yaml::Mapping(entries) => {
            let ghost ev = entries_view(entries@);
            proof {
                lemma_entries_view(entries@);
            }
            let mut out: Vec<(Yaml, Yaml)> = Vec::new();
            let mut i: usize = 0;
            while i < entries.len()
                invariant
                    *value == Yaml::Mapping(*entries),
                    ev == entries_view(entries@),
                    ev.len() == entries@.len(),
                    forall|k: int|
                        0 <= k < entries@.len() ==> #[trigger] ev[k] == (
                            yaml_view(entries@[k].0),
                            yaml_view(entries@[k].1),
                        ),
                    i <= entries@.len(),
                    substituted_entries(ev.take(i as int), params@) == Ok::<
                        Seq<(YamlView, YamlView)>,
                        ParamFault,
                    >(entries_view(out@)),
                decreases entries.len() - i,
            {
                assert(decreases_to!(*value => (*value)->Mapping_0));
                assert(decreases_to!(*entries => entries@[i as int]));
                assert(decreases_to!(entries@[i as int] => entries@[i as int].1));
                assert(ev.take(i + 1).drop_last() =~= ev.take(i as int));
                match substitute_node(&entries[i].1, params) {
                    Ok(x) => {
                        let k = entries[i].0.copy();
                        proof {
                            assert(out@.push((k, x)).drop_last() =~= out@);
                        }
                        out.push((k, x));
                    },
                    Err(e) => {
                        proof {
                            lemma_entries_first_failure(ev, i + 1, params@);
                        }
                        return Err(e);
                    },
                }
                i += 1;
            }
            proof {
                assert(ev.take(i as int) =~= ev);
            }
            Ok(Yaml::Mapping(out))
        },
        Yaml::Null => Ok(Yaml::Null),
        Yaml::Bool(b) => Ok(Yaml::Bool(*b)),
        Yaml::Number(n) => Ok(Yaml::Number(n.clone())),
        Yaml::String(s) => Ok(Yaml::String(s.clone())),
    }
}

/// Rewrites every `!param` node in `value` to its resolved value, recursing
/// through mappings, sequences and other tagged nodes.
///
/// A `!param` body is a bare key name or a mapping with a string `key` and an
/// optional `default`; the passed value wins over the default. Fails with the
/// first malformed or unset placeholder met in document order.
pub fn substitute(value: Yaml, params: &Params) -> (r: Result<Yaml, ParamError>)
    ensures
        outcome(r) == substituted(value@, params@),
{
    substitute_node(&value, params)
}


/// No value in the tree is a `!param` placeholder (mapping keys are not
/// looked at, as substitution does not look at them either).
pub open spec fn placeholder_free(v: YamlView) -> bool
    decreases v,
{
    match v {
        YamlView::Tagged(tag, body) => !is_param_tag(tag) && placeholder_free(*body),
        YamlView::List(items) => items_placeholder_free(items),
        YamlView::Pairs(entries) => entries_placeholder_free(entries),
        _ => true,
    }
}

/// No element of the sequence holds a placeholder.
pub open spec fn items_placeholder_free(items: Seq<YamlView>) -> bool
    decreases items,
{
    items.len() == 0 || (items_placeholder_free(items.drop_last()) && placeholder_free(
        items.last(),
    ))
}

/// No value of the mapping holds a placeholder.
pub open spec fn entries_placeholder_free(entries: Seq<(YamlView, YamlView)>) -> bool
    decreases entries,
{
    entries.len() == 0 || (entries_placeholder_free(entries.drop_last()) && placeholder_free(
        entries.last().1,
    ))
}

/// Substitution leaves a tree without placeholders exactly as it is, whatever
/// the parameters.
pub proof fn lemma_substitute_placeholder_free(v: YamlView, params: Map<Seq<char>, YamlView>)
    requires
        placeholder_free(v),
    ensures
        substituted(v, params) == Ok::<YamlView, ParamFault>(v),
    decreases v,
{
    match v {
        YamlView::Tagged(tag, body) => {
            lemma_substitute_placeholder_free(*body, params);
        },
        YamlView::List(items) => {
            lemma_substitute_items_placeholder_free(items, params);
        },
        YamlView::Pairs(entries) => {
            lemma_substitute_entries_placeholder_free(entries, params);
        },
        _ => {},
    }
}

proof fn lemma_substitute_items_placeholder_free(
    items: Seq<YamlView>,
    params: Map<Seq<char>, YamlView>,
)
    requires
        items_placeholder_free(items),
    ensures
        substituted_items(items, params) == Ok::<Seq<YamlView>, ParamFault>(items),
    decreases items,
{
    if items.len() > 0 {
        let init = items.drop_last();
        lemma_substitute_items_placeholder_free(init, params);
        lemma_substitute_placeholder_free(items.last(), params);
        assert(init.push(items.last()) =~= items);
    } else {
        assert(items =~= Seq::<YamlView>::empty());
    }
}

proof fn lemma_substitute_entries_placeholder_free(
    entries: Seq<(YamlView, YamlView)>,
    params: Map<Seq<char>, YamlView>,
)
    requires
        entries_placeholder_free(entries),
    ensures
        substituted_entries(entries, params) == Ok::<Seq<(YamlView, YamlView)>, ParamFault>(
            entries,
        ),
    decreases entries,
{
    if entries.len() > 0 {
        let init = entries.drop_last();
        lemma_substitute_entries_placeholder_free(init, params);
        lemma_substitute_placeholder_free(entries.last().1, params);
        assert(init.push((entries.last().0, entries.last().1)) =~= entries);
    } else {
        assert(entries =~= Seq::<(YamlView, YamlView)>::empty());
    }
}

/// Every `!param` default in the tree is itself free of placeholders.
pub open spec fn defaults_clean(v: YamlView) -> bool
    decreases v,
{
    match v {
        YamlView::Tagged(tag, body) => if is_param_tag(tag) {
            match *body {
                YamlView::Pairs(entries) => match lookup(entries, "default"@) {
                    Some(d) => placeholder_free(d),
                    None => true,
                },
                _ => true,
            }
        } else {
            defaults_clean(*body)
        },
        YamlView::List(items) => items_defaults_clean(items),
        YamlView::Pairs(entries) => entries_defaults_clean(entries),
        _ => true,
    }
}

/// Every element of the sequence has clean defaults.
pub open spec fn items_defaults_clean(items: Seq<YamlView>) -> bool
    decreases items,
{
    items.len() == 0 || (items_defaults_clean(items.drop_last()) && defaults_clean(items.last()))
}

/// Every value of the mapping has clean defaults.
pub open spec fn entries_defaults_clean(entries: Seq<(YamlView, YamlView)>) -> bool
    decreases entries,
{
    entries.len() == 0 || (entries_defaults_clean(entries.drop_last()) && defaults_clean(
        entries.last().1,
    ))
}

/// A successful substitution resolves every placeholder, at any depth — inside
/// sequences, mappings and nodes under other tags — as long as the passed
/// values and the defaults written in the tree hold none themselves.
pub proof fn lemma_substitute_resolves_all(v: YamlView, params: Map<Seq<char>, YamlView>)
    requires
        forall|k: Seq<char>| #[trigger] params.contains_key(k) ==> placeholder_free(params[k]),
        defaults_clean(v),
    ensures
        substituted(v, params) matches Ok(out) ==> placeholder_free(out),
    decreases v,
{
    match v {
        YamlView::Tagged(tag, body) => {
            if !is_param_tag(tag) {
                lemma_substitute_resolves_all(*body, params);
            }
        },
        YamlView::List(items) => {
            lemma_items_resolve_all(items, params);
        },
        YamlView::Pairs(entries) => {
            lemma_entries_resolve_all(entries, params);
        },
        _ => {},
    }
}

proof fn lemma_items_resolve_all(items: Seq<YamlView>, params: Map<Seq<char>, YamlView>)
    requires
        forall|k: Seq<char>| #[trigger] params.contains_key(k) ==> placeholder_free(params[k]),
        items_defaults_clean(items),
    ensures
        substituted_items(items, params) matches Ok(out) ==> items_placeholder_free(out),
    decreases items,
{
    if items.len() > 0 {
        lemma_items_resolve_all(items.drop_last(), params);
        lemma_substitute_resolves_all(items.last(), params);
        if let Ok(out) = substituted_items(items, params) {
            let done = substituted_items(items.drop_last(), params)->Ok_0;
            let x = substituted(items.last(), params)->Ok_0;
            assert(out == done.push(x));
            assert(out.drop_last() =~= done);
        }
    }
}

proof fn lemma_entries_resolve_all(
    entries: Seq<(YamlView, YamlView)>,
    params: Map<Seq<char>, YamlView>,
)
    requires
        forall|k: Seq<char>| #[trigger] params.contains_key(k) ==> placeholder_free(params[k]),
        entries_defaults_clean(entries),
    ensures
        substituted_entries(entries, params) matches Ok(out) ==> entries_placeholder_free(out),
    decreases entries,
{
    if entries.len() > 0 {
        lemma_entries_resolve_all(entries.drop_last(), params);
        lemma_substitute_resolves_all(entries.last().1, params);
        if let Ok(out) = substituted_entries(entries, params) {
            let done = substituted_entries(entries.drop_last(), params)->Ok_0;
            let x = substituted(entries.last().1, params)->Ok_0;
            assert(out == done.push((entries.last().0, x)));
            assert(out.drop_last() =~= done);
        }
    }
}

/// Substitution goes through every tag other than `!param`: the tag is kept
/// and the node under it is substituted, succeeding or failing as that node
/// does.
pub proof fn lemma_substitute_under_other_tag(
    tag: Seq<char>,
    body: YamlView,
    params: Map<Seq<char>, YamlView>,
)
    requires
        !is_param_tag(tag),
    ensures
        substituted(YamlView::Tagged(tag, Box::new(body)), params) == match substituted(
            body,
            params,
        ) {
            Ok(x) => Ok::<YamlView, ParamFault>(YamlView::Tagged(tag, Box::new(x))),
            Err(e) => Err(e),
        },
{
}

/// Substitution over a sequence works element by element: on success the
/// result has one element per element, each the substitution of the element
/// in the same place; on failure some element fails the same way.
pub proof fn lemma_substitute_items_elementwise(
    items: Seq<YamlView>,
    params: Map<Seq<char>, YamlView>,
)
    ensures
        substituted(YamlView::List(items), params) matches Ok(r) ==> r is List,
        substituted_items(items, params) matches Ok(out) ==> {
            &&& out.len() == items.len()
            &&& forall|i: int|
                0 <= i < items.len() ==> substituted(#[trigger] items[i], params) == Ok::<
                    YamlView,
                    ParamFault,
                >(out[i])
        },
        substituted_items(items, params) matches Err(e) ==> exists|i: int|
            0 <= i < items.len() && substituted(#[trigger] items[i], params) == Err::<
                YamlView,
                ParamFault,
            >(e),
    decreases items.len(),
{
    if items.len() > 0 {
        let init = items.drop_last();
        lemma_substitute_items_elementwise(init, params);
        if let Ok(out) = substituted_items(items, params) {
            let done = substituted_items(init, params)->Ok_0;
            assert(out == done.push(substituted(items.last(), params)->Ok_0));
            assert forall|i: int| 0 <= i < items.len() implies substituted(
                #[trigger] items[i],
                params,
            ) == Ok::<YamlView, ParamFault>(out[i]) by {
                if i < init.len() {
                    assert(init[i] == items[i]);
                }
            }
        }
        if let Err(e) = substituted_items(items, params) {
            if substituted_items(init, params) is Err {
                let i = choose|i: int|
                    0 <= i < init.len() && substituted(#[trigger] init[i], params) == Err::<
                        YamlView,
                        ParamFault,
                    >(e);
                assert(init[i] == items[i]);
            } else {
                assert(substituted(items[items.len() - 1], params) == Err::<YamlView, ParamFault>(
                    e,
                ));
            }
        }
    }
}

/// How a placeholder resolves: a passed value wins over the default, the
/// default is taken when the key is not passed, and a key neither passed nor
/// defaulted is an error naming it — for the bare-string shorthand and for a
/// mapping with a `key` alike.
pub proof fn lemma_param_resolution(
    key: Seq<char>,
    entries: Seq<(YamlView, YamlView)>,
    params: Map<Seq<char>, YamlView>,
)
    ensures
        params.contains_key(key) ==> substituted(
            YamlView::Tagged("!param"@, Box::new(YamlView::Text(key))),
            params,
        ) == Ok::<YamlView, ParamFault>(params[key]),
        !params.contains_key(key) ==> substituted(
            YamlView::Tagged("!param"@, Box::new(YamlView::Text(key))),
            params,
        ) == Err::<YamlView, ParamFault>(ParamFault::Unset(key)),
        lookup(entries, "key"@) == Some(YamlView::Text(key)) ==> {
            let placeholder = YamlView::Tagged("!param"@, Box::new(YamlView::Pairs(entries)));
            &&& params.contains_key(key) ==> substituted(placeholder, params) == Ok::<
                YamlView,
                ParamFault,
            >(params[key])
            &&& (!params.contains_key(key) && lookup(entries, "default"@) is Some) ==> substituted(
                placeholder,
                params,
            ) == Ok::<YamlView, ParamFault>(lookup(entries, "default"@)->0)
            &&& !params.contains_key(key) && lookup(entries, "default"@) is None ==> substituted(
                placeholder,
                params,
            ) == Err::<YamlView, ParamFault>(ParamFault::Unset(key))
        },
{
}

/// Keys are not templated, only values: a successful substitution over a
/// mapping keeps every key, in order, and substitutes each value.
pub proof fn lemma_substitute_keeps_keys(
    entries: Seq<(YamlView, YamlView)>,
    params: Map<Seq<char>, YamlView>,
)
    ensures
        substituted_entries(entries, params) matches Ok(out) ==> {
            &&& out.len() == entries.len()
            &&& forall|i: int|
                0 <= i < entries.len() ==> #[trigger] out[i].0 == entries[i].0 && substituted(
                    entries[i].1,
                    params,
                ) == Ok::<YamlView, ParamFault>(out[i].1)
        },
    decreases entries.len(),
{
    if entries.len() > 0 {
        lemma_substitute_keeps_keys(entries.drop_last(), params);
    }
}

// ---------------------------------------------------------------------------
// Parsing `NAME=value` arguments
// ---------------------------------------------------------------------------

/// An argument split at its first `=`: the name before it and the value text
/// after it; `None` when the argument holds no `=`.
pub open spec fn split_param(arg: Seq<char>) -> Option<(Seq<char>, Seq<char>)>
    decreases arg.len(),
{
    if arg.len() == 0 {
        None
    } else if arg[0] == '=' {
        Some((Seq::empty(), arg.drop_first()))
    } else {
        match split_param(arg.drop_first()) {
            Some((name, raw)) => Some((seq![arg[0]] + name, raw)),
            None => None,
        }
    }
}

proof fn lemma_split_param_found(arg: Seq<char>, name: Seq<char>, raw: Seq<char>)
    requires
        arg == name + seq!['='] + raw,
        !name.contains('='),
    ensures
        split_param(arg) == Some((name, raw)),
    decreases name.len(),
{
    if name.len() == 0 {
        assert(arg[0] == '=');
        assert(arg.drop_first() =~= raw);
    } else {
        assert(name[0] != '=');
        let rest = name.drop_first();
        assert(arg.drop_first() =~= rest + seq!['='] + raw);
        assert forall|c: char| rest.contains(c) implies name.contains(c) by {
            let j = choose|j: int| 0 <= j < rest.len() && rest[j] == c;
            assert(name[j + 1] == c);
        }
        lemma_split_param_found(arg.drop_first(), rest, raw);
        assert(seq![arg[0]] + rest =~= name);
    }
}

proof fn lemma_split_param_absent(arg: Seq<char>)
    requires
        !arg.contains('='),
    ensures
        split_param(arg) is None,
    decreases arg.len(),
{
    if arg.len() > 0 {
        assert(arg[0] != '=');
        let rest = arg.drop_first();
        assert forall|c: char| rest.contains(c) implies arg.contains(c) by {
            let j = choose|j: int| 0 <= j < rest.len() && rest[j] == c;
            assert(arg[j + 1] == c);
        }
        lemma_split_param_absent(rest);
    }
}

/// Splits `arg` at its first `=` (`str::split_once`): the text before it and
/// the text after it, or `None` when there is no `=`.
#[verifier::external_body]
fn split_once_equals(arg: &str) -> (r: Option<(&str, &str)>)
    ensures
        r is None <==> !arg@.contains('='),
        r matches Some((name, raw)) ==> arg@ == name@ + seq!['='] + raw@ && !name@.contains('='),
{
    arg.split_once('=')
}

/// The table that the arguments `NAME=value` give, each value read as YAML, a
/// later argument for a name overriding an earlier one; or the failure of the
/// first argument that has no `=` or whose value is not YAML.
pub open spec fn parsed_params(args: Seq<Seq<char>>) -> Result<Map<Seq<char>, YamlView>, ParamFault>
    decreases args.len(),
{
    if args.len() == 0 {
        Ok(Map::empty())
    } else {
        match parsed_params(args.drop_last()) {
            Err(e) => Err(e),
            Ok(table) => match split_param(args.last()) {
                None => Err(ParamFault::MissingEquals(args.last())),
                Some((name, raw)) => match yaml_text(raw) {
                    None => Err(ParamFault::InvalidValue(name)),
                    Some(v) => Ok(table.insert(name, v)),
                },
            },
        }
    }
}

/// The texts of a slice of strings.
pub open spec fn texts(args: Seq<String>) -> Seq<Seq<char>> {
    args.map_values(|a: String| a@)
}

proof fn lemma_parsed_first_failure(args: Seq<Seq<char>>, k: int)
    requires
        0 <= k <= args.len(),
        parsed_params(args.take(k)) is Err,
    ensures
        parsed_params(args) == parsed_params(args.take(k)),
    decreases args.len(),
{
    if k == args.len() {
        assert(args.take(k) =~= args);
    } else {
        assert(args.drop_last().take(k) =~= args.take(k));
        lemma_parsed_first_failure(args.drop_last(), k);
    }
}

/// Parses `NAME=value` arguments into a name → value table.
///
/// Each argument is split at its first `=`; the value side is read as YAML,
/// so `FAST=3` is an integer, `K=2.0` a float and `SYM=BTC` a string. Fails on
/// the first argument without `=` or whose value is not valid YAML.
pub fn parse(args: &[String]) -> (r: Result<Params, ParamError>)
    ensures
        match r {
            Ok(p) => parsed_params(texts(args@)) == Ok::<Map<Seq<char>, YamlView>, ParamFault>(p@),
            Err(e) => parsed_params(texts(args@)) == Err::<Map<Seq<char>, YamlView>, ParamFault>(e@),
        },
{
    let ghost all = texts(args@);
    let mut params = Params::new();
    let mut i: usize = 0;
    while i < args.len()
        invariant
            all == texts(args@),
            all.len() == args@.len(),
            i <= args@.len(),
            parsed_params(all.take(i as int)) == Ok::<Map<Seq<char>, YamlView>, ParamFault>(params@),
        decreases args.len() - i,
    {
        let arg = args[i].as_str();
        assert(all[i as int] == arg@);
        assert(all.take(i + 1).drop_last() =~= all.take(i as int));
        assert(all.take(i + 1).last() == arg@);
        match split_once_equals(arg) {
            None => {
                proof {
                    lemma_split_param_absent(arg@);
                    lemma_parsed_first_failure(all, i + 1);
                }
                return Err(ParamError::MissingEquals(args[i].clone()));
            },
            Some((name, raw)) => {
                proof {
                    lemma_split_param_found(arg@, name@, raw@);
                }
                match parse_yaml(raw) {
                    Ok(value) => {
                        params.insert(name.to_owned(), value);
                    },
                    Err(e) => {
                        proof {
                            lemma_parsed_first_failure(all, i + 1);
                        }
                        return Err(ParamError::InvalidValue(name.to_owned(), e));
                    },
                }
            },
        }
        i += 1;
    }
    proof {
        assert(all.take(i as int) =~= all);
    }
    Ok(params)
}

} // verus!
