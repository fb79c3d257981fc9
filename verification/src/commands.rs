//! The Commands view's logic: the satz commands studio runs, each with its argument
//! fields, and the argument vector a command's fields make.

use vstd::prelude::*;
use crate::json::{Json, JsonV, compact, json_compact};
use crate::reports::strs;
use crate::text::{char_is_ws, chars_of, is_ws, str_eq, string_of, trim, trimmed};

verus! {

/// Where the open estate's file goes on the command line.
#[derive(Debug, Clone, Copy, PartialEq, Eq, Structural)]
pub enum EstateArg {
    /// the command takes no estate
    Omitted,
    /// as a positional after the positional fields
    Positional,
    /// as `--estate <file>`
    Flag,
}

/// One argument field of a command.
#[derive(Debug, Clone, Copy, PartialEq, Eq)]
pub enum Field {
    /// `flag` when on
    Flag { key: &'static str, flag: &'static str, label: &'static str },
    /// `flag <value>` when the value is not empty
    Valued { key: &'static str, flag: &'static str, label: &'static str, placeholder: &'static str },
    /// a required positional, before the estate
    Positional { key: &'static str, label: &'static str, default: &'static str },
    /// free words appended last, split on whitespace
    Trailing { key: &'static str, label: &'static str, placeholder: &'static str },
}

/// The key a field's value is held under.
pub open spec fn key_of(f: Field) -> &'static str {
    match f {
        Field::Flag { key, .. } => key,
        Field::Valued { key, .. } => key,
        Field::Positional { key, .. } => key,
        Field::Trailing { key, .. } => key,
    }
}

impl Field {
    /// The key the field's value is held under.
    pub fn key(&self) -> (r: &'static str)
        ensures
            r == key_of(*self),
    {
        match self {
            Field::Flag { key, .. } => key,
            Field::Valued { key, .. } => key,
            Field::Positional { key, .. } => key,
            Field::Trailing { key, .. } => key,
        }
    }
}

/// A satz command of the palette: its id, how the list shows it, the leading words, where
/// the estate goes, the fixed words after it, its fields, and whether it runs in the OS
/// terminal rather than in the app.
#[derive(Debug, Clone, PartialEq, Eq)]
pub struct CommandSpec {
    pub id: &'static str,
    pub label: &'static str,
    pub icon: &'static str,
    pub description: &'static str,
    /// the leading words, `["transpile"]`
    pub head: Vec<&'static str>,
    pub estate: EstateArg,
    /// fixed words after the estate, `["--check"]`
    pub tail: Vec<&'static str>,
    pub fields: Vec<Field>,
    /// runs in the OS terminal, never in the app
    pub external: bool,
}

/// A palette command as plain values.
pub struct CommandV {
    pub id: &'static str,
    pub label: &'static str,
    pub icon: &'static str,
    pub description: &'static str,
    pub head: Seq<&'static str>,
    pub estate: EstateArg,
    pub tail: Seq<&'static str>,
    pub fields: Seq<Field>,
    pub external: bool,
}

impl View for CommandSpec {
    type V = CommandV;

    open spec fn view(&self) -> CommandV {
        CommandV {
            id: self.id,
            label: self.label,
            icon: self.icon,
            description: self.description,
            head: self.head@,
            estate: self.estate,
            tail: self.tail@,
            fields: self.fields@,
            external: self.external,
        }
    }
}

/// The field values as plain values: each key and what it holds.
pub open spec fn value_views(v: Seq<(String, String)>) -> Seq<(Seq<char>, Seq<char>)> {
    Seq::new(v.len(), |i: int| (v[i].0@, v[i].1@))
}

/// The first entry from `k` on held under `key`.
pub open spec fn entry_of(vs: Seq<(Seq<char>, Seq<char>)>, key: Seq<char>, k: int) -> Option<int>
    decreases vs.len() - k,
{
    if k < 0 || k >= vs.len() {
        None
    } else if vs[k].0 == key {
        Some(k)
    } else {
        entry_of(vs, key, k + 1)
    }
}

pub proof fn lemma_entry_of(vs: Seq<(Seq<char>, Seq<char>)>, key: Seq<char>, k: int)
    requires
        0 <= k,
    ensures
        entry_of(vs, key, k) matches Some(i) ==> k <= i < vs.len() && vs[i].0 == key && forall|j: int|
            k <= j < i ==> #[trigger] vs[j].0 != key,
        entry_of(vs, key, k) is None ==> forall|j: int| k <= j < vs.len() ==> #[trigger] vs[j].0 != key,
    decreases vs.len() - k,
{
    if k < vs.len() && vs[k].0 != key {
        lemma_entry_of(vs, key, k + 1);
    }
}

/// The first entry held under `key` is the one [`entry_of`] finds.
proof fn lemma_entry_of_is(vs: Seq<(Seq<char>, Seq<char>)>, key: Seq<char>, i: int, k: int)
    requires
        0 <= k <= i < vs.len(),
        vs[i].0 == key,
        forall|j: int| k <= j < i ==> #[trigger] vs[j].0 != key,
    ensures
        entry_of(vs, key, k) == Some(i),
    decreases i - k,
{
    if k < i {
        lemma_entry_of_is(vs, key, i, k + 1);
    }
}

/// What `key` holds: the value of its entry, nothing where it has none.
pub open spec fn lookup(vs: Seq<(Seq<char>, Seq<char>)>, key: Seq<char>) -> Seq<char> {
    match entry_of(vs, key, 0) {
        Some(i) => vs[i].1,
        None => seq![],
    }
}

/// No key holds two entries.
pub open spec fn keys_distinct(vs: Seq<(Seq<char>, Seq<char>)>) -> bool {
    forall|i: int, j: int|
        #![trigger vs[i], vs[j]]
        0 <= i < vs.len() && 0 <= j < vs.len() && vs[i].0 == vs[j].0 ==> i == j
}

fn entry_index(values: &Vec<(String, String)>, key: &str) -> (r: Option<usize>)
    ensures
        match r {
            Some(i) => entry_of(value_views(values@), key@, 0) == Some(i as int) && i < values.len(),
            None => entry_of(value_views(values@), key@, 0) is None,
        },
{
    let ghost vs = value_views(values@);
    proof {
        lemma_entry_of(vs, key@, 0);
    }
    let mut k: usize = 0;
    while k < values.len()
        invariant
            vs == value_views(values@),
            k <= values.len(),
            entry_of(vs, key@, 0) == entry_of(vs, key@, k as int),
        decreases values.len() - k,
    {
        if str_eq(values[k].0.as_str(), key) {
            return Some(k);
        }
        k = k + 1;
    }
    None
}

/// What `key` holds, nothing where it has no entry.
pub fn value_of(values: &Vec<(String, String)>, key: &str) -> (r: String)
    ensures
        r@ == lookup(value_views(values@), key@),
{
    match entry_index(values, key) {
        Some(i) => values[i].1.clone(),
        None => String::new(),
    }
}

/// `key` made to hold `value`: its entry's value replaced, or a new entry after the
/// others.
pub open spec fn set_spec(vs: Seq<(Seq<char>, Seq<char>)>, key: Seq<char>, value: Seq<char>) -> Seq<(Seq<char>, Seq<char>)> {
    match entry_of(vs, key, 0) {
        Some(i) => vs.update(i, (key, value)),
        None => vs.push((key, value)),
    }
}

/// Makes `key` hold `value`: its entry's value is replaced, or a new entry is added after
/// the others.
pub fn set_value(values: &mut Vec<(String, String)>, key: &str, value: &str)
    ensures
        value_views(final(values)@) == set_spec(value_views(old(values)@), key@, value@),
        keys_distinct(value_views(old(values)@)) ==> keys_distinct(value_views(final(values)@)),
{
    proof {
        law_a_set_value_reads_back(value_views(values@), key@, value@, key@);
    }
    let ghost before = value_views(values@);
    match entry_index(values, key) {
        Some(i) => {
            values.set(i, (String::from_str(key), String::from_str(value)));
            assert(value_views(values@) =~= before.update(i as int, (key@, value@)));
        },
        None => {
            values.push((String::from_str(key), String::from_str(value)));
            assert(value_views(values@) =~= before.push((key@, value@)));
        },
    }
}

/// What a field holds after a set: the value set under its key, what it held before under
/// any other.
pub proof fn law_a_set_value_reads_back(
    vs: Seq<(Seq<char>, Seq<char>)>,
    key: Seq<char>,
    value: Seq<char>,
    other: Seq<char>,
)
    ensures
        lookup(set_spec(vs, key, value), key) == value,
        other != key ==> lookup(set_spec(vs, key, value), other) == lookup(vs, other),
        keys_distinct(vs) ==> keys_distinct(set_spec(vs, key, value)),
{
    lemma_entry_of(vs, key, 0);
    lemma_entry_of(vs, other, 0);
    let t = set_spec(vs, key, value);
    match entry_of(vs, key, 0) {
        Some(i) => {
            assert forall|j: int| 0 <= j < i implies #[trigger] t[j].0 != key by {
                assert(t[j] == vs[j]);
            }
            lemma_entry_of_is(t, key, i, 0);
        },
        None => {
            assert forall|j: int| 0 <= j < vs.len() implies #[trigger] t[j].0 != key by {
                assert(t[j] == vs[j]);
            }
            lemma_entry_of_is(t, key, vs.len() as int, 0);
        },
    }
    if other != key {
        match entry_of(vs, other, 0) {
            Some(j) => {
                assert forall|m: int| 0 <= m < j implies #[trigger] t[m].0 != other by {
                    if m < vs.len() {
                        assert(t[m].0 == vs[m].0 || t[m].0 == key);
                    }
                }
                assert(t[j] == vs[j]);
                lemma_entry_of_is(t, other, j, 0);
            },
            None => {
                lemma_entry_of(t, other, 0);
                if let Some(m) = entry_of(t, other, 0) {
                    assert(m < vs.len() ==> t[m].0 == vs[m].0 || t[m].0 == key);
                }
            },
        }
    }
}

/// A field's value as `build_args` reads it: what its key holds, trimmed.
pub open spec fn value_spec(vs: Seq<(Seq<char>, Seq<char>)>, key: Seq<char>) -> Seq<char> {
    trim(lookup(vs, key))
}

/// The first field from `k` on that is a positional left empty.
pub open spec fn missing_from(fields: Seq<Field>, vs: Seq<(Seq<char>, Seq<char>)>, k: int) -> Option<int>
    decreases fields.len() - k,
{
    if k < 0 || k >= fields.len() {
        None
    } else if fields[k] is Positional && value_spec(vs, key_of(fields[k])@).len() == 0 {
        Some(k)
    } else {
        missing_from(fields, vs, k + 1)
    }
}

/// The label of a positional field.
pub open spec fn positional_label(f: Field) -> &'static str {
    match f {
        Field::Positional { label, .. } => label,
        _ => "",
    }
}

/// The values of the positional fields, in field order.
pub open spec fn positional_args(fields: Seq<Field>, vs: Seq<(Seq<char>, Seq<char>)>) -> Seq<Seq<char>>
    decreases fields.len(),
{
    if fields.len() == 0 {
        seq![]
    } else {
        positional_args(fields.drop_last(), vs) + if fields.last() is Positional {
            seq![value_spec(vs, key_of(fields.last())@)]
        } else {
            seq![]
        }
    }
}

/// Where the estate goes: nowhere, as a positional, or after `--estate`.
pub open spec fn estate_args(arg: EstateArg, estate: Seq<char>) -> Seq<Seq<char>> {
    match arg {
        EstateArg::Omitted => seq![],
        EstateArg::Positional => seq![estate],
        EstateArg::Flag => seq!["--estate"@, estate],
    }
}

/// The flags that are on and the options that hold a value, in field order.
pub open spec fn switch_args(fields: Seq<Field>, vs: Seq<(Seq<char>, Seq<char>)>) -> Seq<Seq<char>>
    decreases fields.len(),
{
    if fields.len() == 0 {
        seq![]
    } else {
        switch_args(fields.drop_last(), vs) + match fields.last() {
            Field::Flag { key, flag, .. } => if value_spec(vs, key@) == "true"@ {
                seq![flag@]
            } else {
                seq![]
            },
            Field::Valued { key, flag, .. } => if value_spec(vs, key@).len() > 0 {
                seq![flag@, value_spec(vs, key@)]
            } else {
                seq![]
            },
            _ => seq![],
        }
    }
}

/// The words of `s` and whether its last character is one of a word: what
/// `split_whitespace` makes of it, built a character at a time.
pub open spec fn words_acc(s: Seq<char>) -> (Seq<Seq<char>>, bool)
    decreases s.len(),
{
    if s.len() == 0 {
        (seq![], false)
    } else {
        let (w, open) = words_acc(s.drop_last());
        let c = s.last();
        if is_ws(c) {
            (w, false)
        } else if open {
            (w.update(w.len() - 1, w.last().push(c)), true)
        } else {
            (w.push(seq![c]), true)
        }
    }
}

/// The words of `s`, split on whitespace.
pub open spec fn words(s: Seq<char>) -> Seq<Seq<char>> {
    words_acc(s).0
}

/// The words of the trailing fields, in field order.
pub open spec fn trailing_args(fields: Seq<Field>, vs: Seq<(Seq<char>, Seq<char>)>) -> Seq<Seq<char>>
    decreases fields.len(),
{
    if fields.len() == 0 {
        seq![]
    } else {
        trailing_args(fields.drop_last(), vs) + if fields.last() is Trailing {
            words(value_spec(vs, key_of(fields.last())@))
        } else {
            seq![]
        }
    }
}

pub open spec fn str_views(v: Seq<&'static str>) -> Seq<Seq<char>> {
    Seq::new(v.len(), |i: int| v[i]@)
}

/// The argument vector after `satz --config <dir>`: head, positionals, the estate, the
/// tail, flags and options in field order, trailing words last.
pub open spec fn args_spec(spec: CommandSpec, estate: Seq<char>, vs: Seq<(Seq<char>, Seq<char>)>) -> Seq<Seq<char>> {
    str_views(spec.head@) + positional_args(spec.fields@, vs) + estate_args(spec.estate, estate)
        + str_views(spec.tail@) + switch_args(spec.fields@, vs) + trailing_args(spec.fields@, vs)
}

/// The initial field values of a spec as plain values: positionals at their default,
/// everything else empty.
/// No two fields of a command share a key.
pub open spec fn field_keys_distinct(fields: Seq<Field>) -> bool {
    forall|i: int, j: int|
        #![trigger fields[i], fields[j]]
        0 <= i < fields.len() && 0 <= j < fields.len() && key_of(fields[i])@ == key_of(fields[j])@
            ==> i == j
}

pub open spec fn defaults_spec(fields: Seq<Field>) -> Seq<(Seq<char>, Seq<char>)> {
    Seq::new(
        fields.len(),
        |i: int|
            (
                key_of(fields[i])@,
                match fields[i] {
                    Field::Positional { default, .. } => default@,
                    _ => ""@,
                },
            ),
    )
}

/// The initial field values of a spec: positionals at their default, everything else
/// empty.
pub fn defaults(spec: &CommandSpec) -> (r: Vec<(String, String)>)
    ensures
        value_views(r@) == defaults_spec(spec.fields@),
        keys_distinct(value_views(r@)) <==> field_keys_distinct(spec.fields@),
{
    let mut out: Vec<(String, String)> = Vec::new();
    for i in 0..spec.fields.len()
        invariant
            value_views(out@) == defaults_spec(spec.fields@).take(i as int),
    {
        let f = spec.fields[i];
        let v = match f {
            Field::Positional { default, .. } => String::from_str(default),
            _ => String::from_str(""),
        };
        let ghost before = value_views(out@);
        let ghost vv = v@;
        assert(f == spec.fields@[i as int]);
        out.push((String::from_str(f.key()), v));
        assert(value_views(out@) =~= before.push((key_of(f)@, vv)));
        assert(defaults_spec(spec.fields@).take(i + 1) =~= defaults_spec(spec.fields@).take(
            i as int,
        ).push(defaults_spec(spec.fields@)[i as int]));
        assert(value_views(out@) =~= defaults_spec(spec.fields@).take(i + 1));
    }
    assert(defaults_spec(spec.fields@).take(spec.fields.len() as int) =~= defaults_spec(
        spec.fields@,
    ));
    proof {
        let d = defaults_spec(spec.fields@);
        let fs = spec.fields@;
        assert(keys_distinct(d) ==> field_keys_distinct(fs)) by {
            if keys_distinct(d) {
                assert forall|i: int, j: int|
                    0 <= i < fs.len() && 0 <= j < fs.len() && key_of(#[trigger] fs[i])@ == key_of(
                        #[trigger] fs[j],
                    )@ implies i == j by {
                    assert(d[i].0 == d[j].0);
                }
            }
        }
        assert(field_keys_distinct(fs) ==> keys_distinct(d)) by {
            if field_keys_distinct(fs) {
                assert forall|i: int, j: int|
                    0 <= i < d.len() && 0 <= j < d.len() && (#[trigger] d[i]).0 == (
                    #[trigger] d[j]).0 implies i == j by {
                    assert(key_of(fs[i])@ == key_of(fs[j])@);
                }
            }
        }
    }
    out
}

fn field_value(values: &Vec<(String, String)>, key: &str) -> (r: String)
    ensures
        r@ == value_spec(value_views(values@), key@),
{
    let v = value_of(values, key);
    let cs = chars_of(v.as_str());
    let t = trimmed(cs.as_slice());
    string_of(t.as_slice())
}


/// The words of `s`, split on whitespace.
fn split_words(s: &[char]) -> (r: Vec<String>)
    ensures
        strs(r@) == words(s@),
{
    let mut out: Vec<String> = Vec::new();
    let mut open = false;
    assert(s@.take(0) =~= Seq::<char>::empty());
    for i in 0..s.len()
        invariant
            (strs(out@), open) == words_acc(s@.take(i as int)),
            open ==> out.len() > 0,
    {
        let c = s[i];
        assert(s@.take(i + 1).drop_last() =~= s@.take(i as int));
        assert(s@.take(i + 1).last() == c);
        let ghost before = strs(out@);
        if char_is_ws(c) {
            open = false;
        } else if open {
            let ghost n = out.len();
            let mut w = out.pop().unwrap();
            w.push(c);
            out.push(w);
            assert(strs(out@) =~= before.update(n - 1, before.last().push(c)));
        } else {
            let mut w = String::new();
            w.push(c);
            out.push(w);
            assert(w@ =~= seq![c]);
            assert(strs(out@) =~= before.push(seq![c]));
            open = true;
        }
    }
    assert(s@.take(s.len() as int) =~= s@);
    out
}

fn push_all(out: &mut Vec<String>, more: Vec<String>)
    ensures
        strs(final(out)@) == strs(old(out)@) + strs(more@),
{
    let mut more = more;
    let ghost a = out@;
    let ghost b = more@;
    out.append(&mut more);
    assert(strs(out@) =~= strs(a) + strs(b));
}

fn push_words(out: &mut Vec<String>, words: &Vec<&'static str>)
    ensures
        strs(final(out)@) == strs(old(out)@) + str_views(words@),
{
    let ghost start = strs(out@);
    for i in 0..words.len()
        invariant
            strs(out@) == start + str_views(words@).take(i as int),
    {
        let ghost before = strs(out@);
        out.push(String::from_str(words[i]));
        assert(strs(out@) =~= before.push(words@[i as int]@));
        assert(str_views(words@).take(i + 1) =~= str_views(words@).take(i as int).push(
            words@[i as int]@,
        ));
        assert(strs(out@) =~= start + str_views(words@).take(i + 1));
    }
    assert(str_views(words@).take(words.len() as int) =~= str_views(words@));
}

/// The argument vector after `satz --config <dir>`: head, positionals, the estate, the
/// tail, flags and options in field order, trailing words last. A flag is on when its
/// value is `"true"`. An empty positional is an error naming the field. The values hold
/// each key once, as the form's map of them does.
pub fn build_args(spec: &CommandSpec, estate: &str, values: &Vec<(String, String)>) -> (r: Result<Vec<String>, String>)
    requires
        keys_distinct(value_views(values@)),
    ensures
        match r {
            Ok(a) => missing_from(spec.fields@, value_views(values@), 0) is None && strs(a@)
                == args_spec(*spec, estate@, value_views(values@)),
            Err(e) => missing_from(spec.fields@, value_views(values@), 0) matches Some(k) && e@
                == positional_label(spec.fields@[k])@ + " is required"@,
        },
{
    let ghost vs = value_views(values@);
    let ghost fs = spec.fields@;
    let mut args: Vec<String> = Vec::new();
    assert(strs(args@) =~= Seq::<Seq<char>>::empty());
    push_words(&mut args, &spec.head);
    let ghost head = strs(args@);
    for i in 0..spec.fields.len()
        invariant
            vs == value_views(values@),
            fs == spec.fields@,
            head == str_views(spec.head@),
            missing_from(fs, vs, 0) == missing_from(fs, vs, i as int),
            strs(args@) == head + positional_args(fs.take(i as int), vs),
    {
        assert(fs.take(i + 1).drop_last() =~= fs.take(i as int));
        assert(fs.take(i + 1).last() == fs[i as int]);
        let ghost before = strs(args@);
        match spec.fields[i] {
            Field::Positional { key, label, .. } => {
                let v = field_value(values, key);
                if v.as_str().is_empty() {
                    let mut e = String::from_str(label);
                    e.append(" is required");
                    return Err(e);
                }
                args.push(v);
                assert(strs(args@) =~= before.push(value_spec(vs, key@)));
            },
            _ => {
                assert(before =~= before + Seq::<Seq<char>>::empty());
            },
        }
    }
    assert(fs.take(fs.len() as int) =~= fs);
    let ghost before = strs(args@);
    match spec.estate {
        EstateArg::Omitted => {
            assert(before =~= before + Seq::<Seq<char>>::empty());
        },
        EstateArg::Positional => {
            args.push(String::from_str(estate));
            assert(strs(args@) =~= before + seq![estate@]);
        },
        EstateArg::Flag => {
            args.push(String::from_str("--estate"));
            args.push(String::from_str(estate));
            assert(strs(args@) =~= before + seq!["--estate"@, estate@]);
        },
    }
    push_words(&mut args, &spec.tail);
    let ghost fixed = strs(args@);
    for i in 0..spec.fields.len()
        invariant
            vs == value_views(values@),
            fs == spec.fields@,
            strs(args@) == fixed + switch_args(fs.take(i as int), vs),
    {
        assert(fs.take(i + 1).drop_last() =~= fs.take(i as int));
        assert(fs.take(i + 1).last() == fs[i as int]);
        let ghost before = strs(args@);
        match spec.fields[i] {
            Field::Flag { key, flag, .. } => {
                let v = field_value(values, key);
                if str_eq(v.as_str(), "true") {
                    args.push(String::from_str(flag));
                    assert(strs(args@) =~= before + seq![flag@]);
                } else {
                    assert(before =~= before + Seq::<Seq<char>>::empty());
                }
            },
            Field::Valued { key, flag, .. } => {
                let v = field_value(values, key);
                if !v.as_str().is_empty() {
                    let ghost vv = v@;
                    args.push(String::from_str(flag));
                    args.push(v);
                    assert(strs(args@) =~= before + seq![flag@, vv]);
                } else {
                    assert(before =~= before + Seq::<Seq<char>>::empty());
                }
            },
            _ => {
                assert(before =~= before + Seq::<Seq<char>>::empty());
            },
        }
    }
    let ghost switched = strs(args@);
    for i in 0..spec.fields.len()
        invariant
            vs == value_views(values@),
            fs == spec.fields@,
            strs(args@) == switched + trailing_args(fs.take(i as int), vs),
    {
        assert(fs.take(i + 1).drop_last() =~= fs.take(i as int));
        assert(fs.take(i + 1).last() == fs[i as int]);
        let ghost before = strs(args@);
        match spec.fields[i] {
            Field::Trailing { key, .. } => {
                let v = field_value(values, key);
                let cs = chars_of(v.as_str());
                let ws = split_words(cs.as_slice());
                push_all(&mut args, ws);
            },
            _ => {
                assert(before =~= before + Seq::<Seq<char>>::empty());
            },
        }
    }
    Ok(args)
}

/// Command `i` of the palette, in the order the view lists it: its id, its label, icon
/// and description, its leading words, where the estate goes, the fixed words after it,
/// its fields and whether it runs in the OS terminal.
pub open spec fn palette_entry(i: int) -> CommandV {
    if i == 0 {
        CommandV {
            id: "transpile-check",
            label: "transpile --check",
            icon: "fact_check",
            description: "Compile in memory and write nothing: the estate either transpiles or the error says why.",
            head: seq!["transpile"],
            estate: EstateArg::Positional,
            tail: seq!["--check"],
            fields: seq![],
            external: false,
        }
    } else if i == 1 {
        CommandV {
            id: "transpile",
            label: "transpile",
            icon: "build",
            description: "Compile the estate to HCL in hcl_dir.",
            head: seq!["transpile"],
            estate: EstateArg::Positional,
            tail: seq![],
            fields: seq![Field::Flag { key: "plan", flag: "--plan", label: "Run plan afterwards" }, Field::Flag { key: "scan", flag: "--scan", label: "Run Checkov afterwards" }, Field::Flag { key: "print_variables", flag: "--print-variables", label: "Print the resolved variables" }],
            external: false,
        }
    } else if i == 2 {
        CommandV {
            id: "questions",
            label: "questions",
            icon: "quiz",
            description: "What the estate's packs ask, joined with the answers its params carry.",
            head: seq!["questions"],
            estate: EstateArg::Positional,
            tail: seq!["--format", "json"],
            fields: seq![Field::Flag { key: "unanswered", flag: "--unanswered", label: "Only the unanswered questions" }],
            external: false,
        }
    } else if i == 3 {
        CommandV {
            id: "check-presets",
            label: "check-presets",
            icon: "difference",
            description: "Which packs are clean, behind upstream, or edited locally.",
            head: seq!["check-presets"],
            estate: EstateArg::Positional,
            tail: seq!["--format", "json"],
            fields: seq![Field::Valued { key: "pristine_dir", flag: "--pristine-dir", label: "Pristine directory", placeholder: "compare against this directory instead of downloading" }],
            external: false,
        }
    } else if i == 4 {
        CommandV {
            id: "iac-roles",
            label: "iac-roles",
            icon: "admin_panel_settings",
            description: "The roles the IaC service account needs against the roles the estate grants it.",
            head: seq!["iac-roles"],
            estate: EstateArg::Positional,
            tail: seq!["--format", "json"],
            fields: seq![Field::Flag { key: "execute", flag: "--execute", label: "Write the missing roles into the estate file" }],
            external: false,
        }
    } else if i == 5 {
        CommandV {
            id: "update-schema",
            label: "update-schema",
            icon: "schema",
            description: "Fetch the provider schema into schema_dir.",
            head: seq!["update-schema"],
            estate: EstateArg::Omitted,
            tail: seq![],
            fields: seq![Field::Valued { key: "providers", flag: "--providers", label: "Providers", placeholder: "comma-separated; the config's by default" }, Field::Valued { key: "version", flag: "--version", label: "Provider version", placeholder: "the config's by default" }],
            external: false,
        }
    } else if i == 6 {
        CommandV {
            id: "hcl-init",
            label: "hcl-init",
            icon: "play_circle",
            description: "Run the tool's init in hcl_dir.",
            head: seq!["hcl-init"],
            estate: EstateArg::Omitted,
            tail: seq![],
            fields: seq![Field::Trailing { key: "args", label: "Extra arguments", placeholder: "-reconfigure, -migrate-state", }],
            external: false,
        }
    } else if i == 7 {
        CommandV {
            id: "plan",
            label: "plan",
            icon: "preview",
            description: "Run the tool's plan in hcl_dir.",
            head: seq!["plan"],
            estate: EstateArg::Omitted,
            tail: seq![],
            fields: seq![Field::Trailing { key: "args", label: "Extra arguments", placeholder: "-target=…, -out=plan.tfplan", }],
            external: false,
        }
    } else if i == 8 {
        CommandV {
            id: "require",
            label: "require",
            icon: "rule",
            description: "Which controls of a catalog the declared estate satisfies.",
            head: seq!["require"],
            estate: EstateArg::Positional,
            tail: seq![],
            fields: seq![Field::Positional { key: "framework", label: "Catalog", default: "cis-gcp-5.0" }, Field::Flag { key: "json", flag: "--format=json", label: "JSON output" }],
            external: false,
        }
    } else if i == 9 {
        CommandV {
            id: "report-compliance",
            label: "report-compliance",
            icon: "verified",
            description: "The goal view joined with live verification, written as the evidence report.",
            head: seq!["report-compliance"],
            estate: EstateArg::Positional,
            tail: seq![],
            fields: seq![Field::Positional { key: "framework", label: "Catalog", default: "cis-gcp-5.0" }, Field::Flag { key: "no_live", flag: "--no-live", label: "Declared estate only, no live verification" }, Field::Flag { key: "checkov", flag: "--checkov", label: "Add the Checkov column" }, Field::Valued { key: "prowler", flag: "--prowler", label: "Prowler OCSF export", placeholder: "path to the json-ocsf file" }, Field::Valued { key: "report", flag: "--report", label: "Report file", placeholder: "evidence/<catalog>-latest.md by default" }],
            external: false,
        }
    } else if i == 10 {
        CommandV {
            id: "get-presets",
            label: "get-presets",
            icon: "download",
            description: "Fetch the upstream library: install what is missing, refresh what the estate does not use.",
            head: seq!["get-presets"],
            estate: EstateArg::Omitted,
            tail: seq![],
            fields: seq![Field::Flag { key: "force", flag: "--force", label: "Overwrite packs the estate uses as well" }, Field::Valued { key: "pristine_dir", flag: "--pristine-dir", label: "Pristine directory", placeholder: "take the library from here instead of downloading" }],
            external: false,
        }
    } else if i == 11 {
        CommandV {
            id: "merge-presets",
            label: "merge-presets",
            icon: "merge",
            description: "Reconcile the presets with upstream: new packs installed, unmodified ones upgraded, edited ones forked.",
            head: seq!["merge-presets"],
            estate: EstateArg::Flag,
            tail: seq![],
            fields: seq![Field::Flag { key: "report_only", flag: "--report-only", label: "Report only, write nothing" }, Field::Valued { key: "pristine_dir", flag: "--pristine-dir", label: "Pristine directory", placeholder: "compare against this directory instead of downloading" }, Field::Valued { key: "adopt", flag: "--adopt", label: "Adopt upstream in place", placeholder: "a pack stem, or all" }],
            external: false,
        }
    } else if i == 12 {
        CommandV {
            id: "apply",
            label: "apply",
            icon: "rocket_launch",
            description: "Run the tool's apply in hcl_dir — in your terminal, where its approval prompt is.",
            head: seq!["apply"],
            estate: EstateArg::Omitted,
            tail: seq![],
            fields: seq![Field::Trailing { key: "args", label: "Extra arguments", placeholder: "-target=…, a saved plan file", }],
            external: true,
        }
    } else {
        CommandV {
            id: "bootstrap",
            label: "bootstrap",
            icon: "foundation",
            description: "Day 0: folder, project, billing link, core APIs and the state bucket, after a permission pre-flight — in your terminal.",
            head: seq!["bootstrap"],
            estate: EstateArg::Positional,
            tail: seq![],
            fields: seq![Field::Flag { key: "dry_run", flag: "--dry-run", label: "Dry run: print the plan and run the pre-flight, create nothing" }, Field::Flag { key: "greenfield", flag: "--greenfield", label: "Greenfield: materialise a not-yet-existing organisation" }],
            external: true,
        }
    }
}

/// The palette's commands, in the order the view lists them.
pub open spec fn palette_table() -> Seq<CommandV> {
    Seq::new(14, |i: int| palette_entry(i))
}

/// The commands as plain values.
pub open spec fn command_views(v: Seq<CommandSpec>) -> Seq<CommandV> {
    Seq::new(v.len(), |i: int| v[i]@)
}

/// The ids of the palette, in the order the view lists it.
pub open spec fn palette_ids() -> Seq<&'static str> {
    seq![
        "transpile-check",
        "transpile",
        "questions",
        "check-presets",
        "iac-roles",
        "update-schema",
        "hcl-init",
        "plan",
        "require",
        "report-compliance",
        "get-presets",
        "merge-presets",
        "apply",
        "bootstrap",
    ]
}

fn switch(key: &'static str, word: &'static str, label: &'static str) -> (r: Field)
    ensures
        r == (Field::Flag { key, flag: word, label }),
{
    Field::Flag { key, flag: word, label }
}

fn valued(key: &'static str, word: &'static str, label: &'static str, placeholder: &'static str) -> (r: Field)
    ensures
        r == (Field::Valued { key, flag: word, label, placeholder }),
{
    Field::Valued { key, flag: word, label, placeholder }
}

fn command(
    id: &'static str,
    label: &'static str,
    icon: &'static str,
    description: &'static str,
    head: &'static str,
    estate: EstateArg,
    tail: Vec<&'static str>,
    fields: Vec<Field>,
    external: bool,
) -> (r: CommandSpec)
    ensures
        r@ == (CommandV {
            id,
            label,
            icon,
            description,
            head: seq![head],
            estate,
            tail: tail@,
            fields: fields@,
            external,
        }),
{
    let mut h: Vec<&'static str> = Vec::new();
    h.push(head);
    CommandSpec { id, label, icon, description, head: h, estate, tail, fields, external }
}

fn words_of(a: &'static str, b: &'static str) -> (r: Vec<&'static str>)
    ensures
        r@ == seq![a, b],
{
    let mut v: Vec<&'static str> = Vec::new();
    v.push(a);
    v.push(b);
    v
}

fn one_word(a: &'static str) -> (r: Vec<&'static str>)
    ensures
        r@ == seq![a],
{
    let mut v: Vec<&'static str> = Vec::new();
    v.push(a);
    v
}

fn fields_of(fs: &[Field]) -> (r: Vec<Field>)
    ensures
        r@ == fs@,
{
    let mut v: Vec<Field> = Vec::new();
    for i in 0..fs.len()
        invariant
            v@ == fs@.take(i as int),
    {
        v.push(fs[i]);
        assert(v@ =~= fs@.take(i + 1));
    }
    assert(fs@.take(fs.len() as int) =~= fs@);
    v
}

/// The palette, in the order the view lists it. Only `apply` and `bootstrap` run in the
/// OS terminal, where their prompts are.
pub fn palette() -> (r: Vec<CommandSpec>)
    ensures
        command_views(r@) == palette_table(),
        Seq::new(r@.len(), |i: int| r@[i].id) == palette_ids(),
        forall|i: int| 0 <= i < r.len() ==> (#[trigger] r@[i].external <==> i >= 12),
{
    let json = words_of("--format", "json");
    let none: Vec<&'static str> = Vec::new();
    let mut out: Vec<CommandSpec> = Vec::new();
    out.push(command(
        "transpile-check",
        "transpile --check",
        "fact_check",
        "Compile in memory and write nothing: the estate either transpiles or the error says why.",
        "transpile",
        EstateArg::Positional,
        one_word("--check"),
        Vec::new(),
        false,
    ));
    assert(out@[0]@.tail =~= palette_entry(0).tail);
    assert(out@[0]@.fields =~= palette_entry(0).fields);
    assert(out@[0]@ == palette_entry(0));
    out.push(command(
        "transpile",
        "transpile",
        "build",
        "Compile the estate to HCL in hcl_dir.",
        "transpile",
        EstateArg::Positional,
        Vec::new(),
        fields_of(
            &[
                switch("plan", "--plan", "Run plan afterwards"),
                switch("scan", "--scan", "Run Checkov afterwards"),
                switch("print_variables", "--print-variables", "Print the resolved variables"),
            ],
        ),
        false,
    ));
    assert(out@[1]@.tail =~= palette_entry(1).tail);
    assert(out@[1]@.fields =~= palette_entry(1).fields);
    assert(out@[1]@ == palette_entry(1));
    out.push(command(
        "questions",
        "questions",
        "quiz",
        "What the estate's packs ask, joined with the answers its params carry.",
        "questions",
        EstateArg::Positional,
        words_of("--format", "json"),
        fields_of(&[switch("unanswered", "--unanswered", "Only the unanswered questions")]),
        false,
    ));
    assert(out@[2]@.tail =~= palette_entry(2).tail);
    assert(out@[2]@.fields =~= palette_entry(2).fields);
    assert(out@[2]@ == palette_entry(2));
    out.push(command(
        "check-presets",
        "check-presets",
        "difference",
        "Which packs are clean, behind upstream, or edited locally.",
        "check-presets",
        EstateArg::Positional,
        words_of("--format", "json"),
        fields_of(
            &[
                valued(
                    "pristine_dir",
                    "--pristine-dir",
                    "Pristine directory",
                    "compare against this directory instead of downloading",
                ),
            ],
        ),
        false,
    ));
    assert(out@[3]@.tail =~= palette_entry(3).tail);
    assert(out@[3]@.fields =~= palette_entry(3).fields);
    assert(out@[3]@ == palette_entry(3));
    out.push(command(
        "iac-roles",
        "iac-roles",
        "admin_panel_settings",
        "The roles the IaC service account needs against the roles the estate grants it.",
        "iac-roles",
        EstateArg::Positional,
        json,
        fields_of(&[switch("execute", "--execute", "Write the missing roles into the estate file")]),
        false,
    ));
    assert(out@[4]@.tail =~= palette_entry(4).tail);
    assert(out@[4]@.fields =~= palette_entry(4).fields);
    assert(out@[4]@ == palette_entry(4));
    out.push(command(
        "update-schema",
        "update-schema",
        "schema",
        "Fetch the provider schema into schema_dir.",
        "update-schema",
        EstateArg::Omitted,
        none,
        fields_of(
            &[
                valued(
                    "providers",
                    "--providers",
                    "Providers",
                    "comma-separated; the config's by default",
                ),
                valued("version", "--version", "Provider version", "the config's by default"),
            ],
        ),
        false,
    ));
    assert(out@[5]@.tail =~= palette_entry(5).tail);
    assert(out@[5]@.fields =~= palette_entry(5).fields);
    assert(out@[5]@ == palette_entry(5));
    out.push(command(
        "hcl-init",
        "hcl-init",
        "play_circle",
        "Run the tool's init in hcl_dir.",
        "hcl-init",
        EstateArg::Omitted,
        Vec::new(),
        fields_of(
            &[
                Field::Trailing {
                    key: "args",
                    label: "Extra arguments",
                    placeholder: "-reconfigure, -migrate-state",
                },
            ],
        ),
        false,
    ));
    assert(out@[6]@.tail =~= palette_entry(6).tail);
    assert(out@[6]@.fields =~= palette_entry(6).fields);
    assert(out@[6]@ == palette_entry(6));
    out.push(command(
        "plan",
        "plan",
        "preview",
        "Run the tool's plan in hcl_dir.",
        "plan",
        EstateArg::Omitted,
        Vec::new(),
        fields_of(
            &[
                Field::Trailing {
                    key: "args",
                    label: "Extra arguments",
                    placeholder: "-target=…, -out=plan.tfplan",
                },
            ],
        ),
        false,
    ));
    assert(out@[7]@.tail =~= palette_entry(7).tail);
    assert(out@[7]@.fields =~= palette_entry(7).fields);
    assert(out@[7]@ == palette_entry(7));
    out.push(command(
        "require",
        "require",
        "rule",
        "Which controls of a catalog the declared estate satisfies.",
        "require",
        EstateArg::Positional,
        Vec::new(),
        fields_of(
            &[
                Field::Positional { key: "framework", label: "Catalog", default: "cis-gcp-5.0" },
                switch("json", "--format=json", "JSON output"),
            ],
        ),
        false,
    ));
    assert(out@[8]@.tail =~= palette_entry(8).tail);
    assert(out@[8]@.fields =~= palette_entry(8).fields);
    assert(out@[8]@ == palette_entry(8));
    out.push(command(
        "report-compliance",
        "report-compliance",
        "verified",
        "The goal view joined with live verification, written as the evidence report.",
        "report-compliance",
        EstateArg::Positional,
        Vec::new(),
        fields_of(
            &[
                Field::Positional { key: "framework", label: "Catalog", default: "cis-gcp-5.0" },
                switch("no_live", "--no-live", "Declared estate only, no live verification"),
                switch("checkov", "--checkov", "Add the Checkov column"),
                valued("prowler", "--prowler", "Prowler OCSF export", "path to the json-ocsf file"),
                valued(
                    "report",
                    "--report",
                    "Report file",
                    "evidence/<catalog>-latest.md by default",
                ),
            ],
        ),
        false,
    ));
    assert(out@[9]@.tail =~= palette_entry(9).tail);
    assert(out@[9]@.fields =~= palette_entry(9).fields);
    assert(out@[9]@ == palette_entry(9));
    out.push(command(
        "get-presets",
        "get-presets",
        "download",
        "Fetch the upstream library: install what is missing, refresh what the estate does not use.",
        "get-presets",
        EstateArg::Omitted,
        Vec::new(),
        fields_of(
            &[
                switch("force", "--force", "Overwrite packs the estate uses as well"),
                valued(
                    "pristine_dir",
                    "--pristine-dir",
                    "Pristine directory",
                    "take the library from here instead of downloading",
                ),
            ],
        ),
        false,
    ));
    assert(out@[10]@.tail =~= palette_entry(10).tail);
    assert(out@[10]@.fields =~= palette_entry(10).fields);
    assert(out@[10]@ == palette_entry(10));
    out.push(command(
        "merge-presets",
        "merge-presets",
        "merge",
        "Reconcile the presets with upstream: new packs installed, unmodified ones upgraded, edited ones forked.",
        "merge-presets",
        EstateArg::Flag,
        Vec::new(),
        fields_of(
            &[
                switch("report_only", "--report-only", "Report only, write nothing"),
                valued(
                    "pristine_dir",
                    "--pristine-dir",
                    "Pristine directory",
                    "compare against this directory instead of downloading",
                ),
                valued("adopt", "--adopt", "Adopt upstream in place", "a pack stem, or all"),
            ],
        ),
        false,
    ));
    assert(out@[11]@.tail =~= palette_entry(11).tail);
    assert(out@[11]@.fields =~= palette_entry(11).fields);
    assert(out@[11]@ == palette_entry(11));
    out.push(command(
        "apply",
        "apply",
        "rocket_launch",
        "Run the tool's apply in hcl_dir — in your terminal, where its approval prompt is.",
        "apply",
        EstateArg::Omitted,
        Vec::new(),
        fields_of(
            &[
                Field::Trailing {
                    key: "args",
                    label: "Extra arguments",
                    placeholder: "-target=…, a saved plan file",
                },
            ],
        ),
        true,
    ));
    assert(out@[12]@.tail =~= palette_entry(12).tail);
    assert(out@[12]@.fields =~= palette_entry(12).fields);
    assert(out@[12]@ == palette_entry(12));
    out.push(command(
        "bootstrap",
        "bootstrap",
        "foundation",
        "Day 0: folder, project, billing link, core APIs and the state bucket, after a permission pre-flight — in your terminal.",
        "bootstrap",
        EstateArg::Positional,
        Vec::new(),
        fields_of(
            &[
                switch(
                    "dry_run",
                    "--dry-run",
                    "Dry run: print the plan and run the pre-flight, create nothing",
                ),
                switch(
                    "greenfield",
                    "--greenfield",
                    "Greenfield: materialise a not-yet-existing organisation",
                ),
            ],
        ),
        true,
    ));
    assert(out@[13]@.tail =~= palette_entry(13).tail);
    assert(out@[13]@.fields =~= palette_entry(13).fields);
    assert(out@[13]@ == palette_entry(13));
    assert forall|k: int| 0 <= k < 14 implies out@[k]@ == palette_entry(k) by {
    }
    assert(command_views(out@) =~= palette_table());
    assert(Seq::new(out@.len(), |i: int| out@[i].id) =~= palette_ids());
    out
}

/// The read-only session tools the view offers as one click: the tool, its icon, and
/// what it answers.
pub fn session_tools() -> (r: Vec<(&'static str, &'static str, &'static str)>)
    ensures
        r@ == seq![
            (
                "satz_whoami",
                "person_search",
                "both halves of the identity, with the live checks that decide whether the next call works",
            ),
            ("satz_transpile_check", "fact_check", "compile in memory over the session, write nothing"),
            ("satz_questions", "quiz", "the questions the estate's packs declare, with their state"),
        ],
{
    let mut v: Vec<(&'static str, &'static str, &'static str)> = Vec::new();
    v.push(
        (
            "satz_whoami",
            "person_search",
            "both halves of the identity, with the live checks that decide whether the next call works",
        ),
    );
    v.push(("satz_transpile_check", "fact_check", "compile in memory over the session, write nothing"));
    v.push(("satz_questions", "quiz", "the questions the estate's packs declare, with their state"));
    v
}


/// The script that puts `text` on the clipboard: the text goes in as a JSON string
/// literal, which is also a JavaScript one.
pub fn clipboard_script(text: &str) -> (r: String)
    ensures
        r@ == "navigator.clipboard.writeText("@ + json_compact(JsonV::Str(text@)) + ")"@,
{
    let literal = compact(&Json::Str(String::from_str(text)));
    let mut s = String::from_str("navigator.clipboard.writeText(");
    s.append(literal.as_str());
    s.append(")");
    s
}

} // verus!
