//! The words the chat shows for a tool call in place of its JSON: the one line a tool
//! card carries about the result, and the sentence and the short list of arguments the
//! approval card says the call will run with. The JSON itself is the debug log's.

use vstd::prelude::*;
use crate::json::{Json, JsonV, get, json_read, member, parse};
use crate::text::{
    chars_of, cut, cut_spec, dec, dec_string, first_line, first_line_of, join, join_strings,
    lines, lines_of, trim, trimmed,
};

verus! {

/// What the approval card says for a call without arguments, in place of `{}`.
pub const NO_ARGUMENTS: &'static str = "no arguments";

/// How many members of an object or items of an array are named before they are counted.
pub const MAX_NAMED: usize = 3;

/// How many `key: value` parts a result summary carries.
pub const MAX_PARTS: usize = 4;

/// Whether a line opens with a brace or a bracket: JSON, not prose.
pub open spec fn opens_json(l: Seq<char>) -> bool {
    l.len() > 0 && (l[0] == '{' || l[0] == '[')
}

/// The first of `ls`, trimmed, that is not empty — and, with `prose`, that does not
/// open with a brace or a bracket.
pub open spec fn first_shown(ls: Seq<Seq<char>>, prose: bool) -> Option<Seq<char>>
    decreases ls.len(),
{
    if ls.len() == 0 {
        None
    } else {
        let l = trim(ls[0]);
        if l.len() > 0 && !(prose && opens_json(l)) {
            Some(l)
        } else {
            first_shown(ls.drop_first(), prose)
        }
    }
}

/// A scalar in words — a string's first line without its quotes, cut when long — or
/// `None` for an array or an object.
pub open spec fn scalar_spec(v: JsonV) -> Option<Seq<char>> {
    match v {
        JsonV::Null => Some("none"@),
        JsonV::Bool(b) => Some(if b { "true"@ } else { "false"@ }),
        JsonV::Number(n) => Some(n),
        JsonV::Str(s) => Some(cut_spec(first_line(s))),
        _ => None,
    }
}

/// `key: value` for each of the first `n` members whose value is an array, the value
/// being the array's length.
pub open spec fn array_counts(keys: Seq<Seq<char>>, values: Seq<JsonV>, n: int) -> Seq<Seq<char>>
    decreases n,
{
    if n <= 0 {
        seq![]
    } else {
        let rest = array_counts(keys, values, n - 1);
        match values[n - 1] {
            JsonV::Array(items) => rest.push(keys[n - 1] + ": "@ + dec(items.len())),
            _ => rest,
        }
    }
}

/// `key: value` for each of the first `n` members whose value is a scalar.
pub open spec fn scalar_parts(keys: Seq<Seq<char>>, values: Seq<JsonV>, n: int) -> Seq<Seq<char>>
    decreases n,
{
    if n <= 0 {
        seq![]
    } else {
        let rest = scalar_parts(keys, values, n - 1);
        match scalar_spec(values[n - 1]) {
            Some(s) => rest.push(keys[n - 1] + ": "@ + s),
            None => rest,
        }
    }
}

/// At most [`MAX_PARTS`] of `parts`, joined with commas.
pub open spec fn some_parts(parts: Seq<Seq<char>>) -> Seq<char> {
    join(parts.take(if parts.len() > MAX_PARTS { MAX_PARTS as int } else { parts.len() as int }), ", "@)
}

/// The summary of a result that is not a refusal, given the value serde_json read from
/// it (`None` when it is not JSON).
pub open spec fn parsed_summary(body: Seq<char>, parsed: Option<JsonV>) -> Seq<char> {
    match parsed {
        Some(JsonV::Object(keys, values)) => {
            let counts = array_counts(keys, values, keys.len() as int);
            let scalars = scalar_parts(keys, values, keys.len() as int);
            if counts.len() > 0 {
                some_parts(counts)
            } else if scalars.len() > 0 {
                some_parts(scalars)
            } else if keys.len() == 0 {
                "an empty result"@
            } else {
                dec(keys.len()) + " fields"@
            }
        },
        Some(JsonV::Array(items)) => dec(items.len()) + " items"@,
        Some(other) => match scalar_spec(other) {
            Some(s) => s,
            None => "a result"@,
        },
        None => match first_shown(lines(body), false) {
            Some(l) => cut_spec(l),
            None => "no output"@,
        },
    }
}

/// The one line a tool card shows about a result, `body` being the text the model read.
pub open spec fn summary_spec(body: Seq<char>, is_error: bool) -> Seq<char> {
    if is_error {
        match first_shown(lines(body), true) {
            Some(l) => cut_spec(l),
            None => "the call was refused"@,
        }
    } else {
        parsed_summary(body, json_read(body))
    }
}

/// The first line of `ls`, trimmed, that is not empty (and, with `prose`, not JSON).
fn first_shown_of(ls: &Vec<Vec<char>>, prose: bool) -> (r: Option<Vec<char>>)
    ensures
        match r {
            Some(l) => first_shown(ls.deep_view(), prose) == Some(l@),
            None => first_shown(ls.deep_view(), prose) is None,
        },
{
    let ghost all = ls.deep_view();
    let mut i: usize = 0;
    assert(all.skip(0) =~= all);
    while i < ls.len()
        invariant
            i <= ls.len(),
            all == ls.deep_view(),
            first_shown(all, prose) == first_shown(all.skip(i as int), prose),
        decreases ls.len() - i,
    {
        let l = trimmed(ls[i].as_slice());
        proof {
            assert(ls@[i as int].deep_view() =~= ls@[i as int]@);
            assert(all.skip(i as int)[0] == all[i as int]);
            assert(all.skip(i as int).drop_first() =~= all.skip(i + 1));
        }
        if l.len() > 0 && !(prose && (l[0] == '{' || l[0] == '[')) {
            return Some(l);
        }
        i = i + 1;
    }
    None
}

/// A scalar in words, or `None` for an array or an object.
fn scalar(v: &Json) -> (r: Option<String>)
    ensures
        match r {
            Some(s) => scalar_spec(v@) == Some(s@),
            None => scalar_spec(v@) is None,
        },
{
    match v {
        Json::Null => Some(String::from_str("none")),
        Json::Bool(b) => Some(String::from_str(if *b { "true" } else { "false" })),
        Json::Number(n) => Some(n.clone()),
        Json::Str(s) => {
            let chars = chars_of(s.as_str());
            let line = first_line_of(chars.as_slice());
            Some(cut(line.as_slice()))
        },
        _ => None,
    }
}

/// `parts` with at most [`MAX_PARTS`] of them kept, joined with commas.
fn join_some(parts: Vec<String>) -> (r: String)
    ensures
        r@ == some_parts(parts.deep_view()),
{
    let mut parts = parts;
    let ghost all = parts.deep_view();
    if parts.len() > MAX_PARTS {
        parts.truncate(MAX_PARTS);
        assert(parts.deep_view() =~= all.take(MAX_PARTS as int));
    } else {
        assert(all.take(all.len() as int) =~= all);
    }
    join_strings(&parts, ", ")
}

/// The summary of a result that is not a refusal, from the value serde_json read of it.
pub fn parsed_summary_line(body: &str, parsed: &Option<Json>) -> (r: String)
    ensures
        r@ == parsed_summary(
            body@,
            match parsed {
                Some(j) => Some(j@),
                None => None,
            },
        ),
{
    match parsed {
        Some(Json::Object(members)) => {
            let ghost keys = parsed->0@->Object_0;
            let ghost values = parsed->0@->Object_1;
            let mut counts: Vec<String> = Vec::new();
            let mut scalars: Vec<String> = Vec::new();
            for i in 0..members.len()
                invariant
                    keys.len() == members.len() == values.len(),
                    forall|k: int| 0 <= k < members.len() ==> keys[k] == #[trigger] members@[k].0@,
                    forall|k: int| 0 <= k < members.len() ==> values[k] == #[trigger] members@[k].1@,
                    counts.deep_view() == array_counts(keys, values, i as int),
                    scalars.deep_view() == scalar_parts(keys, values, i as int),
            {
                let (k, v) = &members[i];
                assert(keys[i as int] == k@ && values[i as int] == v@);
                match v {
                    Json::Array(items) => {
                        let mut part = k.clone();
                        part.append(": ");
                        part.append(dec_string(items.len() as u128).as_str());
                        let ghost before = counts.deep_view();
                        counts.push(part);
                        assert(counts.deep_view() =~= before.push(part@));
                    },
                    _ => {},
                }
                match scalar(v) {
                    Some(s) => {
                        let mut part = k.clone();
                        part.append(": ");
                        part.append(s.as_str());
                        let ghost before = scalars.deep_view();
                        scalars.push(part);
                        assert(scalars.deep_view() =~= before.push(part@));
                    },
                    None => {},
                }
            }
            if counts.len() > 0 {
                join_some(counts)
            } else if scalars.len() > 0 {
                join_some(scalars)
            } else if members.len() == 0 {
                String::from_str("an empty result")
            } else {
                let mut s = dec_string(members.len() as u128);
                s.append(" fields");
                s
            }
        },
        Some(Json::Array(items)) => {
            let mut s = dec_string(items.len() as u128);
            s.append(" items");
            s
        },
        Some(other) => match scalar(other) {
            Some(s) => s,
            None => String::from_str("a result"),
        },
        None => {
            let chars = chars_of(body);
            let ls = lines_of(chars.as_slice());
            match first_shown_of(&ls, false) {
                Some(l) => cut(l.as_slice()),
                None => String::from_str("no output"),
            }
        },
    }
}

/// The one line a tool card shows about a result, from the text the model read. A
/// refusal is its first line of prose. A result that is a JSON object is its top-level
/// counts — `questions: 28`, one part per array — or, with no array in it, its short
/// scalar fields; anything else is its first line.
pub fn summary_line(body: &str, is_error: bool) -> (r: String)
    ensures
        r@ == summary_spec(body@, is_error),
{
    if is_error {
        let chars = chars_of(body);
        let ls = lines_of(chars.as_slice());
        return match first_shown_of(&ls, true) {
            Some(l) => cut(l.as_slice()),
            None => String::from_str("the call was refused"),
        };
    }
    let parsed = parse(body);
    parsed_summary_line(body, &parsed)
}

/// What the approval card says a call will do.
#[derive(Debug, Clone, PartialEq, Eq)]
pub struct ApprovalText {
    /// `Run satz_interview on C0example.satz with:`, or `… with no arguments.`
    pub sentence: String,
    /// one `name: value` line per argument; empty for a call without any
    pub arguments: Vec<String>,
}

/// Whether every one of `items` is a scalar.
pub open spec fn all_scalar(items: Seq<JsonV>) -> bool {
    forall|i: int| 0 <= i < items.len() ==> (#[trigger] scalar_spec(items[i])) is Some
}

/// One argument's value in words: a scalar as itself, a small array or object of
/// scalars spelled out, a larger one counted.
pub open spec fn shown_spec(v: JsonV) -> Seq<char> {
    match scalar_spec(v) {
        Some(s) => s,
        None => match v {
            JsonV::Array(items) => if items.len() == 0 {
                "none"@
            } else if all_scalar(items) && items.len() <= MAX_NAMED {
                join(Seq::new(items.len(), |i: int| scalar_spec(items[i])->0), ", "@)
            } else {
                dec(items.len()) + " items"@
            },
            JsonV::Object(keys, values) => if values.len() == 0 {
                "none"@
            } else if all_scalar(values) && values.len() <= MAX_NAMED {
                join(
                    Seq::new(values.len(), |i: int| keys[i] + " = "@ + scalar_spec(values[i])->0),
                    ", "@,
                )
            } else {
                dec(values.len()) + " entries"@
            },
            _ => seq![],
        },
    }
}

/// `name: value` for each of the first `n` arguments, but for an `estate` given as a
/// string.
pub open spec fn argument_lines(keys: Seq<Seq<char>>, values: Seq<JsonV>, n: int) -> Seq<Seq<char>>
    decreases n,
{
    if n <= 0 {
        seq![]
    } else {
        let rest = argument_lines(keys, values, n - 1);
        if keys[n - 1] == "estate"@ && values[n - 1] is Str {
            rest
        } else {
            rest.push(keys[n - 1] + ": "@ + shown_spec(values[n - 1]))
        }
    }
}

/// The estate a call names: its `estate` argument where that is a string, else the open
/// one.
pub open spec fn named_estate(input: JsonV, open_estate: Seq<char>) -> Seq<char> {
    match member(input, "estate"@) {
        Some(JsonV::Str(s)) => s,
        _ => open_estate,
    }
}

/// The approval card's sentence and argument lines for `tool` called with `input`.
pub open spec fn approval_spec(tool: Seq<char>, open_estate: Seq<char>, input: JsonV) -> (
    Seq<char>,
    Seq<Seq<char>>,
) {
    match input {
        JsonV::Object(keys, values) => {
            let arguments = argument_lines(keys, values, keys.len() as int);
            let estate = named_estate(input, open_estate);
            let sentence = if arguments.len() == 0 {
                "Run "@ + tool + " on "@ + estate + " with "@ + NO_ARGUMENTS@ + "."@
            } else {
                "Run "@ + tool + " on "@ + estate + " with:"@
            };
            (sentence, arguments)
        },
        _ => (
            "Run "@ + tool + " on "@ + open_estate
                + " with arguments that are not a JSON object; the debug log shows them."@,
            seq![],
        ),
    }
}

/// One argument's value in words.
fn shown(value: &Json) -> (r: String)
    ensures
        r@ == shown_spec(value@),
{
    if let Some(s) = scalar(value) {
        return s;
    }
    match value {
        Json::Array(items) => {
            if items.len() == 0 {
                return String::from_str("none");
            }
            let ghost vs = value@->Array_0;
            let mut named: Vec<String> = Vec::new();
            let mut all = true;
            for i in 0..items.len()
                invariant
                    vs.len() == items.len(),
                    forall|k: int| 0 <= k < items.len() ==> vs[k] == #[trigger] items@[k]@,
                    all ==> named.len() == i,
                    all ==> forall|k: int|
                        0 <= k < i ==> #[trigger] scalar_spec(vs[k]) == Some(named@[k]@),
                    all <==> forall|k: int| 0 <= k < i ==> (#[trigger] scalar_spec(vs[k])) is Some,
            {
                match scalar(&items[i]) {
                    Some(s) => {
                        if all {
                            named.push(s);
                        }
                    },
                    None => {
                        all = false;
                    },
                }
            }
            if all && named.len() <= MAX_NAMED {
                assert(named.deep_view() =~= Seq::new(vs.len(), |i: int| scalar_spec(vs[i])->0));
                join_strings(&named, ", ")
            } else {
                let mut s = dec_string(items.len() as u128);
                s.append(" items");
                s
            }
        },
        Json::Object(members) => {
            if members.len() == 0 {
                return String::from_str("none");
            }
            let ghost ks = value@->Object_0;
            let ghost vs = value@->Object_1;
            let mut named: Vec<String> = Vec::new();
            let mut all = true;
            for i in 0..members.len()
                invariant
                    vs.len() == members.len() == ks.len(),
                    forall|k: int| 0 <= k < members.len() ==> vs[k] == #[trigger] members@[k].1@,
                    forall|k: int| 0 <= k < members.len() ==> ks[k] == #[trigger] members@[k].0@,
                    all ==> named.len() == i,
                    all ==> forall|k: int|
                        0 <= k < i ==> named@[k]@ == ks[k] + " = "@ + #[trigger] scalar_spec(
                            vs[k],
                        )->0,
                    all ==> forall|k: int| 0 <= k < i ==> (#[trigger] scalar_spec(vs[k])) is Some,
                    !all ==> exists|k: int| 0 <= k < i && (#[trigger] scalar_spec(vs[k])) is None,
            {
                match scalar(&members[i].1) {
                    Some(s) => {
                        if all {
                            let mut line = members[i].0.clone();
                            line.append(" = ");
                            line.append(s.as_str());
                            named.push(line);
                        }
                    },
                    None => {
                        all = false;
                    },
                }
            }
            if all && named.len() <= MAX_NAMED {
                assert(named.deep_view() =~= Seq::new(
                    vs.len(),
                    |i: int| ks[i] + " = "@ + scalar_spec(vs[i])->0,
                ));
                join_strings(&named, ", ")
            } else {
                let mut s = dec_string(members.len() as u128);
                s.append(" entries");
                s
            }
        },
        _ => String::new(),
    }
}

/// The approval card's words for `tool` called with `input`. The estate is the one the
/// arguments name under `estate`, else `open_estate`; the `estate` argument is then not
/// repeated in the list.
pub fn approval_text(tool: &str, open_estate: &str, input: &Json) -> (r: ApprovalText)
    ensures
        (r.sentence@, r.arguments.deep_view()) == approval_spec(tool@, open_estate@, input@),
{
    let members = match input {
        Json::Object(members) => members,
        _ => {
            let mut sentence = String::from_str("Run ");
            sentence.append(tool);
            sentence.append(" on ");
            sentence.append(open_estate);
            sentence.append(
                " with arguments that are not a JSON object; the debug log shows them.",
            );
            let arguments: Vec<String> = Vec::new();
            assert(arguments.deep_view() =~= Seq::<Seq<char>>::empty());
            return ApprovalText { sentence, arguments };
        },
    };
    let estate: &str = match get(input, "estate") {
        Some(Json::Str(s)) => s.as_str(),
        _ => open_estate,
    };
    let ghost keys = input@->Object_0;
    let ghost values = input@->Object_1;
    let mut arguments: Vec<String> = Vec::new();
    for i in 0..members.len()
        invariant
            input@ == JsonV::Object(keys, values),
            *input == Json::Object(*members),
            keys.len() == members.len() == values.len(),
            forall|k: int| 0 <= k < members.len() ==> keys[k] == #[trigger] members@[k].0@,
            forall|k: int| 0 <= k < members.len() ==> values[k] == #[trigger] members@[k].1@,
            arguments.deep_view() == argument_lines(keys, values, i as int),
    {
        let (k, v) = &members[i];
        assert(keys[i as int] == k@ && values[i as int] == v@);
        let is_str = match v {
            Json::Str(_) => true,
            _ => false,
        };
        if !(crate::text::str_eq(k.as_str(), "estate") && is_str) {
            let mut line = k.clone();
            line.append(": ");
            line.append(shown(v).as_str());
            let ghost before = arguments.deep_view();
            arguments.push(line);
            assert(arguments.deep_view() =~= before.push(line@));
        }
    }
    let mut sentence = String::from_str("Run ");
    sentence.append(tool);
    sentence.append(" on ");
    sentence.append(estate);
    if arguments.len() == 0 {
        sentence.append(" with ");
        sentence.append(NO_ARGUMENTS);
        sentence.append(".");
    } else {
        sentence.append(" with:");
    }
    ApprovalText { sentence, arguments }
}


/// The positions of the first `n` members whose value is an array, in order.
pub open spec fn array_members(values: Seq<JsonV>, n: int) -> Seq<int>
    decreases n,
{
    if n <= 0 {
        seq![]
    } else {
        let rest = array_members(values, n - 1);
        if values[n - 1] is Array {
            rest.push(n - 1)
        } else {
            rest
        }
    }
}

proof fn lemma_array_counts(keys: Seq<Seq<char>>, values: Seq<JsonV>, n: int)
    requires
        n <= values.len(),
    ensures
        ({
            let at = array_members(values, n);
            &&& array_counts(keys, values, n).len() == at.len()
            &&& forall|k: int|
                0 <= k < at.len() ==> 0 <= #[trigger] at[k] < n && values[at[k]] is Array
                    && array_counts(keys, values, n)[k] == keys[at[k]] + ": "@ + dec(
                    values[at[k]]->Array_0.len(),
                )
            &&& forall|k: int, l: int| 0 <= k < l < at.len() ==> #[trigger] at[k] < #[trigger] at[l]
            &&& forall|i: int| 0 <= i < n && (#[trigger] values[i]) is Array ==> at.len() > 0
        }),
    decreases n,
{
    if n > 0 {
        lemma_array_counts(keys, values, n - 1);
        let rest = array_members(values, n - 1);
        let at = array_members(values, n);
        let rc = array_counts(keys, values, n - 1);
        let c = array_counts(keys, values, n);
        assert forall|k: int| 0 <= k < at.len() implies 0 <= #[trigger] at[k] < n && values[at[k]] is Array
            && c[k] == keys[at[k]] + ": "@ + dec(values[at[k]]->Array_0.len()) by {
            if k < rest.len() {
                assert(at[k] == rest[k]);
                assert(c[k] == rc[k]);
            }
        }
        assert forall|k: int, l: int| 0 <= k < l < at.len() implies #[trigger] at[k] < #[trigger] at[l] by {
            if l < rest.len() {
                assert(at[k] == rest[k] && at[l] == rest[l]);
            } else {
                assert(at[k] == rest[k]);
            }
        }
        assert forall|i: int| 0 <= i < n && (#[trigger] values[i]) is Array implies at.len() > 0 by {
            if i < n - 1 {
                assert(rest.len() > 0);
            }
        }
    }
}

/// A result that reads as an object with an array among its members is summed up by
/// its top-level counts alone: at most four `key: length` parts, one for each array
/// member in the object's order, joined with commas; no scalar member shows.
pub proof fn law_an_object_is_summed_up_by_its_counts(body: Seq<char>)
    requires
        json_read(body) matches Some(JsonV::Object(keys, values)) && keys.len() == values.len()
            && exists|i: int| 0 <= i < values.len() && (#[trigger] values[i]) is Array,
    ensures
        json_read(body) matches Some(JsonV::Object(keys, values)) && {
            let at = array_members(values, values.len() as int);
            let counts = array_counts(keys, values, keys.len() as int);
            &&& counts.len() > 0
            &&& summary_spec(body, false) == some_parts(counts)
            &&& counts == Seq::new(
                at.len(),
                |k: int| keys[at[k]] + ": "@ + dec(values[at[k]]->Array_0.len()),
            )
            &&& forall|k: int| 0 <= k < at.len() ==> (#[trigger] values[at[k]]) is Array
            &&& forall|k: int, l: int| 0 <= k < l < at.len() ==> #[trigger] at[k] < #[trigger] at[l]
        },
{
    let (keys, values) = match json_read(body) {
        Some(JsonV::Object(k, v)) => (k, v),
        _ => (seq![], seq![]),
    };
    lemma_array_counts(keys, values, keys.len() as int);
    let at = array_members(values, values.len() as int);
    let counts = array_counts(keys, values, keys.len() as int);
    let i = choose|i: int| 0 <= i < values.len() && (#[trigger] values[i]) is Array;
    assert(values[i] is Array);
    assert(counts =~= Seq::new(
        at.len(),
        |k: int| keys[at[k]] + ": "@ + dec(values[at[k]]->Array_0.len()),
    ));
}


/// Member `i` as a summary part: `key: value` for a scalar member, nothing for another.
pub open spec fn scalar_part(keys: Seq<Seq<char>>, values: Seq<JsonV>, i: int) -> Option<Seq<char>> {
    match scalar_spec(values[i]) {
        Some(s) => Some(keys[i] + ": "@ + s),
        None => None,
    }
}

/// The `key: value` parts of the scalar members among the first `n`, one per scalar
/// member, in the object's order.
pub open spec fn every_scalar_part(keys: Seq<Seq<char>>, values: Seq<JsonV>, n: int) -> Seq<Seq<char>> {
    Seq::new(n as nat, |i: int| i).filter_map(|i: int| scalar_part(keys, values, i))
}

proof fn lemma_scalar_parts_all(keys: Seq<Seq<char>>, values: Seq<JsonV>, n: int)
    requires
        0 <= n,
    ensures
        scalar_parts(keys, values, n) == every_scalar_part(keys, values, n),
    decreases n,
{
    if n > 0 {
        lemma_scalar_parts_all(keys, values, n - 1);
        let idx = Seq::new(n as nat, |i: int| i);
        assert(idx.drop_last() =~= Seq::new((n - 1) as nat, |i: int| i));
        assert(idx.last() == n - 1);
        let r = scalar_parts(keys, values, n - 1);
        match scalar_spec(values[n - 1]) {
            Some(t) => {
                assert(r.push(keys[n - 1] + ": "@ + t) =~= r + seq![keys[n - 1] + ": "@ + t]);
            },
            None => {},
        }
    }
}

proof fn lemma_no_array_counts(keys: Seq<Seq<char>>, values: Seq<JsonV>, n: int)
    requires
        n <= values.len(),
        forall|i: int| 0 <= i < n ==> !((#[trigger] values[i]) is Array),
    ensures
        array_counts(keys, values, n).len() == 0,
    decreases n,
{
    if n > 0 {
        lemma_no_array_counts(keys, values, n - 1);
    }
}

/// A result that reads as an object with no array member is summed up by its scalar
/// members: at most four of the `key: value` parts, one for every scalar member in the
/// object's order, joined with commas. Each scalar member gives exactly one part.
pub proof fn law_an_object_without_arrays_shows_its_scalars(body: Seq<char>)
    requires
        json_read(body) matches Some(JsonV::Object(keys, values)) && keys.len() == values.len()
            && (forall|i: int| 0 <= i < values.len() ==> !((#[trigger] values[i]) is Array))
            && exists|i: int| 0 <= i < values.len() && (#[trigger] scalar_spec(values[i])) is Some,
    ensures
        json_read(body) matches Some(JsonV::Object(keys, values)) && {
            &&& summary_spec(body, false) == some_parts(every_scalar_part(keys, values, keys.len() as int))
            &&& every_scalar_part(keys, values, keys.len() as int).len() == Seq::new(
                keys.len(),
                |i: int| i,
            ).filter(|i: int| scalar_spec(values[i]) is Some).len()
        },
{
    let (keys, values) = match json_read(body) {
        Some(JsonV::Object(k, v)) => (k, v),
        _ => (seq![], seq![]),
    };
    let n = keys.len() as int;
    lemma_no_array_counts(keys, values, n);
    lemma_scalar_parts_all(keys, values, n);
    lemma_scalar_count(keys, values, n);
    let i = choose|i: int| 0 <= i < values.len() && (#[trigger] scalar_spec(values[i])) is Some;
    lemma_scalar_present(keys, values, n, i);
}

proof fn lemma_scalar_count(keys: Seq<Seq<char>>, values: Seq<JsonV>, n: int)
    requires
        0 <= n,
    ensures
        every_scalar_part(keys, values, n).len() == Seq::new(n as nat, |i: int| i).filter(
            |i: int| scalar_spec(values[i]) is Some,
        ).len(),
    decreases n,
{
    reveal(Seq::filter);
    if n > 0 {
        lemma_scalar_count(keys, values, n - 1);
        let idx = Seq::new(n as nat, |i: int| i);
        assert(idx.drop_last() =~= Seq::new((n - 1) as nat, |i: int| i));
    }
}

proof fn lemma_scalar_present(keys: Seq<Seq<char>>, values: Seq<JsonV>, n: int, i: int)
    requires
        0 <= i < n,
        scalar_spec(values[i]) is Some,
    ensures
        every_scalar_part(keys, values, n).len() > 0,
    decreases n,
{
    let idx = Seq::new(n as nat, |k: int| k);
    assert(idx.drop_last() =~= Seq::new((n - 1) as nat, |k: int| k));
    if i < n - 1 {
        lemma_scalar_present(keys, values, n - 1, i);
    }
}
} // verus!
