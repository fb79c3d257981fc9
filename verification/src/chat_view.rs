//! What the chat's rail, footer, composer and debug panel say: a transcript's label, the
//! usage of a turn, the keys of the effort levels, and a call's element id.

use vstd::prelude::*;
use crate::chat::{Effort, Usage};
use crate::text::{chars_of, dec, dec_string, str_eq, string_of};

verus! {

/// The effort levels in the order the composer offers them, each with its key.
pub open spec fn efforts() -> Seq<(Effort, Seq<char>)> {
    seq![
        (Effort::Low, "low"@),
        (Effort::Medium, "medium"@),
        (Effort::High, "high"@),
        (Effort::Xhigh, "xhigh"@),
        (Effort::Max, "max"@),
    ]
}

/// The key an effort level is saved and offered under.
pub open spec fn effort_key_spec(e: Effort) -> &'static str {
    match e {
        Effort::Low => "low",
        Effort::Medium => "medium",
        Effort::High => "high",
        Effort::Xhigh => "xhigh",
        Effort::Max => "max",
    }
}

/// The key an effort level is saved and offered under.
pub fn effort_key(effort: Effort) -> (r: &'static str)
    ensures
        r == effort_key_spec(effort),
{
    match effort {
        Effort::Low => "low",
        Effort::Medium => "medium",
        Effort::High => "high",
        Effort::Xhigh => "xhigh",
        Effort::Max => "max",
    }
}

/// The effort level a key names, `None` for a key that names none.
pub open spec fn effort_from_spec(key: Seq<char>) -> Option<Effort> {
    if key == "low"@ {
        Some(Effort::Low)
    } else if key == "medium"@ {
        Some(Effort::Medium)
    } else if key == "high"@ {
        Some(Effort::High)
    } else if key == "xhigh"@ {
        Some(Effort::Xhigh)
    } else if key == "max"@ {
        Some(Effort::Max)
    } else {
        None
    }
}

/// The effort level a key names, `None` for a key that names none.
pub fn effort_from(key: &str) -> (r: Option<Effort>)
    ensures
        r == effort_from_spec(key@),
{
    if str_eq(key, "low") {
        Some(Effort::Low)
    } else if str_eq(key, "medium") {
        Some(Effort::Medium)
    } else if str_eq(key, "high") {
        Some(Effort::High)
    } else if str_eq(key, "xhigh") {
        Some(Effort::Xhigh)
    } else if str_eq(key, "max") {
        Some(Effort::Max)
    } else {
        None
    }
}

/// Every effort level's key reads back as that level.
pub proof fn law_effort_key_reads_back(e: Effort)
    ensures
        effort_from_spec(effort_key_spec(e)@) == Some(e),
{
    reveal_strlit("low");
    reveal_strlit("medium");
    reveal_strlit("high");
    reveal_strlit("xhigh");
    reveal_strlit("max");
    assert("medium"@.len() != "low"@.len());
    assert("high"@.len() != "low"@.len() && "high"@.len() != "medium"@.len());
    assert("xhigh"@.len() != "low"@.len() && "xhigh"@.len() != "medium"@.len() && "xhigh"@.len()
        != "high"@.len());
    assert("max"@[0] != "low"@[0]);
    assert("max"@.len() != "medium"@.len() && "max"@.len() != "high"@.len() && "max"@.len()
        != "xhigh"@.len());
}

/// Whether a call id keeps `c` in an element id: an ASCII letter or digit, `-` or `_`.
pub open spec fn id_char(c: char) -> bool {
    ('a' <= c <= 'z') || ('A' <= c <= 'Z') || ('0' <= c <= '9') || c == '-' || c == '_'
}

/// The characters of `s` that [`id_char`] keeps, in order.
pub open spec fn id_chars(s: Seq<char>) -> Seq<char>
    decreases s.len(),
{
    if s.len() == 0 {
        seq![]
    } else if id_char(s.last()) {
        id_chars(s.drop_last()).push(s.last())
    } else {
        id_chars(s.drop_last())
    }
}

/// The element id of a call's entry: only a call id's letters, digits, `-` and `_` are
/// kept.
pub fn entry_id(call: &str) -> (r: String)
    ensures
        r@ == "chat-debug-"@ + id_chars(call@),
{
    let cs = chars_of(call);
    let mut out = String::from_str("chat-debug-");
    let ghost head = out@;
    for i in 0..cs.len()
        invariant
            cs@ == call@,
            out@ == head + id_chars(call@.take(i as int)),
    {
        let c = cs[i];
        assert(call@.take(i + 1).drop_last() =~= call@.take(i as int));
        assert(call@.take(i + 1).last() == c);
        if ('a' <= c && c <= 'z') || ('A' <= c && c <= 'Z') || ('0' <= c && c <= '9') || c == '-'
            || c == '_' {
            out.push(c);
        }
    }
    assert(call@.take(cs.len() as int) =~= call@);
    out
}

/// A figure the provider may leave out: the number, or `n/a`.
pub open spec fn reported_spec(value: Option<u64>) -> Seq<char> {
    match value {
        Some(n) => dec(n as nat),
        None => "n/a"@,
    }
}

/// A figure the provider may leave out: the number, or `n/a`.
pub fn reported(value: Option<u64>) -> (r: String)
    ensures
        r@ == reported_spec(value),
{
    match value {
        Some(n) => dec_string(n as u128),
        None => String::from_str("n/a"),
    }
}

/// `in 1200 · out 80 · cache read 0 · cache write 900`; a figure the provider never
/// reports reads `n/a`.
pub fn usage_text(u: &Usage) -> (r: String)
    ensures
        r@ == "in "@ + dec(u.input_tokens as nat) + " · out "@ + dec(u.output_tokens as nat)
            + " · cache read "@ + reported_spec(u.cache_read_input_tokens) + " · cache write "@
            + reported_spec(u.cache_creation_input_tokens),
{
    let mut s = String::from_str("in ");
    s.append(dec_string(u.input_tokens as u128).as_str());
    s.append(" · out ");
    s.append(dec_string(u.output_tokens as u128).as_str());
    s.append(" · cache read ");
    s.append(reported(u.cache_read_input_tokens).as_str());
    s.append(" · cache write ");
    s.append(reported(u.cache_creation_input_tokens).as_str());
    s
}

/// The file stem `std::path::Path::file_stem` reads from `path`, lossily as UTF-8;
/// nothing where the path has no file name. How a path splits into components is the
/// platform's the library is built for (on Windows `\` separates too, and a drive
/// prefix counts), so within one build the stem is a function of the text alone.
pub uninterp spec fn stem_of(path: Seq<char>) -> Seq<char>;

/// `Path::new(path).file_stem()`, lossily as UTF-8, empty where there is none. What a
/// stem is — the file name without its last extension — is std's, and is left to the
/// name [`stem_of`].
#[verifier::external_body]
fn file_stem(path: &str) -> (r: String)
    ensures
        r@ == stem_of(path@),
{
    std::path::Path::new(path).file_stem().map(|s| s.to_string_lossy().into_owned()).unwrap_or_default()
}

pub open spec fn is_digit(c: char) -> bool {
    '0' <= c <= '9'
}

/// The character a transcript's name holds at `i` of its first nineteen: `-` between the
/// date's parts and the time's, `T` between date and time, a digit elsewhere.
pub open spec fn instant_char(i: int, c: char) -> bool {
    if i == 4 || i == 7 || i == 13 || i == 16 {
        c == '-'
    } else if i == 10 {
        c == 'T'
    } else {
        is_digit(c)
    }
}

/// A transcript's name as the app writes it: `2026-09-13T21-56-00.123456Z`.
pub open spec fn shaped(stem: Seq<char>) -> bool {
    &&& stem.len() >= 20
    &&& forall|i: int| 0 <= i < 19 ==> instant_char(i, #[trigger] stem[i])
    &&& stem[19] == '.'
    &&& stem.last() == 'Z'
}

/// The instant a transcript was started, read from its name, or the name as it is.
pub open spec fn label_spec(stem: Seq<char>) -> Seq<char> {
    if shaped(stem) {
        stem.subrange(0, 10) + " "@ + stem.subrange(11, 13) + ":"@ + stem.subrange(14, 16) + ":"@
            + stem.subrange(17, 19) + " UTC"@
    } else {
        stem
    }
}

fn push_range(out: &mut String, s: &Vec<char>, from: usize, to: usize)
    requires
        from <= to <= s.len(),
    ensures
        final(out)@ == old(out)@ + s@.subrange(from as int, to as int),
{
    let ghost start = out@;
    for i in from..to
        invariant
            to <= s.len(),
            out@ == start + s@.subrange(from as int, i as int),
    {
        out.push(s[i]);
        assert(s@.subrange(from as int, i + 1) =~= s@.subrange(from as int, i as int).push(s@[i as int]));
    }
}

/// The instant a transcript was started, read from its file name
/// (`2026-09-13T21-56-00.123456Z.jsonl` is `2026-09-13 21:56:00 UTC`); a name of
/// another shape is shown as it is.
pub fn transcript_label(path: &str) -> (r: String)
    ensures
        r@ == label_spec(stem_of(path@)),
{
    let stem = file_stem(path);
    stem_label(stem.as_str())
}

/// The label of a transcript whose file stem is `stem`: the instant it was started
/// (`2026-09-13T21-56-00.123456Z` is `2026-09-13 21:56:00 UTC`), or a stem of another
/// shape as it is.
pub fn stem_label(stem: &str) -> (r: String)
    ensures
        r@ == label_spec(stem@),
{
    let cs = chars_of(stem);
    let mut ok = cs.len() >= 20;
    if ok {
        let mut i: usize = 0;
        while i < 19
            invariant
                cs.len() >= 20,
                i <= 19,
                ok == forall|k: int| 0 <= k < i ==> instant_char(k, #[trigger] cs@[k]),
            decreases 19 - i,
        {
            let c = cs[i];
            let good = if i == 4 || i == 7 || i == 13 || i == 16 {
                c == '-'
            } else if i == 10 {
                c == 'T'
            } else {
                '0' <= c && c <= '9'
            };
            ok = ok && good;
            i = i + 1;
        }
        ok = ok && cs[19] == '.' && cs[cs.len() - 1] == 'Z';
    }
    assert(ok == shaped(stem@));
    if !ok {
        return String::from_str(stem);
    }
    let mut out = String::new();
    push_range(&mut out, &cs, 0, 10);
    out.push(' ');
    push_range(&mut out, &cs, 11, 13);
    out.push(':');
    push_range(&mut out, &cs, 14, 16);
    out.push(':');
    push_range(&mut out, &cs, 17, 19);
    out.append(" UTC");
    proof {
        reveal_strlit(" ");
        reveal_strlit(":");
    }
    out
}

} // verus!
