//! The Decisions destination: the questions the estate's packs declare, one at a time, the
//! unanswered ones first. The walk follows its question by subject, because a reload
//! reorders the list, and remembers the questions it moved away from, for Back.

use vstd::prelude::*;
use crate::json::{Json, JsonV, compact, json_compact};
use crate::reports::{
    Blast, NO_BRANCH, NONE_LABEL, QuestionKind, QuestionRow, QuestionState, QuestionV, Reversal,
    bound_label_spec, bound_option_spec, offered_spec, offers_none, opt_str, row_shown, rows, strs,
};
use crate::text::str_eq;

verus! {

/// The questions of `qs` in state `st`, in the report's order.
pub open spec fn in_state(qs: Seq<QuestionV>, st: QuestionState) -> Seq<QuestionV>
    decreases qs.len(),
{
    if qs.len() == 0 {
        seq![]
    } else {
        let rest = in_state(qs.drop_last(), st);
        if qs.last().state == st {
            rest.push(qs.last())
        } else {
            rest
        }
    }
}

/// The walk's list: the unanswered questions as the report lists them, then — when
/// answered ones are shown — the answered ones and the ones not asked.
pub open spec fn ordered_spec(qs: Seq<QuestionV>, show_answered: bool) -> Seq<QuestionV> {
    if show_answered {
        in_state(qs, QuestionState::Unanswered) + in_state(qs, QuestionState::Answered)
            + in_state(qs, QuestionState::NotApplicable)
    } else {
        in_state(qs, QuestionState::Unanswered)
    }
}

proof fn lemma_rows_push(qs: Seq<QuestionRow>, i: int)
    requires
        0 <= i < qs.len(),
    ensures
        rows(qs.take(i + 1)) == rows(qs.take(i)).push(qs[i]@),
        rows(qs.take(i + 1)).drop_last() == rows(qs.take(i)),
{
    assert(rows(qs.take(i + 1)) =~= rows(qs.take(i)).push(qs[i]@));
    assert(rows(qs.take(i + 1)).drop_last() =~= rows(qs.take(i)));
}

fn push_in_state(out: &mut Vec<QuestionRow>, questions: &[QuestionRow], st: QuestionState)
    ensures
        rows(final(out)@) == rows(old(out)@) + in_state(rows(questions@), st),
{
    let ghost start = rows(out@);
    for i in 0..questions.len()
        invariant
            rows(out@) == start + in_state(rows(questions@.take(i as int)), st),
    {
        proof {
            lemma_rows_push(questions@, i as int);
        }
        if questions[i].state == st {
            let q = questions[i].clone();
            let ghost before = rows(out@);
            out.push(q);
            assert(rows(out@) =~= before.push(q@));
        }
        assert(rows(out@) =~= start + in_state(rows(questions@.take(i + 1)), st));
    }
    assert(questions@.take(questions.len() as int) =~= questions@);
}

/// The questions in the order the view walks them: the unanswered ones as the report
/// lists them, then — when asked for — the answered ones and the ones not asked.
pub fn ordered(questions: &[QuestionRow], show_answered: bool) -> (r: Vec<QuestionRow>)
    ensures
        rows(r@) == ordered_spec(rows(questions@), show_answered),
{
    let mut out: Vec<QuestionRow> = Vec::new();
    assert(rows(out@) =~= seq![]);
    push_in_state(&mut out, questions, QuestionState::Unanswered);
    assert(rows(out@) =~= in_state(rows(questions@), QuestionState::Unanswered));
    if show_answered {
        push_in_state(&mut out, questions, QuestionState::Answered);
        push_in_state(&mut out, questions, QuestionState::NotApplicable);
    }
    out
}

/// The first question of `list` from `k` on whose subject is `s`.
pub open spec fn find_from(list: Seq<QuestionV>, s: Seq<char>, k: int) -> Option<int>
    decreases list.len() - k,
{
    if k < 0 || k >= list.len() {
        None
    } else if list[k].subject == s {
        Some(k)
    } else {
        find_from(list, s, k + 1)
    }
}

/// The first question of `list` whose subject is `s`.
pub open spec fn find_subject(list: Seq<QuestionV>, s: Seq<char>) -> Option<int> {
    find_from(list, s, 0)
}

pub proof fn lemma_find_from(list: Seq<QuestionV>, s: Seq<char>, k: int)
    requires
        0 <= k,
    ensures
        match find_from(list, s, k) {
            Some(i) => k <= i < list.len() && list[i].subject == s && forall|j: int|
                k <= j < i ==> #[trigger] list[j].subject != s,
            None => forall|j: int| k <= j < list.len() ==> #[trigger] list[j].subject != s,
        },
    decreases list.len() - k,
{
    if k < list.len() && list[k].subject != s {
        lemma_find_from(list, s, k + 1);
    }
}

fn find_subject_in(list: &[QuestionRow], s: &str) -> (r: Option<usize>)
    ensures
        match r {
            Some(i) => find_subject(rows(list@), s@) == Some(i as int) && i < list.len(),
            None => find_subject(rows(list@), s@) is None,
        },
{
    let ghost v = rows(list@);
    proof {
        lemma_find_from(v, s@, 0);
    }
    let mut k: usize = 0;
    while k < list.len()
        invariant
            v == rows(list@),
            k <= list.len(),
            find_subject(v, s@) == find_from(v, s@, k as int),
        decreases list.len() - k,
    {
        if str_eq(list[k].subject.as_str(), s) {
            return Some(k);
        }
        k = k + 1;
    }
    None
}

/// Where the walk stands, as plain values.
pub struct WalkV {
    pub subject: Option<Seq<char>>,
    pub index: int,
    pub left: Seq<Seq<char>>,
}

/// Where the walk stands. The card follows its question by `subject`, because a reload
/// reorders the list: an answer moves a question into the answered block, or out of the
/// walk while answered questions are hidden. `index` is where the card was, for when its
/// question has left the list — the question that took its place is shown. `left` holds
/// the questions the walk moved away from, the latest last, for Back.
#[derive(Debug, Clone, PartialEq)]
pub struct Walk {
    subject: Option<String>,
    index: usize,
    left: Vec<String>,
}


impl View for Walk {
    type V = WalkV;

    closed spec fn view(&self) -> WalkV {
        WalkV { subject: opt_str(self.subject), index: self.index as int, left: strs(self.left@) }
    }
}

/// The walk before its first step: on the first question, nothing left behind.
pub open spec fn fresh_walk() -> WalkV {
    WalkV { subject: None, index: 0, left: seq![] }
}

impl Default for Walk {
    fn default() -> (r: Walk)
        ensures
            r@ == fresh_walk(),
    {
        let r = Walk { subject: None, index: 0, left: Vec::new() };
        assert(strs(r.left@) =~= seq![]);
        r
    }
}

/// The position of the card's question in `list`: its subject's, else where the card
/// was, and never past the last question.
pub open spec fn position_spec(w: WalkV, list: Seq<QuestionV>) -> int {
    let p = match w.subject {
        Some(s) => match find_subject(list, s) {
            Some(i) => i,
            None => w.index,
        },
        None => w.index,
    };
    let cap = if list.len() == 0 {
        0
    } else {
        list.len() - 1
    };
    if p < cap {
        p
    } else {
        cap
    }
}

/// The card's question remembered for Back, unless it is the one remembered last.
pub open spec fn leave_spec(w: WalkV, list: Seq<QuestionV>) -> WalkV {
    let p = position_spec(w, list);
    if p < list.len() && !(w.left.len() > 0 && w.left.last() == list[p].subject) {
        WalkV { left: w.left.push(list[p].subject), ..w }
    } else {
        w
    }
}

/// The walk on the question at `to` of its list, the card's question left behind; no
/// change where `to` is past the list or is the card's own.
pub open spec fn open_spec(w: WalkV, qs: Seq<QuestionV>, show: bool, to: int) -> WalkV {
    let list = ordered_spec(qs, show);
    if to >= list.len() || to == position_spec(w, list) {
        w
    } else {
        WalkV { subject: Some(list[to].subject), index: to, left: leave_spec(w, list).left }
    }
}

/// Next, Skip and Accept: the question after the card's, the first after the last. With
/// one question in the walk the card stays, unless it is being answered while answered
/// questions are hidden: then it is let go and left for Back.
pub open spec fn step_spec(w: WalkV, qs: Seq<QuestionV>, show: bool, answering: bool) -> WalkV {
    let list = ordered_spec(qs, show);
    if list.len() == 0 {
        w
    } else {
        let from = position_spec(w, list);
        let to = (from + 1) % (list.len() as int);
        if to != from {
            open_spec(w, qs, show, to)
        } else if answering && !show {
            WalkV { subject: None, index: 0, left: leave_spec(w, list).left }
        } else {
            w
        }
    }
}

/// Back: the question last left that the report still carries, with whether answered
/// questions must be shown to hold it; the ones it no longer carries are dropped.
pub open spec fn back_spec(w: WalkV, qs: Seq<QuestionV>, show: bool) -> (WalkV, Option<bool>)
    decreases w.left.len(),
{
    if w.left.len() == 0 {
        (w, None)
    } else {
        let s = w.left.last();
        let rest = w.left.drop_last();
        match find_subject(qs, s) {
            None => back_spec(WalkV { left: rest, ..w }, qs, show),
            Some(i) => {
                let sh = show || qs[i].state != QuestionState::Unanswered;
                let idx = match find_subject(ordered_spec(qs, sh), s) {
                    Some(j) => j,
                    None => 0,
                };
                (WalkV { subject: Some(s), index: idx, left: rest }, Some(sh))
            },
        }
    }
}

/// "Show answered" switched: the card keeps its question where the new list holds it,
/// and starts from the first question where it does not.
pub open spec fn switched_spec(w: WalkV, qs: Seq<QuestionV>, from: bool, to: bool) -> WalkV {
    let before = ordered_spec(qs, from);
    let p = position_spec(w, before);
    let after = ordered_spec(qs, to);
    if p < before.len() {
        match find_subject(after, before[p].subject) {
            Some(i) => WalkV { subject: Some(before[p].subject), index: i, left: w.left },
            None => WalkV { subject: None, index: 0, left: w.left },
        }
    } else {
        WalkV { subject: None, index: 0, left: w.left }
    }
}

impl Walk {
    /// The position of the card's question in `list`.
    pub fn position(&self, list: &[QuestionRow]) -> (r: usize)
        ensures
            r as int == position_spec(self@, rows(list@)),
    {
        let p = match &self.subject {
            Some(s) => match find_subject_in(list, s.as_str()) {
                Some(i) => i,
                None => self.index,
            },
            None => self.index,
        };
        let cap = if list.len() == 0 {
            0
        } else {
            list.len() - 1
        };
        if p < cap {
            p
        } else {
            cap
        }
    }

    fn leave(&mut self, list: &[QuestionRow])
        ensures
            final(self)@ == leave_spec(old(self)@, rows(list@)),
    {
        let p = self.position(list);
        if p < list.len() {
            let n = self.left.len();
            let same = n > 0 && str_eq(self.left[n - 1].as_str(), list[p].subject.as_str());
            if !same {
                let ghost before = self.left@;
                self.left.push(list[p].subject.clone());
                assert(strs(self.left@) =~= strs(before).push(list@[p as int].subject@));
            }
        }
    }

    /// Open the question at `to` in the walk's list, remembering the one on the card.
    pub fn open(&mut self, questions: &[QuestionRow], show_answered: bool, to: usize)
        ensures
            final(self)@ == open_spec(old(self)@, rows(questions@), show_answered, to as int),
    {
        let list = ordered(questions, show_answered);
        if to >= list.len() {
            return ;
        }
        if to == self.position(list.as_slice()) {
            return ;
        }
        self.leave(list.as_slice());
        self.subject = Some(list[to].subject.clone());
        self.index = to;
    }

    /// Skip, or Next: the question after the card's, the first one after the last. The
    /// only question in the walk stays on the card: there is nowhere to go.
    pub fn next(&mut self, questions: &[QuestionRow], show_answered: bool)
        ensures
            final(self)@ == step_spec(old(self)@, rows(questions@), show_answered, false),
    {
        self.step(questions, show_answered, false);
    }

    /// Accept: the card's question is being written, and the walk moves on as Next does.
    /// It is called with the report as it stands before the write, and the card follows
    /// the question it moves to by subject. The only question in the walk is let go when
    /// answered questions are hidden — the write takes it out of the walk — and Back
    /// returns to it.
    pub fn accept(&mut self, questions: &[QuestionRow], show_answered: bool)
        ensures
            final(self)@ == step_spec(old(self)@, rows(questions@), show_answered, true),
    {
        self.step(questions, show_answered, true);
    }

    fn step(&mut self, questions: &[QuestionRow], show_answered: bool, answering: bool)
        ensures
            final(self)@ == step_spec(old(self)@, rows(questions@), show_answered, answering),
    {
        let list = ordered(questions, show_answered);
        if list.len() == 0 {
            return ;
        }
        let from = self.position(list.as_slice());
        let to = (from + 1) % list.len();
        if to != from {
            self.open(questions, show_answered, to);
        } else if answering && !show_answered {
            self.leave(list.as_slice());
            self.subject = None;
            self.index = 0;
        }
    }

    /// Whether Back has a question to return to.
    pub fn can_go_back(&self) -> (r: bool)
        ensures
            r == (self@.left.len() > 0),
    {
        self.left.len() > 0
    }

    /// Back: the question the walk last moved away from. `None` when there is none;
    /// otherwise whether answered questions have to be shown to hold it, because an
    /// answered question is not in the walk while they are hidden.
    pub fn back(&mut self, questions: &[QuestionRow], show_answered: bool) -> (r: Option<bool>)
        ensures
            (final(self)@, r) == back_spec(old(self)@, rows(questions@), show_answered),
    {
        let ghost qs = rows(questions@);
        while self.left.len() > 0
            invariant
                qs == rows(questions@),
                back_spec(self@, qs, show_answered) == back_spec(old(self)@, qs, show_answered),
            decreases self.left.len(),
        {
            let ghost w0 = self@;
            let subject = self.left.pop().unwrap();
            assert(strs(self.left@) =~= w0.left.drop_last());
            // a question the report no longer carries (its pack is gone) is passed over
            match find_subject_in(questions, subject.as_str()) {
                None => {},
                Some(i) => {
                    let show = show_answered || questions[i].state != QuestionState::Unanswered;
                    let list = ordered(questions, show);
                    self.index = match find_subject_in(list.as_slice(), subject.as_str()) {
                        Some(j) => j,
                        None => 0,
                    };
                    self.subject = Some(subject);
                    return Some(show);
                },
            }
        }
        None
    }

    /// "Show answered" switched from `from` to `to`: the card keeps its question when
    /// the new list holds it, and starts from the first question when it does not.
    pub fn switched(&mut self, questions: &[QuestionRow], from: bool, to: bool)
        ensures
            final(self)@ == switched_spec(old(self)@, rows(questions@), from, to),
    {
        let before = ordered(questions, from);
        let p = self.position(before.as_slice());
        let after = ordered(questions, to);
        if p < before.len() {
            match find_subject_in(after.as_slice(), before[p].subject.as_str()) {
                Some(i) => {
                    self.subject = Some(before[p].subject.clone());
                    self.index = i;
                },
                None => {
                    self.subject = None;
                    self.index = 0;
                },
            }
        } else {
            self.subject = None;
            self.index = 0;
        }
    }
}

/// No two questions of `qs` share a subject.
pub open spec fn distinct_subjects(qs: Seq<QuestionV>) -> bool {
    forall|i: int, j: int|
        #![trigger qs[i], qs[j]]
        0 <= i < qs.len() && 0 <= j < qs.len() && qs[i].subject == qs[j].subject ==> i == j
}

proof fn lemma_in_state_contains(qs: Seq<QuestionV>, st: QuestionState)
    ensures
        forall|x: QuestionV| #[trigger]
            in_state(qs, st).contains(x) <==> (qs.contains(x) && x.state == st),
    decreases qs.len(),
{
    broadcast use vstd::seq_lib::lemma_seq_contains_after_push;

    if qs.len() > 0 {
        let p = qs.drop_last();
        let l = qs.last();
        lemma_in_state_contains(p, st);
        assert(qs =~= p.push(l));
        assert forall|x: QuestionV| #[trigger]
            in_state(qs, st).contains(x) <==> (qs.contains(x) && x.state == st) by {
            assert(p.push(l).contains(x) <==> (l == x || p.contains(x)));
            assert(qs.contains(x) == p.push(l).contains(x));
            assert(in_state(p, st).contains(x) <==> (p.contains(x) && x.state == st));
            if l.state == st {
                assert(in_state(qs, st) == in_state(p, st).push(l));
                assert(in_state(p, st).push(l).contains(x) <==> (l == x || in_state(
                    p,
                    st,
                ).contains(x)));
            }
        }
    } else {
        assert forall|x: QuestionV| #[trigger]
            in_state(qs, st).contains(x) <==> (qs.contains(x) && x.state == st) by {
            assert(in_state(qs, st).len() == 0);
        }
    }
}

proof fn lemma_in_state_len(qs: Seq<QuestionV>)
    ensures
        in_state(qs, QuestionState::Unanswered).len() + in_state(qs, QuestionState::Answered).len()
            + in_state(qs, QuestionState::NotApplicable).len() == qs.len(),
    decreases qs.len(),
{
    if qs.len() > 0 {
        lemma_in_state_len(qs.drop_last());
    }
}

proof fn lemma_in_state_distinct(qs: Seq<QuestionV>, st: QuestionState)
    requires
        distinct_subjects(qs),
    ensures
        distinct_subjects(in_state(qs, st)),
    decreases qs.len(),
{
    if qs.len() > 0 {
        let p = qs.drop_last();
        let l = qs.last();
        assert forall|i: int, j: int|
            0 <= i < p.len() && 0 <= j < p.len() && #[trigger] p[i].subject
                == #[trigger] p[j].subject implies i == j by {
            assert(qs[i] == p[i] && qs[j] == p[j]);
        }
        lemma_in_state_distinct(p, st);
        if l.state == st {
            let r = in_state(p, st);
            lemma_in_state_contains(p, st);
            assert forall|k: int| 0 <= k < r.len() implies #[trigger] r[k].subject != l.subject by {
                assert(r.contains(r[k]));
                let m = choose|m: int| 0 <= m < p.len() && p[m] == r[k];
                assert(qs[m] == p[m]);
                assert(qs[qs.len() - 1] == l);
            }
            let rp = r.push(l);
            assert forall|i: int, j: int|
                0 <= i < rp.len() && 0 <= j < rp.len() && #[trigger] rp[i].subject
                    == #[trigger] rp[j].subject implies i == j by {
                if i < r.len() && j < r.len() {
                    assert(r[i] == rp[i] && r[j] == rp[j]);
                } else if i < r.len() {
                    assert(r[i] == rp[i]);
                } else if j < r.len() {
                    assert(r[j] == rp[j]);
                }
            }
        }
    }
}

/// Two questions of a report whose subjects are distinct are one question when their
/// subjects are equal.
proof fn lemma_one_row_per_subject(qs: Seq<QuestionV>, x: QuestionV, y: QuestionV)
    requires
        distinct_subjects(qs),
        qs.contains(x),
        qs.contains(y),
        x.subject == y.subject,
    ensures
        x == y,
{
    let i = choose|i: int| 0 <= i < qs.len() && qs[i] == x;
    let j = choose|j: int| 0 <= j < qs.len() && qs[j] == y;
    assert(qs[i].subject == qs[j].subject);
}

proof fn lemma_ordered_contains(qs: Seq<QuestionV>, show: bool)
    ensures
        forall|x: QuestionV| #[trigger]
            ordered_spec(qs, show).contains(x) <==> (qs.contains(x) && (show || x.state
                == QuestionState::Unanswered)),
{
    broadcast use vstd::seq_lib::lemma_seq_concat_contains_all_elements;

    lemma_in_state_contains(qs, QuestionState::Unanswered);
    lemma_in_state_contains(qs, QuestionState::Answered);
    lemma_in_state_contains(qs, QuestionState::NotApplicable);
    assert forall|x: QuestionV| #[trigger]
        ordered_spec(qs, show).contains(x) <==> (qs.contains(x) && (show || x.state
            == QuestionState::Unanswered)) by {
        let u = in_state(qs, QuestionState::Unanswered);
        let a = in_state(qs, QuestionState::Answered);
        let n = in_state(qs, QuestionState::NotApplicable);
        if show {
            assert((u + a + n).contains(x) == ((u + a).contains(x) || n.contains(x)));
            assert((u + a).contains(x) == (u.contains(x) || a.contains(x)));
        }
    }
}

proof fn lemma_ordered_distinct(qs: Seq<QuestionV>, show: bool)
    requires
        distinct_subjects(qs),
    ensures
        distinct_subjects(ordered_spec(qs, show)),
{
    let u = in_state(qs, QuestionState::Unanswered);
    let a = in_state(qs, QuestionState::Answered);
    let n = in_state(qs, QuestionState::NotApplicable);
    lemma_in_state_distinct(qs, QuestionState::Unanswered);
    lemma_in_state_distinct(qs, QuestionState::Answered);
    lemma_in_state_distinct(qs, QuestionState::NotApplicable);
    lemma_in_state_contains(qs, QuestionState::Unanswered);
    lemma_in_state_contains(qs, QuestionState::Answered);
    lemma_in_state_contains(qs, QuestionState::NotApplicable);
    if show {
        let l = u + a + n;
        assert forall|i: int, j: int|
            0 <= i < l.len() && 0 <= j < l.len() && #[trigger] l[i].subject
                == #[trigger] l[j].subject implies i == j by {
            // each index names a block and a question of that block
            let (bi, si, ki) = if i < u.len() {
                (0int, u, i)
            } else if i < u.len() + a.len() {
                (1int, a, i - u.len())
            } else {
                (2int, n, i - u.len() - a.len())
            };
            let (bj, sj, kj) = if j < u.len() {
                (0int, u, j)
            } else if j < u.len() + a.len() {
                (1int, a, j - u.len())
            } else {
                (2int, n, j - u.len() - a.len())
            };
            assert(l[i] == si[ki]);
            assert(l[j] == sj[kj]);
            assert(si.contains(si[ki]));
            assert(sj.contains(sj[kj]));
            lemma_one_row_per_subject(qs, l[i], l[j]);
            if bi == bj {
                assert(si == sj);
            }
        }
    }
}

/// In a list whose subjects are distinct, a question's subject finds that question.
proof fn lemma_find_own(list: Seq<QuestionV>, k: int)
    requires
        distinct_subjects(list),
        0 <= k < list.len(),
    ensures
        find_subject(list, list[k].subject) == Some(k),
{
    lemma_find_from(list, list[k].subject, 0);
}

/// A walk's card is always on a question of a list that has one.
pub proof fn law_card_is_on_a_question(w: WalkV, list: Seq<QuestionV>)
    requires
        w.index >= 0,
        list.len() > 0,
    ensures
        0 <= position_spec(w, list) < list.len(),
{
    if let Some(s) = w.subject {
        lemma_find_from(list, s, 0);
    }
}

/// The walk's list holds the unanswered questions first, in the report's order; it holds
/// a question of the report exactly when answered questions are shown or the question
/// is unanswered; and with answered questions shown it holds every question once.
pub proof fn law_ordered_lists_each_question(qs: Seq<QuestionV>, show: bool)
    ensures
        ordered_spec(qs, show).take(in_state(qs, QuestionState::Unanswered).len() as int)
            == in_state(qs, QuestionState::Unanswered),
        forall|x: QuestionV| #[trigger]
            ordered_spec(qs, show).contains(x) <==> (qs.contains(x) && (show || x.state
                == QuestionState::Unanswered)),
        show ==> ordered_spec(qs, show).len() == qs.len(),
        distinct_subjects(qs) ==> distinct_subjects(ordered_spec(qs, show)),
{
    lemma_ordered_contains(qs, show);
    lemma_in_state_len(qs);
    if distinct_subjects(qs) {
        lemma_ordered_distinct(qs, show);
    }
    let u = in_state(qs, QuestionState::Unanswered);
    assert(ordered_spec(qs, show).take(u.len() as int) =~= u);
}

/// Next moves the card to the question after its own in the walk's list, and from the
/// last to the first; with one question in the walk the card stays where it is.
pub proof fn law_next_follows_the_list(w: WalkV, qs: Seq<QuestionV>, show: bool)
    requires
        distinct_subjects(qs),
        w.index >= 0,
        ordered_spec(qs, show).len() > 0,
    ensures
        ({
            let list = ordered_spec(qs, show);
            position_spec(step_spec(w, qs, show, false), list) == (position_spec(w, list) + 1)
                % (list.len() as int)
        }),
{
    let list = ordered_spec(qs, show);
    law_card_is_on_a_question(w, list);
    let from = position_spec(w, list);
    let to = (from + 1) % (list.len() as int);
    if to != from {
        lemma_ordered_distinct(qs, show);
        lemma_find_own(list, to);
    }
}

/// Opening a question from the list, then Back, returns the card to the question it was
/// on: Back answers whether answered questions must be shown to hold it, and in the list
/// it names the card is on that question.
pub proof fn law_back_returns_to_the_question_left(
    w: WalkV,
    qs: Seq<QuestionV>,
    show: bool,
    to: int,
)
    requires
        distinct_subjects(qs),
        w.index >= 0,
        0 <= to < ordered_spec(qs, show).len(),
        to != position_spec(w, ordered_spec(qs, show)),
    ensures
        ({
            let list = ordered_spec(qs, show);
            let q = list[position_spec(w, list)];
            let sh = show || q.state != QuestionState::Unanswered;
            let (w2, r) = back_spec(open_spec(w, qs, show, to), qs, show);
            &&& r == Some(sh)
            &&& w2.subject == Some(q.subject)
            &&& ordered_spec(qs, sh)[position_spec(w2, ordered_spec(qs, sh))] == q
        }),
{
    let list = ordered_spec(qs, show);
    law_card_is_on_a_question(w, list);
    let p = position_spec(w, list);
    let q = list[p];
    let w1 = open_spec(w, qs, show, to);
    assert(w1.left.last() == q.subject);
    lemma_ordered_contains(qs, show);
    assert(list.contains(q));
    lemma_find_from(qs, q.subject, 0);
    let i = find_subject(qs, q.subject)->0;
    assert(qs.contains(qs[i]));
    lemma_one_row_per_subject(qs, qs[i], q);
    let sh = show || q.state != QuestionState::Unanswered;
    let l2 = ordered_spec(qs, sh);
    lemma_ordered_contains(qs, sh);
    assert(l2.contains(q));
    lemma_ordered_distinct(qs, sh);
    let k = choose|k: int| 0 <= k < l2.len() && l2[k] == q;
    lemma_find_own(l2, k);
}

/// Switching "Show answered" keeps the card on its question wherever the new list holds
/// it: always when answered questions are turned on, and for an unanswered question
/// either way.
pub proof fn law_switch_keeps_the_question(w: WalkV, qs: Seq<QuestionV>, from: bool, to: bool)
    requires
        distinct_subjects(qs),
        w.index >= 0,
        ordered_spec(qs, from).len() > 0,
        to || ordered_spec(qs, from)[position_spec(w, ordered_spec(qs, from))].state
            == QuestionState::Unanswered,
    ensures
        ({
            let before = ordered_spec(qs, from);
            let after = ordered_spec(qs, to);
            after[position_spec(switched_spec(w, qs, from, to), after)] == before[position_spec(
                w,
                before,
            )]
        }),
{
    let before = ordered_spec(qs, from);
    let after = ordered_spec(qs, to);
    law_card_is_on_a_question(w, before);
    let x = before[position_spec(w, before)];
    lemma_ordered_contains(qs, from);
    lemma_ordered_contains(qs, to);
    assert(before.contains(x));
    assert(after.contains(x));
    lemma_ordered_distinct(qs, to);
    let k = choose|k: int| 0 <= k < after.len() && after[k] == x;
    lemma_find_own(after, k);
}

/// Whether one of `q`'s options binds the param `p`.
pub open spec fn has_option(q: QuestionV, p: Seq<char>) -> bool {
    exists|k: int| 0 <= k < q.options.len() && #[trigger] q.options[k].param == p
}

/// The option the view starts on: the one the estate binds, else the one the pack
/// offers as its default where it is one of the options — or [`NO_BRANCH`] on a choice
/// that offers it — else nothing chosen.
pub open spec fn initial_option_spec(q: QuestionV) -> Option<Seq<char>> {
    match bound_option_spec(q) {
        Some(b) => Some(b),
        None => match q.default {
            Some(JsonV::Str(d)) => if has_option(q, d) || (offers_none(q) && d == NO_BRANCH@) {
                Some(d)
            } else {
                None
            },
            _ => None,
        },
    }
}

fn has_param(q: &QuestionRow, d: &str) -> (r: bool)
    ensures
        r == has_option(q@, d@),
{
    let mut k: usize = 0;
    while k < q.options.len()
        invariant
            k <= q.options.len(),
            forall|j: int| 0 <= j < k ==> #[trigger] q@.options[j].param != d@,
        decreases q.options.len() - k,
    {
        assert(q@.options[k as int] == q.options@[k as int]@);
        if str_eq(q.options[k].param.as_str(), d) {
            assert(q@.options[k as int].param == d@);
            return true;
        }
        k = k + 1;
    }
    false
}

/// The option the view starts on: the one the estate binds, else the one the pack
/// offers as its default, else nothing chosen. A choice that is not required binds and
/// offers [`NO_BRANCH`] like an option.
pub fn initial_option(q: &QuestionRow) -> (r: Option<String>)
    ensures
        opt_str(r) == initial_option_spec(q@),
{
    if let Some(b) = q.bound_option() {
        return Some(String::from_str(b));
    }
    let d = match &q.default {
        Some(Json::Str(d)) => d,
        _ => return None,
    };
    let mut known = has_param(q, d.as_str());
    if !known && q.offers_none() {
        known = str_eq(d.as_str(), NO_BRANCH);
    }
    if known {
        Some(d.clone())
    } else {
        None
    }
}

/// The chips of a choice as plain values: each option's param and label, then
/// [`NO_BRANCH`] where the choice is not required.
pub open spec fn choices_spec(q: QuestionV) -> Seq<(Seq<char>, Seq<char>)> {
    Seq::new(q.options.len(), |i: int| (q.options[i].param, q.options[i].label)) + if offers_none(
        q,
    ) {
        seq![(NO_BRANCH@, NONE_LABEL@)]
    } else {
        seq![]
    }
}

pub open spec fn pairs(v: Seq<(String, String)>) -> Seq<(Seq<char>, Seq<char>)> {
    Seq::new(v.len(), |i: int| (v[i].0@, v[i].1@))
}

/// The chips of a choice: each option's param and label, then [`NO_BRANCH`] where the
/// choice is not required.
pub fn choices(q: &QuestionRow) -> (r: Vec<(String, String)>)
    ensures
        pairs(r@) == choices_spec(q@),
{
    let mut out: Vec<(String, String)> = Vec::new();
    for i in 0..q.options.len()
        invariant
            out.len() == i,
            forall|k: int|
                #![trigger out@[k]]
                0 <= k < i ==> out@[k].0@ == q@.options[k].param && out@[k].1@
                    == q@.options[k].label,
    {
        out.push((q.options[i].param.clone(), q.options[i].label.clone()));
        assert(q@.options[i as int] == q.options@[i as int]@);
    }
    assert(pairs(out@) =~= Seq::new(
        q@.options.len(),
        |k: int| (q@.options[k].param, q@.options[k].label),
    ));
    let ghost head = pairs(out@);
    if q.offers_none() {
        out.push((String::from_str(NO_BRANCH), String::from_str(NONE_LABEL)));
        assert(pairs(out@) =~= head + seq![(NO_BRANCH@, NONE_LABEL@)]);
    } else {
        assert(head =~= head + seq![]);
    }
    out
}

/// What the card's filled button does: write the card's value and move on, or move on.
#[derive(Debug, Clone, Copy, PartialEq, Eq, Structural)]
pub enum PrimaryAction {
    Accept,
    Next,
}

/// The card's filled button: its words, its icon, what a click does and whether it can be
/// clicked.
#[derive(Debug, Clone, Copy, PartialEq, Eq)]
pub struct Primary {
    pub label: &'static str,
    pub icon: &'static str,
    pub action: PrimaryAction,
    pub enabled: bool,
}

/// The filled button of a card with a field or chips. `changed` is the card's value
/// differing from the one the estate binds; `valid` is the value being one that can be
/// written. A question not answered reads Accept, which writes what the card holds, the
/// offered default included. An answered one — or one not asked — reads Next while its
/// value is the bound one, and Accept once it differs. Accept is disabled on a value
/// that cannot be written and while a write is in flight; Next writes nothing and is
/// never disabled.
pub fn primary(state: QuestionState, changed: bool, valid: bool, loading: bool) -> (r: Primary)
    ensures
        if state != QuestionState::Unanswered && !changed {
            r == (Primary {
                label: "Next",
                icon: "arrow_forward",
                action: PrimaryAction::Next,
                enabled: true,
            })
        } else {
            r == (Primary {
                label: "Accept",
                icon: "check",
                action: PrimaryAction::Accept,
                enabled: valid && !loading,
            })
        },
{
    if state != QuestionState::Unanswered && !changed {
        Primary { label: "Next", icon: "arrow_forward", action: PrimaryAction::Next, enabled: true }
    } else {
        Primary {
            label: "Accept",
            icon: "check",
            action: PrimaryAction::Accept,
            enabled: valid && !loading,
        }
    }
}

/// The text button that moves on beside the filled one: Skip on a question not answered;
/// on any other only where the card has no filled button — a param with no field — and
/// there it reads Next.
pub fn text_forward(state: QuestionState, has_primary: bool) -> (r: Option<&'static str>)
    ensures
        r == if state == QuestionState::Unanswered {
            Some("Skip")
        } else if has_primary {
            None
        } else {
            Some("Next")
        },
{
    if state == QuestionState::Unanswered {
        Some("Skip")
    } else if has_primary {
        None
    } else {
        Some("Next")
    }
}

/// What the card holds, ready for its filled button: whether it differs from the bound
/// value, whether it can be written, and the value the interview is sent.
#[derive(Debug, Clone, PartialEq)]
pub struct Held {
    pub changed: bool,
    pub valid: bool,
    pub value: Json,
}

pub open spec fn opt_view(s: Option<&str>) -> Option<Seq<char>> {
    match s {
        Some(t) => Some(t@),
        None => None,
    }
}

/// A `oneof`'s chips. `chosen` is the chip picked on the card, `bound` the option the
/// estate binds: the card is changed when they differ, can be written once a chip is
/// picked, and sends the chosen param, or null.
pub fn held_oneof(chosen: Option<&str>, bound: Option<&str>) -> (r: Held)
    ensures
        r.changed == (opt_view(chosen) != opt_view(bound)),
        r.valid == chosen.is_some(),
        r.value@ == match chosen {
            Some(c) => JsonV::Str(c@),
            None => JsonV::Null,
        },
{
    let changed = match (chosen, bound) {
        (Some(c), Some(b)) => !str_eq(c, b),
        (None, None) => false,
        _ => true,
    };
    let value = match chosen {
        Some(c) => Json::Str(String::from_str(c)),
        None => Json::Null,
    };
    Held { changed, valid: chosen.is_some(), value }
}

/// A typed answer's field, from what the field says of its draft: whether the draft
/// differs from the field the offered value fills in (`changed`), the draft's problem
/// for its kind, whether nothing is typed, and the value it sends. `offered` is the
/// report's value — the estate's own for an answered question, else the pack's
/// default; `empty_answers` is the question saying what `""` means. Nothing typed is
/// no answer to a question that offers nothing, unless the question says what nothing
/// means.
pub fn held_param(
    changed: bool,
    problem: Option<&str>,
    draft_empty: bool,
    value: Json,
    offered: Option<&Json>,
    empty_answers: bool,
) -> (r: Held)
    ensures
        r.changed == changed,
        r.valid == (problem is None && (offered is Some || empty_answers || !draft_empty)),
        r.value == value,
{
    Held {
        changed,
        valid: problem.is_none() && (offered.is_some() || empty_answers || !draft_empty),
        value,
    }
}

/// A JSON value as the interview prints it beside the recommendation: a string as its
/// text, anything else as compact JSON.
pub open spec fn iv_shown(v: JsonV) -> Seq<char> {
    match v {
        JsonV::Str(s) => s,
        _ => json_compact(v),
    }
}

fn shown(v: &Json) -> (r: String)
    ensures
        r@ == iv_shown(v@),
{
    match v {
        Json::Str(s) => s.clone(),
        _ => compact(v),
    }
}

/// The pack's recommendation, where it is something other than what is offered.
pub open spec fn recommends_otherwise_spec(q: QuestionV) -> Option<Seq<char>> {
    match q.recommend {
        None => None,
        Some(r) => match offered_spec(q) {
            Some(o) => if iv_shown(o) == r {
                None
            } else {
                Some(r)
            },
            None => Some(r),
        },
    }
}

/// Whether the pack's recommendation is something other than what is offered.
pub fn recommends_otherwise(q: &QuestionRow) -> (r: Option<&str>)
    ensures
        opt_view(r) == recommends_otherwise_spec(q@),
{
    let r = match &q.recommend {
        Some(r) => r,
        None => return None,
    };
    match q.offered() {
        Some(offered) => {
            let s = shown(offered);
            if str_eq(s.as_str(), r.as_str()) {
                None
            } else {
                Some(r.as_str())
            }
        },
        None => Some(r.as_str()),
    }
}

/// What a question holds as the card's chip says it: a choice's bound option's label, a
/// param's current value as the question shows it; nothing where there is none.
pub open spec fn answer_spec(q: QuestionV) -> Seq<char> {
    match q.kind {
        QuestionKind::Oneof => match bound_label_spec(q) {
            Some(l) => l,
            None => seq![],
        },
        QuestionKind::Param => match q.current {
            Some(v) => row_shown(q, v),
            None => seq![],
        },
    }
}

/// A question's state as the card's chip and the list say it: an icon and the words.
pub open spec fn state_of_spec(q: QuestionV) -> (Seq<char>, Seq<char>) {
    match q.state {
        QuestionState::Unanswered => if q.blocking {
            ("priority_high"@, "needs a value"@)
        } else {
            ("radio_button_unchecked"@, "open"@)
        },
        QuestionState::Answered => ("check_circle"@, "answered: "@ + answer_spec(q)),
        QuestionState::NotApplicable => ("block"@, "not asked: its ask_when is false"@),
    }
}

/// A question's state as the card's chip and the list say it: an icon and the words. A
/// choice says its bound option's label, or `None`.
pub fn state_of(q: &QuestionRow) -> (r: (&'static str, String))
    ensures
        (r.0@, r.1@) == state_of_spec(q@),
{
    match q.state {
        QuestionState::Unanswered => if q.blocking {
            ("priority_high", String::from_str("needs a value"))
        } else {
            ("radio_button_unchecked", String::from_str("open"))
        },
        QuestionState::Answered => {
            let answer = match q.kind {
                QuestionKind::Oneof => match q.bound_label() {
                    Some(l) => l,
                    None => String::new(),
                },
                QuestionKind::Param => match &q.current {
                    Some(v) => q.shown(v),
                    None => String::new(),
                },
            };
            let mut words = String::from_str("answered: ");
            words.append(answer.as_str());
            ("check_circle", words)
        },
        QuestionState::NotApplicable => (
            "block",
            String::from_str("not asked: its ask_when is false"),
        ),
    }
}

/// The list's supporting line for a question: its subject, then its state.
pub fn listed(q: &QuestionRow) -> (r: String)
    ensures
        r@ == q@.subject + " · "@ + state_of_spec(q@).1,
{
    let (_, words) = state_of(q);
    let mut out = q.subject.clone();
    out.append(" · ");
    out.append(words.as_str());
    out
}

/// What changing an answer later takes, as the card says it.
pub fn reversal_label(r: Reversal) -> (s: &'static str)
    ensures
        s == match r {
            Reversal::Edit => "changing it later: an edit",
            Reversal::StateSurgery => "changing it later: state surgery",
            Reversal::Recreate => "changing it later: a recreate",
        },
{
    match r {
        Reversal::Edit => "changing it later: an edit",
        Reversal::StateSurgery => "changing it later: state surgery",
        Reversal::Recreate => "changing it later: a recreate",
    }
}

/// How far a wrong answer reaches, as the card says it.
pub fn blast_label(b: Blast) -> (s: &'static str)
    ensures
        s == match b {
            Blast::Nothing => "blast: none",
            Blast::Low => "blast: low",
            Blast::High => "blast: high",
        },
{
    match b {
        Blast::Nothing => "blast: none",
        Blast::Low => "blast: low",
        Blast::High => "blast: high",
    }
}

/// The card's identity as plain values: its subject, its field's shape, the value it
/// starts on as the interview prints it and the option it starts on, joined by `|`.
pub open spec fn card_key_spec(q: QuestionV, field: Seq<char>) -> Seq<char> {
    let offered = match offered_spec(q) {
        Some(v) => iv_shown(v),
        None => seq![],
    };
    let option = match initial_option_spec(q) {
        Some(o) => o,
        None => seq![],
    };
    q.subject + "|"@ + field + "|"@ + offered + "|"@ + option
}

/// The card's identity: its question, its field's shape (`field`, as the card names it)
/// and the value it starts on. A reload that changes the value a card starts on starts
/// that card afresh, so it never holds a value the report no longer offers.
pub fn card_key(q: &QuestionRow, field: &str) -> (r: String)
    ensures
        r@ == card_key_spec(q@, field@),
{
    let offered = match q.offered() {
        Some(v) => shown(v),
        None => String::new(),
    };
    let option = match initial_option(q) {
        Some(o) => o,
        None => String::new(),
    };
    let mut out = q.subject.clone();
    out.append("|");
    out.append(field);
    out.append("|");
    out.append(offered.as_str());
    out.append("|");
    out.append(option.as_str());
    out
}


/// How many of `qs` are unanswered and offer a default: what "Accept defaults" binds.
pub open spec fn offered_defaults_spec(qs: Seq<QuestionV>) -> nat
    decreases qs.len(),
{
    if qs.len() == 0 {
        0
    } else {
        offered_defaults_spec(qs.drop_last()) + if qs.last().state == QuestionState::Unanswered
            && qs.last().default is Some {
            1nat
        } else {
            0nat
        }
    }
}

/// How many questions are unanswered and offer a default.
pub fn offered_defaults(questions: &[QuestionRow]) -> (r: usize)
    ensures
        r == offered_defaults_spec(rows(questions@)),
{
    let mut n: usize = 0;
    for i in 0..questions.len()
        invariant
            n == offered_defaults_spec(rows(questions@).take(i as int)),
            n <= i,
    {
        assert(rows(questions@).take(i + 1).drop_last() =~= rows(questions@).take(i as int));
        let q = &questions[i];
        if q.state == QuestionState::Unanswered && q.default.is_some() {
            n = n + 1;
        }
    }
    assert(rows(questions@).take(questions.len() as int) =~= rows(questions@));
    n
}

/// What the card says under its field, before what an empty field means: that a value
/// is needed where nothing is offered and the question blocks (at least one, for a list
/// field), the estate's own value for an answered question, else the pack's default.
pub open spec fn hint_base(q: QuestionV, list_field: bool) -> Seq<char> {
    match offered_spec(q) {
        None => if q.blocking {
            if list_field {
                "no default — at least one value is needed"@
            } else {
                "no default — a value is needed"@
            }
        } else {
            seq![]
        },
        Some(v) => if q.state == QuestionState::Answered {
            "the estate's own value: "@ + row_shown(q, v)
        } else {
            "the pack's default: "@ + row_shown(q, v)
        },
    }
}

/// The line under a question's field: [`hint_base`], with what an empty field means
/// where the question says so — unless the offered value is itself `""`, whose shown
/// form already carries it.
pub open spec fn field_hint_spec(q: QuestionV, list_field: bool) -> Seq<char> {
    let base = hint_base(q, list_field);
    let offers_empty = offered_spec(q) matches Some(JsonV::Str(t)) && t.len() == 0;
    match q.empty {
        Some(m) => if offers_empty {
            base
        } else if base.len() == 0 {
            "empty means "@ + m
        } else {
            base + "; empty means "@ + m
        },
        None => base,
    }
}

/// The line under a question's field; `list_field` is whether the field takes a list.
pub fn field_hint(q: &QuestionRow, list_field: bool) -> (r: String)
    ensures
        r@ == field_hint_spec(q@, list_field),
{
    let offered = q.offered();
    let mut base = match offered {
        None => if q.blocking {
            if list_field {
                String::from_str("no default — at least one value is needed")
            } else {
                String::from_str("no default — a value is needed")
            }
        } else {
            String::new()
        },
        Some(v) => {
            let mut h = if q.state == QuestionState::Answered {
                String::from_str("the estate's own value: ")
            } else {
                String::from_str("the pack's default: ")
            };
            h.append(q.shown(v).as_str());
            h
        },
    };
    assert(base@ == hint_base(q@, list_field));
    let offers_empty = match offered {
        Some(Json::Str(t)) => crate::text::chars_of(t.as_str()).len() == 0,
        _ => false,
    };
    match &q.empty {
        Some(m) => {
            if offers_empty {
                base
            } else if crate::text::chars_of(base.as_str()).len() == 0 {
                let mut h = String::from_str("empty means ");
                h.append(m.as_str());
                h
            } else {
                base.append("; empty means ");
                base.append(m.as_str());
                base
            }
        },
        None => base,
    }
}

} // verus!
