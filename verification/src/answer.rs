//! Answers returned by the System One endpoint.
//!
//! One answer comes back per question, under the id the caller chose. Every
//! answer carries a type matching its question. Choice and Score answers also
//! carry a confidence derived from their probability distribution; Noul
//! answers do not, because the probability is the answer.
//!
//! The answer types are generic over `P`, the representation of a
//! probability, which this module only carries and compares nothing of.

use vstd::prelude::*;

use crate::error::TypeSafeError;
use crate::ordered::{lookup, Entries, OrderedMap};
use crate::text::{decimal, decimal_string, parse_u64, parsed_u64};

verus! {

/// Token usage. Only input tokens are billed.
#[derive(Clone, Copy, Debug)]
pub struct Usage {
    pub input_tokens: u64,
    pub output_tokens: u64,
}

/// The probability that the answer to a yes/no question is yes.
#[derive(Clone, Copy, Debug)]
pub struct NoulAnswer<P> {
    /// 0 (no) to 1 (yes). A value near 0.5 means the model genuinely cannot
    /// tell, not that the answer is "medium".
    pub noul: P,
}

/// The selected option, the distribution across all options, and confidence.
#[derive(Clone, Debug)]
pub struct ChoiceAnswer<P> {
    /// The highest-probability option.
    pub choice: String,
    /// Every option mapped to its probability.
    pub probabilities: OrderedMap<P>,
    /// How concentrated the distribution is, 0 to 1.
    pub confidence: P,
}

/// A probability-weighted position across the question's levels.
#[derive(Clone, Debug)]
pub struct ScoreAnswer<P> {
    /// The weighted answer. Can land between levels.
    pub score: P,
    /// Level index (as a string key) to the description from the request.
    pub legend: OrderedMap<String>,
    /// Level index (as a string key) to its probability.
    pub probabilities: OrderedMap<P>,
    /// How concentrated the distribution is, 0 to 1.
    pub confidence: P,
}

/// One level of a Score answer, resolved against the legend.
#[derive(Clone, Copy, Debug)]
pub struct ScoreLevel<'a, P> {
    pub index: usize,
    pub description: &'a str,
    pub probability: P,
}

/// One typed answer.
#[derive(Clone, Debug)]
pub enum Answer<P> {
    Noul(NoulAnswer<P>),
    Choice(ChoiceAnswer<P>),
    Score(ScoreAnswer<P>),
}

/// A full evaluation response.
#[derive(Clone, Debug)]
pub struct Evaluation<P> {
    /// The versioned model that answered, e.g. `jev-1.13.0`.
    pub model: String,
    /// One answer per question, keyed by the ids from the request.
    pub answers: OrderedMap<Answer<P>>,
    pub usage: Usage,
}

/// The wire name of an answer's type.
pub open spec fn answer_type_name<P>(a: Answer<P>) -> Seq<char> {
    match a {
        Answer::Noul(_) => "noul"@,
        Answer::Choice(_) => "choice"@,
        Answer::Score(_) => "score"@,
    }
}

/// `r` is the type-mismatch error for answer `a` under `id`, where `expected`
/// was asked for.
pub open spec fn mismatch<P>(r: TypeSafeError, id: Seq<char>, expected: Seq<char>, a: Answer<P>) -> bool {
    r matches TypeSafeError::AnswerTypeMismatch { id: got_id, expected: e, actual }
        && got_id@ == id && e@ == expected && actual@ == answer_type_name(a)
}

/// `r` is the missing-answer error for `id`.
pub open spec fn missing(r: TypeSafeError, id: Seq<char>) -> bool {
    r matches TypeSafeError::MissingAnswer(got_id) && got_id@ == id
}

impl<P> Answer<P> {
    /// The wire name of this answer's type.
    pub fn wire_name(&self) -> (name: &'static str)
        ensures
            name@ == answer_type_name(*self),
    {
        match self {
            Answer::Noul(_) => "noul",
            Answer::Choice(_) => "choice",
            Answer::Score(_) => "score",
        }
    }

    /// Confidence, for the two types that report it.
    pub fn confidence(&self) -> (c: Option<P>)
        where
            P: Copy,
        ensures
            c == match *self {
                Answer::Noul(_) => None,
                Answer::Choice(a) => Some(a.confidence),
                Answer::Score(a) => Some(a.confidence),
            },
    {
        match self {
            Answer::Noul(_) => None,
            Answer::Choice(a) => Some(a.confidence),
            Answer::Score(a) => Some(a.confidence),
        }
    }

    /// The Noul answer, if this is one.
    pub fn as_noul(&self) -> (r: Option<&NoulAnswer<P>>)
        ensures
            match *self {
                Answer::Noul(a) => r matches Some(x) && *x == a,
                _ => r is None,
            },
    {
        match self {
            Answer::Noul(a) => Some(a),
            _ => None,
        }
    }

    /// The Choice answer, if this is one.
    pub fn as_choice(&self) -> (r: Option<&ChoiceAnswer<P>>)
        ensures
            match *self {
                Answer::Choice(a) => r matches Some(x) && *x == a,
                _ => r is None,
            },
    {
        match self {
            Answer::Choice(a) => Some(a),
            _ => None,
        }
    }

    /// The Score answer, if this is one.
    pub fn as_score(&self) -> (r: Option<&ScoreAnswer<P>>)
        ensures
            match *self {
                Answer::Score(a) => r matches Some(x) && *x == a,
                _ => r is None,
            },
    {
        match self {
            Answer::Score(a) => Some(a),
            _ => None,
        }
    }
}

impl<P: Copy> ChoiceAnswer<P> {
    /// The probability assigned to one option.
    pub fn probability(&self, option: &str) -> (p: Option<P>)
        ensures
            p == lookup(self.probabilities@, option@),
    {
        match self.probabilities.get(option) {
            Some(p) => Some(*p),
            None => None,
        }
    }
}

/// The index a legend key names, as `str::parse::<usize>` reads it.
pub open spec fn level_index(key: Seq<char>) -> Option<nat> {
    match parsed_u64(key) {
        Some(v) => if v <= usize::MAX {
            Some(v as nat)
        } else {
            None
        },
        None => None,
    }
}

/// A resolved level: its index, description, and probability.
pub type LevelView<P> = (nat, Seq<char>, P);

/// The level of legend entry `(key, description)`, when its key names an
/// index; its probability is the one under the same key, or `absent`.
pub open spec fn level_of<P>(entry: (Seq<char>, String), probabilities: Entries<P>, absent: P) -> Option<
    LevelView<P>,
> {
    match level_index(entry.0) {
        Some(i) => Some(
            (
                i,
                entry.1@,
                match lookup(probabilities, entry.0) {
                    Some(p) => p,
                    None => absent,
                },
            ),
        ),
        None => None,
    }
}

/// The levels the legend names, in legend order; keys that name no index
/// are skipped.
pub open spec fn legend_levels<P>(legend: Entries<String>, probabilities: Entries<P>, absent: P) -> Seq<
    LevelView<P>,
>
    decreases legend.len(),
{
    if legend.len() == 0 {
        Seq::empty()
    } else {
        let rest = legend_levels(legend.drop_last(), probabilities, absent);
        match level_of(legend.last(), probabilities, absent) {
            Some(l) => rest.push(l),
            None => rest,
        }
    }
}

/// The number of leading levels of `s` whose index is at most `index`.
pub open spec fn leading_at_most<P>(s: Seq<LevelView<P>>, index: nat) -> nat
    decreases s.len(),
{
    if s.len() == 0 || s[0].0 > index {
        0
    } else {
        1 + leading_at_most(s.drop_first(), index)
    }
}

/// `levels` stably sorted by index: equal indices keep their order.
pub open spec fn sorted_by_index<P>(levels: Seq<LevelView<P>>) -> Seq<LevelView<P>>
    decreases levels.len(),
{
    if levels.len() == 0 {
        Seq::empty()
    } else {
        let s = sorted_by_index(levels.drop_last());
        s.insert(leading_at_most(s, levels.last().0) as int, levels.last())
    }
}

/// Whether the levels' indices never decrease.
pub open spec fn index_ordered<P>(s: Seq<LevelView<P>>) -> bool {
    forall|i: int, j: int| 0 <= i <= j < s.len() ==> s[i].0 <= s[j].0
}

/// The view of resolved levels.
pub open spec fn levels_view<'a, P>(levels: Seq<ScoreLevel<'a, P>>) -> Seq<LevelView<P>> {
    levels.map_values(|l: ScoreLevel<'a, P>| (l.index as nat, l.description@, l.probability))
}

proof fn lemma_leading_bounds<P>(s: Seq<LevelView<P>>, index: nat)
    requires
        index_ordered(s),
    ensures
        leading_at_most(s, index) <= s.len(),
        forall|i: int| 0 <= i < leading_at_most(s, index) ==> s[i].0 <= index,
        forall|i: int| leading_at_most(s, index) <= i < s.len() ==> s[i].0 > index,
    decreases s.len(),
{
    if s.len() > 0 && s[0].0 <= index {
        let t = s.drop_first();
        assert(index_ordered(t));
        lemma_leading_bounds(t, index);
        assert forall|i: int| 0 <= i < leading_at_most(s, index) implies s[i].0 <= index by {
            if i > 0 {
                assert(s[i] == t[i - 1]);
            }
        }
        assert forall|i: int| leading_at_most(s, index) <= i < s.len() implies s[i].0 > index by {
            assert(s[i] == t[i - 1]);
        }
    } else if s.len() > 0 {
        assert forall|i: int| 0 <= i < s.len() implies s[i].0 > index by {
            assert(s[0].0 <= s[i].0);
        }
    }
}

/// Stable sorting by index orders the levels by index and keeps exactly
/// the levels it was given.
pub proof fn lemma_sorted_by_index<P>(levels: Seq<LevelView<P>>)
    ensures
        index_ordered(sorted_by_index(levels)),
        sorted_by_index(levels).to_multiset() == levels.to_multiset(),
    decreases levels.len(),
{
    broadcast use vstd::seq_lib::to_multiset_insert, vstd::seq_lib::to_multiset_build;

    if levels.len() > 0 {
        let rest = levels.drop_last();
        lemma_sorted_by_index(rest);
        let s = sorted_by_index(rest);
        let x = levels.last();
        let k = leading_at_most(s, x.0);
        lemma_leading_bounds(s, x.0);
        let t = s.insert(k as int, x);
        assert(sorted_by_index(levels) == t);
        assert(index_ordered(t)) by {
            assert forall|i: int, j: int| 0 <= i <= j < t.len() implies t[i].0 <= t[j].0 by {
                if i < k && j > k {
                    assert(t[i] == s[i] && t[j] == s[j - 1]);
                } else if i < k && j == k {
                    assert(t[i] == s[i]);
                } else if i == k && j > k {
                    assert(t[j] == s[j - 1]);
                } else if i > k {
                    assert(t[i] == s[i - 1] && t[j] == s[j - 1]);
                } else if j < k {
                    assert(t[i] == s[i] && t[j] == s[j]);
                }
            }
        }
        vstd::seq_lib::to_multiset_insert(s, k as int, x);
        assert(levels =~= rest.push(x));
        vstd::seq_lib::to_multiset_build(rest, x);
    } else {
        assert(levels =~= Seq::<LevelView<P>>::empty());
    }
}

/// Whether `l` is the level of legend entry `entry`: the index its key
/// names, its description, and the probability stored under that same key
/// in `probabilities`, or `absent` when none is.
#[verifier::opaque]
pub open spec fn resolves<P>(
    entry: (Seq<char>, String),
    l: LevelView<P>,
    probabilities: Entries<P>,
    absent: P,
) -> bool {
    &&& level_index(entry.0) == Some(l.0)
    &&& l.1 == entry.1@
    &&& l.2 == match lookup(probabilities, entry.0) {
        Some(p) => p,
        None => absent,
    }
}

/// Whether `l` is the level of some entry of `legend`.
pub open spec fn from_legend<P>(legend: Entries<String>, l: LevelView<P>, probabilities: Entries<P>, absent: P) -> bool {
    exists|j: int| 0 <= j < legend.len() && #[trigger] resolves(legend[j], l, probabilities, absent)
}

/// Whether some level of `levels` is the level of legend entry `entry`.
pub open spec fn has_level_of<P>(
    levels: Seq<LevelView<P>>,
    entry: (Seq<char>, String),
    probabilities: Entries<P>,
    absent: P,
) -> bool {
    exists|i: int| 0 <= i < levels.len() && #[trigger] resolves(entry, levels[i], probabilities, absent)
}

/// Every level `levels` resolves comes from a legend entry and carries the
/// probability stored under that entry's own key, wherever it stands in
/// `probabilities`; and every legend entry whose key names an index gives
/// such a level.
pub proof fn lemma_levels_resolve_by_key<P>(legend: Entries<String>, probabilities: Entries<P>, absent: P)
    ensures
        forall|i: int|
            0 <= i < sorted_by_index(legend_levels(legend, probabilities, absent)).len() ==> from_legend(
                legend,
                #[trigger] sorted_by_index(legend_levels(legend, probabilities, absent))[i],
                probabilities,
                absent,
            ),
        forall|j: int|
            0 <= j < legend.len() && (#[trigger] level_index(legend[j].0)) is Some ==> has_level_of(
                sorted_by_index(legend_levels(legend, probabilities, absent)),
                legend[j],
                probabilities,
                absent,
            ),
{
    broadcast use vstd::seq_lib::to_multiset_contains;

    let u = legend_levels(legend, probabilities, absent);
    let r = sorted_by_index(u);
    lemma_legend_levels_resolve(legend, probabilities, absent);
    lemma_sorted_by_index(u);
    assert forall|i: int| 0 <= i < r.len() implies from_legend(legend, #[trigger] r[i], probabilities, absent) by {
        assert(r.contains(r[i]));
        assert(r.to_multiset().count(r[i]) > 0);
        assert(u.contains(r[i]));
        let k = choose|k: int| 0 <= k < u.len() && u[k] == r[i];
        assert(from_legend(legend, u[k], probabilities, absent));
    }
    assert forall|j: int|
        0 <= j < legend.len() && (#[trigger] level_index(legend[j].0)) is Some implies has_level_of(
        r,
        legend[j],
        probabilities,
        absent,
    ) by {
        assert(has_level_of(u, legend[j], probabilities, absent));
        let k = choose|k: int| 0 <= k < u.len() && #[trigger] resolves(legend[j], u[k], probabilities, absent);
        assert(u.contains(u[k]));
        assert(u.to_multiset().count(u[k]) > 0);
        assert(r.contains(u[k]));
        let i = choose|i: int| 0 <= i < r.len() && r[i] == u[k];
        assert(resolves(legend[j], r[i], probabilities, absent));
    }
}

proof fn lemma_legend_levels_resolve<P>(legend: Entries<String>, probabilities: Entries<P>, absent: P)
    ensures
        forall|i: int|
            0 <= i < legend_levels(legend, probabilities, absent).len() ==> from_legend(
                legend,
                #[trigger] legend_levels(legend, probabilities, absent)[i],
                probabilities,
                absent,
            ),
        forall|j: int|
            0 <= j < legend.len() && (#[trigger] level_index(legend[j].0)) is Some ==> has_level_of(
                legend_levels(legend, probabilities, absent),
                legend[j],
                probabilities,
                absent,
            ),
    decreases legend.len(),
{
    let u = legend_levels(legend, probabilities, absent);
    if legend.len() == 0 {
        assert(u.len() == 0);
    } else {
        let front = legend.drop_last();
        lemma_legend_levels_resolve(front, probabilities, absent);
        let rest = legend_levels(front, probabilities, absent);
        let last = legend.len() - 1;
        assert forall|j: int| 0 <= j < front.len() implies front[j] == legend[j] by {}
        let lv = level_of(legend.last(), probabilities, absent);
        if lv is Some {
            assert(resolves(legend[last], lv->Some_0, probabilities, absent)) by {
                reveal(resolves);
            }
        } else {
            assert(level_index(legend[last].0) is None);
        }
        assert(u == match lv {
            Some(l) => rest.push(l),
            None => rest,
        });
        assert forall|i: int| 0 <= i < u.len() implies from_legend(legend, #[trigger] u[i], probabilities, absent) by {
            if i < rest.len() {
                assert(u[i] == rest[i]);
                assert(from_legend(front, rest[i], probabilities, absent));
                let j = choose|j: int| 0 <= j < front.len() && #[trigger] resolves(front[j], rest[i], probabilities, absent);
                assert(resolves(legend[j], u[i], probabilities, absent));
            } else {
                assert(resolves(legend[last], u[i], probabilities, absent));
            }
        }
        assert forall|j: int|
            0 <= j < legend.len() && (#[trigger] level_index(legend[j].0)) is Some implies has_level_of(
            u,
            legend[j],
            probabilities,
            absent,
        ) by {
            if j < front.len() {
                assert(level_index(front[j].0) is Some);
                assert(has_level_of(rest, front[j], probabilities, absent));
                let i = choose|i: int| 0 <= i < rest.len() && #[trigger] resolves(front[j], rest[i], probabilities, absent);
                assert(u[i] == rest[i]);
                assert(resolves(legend[j], u[i], probabilities, absent));
            } else {
                assert(u[rest.len() as int] == lv->Some_0);
                assert(resolves(legend[j], u[rest.len() as int], probabilities, absent));
            }
        }
    }
}

impl<P> ScoreAnswer<P> {
    /// Every level in order, lowest first, resolved against the legend.
    ///
    /// Keys arrive as strings, so this parses and sorts them numerically:
    /// "10" comes after "2". Levels with equal indices keep their legend
    /// order, and a level with no probability gets `absent`.
    pub fn levels(&self, absent: P) -> (r: Vec<ScoreLevel<'_, P>>)
        where
            P: Copy,
        ensures
            levels_view(r@) == sorted_by_index(legend_levels(self.legend@, self.probabilities@, absent)),
    {
        let entries = self.legend.iter();
        let n = entries.len();
        let ghost legend = self.legend@;
        let ghost probs = self.probabilities@;
        let mut levels: Vec<ScoreLevel<'_, P>> = Vec::new();
        for i in 0..n
            invariant
                n == entries@.len(),
                n == legend.len(),
                legend == self.legend@,
                probs == self.probabilities@,
                forall|j: int|
                    #![trigger entries@[j]]
                    0 <= j < entries@.len() ==> entries@[j].0@ == legend[j].0 && *entries@[j].1
                        == legend[j].1,
                levels_view(levels@) == sorted_by_index(legend_levels(legend.take(i as int), probs, absent)),
        {
            let (key, description) = entries[i];
            proof {
                assert(legend.take(i + 1).drop_last() =~= legend.take(i as int));
                assert(legend.take(i + 1).last() == legend[i as int]);
            }
            let ghost here = legend_levels(legend.take(i + 1), probs, absent);
            let ghost prev = legend_levels(legend.take(i as int), probs, absent);
            match parse_usize(key) {
                Some(index) => {
                    let probability = match self.probabilities.get(key) {
                        Some(p) => *p,
                        None => absent,
                    };
                    let level = ScoreLevel { index, description: description.as_str(), probability };
                    let ghost before = levels_view(levels@);
                    let pos = leading_at_most_exec(&levels, index);
                    levels.insert(pos, level);
                    proof {
                        assert(levels_view(levels@) =~= before.insert(
                            pos as int,
                            (index as nat, description@, probability),
                        ));
                        assert(level_of(legend[i as int], probs, absent) == Some(
                            (index as nat, description@, probability),
                        ));
                        assert(here == prev.push((index as nat, description@, probability)));
                        assert(here.drop_last() =~= prev);
                    }
                },
                None => {
                    proof {
                        assert(level_of(legend[i as int], probs, absent) is None);
                        assert(here == prev);
                    }
                },
            }
        }
        proof {
            assert(legend.take(n as int) =~= legend);
        }
        levels
    }

    /// The description of the level with index `index`, looked up under the
    /// index's decimal key.
    pub fn description_at(&self, index: usize) -> (d: Option<&String>)
        ensures
            match lookup(self.legend@, decimal(index as nat)) {
                Some(s) => d matches Some(x) && *x == s,
                None => d is None,
            },
    {
        let key = decimal_string(index as u64);
        self.legend.get(key.as_str())
    }
}

/// The number of leading levels whose index is at most `index`.
fn leading_at_most_exec<'a, P>(levels: &Vec<ScoreLevel<'a, P>>, index: usize) -> (k: usize)
    ensures
        k == leading_at_most(levels_view(levels@), index as nat),
        k <= levels@.len(),
{
    let ghost s = levels_view(levels@);
    let n = levels.len();
    let mut k: usize = 0;
    assert(s.skip(0) =~= s);
    while k < n && levels[k].index <= index
        invariant
            n == levels@.len(),
            s == levels_view(levels@),
            k <= n,
            leading_at_most(s, index as nat) == k + leading_at_most(s.skip(k as int), index as nat),
        decreases n - k,
    {
        proof {
            assert(s.skip(k as int).drop_first() =~= s.skip(k + 1));
        }
        k = k + 1;
    }
    k
}

/// Parse a level key as `str::parse::<usize>` does.
fn parse_usize(key: &str) -> (r: Option<usize>)
    ensures
        match level_index(key@) {
            Some(i) => r == Some(i as usize),
            None => r is None,
        },
{
    match parse_u64(key) {
        Some(v) => {
            if v as u128 <= usize::MAX as u128 {
                Some(v as usize)
            } else {
                None
            }
        },
        None => None,
    }
}

impl<P> Evaluation<P> {
    /// Look up an answer by question id.
    pub fn answer(&self, id: &str) -> (r: Result<&Answer<P>, TypeSafeError>)
        ensures
            match lookup(self.answers@, id@) {
                Some(a) => r matches Ok(x) && *x == a,
                None => r matches Err(e) && missing(e, id@),
            },
    {
        match self.answers.get(id) {
            Some(a) => Ok(a),
            None => Err(TypeSafeError::MissingAnswer(String::from_str(id))),
        }
    }

    /// Look up a Noul answer and return its probability.
    pub fn noul(&self, id: &str) -> (r: Result<P, TypeSafeError>)
        where
            P: Copy,
        ensures
            match lookup(self.answers@, id@) {
                Some(Answer::Noul(a)) => r == Ok::<P, TypeSafeError>(a.noul),
                Some(other) => r matches Err(e) && mismatch(e, id@, "noul"@, other),
                None => r matches Err(e) && missing(e, id@),
            },
    {
        let answer = self.answer(id)?;
        match answer.as_noul() {
            Some(a) => Ok(a.noul),
            None => Err(
                TypeSafeError::AnswerTypeMismatch {
                    id: String::from_str(id),
                    expected: "noul",
                    actual: answer.wire_name(),
                },
            ),
        }
    }

    /// Look up a Choice answer.
    pub fn choice(&self, id: &str) -> (r: Result<&ChoiceAnswer<P>, TypeSafeError>)
        ensures
            match lookup(self.answers@, id@) {
                Some(Answer::Choice(a)) => r matches Ok(x) && *x == a,
                Some(other) => r matches Err(e) && mismatch(e, id@, "choice"@, other),
                None => r matches Err(e) && missing(e, id@),
            },
    {
        let answer = self.answer(id)?;
        match answer.as_choice() {
            Some(a) => Ok(a),
            None => Err(
                TypeSafeError::AnswerTypeMismatch {
                    id: String::from_str(id),
                    expected: "choice",
                    actual: answer.wire_name(),
                },
            ),
        }
    }

    /// Look up a Score answer.
    pub fn score(&self, id: &str) -> (r: Result<&ScoreAnswer<P>, TypeSafeError>)
        ensures
            match lookup(self.answers@, id@) {
                Some(Answer::Score(a)) => r matches Ok(x) && *x == a,
                Some(other) => r matches Err(e) && mismatch(e, id@, "score"@, other),
                None => r matches Err(e) && missing(e, id@),
            },
    {
        let answer = self.answer(id)?;
        match answer.as_score() {
            Some(a) => Ok(a),
            None => Err(
                TypeSafeError::AnswerTypeMismatch {
                    id: String::from_str(id),
                    expected: "score",
                    actual: answer.wire_name(),
                },
            ),
        }
    }
}

} // verus!
