//! The three System One question types: Noul, Choice, and Score.
//!
//! Every question carries `instructions` (what to judge) and, for Choice and
//! Score, `criteria` (the answers it may give). Both accept a string, a JSON
//! object, a JSON array, or null, so they are typed as [`Entry`].

use vstd::prelude::*;

use crate::ordered::{built, Entries, OrderedMap};
use crate::text::{decimal, decimal_string};

verus! {

#[verifier::external_type_specification]
#[verifier::external_body]
pub struct ExJsonValue(serde_json::Value);

/// Trusted: `serde_json::Value` derives `Clone`, so a clone is the same
/// value; the contract says exactly that.
pub assume_specification[ <serde_json::Value as Clone>::clone ](v: &serde_json::Value) -> (r:
    serde_json::Value)
    ensures
        r == *v,
;

/// A field that accepts a string, object, array, or null.
///
/// TypeSafe calls this an `EntryType`. Text and null are the common cases;
/// `Structured` carries any other JSON value through unchanged.
#[derive(Clone, Debug)]
pub enum Entry {
    /// JSON `null`.
    Null,
    /// A JSON string.
    Text(String),
    /// Any JSON value, sent as it is.
    Structured(serde_json::Value),
}

impl<'a> From<&'a str> for Entry {
    fn from(text: &'a str) -> (e: Entry)
        ensures
            e matches Entry::Text(t) && t@ == text@,
    {
        Entry::Text(String::from_str(text))
    }
}

/// A `String` is not determined by its characters in Verus's model, so no
/// single `Entry` can be named as the conversion of a `&str`: the spec opts
/// out, and `from` states what it gives in its own `ensures` instead (a
/// `Text` entry holding the same characters).
impl<'a> vstd::std_specs::convert::FromSpecImpl<&'a str> for Entry {
    open spec fn obeys_from_spec() -> bool {
        false
    }

    open spec fn from_spec(text: &'a str) -> Entry {
        Entry::Null
    }
}

impl From<String> for Entry {
    fn from(text: String) -> (e: Entry) {
        Entry::Text(text)
    }
}

impl vstd::std_specs::convert::FromSpecImpl<String> for Entry {
    open spec fn obeys_from_spec() -> bool {
        true
    }

    open spec fn from_spec(text: String) -> Entry {
        Entry::Text(text)
    }
}

impl From<serde_json::Value> for Entry {
    fn from(value: serde_json::Value) -> (e: Entry) {
        Entry::Structured(value)
    }
}

impl vstd::std_specs::convert::FromSpecImpl<serde_json::Value> for Entry {
    open spec fn obeys_from_spec() -> bool {
        true
    }

    open spec fn from_spec(value: serde_json::Value) -> Entry {
        Entry::Structured(value)
    }
}

/// A typed question to evaluate against the request's state.
#[derive(Clone, Debug)]
pub enum Question {
    Noul(NoulQuestion),
    Choice(ChoiceQuestion),
    Score(ScoreQuestion),
}

/// A yes/no question. The answer is the probability that the answer is yes.
#[derive(Clone, Debug)]
pub struct NoulQuestion {
    pub instructions: Entry,
    pub criteria: Option<NoulCriteria>,
}

/// Optional descriptions of what yes and no mean for a Noul.
#[derive(Clone, Debug)]
pub struct NoulCriteria {
    /// What a value near 1 means (sent as `true`).
    pub yes: Entry,
    /// What a value near 0 means (sent as `false`).
    pub no: Entry,
}

/// Picks one option from a set. The answer carries the full distribution.
#[derive(Clone, Debug)]
pub struct ChoiceQuestion {
    pub instructions: Entry,
    /// Option name to rubric description. `Entry::Null` when an option needs
    /// no extra detail.
    pub criteria: OrderedMap<Entry>,
}

/// Rates the state against ordered levels. The answer is probability-weighted
/// and can land between levels.
#[derive(Clone, Debug)]
pub struct ScoreQuestion {
    pub instructions: Entry,
    /// Ordered level descriptions, lowest first. At least two are required.
    pub criteria: Vec<Entry>,
}

/// The wire name of a question's type.
pub open spec fn question_type_name(q: Question) -> Seq<char> {
    match q {
        Question::Noul(_) => "noul"@,
        Question::Choice(_) => "choice"@,
        Question::Score(_) => "score"@,
    }
}

/// What is locally wrong with a question, if anything: a Choice needs an
/// option and a Score needs two levels.
pub open spec fn question_problem(q: Question) -> Option<Seq<char>> {
    match q {
        Question::Noul(_) => None,
        Question::Choice(c) => if c.criteria@.len() == 0 {
            Some("a Choice needs at least one option in criteria"@)
        } else {
            None
        },
        Question::Score(s) => if s.criteria@.len() < 2 {
            Some("a Score needs at least two levels in criteria, got "@ + decimal(s.criteria@.len()))
        } else {
            None
        },
    }
}

/// A Noul question is always valid, a Choice exactly when it offers at
/// least one option, and a Score exactly when it has at least two levels.
pub proof fn lemma_question_validity(q: Question)
    ensures
        (question_problem(q) is None) <==> match q {
            Question::Noul(_) => true,
            Question::Choice(c) => c.criteria@.len() >= 1,
            Question::Score(s) => s.criteria@.len() >= 2,
        },
{
}

/// The option pairs of a Choice, as map entries.
pub open spec fn option_entries(options: Seq<(&str, Entry)>) -> Entries<Entry> {
    options.map_values(|o: (&str, Entry)| (o.0@, o.1))
}

/// Bare option names as map entries with null rubrics.
pub open spec fn bare_option_entries(options: Seq<&str>) -> Entries<Entry> {
    options.map_values(|o: &str| (o@, Entry::Null))
}

impl Question {
    /// A yes/no question with no criteria.
    pub fn noul(instructions: Entry) -> (q: Self)
        ensures
            q == Question::Noul(NoulQuestion { instructions, criteria: None }),
    {
        Question::Noul(NoulQuestion { instructions, criteria: None })
    }

    /// A yes/no question that spells out what yes and no mean.
    pub fn noul_with_criteria(instructions: Entry, yes: Entry, no: Entry) -> (q: Self)
        ensures
            q == Question::Noul(NoulQuestion { instructions, criteria: Some(NoulCriteria { yes, no }) }),
    {
        Question::Noul(NoulQuestion { instructions, criteria: Some(NoulCriteria { yes, no }) })
    }

    /// A choice between described options, in the order given. A repeated
    /// option name keeps its first place and takes the later description.
    pub fn choice(instructions: Entry, options: Vec<(&str, Entry)>) -> (q: Self)
        ensures
            q matches Question::Choice(c) && c.instructions == instructions && c.criteria@ == built(
                option_entries(options@),
            ),
    {
        let ghost all = option_entries(options@);
        let mut criteria: OrderedMap<Entry> = OrderedMap::new();
        for o in it: options.into_iter()
            invariant
                all == option_entries(it.seq()),
                criteria@ == built(all.take(it.index() as int)),
        {
            let (name, rubric) = o;
            proof {
                assert(all.take(it.index() as int + 1).drop_last() =~= all.take(it.index() as int));
            }
            criteria.insert(name, rubric);
        }
        proof {
            assert(all.take(all.len() as int) =~= all);
        }
        Question::Choice(ChoiceQuestion { instructions, criteria })
    }

    /// A choice between bare options, with no rubric for any of them.
    pub fn choice_options(instructions: Entry, options: Vec<&str>) -> (q: Self)
        ensures
            q matches Question::Choice(c) && c.instructions == instructions && c.criteria@ == built(
                bare_option_entries(options@),
            ),
    {
        let ghost all = bare_option_entries(options@);
        let mut criteria: OrderedMap<Entry> = OrderedMap::new();
        let n = options.len();
        for i in 0..n
            invariant
                n == options@.len(),
                all == bare_option_entries(options@),
                criteria@ == built(all.take(i as int)),
        {
            proof {
                assert(all.take(i + 1).drop_last() =~= all.take(i as int));
            }
            criteria.insert(options[i], Entry::Null);
        }
        proof {
            assert(all.take(n as int) =~= all);
        }
        Question::Choice(ChoiceQuestion { instructions, criteria })
    }

    /// A rating against ordered levels, lowest first.
    pub fn score(instructions: Entry, levels: Vec<Entry>) -> (q: Self)
        ensures
            q == Question::Score(ScoreQuestion { instructions, criteria: levels }),
    {
        Question::Score(ScoreQuestion { instructions, criteria: levels })
    }

    /// The wire name of this question's type, for error messages.
    pub fn wire_name(&self) -> (name: &'static str)
        ensures
            name@ == question_type_name(*self),
    {
        match self {
            Question::Noul(_) => "noul",
            Question::Choice(_) => "choice",
            Question::Score(_) => "score",
        }
    }

    /// Check what can be checked locally, so an obvious mistake surfaces
    /// before a round-trip instead of as a 422.
    pub fn validate(&self) -> (r: Result<(), String>)
        ensures
            match question_problem(*self) {
                None => r is Ok,
                Some(reason) => r matches Err(m) && m@ == reason,
            },
    {
        match self {
            Question::Noul(_) => Ok(()),
            Question::Choice(q) => {
                if q.criteria.is_empty() {
                    Err(String::from_str("a Choice needs at least one option in criteria"))
                } else {
                    Ok(())
                }
            },
            Question::Score(q) => {
                let n = q.criteria.len();
                if n < 2 {
                    let count = decimal_string(n as u64);
                    Err(
                        String::from_str(
                            "a Score needs at least two levels in criteria, got ",
                        ).concat(count.as_str()),
                    )
                } else {
                    Ok(())
                }
            },
        }
    }
}

} // verus!
