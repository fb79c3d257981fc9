//! The decisions export card: what it says where it stands, and the format it starts on.

use vstd::prelude::*;
use crate::text::str_eq;

verus! {

/// Where the card stands, which decides only what it says.
#[derive(Debug, Clone, Copy, PartialEq, Eq, Structural)]
pub enum Moment {
    /// in Decisions, once the packs are chosen: the page the customer signs
    SignOff,
    /// in the Overview, after the rollout: the record the customer keeps
    Handover,
}

impl Moment {
    /// The card's title.
    pub fn title(self) -> (r: &'static str)
        ensures
            r == match self {
                Moment::SignOff => "Sign-off sheet",
                Moment::Handover => "Handover record",
            },
    {
        match self {
            Moment::SignOff => "Sign-off sheet",
            Moment::Handover => "Handover record",
        }
    }

    /// The card's icon.
    pub fn icon(self) -> (r: &'static str)
        ensures
            r == match self {
                Moment::SignOff => "assignment_turned_in",
                Moment::Handover => "inventory",
            },
    {
        match self {
            Moment::SignOff => "assignment_turned_in",
            Moment::Handover => "inventory",
        }
    }

    /// What the card says the sheet is for.
    pub fn text(self) -> (r: &'static str)
        ensures
            r == match self {
                Moment::SignOff => "Every decision this estate rests on — what it is set to, whether it was chosen or taken as offered, and what changing it later costs — as the sheet the customer signs before an organisation is touched, or the workbook they fill in and send back.",
                Moment::Handover => "The decisions the estate is rolled out with, as the record the customer keeps. The sheet is derived from the estate: export it again after any change.",
            },
    {
        match self {
            Moment::SignOff => "Every decision this estate rests on — what it is set to, whether it was chosen or taken as offered, and what changing it later costs — as the sheet the customer signs before an organisation is touched, or the workbook they fill in and send back.",
            Moment::Handover => "The decisions the estate is rolled out with, as the record the customer keeps. The sheet is derived from the estate: export it again after any change.",
        }
    }
}

/// A format satz offers the decisions in: its name, and what it is.
#[derive(Debug, Clone, PartialEq, Eq)]
pub struct QuestionsFormat {
    pub name: String,
    pub description: Option<String>,
}

/// The format the card starts on: the decisions sheet, `markdown`, when satz offers it;
/// otherwise none, and Export waits for a choice.
pub fn initial_format(formats: &[QuestionsFormat]) -> (r: Option<String>)
    ensures
        match r {
            Some(name) => name@ == "markdown"@ && exists|k: int|
                0 <= k < formats@.len() && #[trigger] formats@[k].name@ == "markdown"@,
            None => forall|k: int| 0 <= k < formats@.len() ==> #[trigger] formats@[k].name@
                != "markdown"@,
        },
{
    for k in 0..formats.len()
        invariant
            forall|j: int| 0 <= j < k ==> #[trigger] formats@[j].name@ != "markdown"@,
    {
        if str_eq(formats[k].name.as_str(), "markdown") {
            assert(formats@[k as int].name@ == "markdown"@);
            return Some(formats[k].name.clone());
        }
    }
    None
}

} // verus!
