//! The Settings view's words about the satz binary the app runs.

use vstd::prelude::*;

verus! {

/// What the app knows of the satz binary: still looking, found (with, where it is newer
/// than the one the app was tested against, that version and the sentence about the
/// difference), too old, or not usable.
#[derive(Debug, Clone, PartialEq, Eq)]
pub enum SatzState {
    Unknown,
    Located { version: String, path: String, ahead: Option<(String, String)> },
    TooOld { found: String, required: String },
    Missing(String),
    Unusable(String),
}

/// The line under the satz path, and whether it is a fault.
pub open spec fn satz_line_spec(s: SatzState) -> (Seq<char>, bool) {
    match s {
        SatzState::Unknown => ("locating satz"@, false),
        SatzState::Located { version, path, ahead } => match ahead {
            None => ("satz "@ + version@ + " at "@ + path@, false),
            Some((built, sentence)) => (
                "satz "@ + version@ + " at "@ + path@
                    + "; this satz-studio was built and tested against satz "@ + built@ + ". "@
                    + sentence@,
                false,
            ),
        },
        SatzState::TooOld { found, required } => (
            "satz "@ + found@ + " found; "@ + required@ + " or newer is needed"@,
            true,
        ),
        SatzState::Missing(why) => (why@, true),
        SatzState::Unusable(why) => (why@, true),
    }
}

/// The line under the satz path, and whether it is a fault: where satz is and which
/// version, with what a newer release than the tested one means; the version found and
/// the one needed for one too old; why it is missing or unusable.
pub fn satz_line(s: &SatzState) -> (r: (String, bool))
    ensures
        r.0@ == satz_line_spec(*s).0,
        r.1 == satz_line_spec(*s).1,
{
    match s {
        SatzState::Unknown => (String::from_str("locating satz"), false),
        SatzState::Located { version, path, ahead } => {
            let mut t = String::from_str("satz ");
            t.append(version.as_str());
            t.append(" at ");
            t.append(path.as_str());
            match ahead {
                None => {},
                Some((built, sentence)) => {
                    t.append("; this satz-studio was built and tested against satz ");
                    t.append(built.as_str());
                    t.append(". ");
                    t.append(sentence.as_str());
                },
            }
            (t, false)
        },
        SatzState::TooOld { found, required } => {
            let mut t = String::from_str("satz ");
            t.append(found.as_str());
            t.append(" found; ");
            t.append(required.as_str());
            t.append(" or newer is needed");
            (t, true)
        },
        SatzState::Missing(why) => (why.clone(), true),
        SatzState::Unusable(why) => (why.clone(), true),
    }
}

} // verus!
