use vstd::prelude::*;

use crate::filter::{
    filter_identities_by_status, inactive_status, lastmodified_outcome, try_filter_identities_by_lastmodified,
    DateError,
};
use crate::json::Json;
use crate::text::{is_trimmed, trim_text};

verus! {

/// How many days an identity must have gone unmodified, unless the user says otherwise.
pub const DEFAULT_INACTIVE_DAYS: i64 = 90;

/// How many deletions run at once, unless the user says otherwise.
pub const DEFAULT_CONCURRENCY: usize = 10;

/// What the user asks for.
#[derive(Clone, Copy, Debug, PartialEq, Eq, Structural)]
pub enum Command {
    /// List the inactive identities unmodified for more than `inactive_days` days.
    ListInactiveIdentities { inactive_days: i64 },
    /// Delete the inactive identities unmodified for more than `inactive_days` days.
    PurgeInactiveIdentities { inactive_days: i64, concurrency: usize },
    /// Delete the pictures of all identities.
    PurgePictures { concurrency: usize },
}

/// What is deleted for each selected identity.
#[derive(Clone, Copy, Debug, PartialEq, Eq, Structural)]
pub enum Target {
    /// The identity itself.
    Identity,
    /// The identity's picture.
    Picture,
}

/// The deletions of a command: what is deleted, and how many requests run at once.
#[derive(Clone, Copy, Debug, PartialEq, Eq, Structural)]
pub struct Removal {
    pub target: Target,
    pub concurrency: usize,
}

/// The steps of a command.
#[derive(Clone, Copy, Debug, PartialEq, Eq, Structural)]
pub struct Plan {
    /// Whether the user must confirm before anything is asked of the service.
    pub confirm: bool,
    /// Where only inactive identities are selected: the days they must have gone unmodified.
    pub inactive_days: Option<i64>,
    /// What is deleted of the selected identities, if anything.
    pub removal: Option<Removal>,
}

/// The steps of `command`.
pub open spec fn spec_plan(command: Command) -> Plan {
    match command {
        Command::ListInactiveIdentities { inactive_days } =>
            Plan { confirm: false, inactive_days: Some(inactive_days), removal: None },
        Command::PurgeInactiveIdentities { inactive_days, concurrency } =>
            Plan {
                confirm: true,
                inactive_days: Some(inactive_days),
                removal: Some(Removal { target: Target::Identity, concurrency }),
            },
        Command::PurgePictures { concurrency } =>
            Plan { confirm: true, inactive_days: None, removal: Some(Removal { target: Target::Picture, concurrency }) },
    }
}

/// The steps of `command`.
pub fn plan(command: Command) -> (r: Plan)
    ensures
        r == spec_plan(command),
        command matches Command::ListInactiveIdentities { inactive_days } ==> r == (Plan {
            confirm: false,
            inactive_days: Some(inactive_days),
            removal: None,
        }),
        command matches Command::PurgeInactiveIdentities { inactive_days, concurrency } ==> r == (Plan {
            confirm: true,
            inactive_days: Some(inactive_days),
            removal: Some(Removal { target: Target::Identity, concurrency }),
        }),
        command matches Command::PurgePictures { concurrency } ==> r == (Plan {
            confirm: true,
            inactive_days: None,
            removal: Some(Removal { target: Target::Picture, concurrency }),
        }),
{
    match command {
        Command::ListInactiveIdentities { inactive_days } =>
            Plan { confirm: false, inactive_days: Some(inactive_days), removal: None },
        Command::PurgeInactiveIdentities { inactive_days, concurrency } =>
            Plan {
                confirm: true,
                inactive_days: Some(inactive_days),
                removal: Some(Removal { target: Target::Identity, concurrency }),
            },
        Command::PurgePictures { concurrency } =>
            Plan { confirm: true, inactive_days: None, removal: Some(Removal { target: Target::Picture, concurrency }) },
    }
}

/// The identities that a plan works on: all of them where it selects none; else those
/// with an inactive status, then of these the ones unmodified for the plan's days.
pub fn select_identities(identities: Vec<Json>, inactive_days: Option<i64>) -> (r: Result<Vec<Json>, DateError>)
    ensures
        match inactive_days {
            None => r matches Ok(v) && v@ == identities@,
            Some(days) => lastmodified_outcome(identities@.filter(inactive_status()), days, r),
        },
{
    match inactive_days {
        None => Ok(identities),
        Some(days) => try_filter_identities_by_lastmodified(filter_identities_by_status(identities), days),
    }
}

/// Whether an answer to "Are you sure you want to do this?" agrees: it is `y` once the
/// white space around it is taken off.
pub open spec fn agrees(answer: Seq<char>) -> bool {
    exists|t: Seq<char>| is_trimmed(answer, t) && t == seq!['y']
}

/// Whether `answer` agrees.
pub fn confirmed(answer: &str) -> (r: bool)
    ensures
        r == agrees(answer@),
{
    let t = trim_text(answer);
    let r = t.len() == 1 && t[0] == 'y';
    proof {
        if r {
            assert(t@ =~= seq!['y']);
        } else {
            assert forall|u: Seq<char>| is_trimmed(answer@, u) implies u != seq!['y'] by {
                lemma_trim_unique(answer@, t@, u);
            }
        }
    }
    r
}

/// Taking the white space off both ends of a text has only one outcome.
pub proof fn lemma_trim_unique(s: Seq<char>, t: Seq<char>, u: Seq<char>)
    requires
        is_trimmed(s, t),
        is_trimmed(s, u),
    ensures
        t == u,
{
    let (a, b) = choose|a: int, b: int| crate::text::trim_bounds(s, a, b) && t == s.subrange(a, b);
    let (c, d) = choose|c: int, d: int| crate::text::trim_bounds(s, c, d) && u == s.subrange(c, d);
    if a < b && c < d {
        assert(a == c);
        assert(b == d);
    } else if a < b {
        assert(crate::text::is_white_space(s[a]));
    } else if c < d {
        assert(crate::text::is_white_space(s[c]));
    }
    assert(t =~= u);
}

} // verus!
