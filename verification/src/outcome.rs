//! The outcome of running one probe against the two endpoints, and the
//! classification of a pair of call results into such an outcome.

use vstd::prelude::*;
use crate::json::{Json, JsonV, canon, equivalent, lemma_equivalent_canon};

verus! {

/// What one probe yielded: agreement, a structural difference carrying both
/// canonicalized values, or a failure on exactly one labeled side. When
/// both sides fail, side A's error is reported, by policy.
pub enum ProbeOutcome {
    Match,
    Mismatch { value_a: Json, value_b: Json },
    ErrorA { message: String },
    ErrorB { message: String },
}

/// The mathematical value of a [`ProbeOutcome`].
#[verifier::ext_equal]
pub enum OutcomeV {
    Match,
    Mismatch { value_a: JsonV, value_b: JsonV },
    ErrorA { message: Seq<char> },
    ErrorB { message: Seq<char> },
}

impl View for ProbeOutcome {
    type V = OutcomeV;

    open spec fn view(&self) -> OutcomeV {
        match self {
            ProbeOutcome::Match => OutcomeV::Match,
            ProbeOutcome::Mismatch { value_a, value_b } => OutcomeV::Mismatch {
                value_a: value_a@,
                value_b: value_b@,
            },
            ProbeOutcome::ErrorA { message } => OutcomeV::ErrorA { message: message@ },
            ProbeOutcome::ErrorB { message } => OutcomeV::ErrorB { message: message@ },
        }
    }
}

/// The value of one endpoint's reply: a decoded value, or the text of the
/// transport or protocol failure.
pub open spec fn call_view(r: Result<Json, String>) -> Result<JsonV, Seq<char>> {
    match r {
        Ok(v) => Ok(v@),
        Err(e) => Err(e@),
    }
}

/// How a pair of replies is classified: equal canonical forms agree, a
/// difference carries both canonical forms, an error on side A wins over
/// everything else, and an error on side B alone is side B's.
pub open spec fn spec_outcome(a: Result<JsonV, Seq<char>>, b: Result<JsonV, Seq<char>>) -> OutcomeV {
    match (a, b) {
        (Ok(va), Ok(vb)) => if canon(va) == canon(vb) {
            OutcomeV::Match
        } else {
            OutcomeV::Mismatch { value_a: canon(va), value_b: canon(vb) }
        },
        (Err(e), _) => OutcomeV::ErrorA { message: e },
        (Ok(_), Err(e)) => OutcomeV::ErrorB { message: e },
    }
}

/// Classifies the two replies to one probe.
pub fn probe_outcome(a: Result<Json, String>, b: Result<Json, String>) -> (r: ProbeOutcome)
    ensures
        r@ == spec_outcome(call_view(a), call_view(b)),
{
    match (a, b) {
        (Ok(va), Ok(vb)) => {
            if crate::json::json_eq(&va, &vb) {
                ProbeOutcome::Match
            } else {
                ProbeOutcome::Mismatch { value_a: va.canonical(), value_b: vb.canonical() }
            }
        },
        (Err(e), _) => ProbeOutcome::ErrorA { message: e },
        (Ok(_), Err(e)) => ProbeOutcome::ErrorB { message: e },
    }
}

/// Two replies that decode to structurally equal values, field order aside,
/// always agree.
pub proof fn lemma_equal_replies_match(va: JsonV, vb: JsonV)
    requires
        equivalent(va, vb),
    ensures
        spec_outcome(Ok(va), Ok(vb)) == OutcomeV::Match,
{
    lemma_equivalent_canon(va, vb);
}

/// A failure on side A alone is reported as side A's error, never as
/// agreement; the symmetric case is side B's. When both sides fail, side
/// A's error is reported, so a double failure is never mistaken for
/// agreement either.
pub proof fn lemma_one_sided_error_never_matches(
    a: Result<JsonV, Seq<char>>,
    b: Result<JsonV, Seq<char>>,
)
    requires
        a is Err || b is Err,
    ensures
        !(spec_outcome(a, b) is Match),
        a is Err ==> spec_outcome(a, b) == (OutcomeV::ErrorA { message: a->Err_0 }),
        a is Ok && b is Err ==> spec_outcome(a, b) == (OutcomeV::ErrorB { message: b->Err_0 }),
{
}

} // verus!
