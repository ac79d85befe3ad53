//! The report: one test unit per block plus one per range, and its
//! rendering as pass/fail text. Of the two reporting policies in use for
//! such harnesses — a line diff of the canonically rendered values, or a
//! field-subset comparison — this reporter implements the line diff: an
//! additive schema difference therefore shows as a failure.

use vstd::prelude::*;
use crate::outcome::{ProbeOutcome, OutcomeV};

verus! {

/// One reportable group of probe outcomes: a block's, or the range's, each
/// outcome under its probe's name in catalog order.
pub struct TestUnit {
    pub title: String,
    pub outcomes: Vec<(String, ProbeOutcome)>,
}

/// The mathematical value of a [`TestUnit`].
#[verifier::ext_equal]
pub struct TestUnitV {
    pub title: Seq<char>,
    pub outcomes: Seq<(Seq<char>, OutcomeV)>,
}

/// The values of a unit's outcome list.
pub open spec fn outcomes_view(s: Seq<(String, ProbeOutcome)>) -> Seq<(Seq<char>, OutcomeV)> {
    Seq::new(
        s.len(),
        |i: int|
            if 0 <= i < s.len() {
                (s[i].0@, s[i].1@)
            } else {
                (Seq::empty(), OutcomeV::Match)
            },
    )
}

impl View for TestUnit {
    type V = TestUnitV;

    open spec fn view(&self) -> TestUnitV {
        TestUnitV { title: self.title@, outcomes: outcomes_view(self.outcomes@) }
    }
}

/// The values of a whole report.
pub open spec fn units_view(s: Seq<TestUnit>) -> Seq<TestUnitV> {
    Seq::new(
        s.len(),
        |i: int|
            if 0 <= i < s.len() {
                s[i]@
            } else {
                TestUnitV { title: Seq::empty(), outcomes: Seq::empty() }
            },
    )
}

} // verus!

verus! {

/// A unit passes when every outcome in it agrees.
pub open spec fn unit_passed(u: TestUnitV) -> bool {
    forall|i: int| 0 <= i < u.outcomes.len() ==> (#[trigger] u.outcomes[i]).1 is Match
}

/// A report passes when every unit in it passes.
pub open spec fn spec_report_passed(units: Seq<TestUnitV>) -> bool {
    forall|i: int| 0 <= i < units.len() ==> unit_passed(#[trigger] units[i])
}

/// What the line diff of two texts is. The diff algorithm is the outside
/// library's; its output is a function of the two texts alone.
pub uninterp spec fn diff_of(a: Seq<char>, b: Seq<char>) -> Seq<char>;

/// Relies on `similar::TextDiff::from_lines` and `iter_all_changes`: a
/// line-level diff of the two texts, each emitted line prefixed with `-`,
/// `+` or a space. The output depends on the two texts alone.
#[verifier::external_body]
fn diff_lines(a: &str, b: &str) -> (r: String)
    ensures
        r@ == diff_of(a@, b@),
{
    let diff = similar::TextDiff::from_lines(a, b);
    let mut out = String::new();
    for change in diff.iter_all_changes() {
        let sign = match change.tag() {
            similar::ChangeTag::Delete => "-",
            similar::ChangeTag::Insert => "+",
            similar::ChangeTag::Equal => " ",
        };
        out.push_str(sign);
        out.push_str(change.value());
    }
    out
}

/// The lines one failing probe contributes: its name, then either the
/// line diff of the two canonicalized values or the failing side's error
/// text. An agreeing probe contributes nothing.
pub open spec fn spec_outcome_text(name: Seq<char>, o: OutcomeV) -> Seq<char> {
    match o {
        OutcomeV::Match => Seq::empty(),
        OutcomeV::Mismatch { value_a, value_b } => "    "@ + name + ": FAILED\n"@ + diff_of(
            crate::json::spec_text(value_a, 0),
            crate::json::spec_text(value_b, 0),
        ) + "\n"@,
        OutcomeV::ErrorA { message } => "    "@ + name + ": FAILED\n"@ + "## rpc1 error: "@
            + message + "\n"@,
        OutcomeV::ErrorB { message } => "    "@ + name + ": FAILED\n"@ + "## rpc2 error: "@
            + message + "\n"@,
    }
}

/// The failure lines of a unit's outcomes from position `i` on.
pub open spec fn spec_failures_from(outcomes: Seq<(Seq<char>, OutcomeV)>, i: nat) -> Seq<char>
    decreases outcomes.len() - i,
{
    if i >= outcomes.len() {
        Seq::empty()
    } else {
        spec_outcome_text(outcomes[i as int].0, outcomes[i as int].1) + spec_failures_from(
            outcomes,
            i + 1,
        )
    }
}

/// One unit's text: a single pass line, or a failure header followed by
/// every failing probe's lines.
pub open spec fn spec_unit_text(u: TestUnitV) -> Seq<char> {
    if unit_passed(u) {
        u.title + " ok\n"@
    } else {
        "\n"@ + u.title + " FAILED\n"@ + spec_failures_from(u.outcomes, 0)
    }
}

/// The units' text from position `i` on.
pub open spec fn spec_units_from(units: Seq<TestUnitV>, i: nat) -> Seq<char>
    decreases units.len() - i,
{
    if i >= units.len() {
        Seq::empty()
    } else {
        spec_unit_text(units[i as int]) + spec_units_from(units, i + 1)
    }
}

/// The whole report's text: a header, one block of text per unit in
/// insertion order, and a closing rule.
pub open spec fn spec_render(units: Seq<TestUnitV>) -> Seq<char> {
    "\n--- RPC Method Test Results ---\n"@ + spec_units_from(units, 0)
        + "--------------------------------\n"@
}

/// Decides whether one unit passed.
fn unit_passes(u: &TestUnit) -> (r: bool)
    ensures
        r == unit_passed(u@),
{
    let mut i: usize = 0;
    while i < u.outcomes.len()
        invariant
            i <= u.outcomes@.len(),
            forall|k: int| 0 <= k < i ==> (#[trigger] outcomes_view(u.outcomes@)[k]).1 is Match,
        decreases u.outcomes@.len() - i,
    {
        match &u.outcomes[i].1 {
            ProbeOutcome::Match => {},
            _ => {
                proof {
                    assert(!(outcomes_view(u.outcomes@)[i as int].1 is Match));
                }
                return false;
            },
        }
        i += 1;
    }
    true
}

/// Decides whether the whole report passed: this is what the process
/// exit reflects.
pub fn report_passed(units: &Vec<TestUnit>) -> (r: bool)
    ensures
        r == spec_report_passed(units_view(units@)),
{
    let mut i: usize = 0;
    while i < units.len()
        invariant
            i <= units@.len(),
            forall|k: int| 0 <= k < i ==> unit_passed(#[trigger] units_view(units@)[k]),
        decreases units@.len() - i,
    {
        if !unit_passes(&units[i]) {
            proof {
                assert(!unit_passed(units_view(units@)[i as int]));
            }
            return false;
        }
        i += 1;
    }
    true
}

/// Appends one failing probe's lines.
fn write_outcome(name: &String, o: &ProbeOutcome, out: &mut String)
    ensures
        final(out)@ == old(out)@ + spec_outcome_text(name@, o@),
{
    match o {
        ProbeOutcome::Match => {
            proof {
                assert(out@ =~= old(out)@ + spec_outcome_text(name@, o@));
            }
        },
        ProbeOutcome::Mismatch { value_a, value_b } => {
            out.append("    ");
            out.append(name.as_str());
            out.append(": FAILED\n");
            let ta = value_a.to_text();
            let tb = value_b.to_text();
            let d = diff_lines(ta.as_str(), tb.as_str());
            out.append(d.as_str());
            out.append("\n");
            proof {
                assert(out@ =~= old(out)@ + spec_outcome_text(name@, o@));
            }
        },
        ProbeOutcome::ErrorA { message } => {
            out.append("    ");
            out.append(name.as_str());
            out.append(": FAILED\n");
            out.append("## rpc1 error: ");
            out.append(message.as_str());
            out.append("\n");
            proof {
                assert(out@ =~= old(out)@ + spec_outcome_text(name@, o@));
            }
        },
        ProbeOutcome::ErrorB { message } => {
            out.append("    ");
            out.append(name.as_str());
            out.append(": FAILED\n");
            out.append("## rpc2 error: ");
            out.append(message.as_str());
            out.append("\n");
            proof {
                assert(out@ =~= old(out)@ + spec_outcome_text(name@, o@));
            }
        },
    }
}

/// Appends one unit's text.
fn write_unit(u: &TestUnit, out: &mut String)
    ensures
        final(out)@ == old(out)@ + spec_unit_text(u@),
{
    if unit_passes(u) {
        out.append(u.title.as_str());
        out.append(" ok\n");
        proof {
            assert(out@ =~= old(out)@ + spec_unit_text(u@));
        }
        return;
    }
    out.append("\n");
    out.append(u.title.as_str());
    out.append(" FAILED\n");
    let ghost base = out@;
    let ghost ov = outcomes_view(u.outcomes@);
    let mut i: usize = 0;
    proof {
        assert(base + spec_failures_from(ov, 0) =~= base + spec_failures_from(ov, 0));
    }
    while i < u.outcomes.len()
        invariant
            i <= u.outcomes@.len(),
            ov == outcomes_view(u.outcomes@),
            out@ + spec_failures_from(ov, i as nat) == base + spec_failures_from(ov, 0),
        decreases u.outcomes@.len() - i,
    {
        let ghost pre = out@;
        write_outcome(&u.outcomes[i].0, &u.outcomes[i].1, out);
        proof {
            assert(out@ =~= pre + spec_outcome_text(ov[i as int].0, ov[i as int].1));
            assert((pre + spec_outcome_text(ov[i as int].0, ov[i as int].1)) + spec_failures_from(
                ov,
                i as nat + 1,
            ) =~= pre + (spec_outcome_text(ov[i as int].0, ov[i as int].1) + spec_failures_from(
                ov,
                i as nat + 1,
            )));
        }
        i += 1;
    }
    proof {
        assert(spec_failures_from(ov, u.outcomes@.len() as nat) =~= Seq::<char>::empty());
        assert(out@ + Seq::<char>::empty() =~= out@);
        assert(out@ =~= old(out)@ + spec_unit_text(u@));
    }
}

/// Renders the whole report.
pub fn render(units: &Vec<TestUnit>) -> (r: String)
    ensures
        r@ == spec_render(units_view(units@)),
{
    let mut out = String::new();
    out.append("\n--- RPC Method Test Results ---\n");
    let ghost base = out@;
    let ghost uv = units_view(units@);
    let mut i: usize = 0;
    while i < units.len()
        invariant
            i <= units@.len(),
            uv == units_view(units@),
            out@ + spec_units_from(uv, i as nat) == base + spec_units_from(uv, 0),
        decreases units@.len() - i,
    {
        let ghost pre = out@;
        write_unit(&units[i], &mut out);
        proof {
            assert(out@ =~= pre + spec_unit_text(uv[i as int]));
            assert((pre + spec_unit_text(uv[i as int])) + spec_units_from(uv, i as nat + 1) =~= pre
                + (spec_unit_text(uv[i as int]) + spec_units_from(uv, i as nat + 1)));
        }
        i += 1;
    }
    proof {
        assert(spec_units_from(uv, units@.len() as nat) =~= Seq::<char>::empty());
    }
    out.append("--------------------------------\n");
    proof {
        assert(out@ =~= spec_render(units_view(units@)));
    }
    out
}

} // verus!
