//! The record of a comparison of one artifact variable against a reference
//! fixture, and the summary of a run of such comparisons.  The tolerances are
//! held as the IEEE 754 bits of their `f64` values.

use vstd::prelude::*;

verus! {

/// One comparison of a variable of a stage artifact against a fixture.
pub struct ParityComparison {
    pub stage: u8,
    pub scope: String,
    pub fixture: String,
    pub artifact: String,
    pub variable: String,
    pub ok: bool,
    /// The relative tolerance (the bits of an `f64`).
    pub rtol: u64,
    /// The absolute tolerance (the bits of an `f64`).
    pub atol: u64,
    pub message: String,
}

/// The comparison names the given stage, scope, fixture, artifact, variable
/// and tolerances.
pub open spec fn names(
    c: ParityComparison,
    stage: u8,
    scope: Seq<char>,
    fixture: Seq<char>,
    artifact: Seq<char>,
    variable: Seq<char>,
    rtol: u64,
    atol: u64,
) -> bool {
    &&& c.stage == stage
    &&& c.scope@ == scope
    &&& c.fixture@ == fixture
    &&& c.artifact@ == artifact
    &&& c.variable@ == variable
    &&& c.rtol == rtol
    &&& c.atol == atol
}

fn owned(s: &str) -> (r: String)
    ensures
        r@ == s@,
{
    String::from_str(s)
}

impl ParityComparison {
    /// A comparison that passed, with the message "ok".
    pub fn pass(stage: u8, scope: &str, fixture: &str, artifact: &str, variable: &str, rtol: u64, atol: u64) -> (r: Self)
        ensures
            names(r, stage, scope@, fixture@, artifact@, variable@, rtol, atol),
            r.ok,
            r.message@ == "ok"@,
    {
        ParityComparison {
            stage,
            scope: owned(scope),
            fixture: owned(fixture),
            artifact: owned(artifact),
            variable: owned(variable),
            ok: true,
            rtol,
            atol,
            message: owned("ok"),
        }
    }

    /// A comparison that failed, with the given message.
    pub fn fail(
        stage: u8,
        scope: &str,
        fixture: &str,
        artifact: &str,
        variable: &str,
        rtol: u64,
        atol: u64,
        message: &str,
    ) -> (r: Self)
        ensures
            names(r, stage, scope@, fixture@, artifact@, variable@, rtol, atol),
            !r.ok,
            r.message@ == message@,
    {
        ParityComparison {
            stage,
            scope: owned(scope),
            fixture: owned(fixture),
            artifact: owned(artifact),
            variable: owned(variable),
            ok: false,
            rtol,
            atol,
            message: owned(message),
        }
    }
}

/// The comparisons of a run.
pub struct ParityRunSummary {
    pub comparisons: Vec<ParityComparison>,
}

/// The positions of the comparisons among the first `k` that failed.
pub open spec fn failed_positions(cs: Seq<ParityComparison>, k: int) -> Seq<int>
    decreases k,
{
    if k <= 0 {
        Seq::empty()
    } else if !cs[k - 1].ok {
        failed_positions(cs, k - 1).push(k - 1)
    } else {
        failed_positions(cs, k - 1)
    }
}

impl ParityRunSummary {
    /// Whether every comparison passed.
    pub fn all_ok(&self) -> (r: bool)
        ensures
            r == forall|i: int| 0 <= i < self.comparisons@.len() ==> #[trigger] self.comparisons@[i].ok,
    {
        let mut k: usize = 0;
        while k < self.comparisons.len()
            invariant
                k <= self.comparisons@.len(),
                forall|i: int| 0 <= i < k ==> #[trigger] self.comparisons@[i].ok,
            decreases self.comparisons@.len() - k,
        {
            if !self.comparisons[k].ok {
                return false;
            }
            k = k + 1;
        }
        true
    }

    /// The comparisons that failed, in order.
    pub fn failures(&self) -> (r: Vec<&ParityComparison>)
        ensures
            ({
                let pos = failed_positions(self.comparisons@, self.comparisons@.len() as int);
                &&& r@.len() == pos.len()
                &&& forall|t: int| 0 <= t < pos.len() ==> *r@[t] == self.comparisons@[#[trigger] pos[t]]
            }),
    {
        let ghost cs = self.comparisons@;
        let mut out: Vec<&ParityComparison> = Vec::new();
        let mut k: usize = 0;
        while k < self.comparisons.len()
            invariant
                cs == self.comparisons@,
                k <= cs.len(),
                out@.len() == failed_positions(cs, k as int).len(),
                forall|t: int|
                    0 <= t < out@.len() ==> *out@[t] == cs[#[trigger] failed_positions(cs, k as int)[t]],
            decreases cs.len() - k,
        {
            let ghost before = failed_positions(cs, k as int);
            if !self.comparisons[k].ok {
                out.push(&self.comparisons[k]);
                proof {
                    let after = failed_positions(cs, k + 1);
                    assert(after == before.push(k as int));
                    assert forall|t: int| 0 <= t < out@.len() implies *out@[t] == cs[#[trigger] after[t]] by {
                        if t < before.len() {
                            assert(after[t] == before[t]);
                        }
                    }
                }
            }
            k = k + 1;
        }
        out
    }
}

} // verus!
