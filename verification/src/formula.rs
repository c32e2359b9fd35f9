//! Conversion formulas as data: a short pipeline of arithmetic steps.

use crate::ratio::{quotient, representable, Ratio};
use vstd::prelude::*;

verus! {

/// The largest offset a step may carry, in hundredths of a degree.
pub const MAX_OFFSET: i32 = 100_000;

/// The largest numerator or denominator of a step's factor.
pub const MAX_FACTOR: i32 = 1_000;

/// The largest number of steps in a formula.
pub const MAX_STEPS: usize = 3;

/// One arithmetic operation on a reading `x`.
///
/// Offsets are whole hundredths of a degree, factors are ratios of two small
/// positive integers, so every step is an exact rational operation.
#[derive(Clone, Copy, Debug, PartialEq, Eq, Structural)]
pub enum Step {
    /// `x + hundredths / 100`
    Add { hundredths: i32 },
    /// `x - hundredths / 100`
    Subtract { hundredths: i32 },
    /// `hundredths / 100 - x`
    SubtractFrom { hundredths: i32 },
    /// `x * (numer / denom)`
    Scale { numer: i32, denom: i32 },
}

impl Step {
    /// The constants of the step are in range, and a factor is positive.
    pub open spec fn well_formed(self) -> bool {
        match self {
            Step::Add { hundredths } => 0 <= hundredths <= MAX_OFFSET,
            Step::Subtract { hundredths } => 0 <= hundredths <= MAX_OFFSET,
            Step::SubtractFrom { hundredths } => 0 <= hundredths <= MAX_OFFSET,
            Step::Scale { numer, denom } => 1 <= numer <= MAX_FACTOR && 1 <= denom <= MAX_FACTOR,
        }
    }

    /// What the step makes of the reading `x`.
    pub open spec fn apply(self, x: real) -> real {
        match self {
            Step::Add { hundredths } => x + hundredths as real / 100real,
            Step::Subtract { hundredths } => x - hundredths as real / 100real,
            Step::SubtractFrom { hundredths } => hundredths as real / 100real - x,
            Step::Scale { numer, denom } => x * (numer as real / denom as real),
        }
    }
}

/// A bound on the parts of a fraction that started from 64-bit parts and has
/// gone through `taken` steps.
spec fn growth(taken: nat) -> int
    decreases taken,
{
    if taken == 0 {
        0x8000_0000_0000_0000
    } else {
        100_100 * growth((taken - 1) as nat)
    }
}

/// An offset times a denominator is bounded by the bounds of the two.
proof fn lemma_offset_product(h: int, d: int, b: int)
    requires
        0 <= h <= MAX_OFFSET,
        0 < d <= b,
    ensures
        0 <= h * d <= 100_000 * b,
{
    assert(0 <= h * d <= 100_000 * b) by (nonlinear_arith)
        requires
            0 <= h <= 100_000,
            0 < d <= b,
    ;
}

impl Step {
    /// The numerator of the step applied to the fraction `n / d`.
    spec fn numer_after(self, n: int, d: int) -> int {
        match self {
            Step::Add { hundredths } => 100 * n + hundredths * d,
            Step::Subtract { hundredths } => 100 * n - hundredths * d,
            Step::SubtractFrom { hundredths } => hundredths * d - 100 * n,
            Step::Scale { numer, denom } => n * numer,
        }
    }

    /// The denominator of the step applied to a fraction with denominator `d`.
    spec fn denom_after(self, d: int) -> int {
        match self {
            Step::Scale { numer, denom } => d * denom,
            _ => 100 * d,
        }
    }

    /// The step on a fraction is exact, keeps the denominator positive, and
    /// lets the parts grow by a bounded factor.
    proof fn lemma_on_fraction(self, n: int, d: int, taken: nat)
        requires
            self.well_formed(),
            0 < d <= growth(taken),
            -growth(taken) <= n <= growth(taken),
        ensures
            quotient(self.numer_after(n, d), self.denom_after(d)) == self.apply(quotient(n, d)),
            0 < self.denom_after(d) <= growth(taken + 1),
            -growth(taken + 1) <= self.numer_after(n, d) <= growth(taken + 1),
    {
        let b = growth(taken);
        assert(growth(taken + 1) == 100_100 * b);
        match self {
            Step::Add { hundredths } => {
                let h = hundredths as int;
                assert((100 * n + h * d) as real / (100 * d) as real == n as real / d as real + h as real
                    / 100real) by (nonlinear_arith)
                    requires
                        d > 0,
                ;
                lemma_offset_product(h, d, b);
            },
            Step::Subtract { hundredths } => {
                let h = hundredths as int;
                assert((100 * n - h * d) as real / (100 * d) as real == n as real / d as real - h as real
                    / 100real) by (nonlinear_arith)
                    requires
                        d > 0,
                ;
                lemma_offset_product(h, d, b);
            },
            Step::SubtractFrom { hundredths } => {
                let h = hundredths as int;
                assert((h * d - 100 * n) as real / (100 * d) as real == h as real / 100real - n as real
                    / d as real) by (nonlinear_arith)
                    requires
                        d > 0,
                ;
                lemma_offset_product(h, d, b);
            },
            Step::Scale { numer, denom } => {
                let p = numer as int;
                let q = denom as int;
                assert((n * p) as real / (d * q) as real == (n as real / d as real) * (p as real
                    / q as real)) by (nonlinear_arith)
                    requires
                        d > 0,
                        q > 0,
                ;
                assert(-(1_000 * b) <= n * p <= 1_000 * b) by (nonlinear_arith)
                    requires
                        1 <= p <= 1_000,
                        -b <= n <= b,
                ;
                assert(0 < d * q <= 1_000 * b) by (nonlinear_arith)
                    requires
                        1 <= q <= 1_000,
                        0 < d <= b,
                ;
            },
        }
    }

    /// The step applied to the fraction `n / d`, as a fraction.
    fn on_fraction(self, n: i128, d: i128, Ghost(taken): Ghost<nat>) -> (out: (i128, i128))
        requires
            self.well_formed(),
            taken < MAX_STEPS,
            0 < d <= growth(taken),
            -growth(taken) <= n <= growth(taken),
        ensures
            out.0 == self.numer_after(n as int, d as int),
            out.1 == self.denom_after(d as int),
    {
        proof {
            reveal_with_fuel(growth, 5);
            self.lemma_on_fraction(n as int, d as int, taken);
        }
        match self {
            Step::Add { hundredths } => {
                let h: i128 = hundredths as i128;
                proof {
                    lemma_offset_product(h as int, d as int, growth(taken));
                }
                (100 * n + h * d, 100 * d)
            },
            Step::Subtract { hundredths } => {
                let h: i128 = hundredths as i128;
                proof {
                    lemma_offset_product(h as int, d as int, growth(taken));
                }
                (100 * n - h * d, 100 * d)
            },
            Step::SubtractFrom { hundredths } => {
                let h: i128 = hundredths as i128;
                proof {
                    lemma_offset_product(h as int, d as int, growth(taken));
                }
                (h * d - 100 * n, 100 * d)
            },
            Step::Scale { numer, denom } => {
                (n * (numer as i128), d * (denom as i128))
            },
        }
    }
}

/// What the steps make of the reading `x`, applied from first to last.
pub open spec fn run(steps: Seq<Step>, x: real) -> real
    decreases steps.len(),
{
    if steps.len() == 0 {
        x
    } else {
        steps.last().apply(run(steps.drop_last(), x))
    }
}

/// Running a pipeline with one more step is that step applied to the
/// pipeline's result.
pub proof fn lemma_run_push(steps: Seq<Step>, step: Step, x: real)
    ensures
        run(steps.push(step), x) == step.apply(run(steps, x)),
{
    assert(steps.push(step).drop_last() =~= steps);
}

/// A conversion formula: at most three well-formed steps.
#[derive(Debug, PartialEq, Eq)]
pub struct Formula {
    steps: Vec<Step>,
}

impl View for Formula {
    type V = Seq<Step>;

    closed spec fn view(&self) -> Seq<Step> {
        self.steps@
    }
}

impl Formula {
    #[verifier::type_invariant]
    spec fn inv(&self) -> bool {
        &&& self.steps@.len() <= MAX_STEPS
        &&& forall|i: int| 0 <= i < self.steps@.len() ==> (#[trigger] self.steps@[i]).well_formed()
    }

    /// What the formula makes of the reading `x`.
    pub open spec fn apply(&self, x: real) -> real {
        run(self@, x)
    }

    /// The steps, in the order in which they are applied.
    pub fn steps(&self) -> (out: &[Step])
        ensures
            out@ == self@,
            out@.len() <= MAX_STEPS,
            forall|i: int| 0 <= i < out@.len() ==> (#[trigger] out@[i]).well_formed(),
    {
        proof {
            use_type_invariant(self);
        }
        self.steps.as_slice()
    }

    /// The formula applied to `x` in exact arithmetic.
    ///
    /// The result is the exact value in lowest terms; there is none only
    /// where no [`Ratio`] can hold that value.
    pub fn evaluate(&self, x: Ratio) -> (out: Option<Ratio>)
        ensures
            out matches Some(y) ==> y@ == self.apply(x@),
            out is None <==> !representable(self.apply(x@)),
    {
        proof {
            use_type_invariant(self);
        }
        let mut n: i128 = x.numer() as i128;
        let mut d: i128 = x.denom() as i128;
        let mut i: usize = 0;
        proof {
            assert(self.steps@.take(0) =~= Seq::<Step>::empty());
            reveal_with_fuel(growth, 5);
        }
        while i < self.steps.len()
            invariant
                i <= self.steps@.len() <= MAX_STEPS,
                forall|j: int|
                    0 <= j < self.steps@.len() ==> (#[trigger] self.steps@[j]).well_formed(),
                0 < d <= growth(i as nat),
                -growth(i as nat) <= n <= growth(i as nat),
                quotient(n as int, d as int) == run(self.steps@.take(i as int), x@),
            decreases self.steps@.len() - i,
        {
            let step = self.steps[i];
            proof {
                step.lemma_on_fraction(n as int, d as int, i as nat);
                lemma_run_push(self.steps@.take(i as int), step, x@);
                assert(self.steps@.take(i + 1) =~= self.steps@.take(i as int).push(step));
            }
            let next = step.on_fraction(n, d, Ghost(i as nat));
            n = next.0;
            d = next.1;
            i += 1;
        }
        proof {
            assert(self.steps@.take(i as int) =~= self.steps@);
            reveal_with_fuel(growth, 5);
        }
        Ratio::lowest_terms(n, d)
    }

    /// The formula without steps: the reading itself.
    pub(crate) fn reading() -> (f: Formula)
        ensures
            f@ == Seq::<Step>::empty(),
    {
        Formula { steps: Vec::new() }
    }

    fn followed_by(self, step: Step) -> (f: Formula)
        requires
            self@.len() < MAX_STEPS,
            step.well_formed(),
        ensures
            f@ == self@.push(step),
            forall|x: real| #[trigger] f.apply(x) == step.apply(self.apply(x)),
    {
        proof {
            use_type_invariant(&self);
            assert forall|x: real| #[trigger] run(self@.push(step), x) == step.apply(run(self@, x)) by {
                lemma_run_push(self@, step, x);
            }
        }
        let mut steps = self.steps;
        steps.push(step);
        Formula { steps }
    }

    /// `x + hundredths / 100` after the steps so far.
    pub(crate) fn plus(self, hundredths: i32) -> (f: Formula)
        requires
            self@.len() < MAX_STEPS,
            0 <= hundredths <= MAX_OFFSET,
        ensures
            f@ == self@.push(Step::Add { hundredths }),
            forall|x: real| #[trigger] f.apply(x) == self.apply(x) + hundredths as real / 100real,
    {
        self.followed_by(Step::Add { hundredths })
    }

    /// `x - hundredths / 100` after the steps so far.
    pub(crate) fn minus(self, hundredths: i32) -> (f: Formula)
        requires
            self@.len() < MAX_STEPS,
            0 <= hundredths <= MAX_OFFSET,
        ensures
            f@ == self@.push(Step::Subtract { hundredths }),
            forall|x: real| #[trigger] f.apply(x) == self.apply(x) - hundredths as real / 100real,
    {
        self.followed_by(Step::Subtract { hundredths })
    }

    /// `hundredths / 100 - x` after the steps so far.
    pub(crate) fn taken_from(self, hundredths: i32) -> (f: Formula)
        requires
            self@.len() < MAX_STEPS,
            0 <= hundredths <= MAX_OFFSET,
        ensures
            f@ == self@.push(Step::SubtractFrom { hundredths }),
            forall|x: real| #[trigger] f.apply(x) == hundredths as real / 100real - self.apply(x),
    {
        self.followed_by(Step::SubtractFrom { hundredths })
    }

    /// `x * (numer / denom)` after the steps so far.
    pub(crate) fn times(self, numer: i32, denom: i32) -> (f: Formula)
        requires
            self@.len() < MAX_STEPS,
            1 <= numer <= MAX_FACTOR,
            1 <= denom <= MAX_FACTOR,
        ensures
            f@ == self@.push(Step::Scale { numer, denom }),
            forall|x: real| #[trigger] f.apply(x) == self.apply(x) * (numer as real / denom as real),
    {
        self.followed_by(Step::Scale { numer, denom })
    }
}

} // verus!
