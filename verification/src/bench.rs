//! Measured functions, input generators and the paired measurement loop.
//!
//! A [`BenchmarkFn`] runs a function over a haystack and a batch of needles
//! under the timer and reports the cumulative duration.  A [`MeasureTarget`]
//! is the registry-level view of a measured function.  The paired measurement
//! loop interleaves a baseline and a candidate in an ABBA pattern over shared
//! inputs and produces two equal-length series of per-iteration times plus
//! their paired difference.

use vstd::prelude::*;

use crate::sort::median;
use crate::summary::{bounded_seq, MAX_ABS_SAMPLE, MAX_SAMPLE_COUNT};
use crate::timing::{elapsed_at_least, sink, timer_start, timer_stop};

verus! {

/// Nanoseconds in a millisecond.
pub const NS_TO_MS: u64 = 1_000_000;

/// Cap on the number of alternations the iteration-sizing pilot counts.
const PILOT_CAP: usize = 0x4000_0000;

/// A function measured over a haystack and a batch of needles.
pub trait BenchmarkFn<H, N> {
    /// The name the function was registered under.
    spec fn spec_name(&self) -> Seq<char>;

    /// Runs the function once per needle under the timer and returns the
    /// cumulative duration of the timed region in timer ticks.
    fn measure(&self, haystack: &H, needles: &[N]) -> u64;

    /// The registered, never empty, name of the function.
    fn name(&self) -> (r: &str)
        ensures
            r@ == self.spec_name(),
            r@.len() != 0,
    ;
}

/// An opaque holder of a measured function.
pub trait MeasureTarget {
    /// The name the target was registered under.
    spec fn spec_name(&self) -> Seq<char>;

    /// Measures `iterations` calls of the function, returning the cumulative
    /// duration in timer ticks.
    fn measure(&mut self, iterations: usize) -> u64;

    /// Estimates how many iterations fit into `time_ms` milliseconds; never
    /// less than one.
    fn estimate_iterations(&mut self, time_ms: u32) -> (r: usize)
        ensures
            r >= 1,
    ;

    /// The registered, never empty, name of the target.
    fn name(&self) -> (r: &str)
        ensures
            r@ == self.spec_name(),
            r@.len() != 0,
    ;
}

/// A plain function of a haystack and a needle.
#[verifier::reject_recursive_types(H)]
#[verifier::reject_recursive_types(N)]
#[verifier::reject_recursive_types(O)]
pub struct Func<H, N, O, F: Fn(&H, &N) -> O> {
    name: &'static str,
    func: F,
    _marker: core::marker::PhantomData<(H, N, O)>,
}

impl<H, N, O, F: Fn(&H, &N) -> O> Func<H, N, O, F> {
    #[verifier::type_invariant]
    spec fn inv(self) -> bool {
        &&& self.name@.len() != 0
        &&& forall|h: &H, n: &N| call_requires(self.func, (h, n))
    }
}

/// A benchmark over a plain function of a haystack and a needle.
pub fn _benchmark_fn<H, N, O, F: Fn(&H, &N) -> O>(name: &'static str, func: F) -> (r: Func<
    H,
    N,
    O,
    F,
>)
    requires
        name@.len() != 0,
        forall|h: &H, n: &N| call_requires(func, (h, n)),
    ensures
        r.spec_name() == name@,
{
    Func { name, func, _marker: core::marker::PhantomData }
}

impl<H, N, O, F: Fn(&H, &N) -> O> BenchmarkFn<H, N> for Func<H, N, O, F> {
    closed spec fn spec_name(&self) -> Seq<char> {
        self.name@
    }

    fn measure(&self, haystack: &H, needles: &[N]) -> u64 {
        proof {
            use_type_invariant(&*self);
        }
        let iterations = needles.len();
        let mut result: Vec<O> = Vec::with_capacity(iterations);
        let start = timer_start();
        let mut i: usize = 0;
        while i < iterations
            invariant
                iterations == needles@.len(),
                forall|h: &H, n: &N| call_requires(self.func, (h, n)),
            decreases iterations - i,
        {
            result.push(sink((self.func)(haystack, &needles[i])));
            i = i + 1;
        }
        // `result` stays live past the timer stop and is released on return
        let time = timer_stop(&start);
        time
    }

    fn name(&self) -> (r: &str) {
        proof {
            use_type_invariant(&*self);
        }
        self.name
    }
}

/// A function with a per-haystack setup step whose cost stays outside the
/// timed region; the per-call clone of the prepared input is measured.
#[verifier::reject_recursive_types(H)]
#[verifier::reject_recursive_types(N)]
#[verifier::reject_recursive_types(I)]
#[verifier::reject_recursive_types(O)]
pub struct SetupFunc<H, N, I: Clone, O, S: Fn(&H) -> I, F: Fn(I, &N) -> O> {
    name: &'static str,
    setup: S,
    func: F,
    _marker: core::marker::PhantomData<(H, N, I, O)>,
}

impl<H, N, I: Clone, O, S: Fn(&H) -> I, F: Fn(I, &N) -> O> SetupFunc<H, N, I, O, S, F> {
    #[verifier::type_invariant]
    spec fn inv(self) -> bool {
        &&& self.name@.len() != 0
        &&& forall|h: &H| call_requires(self.setup, (h,))
        &&& forall|i: I, n: &N| call_requires(self.func, (i, n))
    }
}

/// A benchmark over a function with a setup step excluded from timing.
pub fn benchmark_fn_with_setup<H, N, I: Clone, O, S: Fn(&H) -> I, F: Fn(I, &N) -> O>(
    name: &'static str,
    func: F,
    setup: S,
) -> (r: SetupFunc<H, N, I, O, S, F>)
    requires
        name@.len() != 0,
        forall|h: &H| call_requires(setup, (h,)),
        forall|i: I, n: &N| call_requires(func, (i, n)),
    ensures
        r.spec_name() == name@,
{
    SetupFunc { name, setup, func, _marker: core::marker::PhantomData }
}

impl<H, N, I: Clone, O, S: Fn(&H) -> I, F: Fn(I, &N) -> O> BenchmarkFn<H, N> for SetupFunc<
    H,
    N,
    I,
    O,
    S,
    F,
> {
    closed spec fn spec_name(&self) -> Seq<char> {
        self.name@
    }

    fn measure(&self, haystack: &H, needles: &[N]) -> u64 {
        proof {
            use_type_invariant(&*self);
        }
        let iterations = needles.len();
        let mut results: Vec<O> = Vec::with_capacity(iterations);
        let prepared = (self.setup)(haystack);
        let start = timer_start();
        let mut i: usize = 0;
        while i < iterations
            invariant
                iterations == needles@.len(),
                forall|v: I, n: &N| call_requires(self.func, (v, n)),
            decreases iterations - i,
        {
            results.push(sink((self.func)(prepared.clone(), &needles[i])));
            i = i + 1;
        }
        // `results` stays live past the timer stop and is released on return
        let time = timer_stop(&start);
        time
    }

    fn name(&self) -> (r: &str) {
        proof {
            use_type_invariant(&*self);
        }
        self.name
    }
}

impl<H, N> BenchmarkFn<H, N> for Box<dyn BenchmarkFn<H, N>> {
    closed spec fn spec_name(&self) -> Seq<char> {
        (**self).spec_name()
    }

    fn measure(&self, haystack: &H, needles: &[N]) -> u64 {
        (**self).measure(haystack, needles)
    }

    fn name(&self) -> (r: &str) {
        (**self).name()
    }
}

/// Generates the payload for the measured functions: a long-lived haystack
/// and a cheap per-call needle.
pub trait Generator {
    type Haystack;

    type Needle;

    /// Next haystack; drawn once per `samples_per_haystack` samples.
    fn next_haystack(&mut self) -> Self::Haystack;

    /// Next needle for the given haystack.
    fn next_needle(&mut self, haystack: &Self::Haystack) -> Self::Needle;

    /// A batch of `size` needles appended to `needles`.
    fn next_needles(
        &mut self,
        haystack: &Self::Haystack,
        size: usize,
        needles: &mut Vec<Self::Needle>,
    )
        ensures
            final(needles)@.len() == old(needles)@.len() + size,
    {
        let mut k: usize = 0;
        while k < size
            invariant
                k <= size,
                needles@.len() == old(needles)@.len() + k,
            decreases size - k,
        {
            let n = self.next_needle(haystack);
            needles.push(n);
            k = k + 1;
        }
    }

    /// A stable label for the generator; a fixed fallback that implementors
    /// usually override.
    fn name(&self) -> String {
        let r = String::new();
        string_push_str(r, "generator")
    }

    /// Restores deterministic state where the generator supports it.
    fn reset(&mut self) {
    }
}

/// Generator that hands out fixed copies of one haystack and one needle.
#[derive(Clone, Copy)]
pub struct StaticValue<H, N>(
    /// Haystack value
    pub H,
    /// Needle value
    pub N,
);

impl<H: Copy, N: Copy> Generator for StaticValue<H, N> {
    type Haystack = H;

    type Needle = N;

    fn next_haystack(&mut self) -> (r: Self::Haystack)
        ensures
            r == old(self).0,
            *final(self) == *old(self),
    {
        self.0
    }

    fn next_needle(&mut self, _haystack: &Self::Haystack) -> (r: Self::Needle)
        ensures
            r == old(self).1,
            *final(self) == *old(self),
    {
        self.1
    }

    fn name(&self) -> (r: String)
        ensures
            r@ == "StaticValue"@,
    {
        let r = String::new();
        let r = string_push_str(r, "StaticValue");
        proof {
            assert(Seq::<char>::empty() + "StaticValue"@ =~= "StaticValue"@);
        }
        r
    }
}

/// Relies on `String::push_str`: appends the piece to the string.
#[verifier::external_body]
fn string_push_str(s: String, piece: &str) -> (r: String)
    ensures
        r@ == s@ + piece@,
{
    let mut s = s;
    s.push_str(piece);
    s
}

/// A function without inputs, measured a requested number of times.
#[verifier::reject_recursive_types(O)]
pub struct SimpleFunc<O, F: Fn() -> O> {
    name: &'static str,
    func: F,
    _marker: core::marker::PhantomData<O>,
}

impl<O, F: Fn() -> O> SimpleFunc<O, F> {
    #[verifier::type_invariant]
    spec fn inv(self) -> bool {
        &&& self.name@.len() != 0
        &&& call_requires(self.func, ())
    }
}

/// A benchmark over a function of no inputs.
pub fn benchmark_fn<O: 'static, F: Fn() -> O + 'static>(
    name: &'static str,
    func: F,
) -> (r: Box<SimpleFunc<O, F>>)
    requires
        name@.len() != 0,
        call_requires(func, ()),
    ensures
        r.spec_name() == name@,
{
    Box::new(SimpleFunc { name, func, _marker: core::marker::PhantomData })
}

impl<O, F: Fn() -> O> MeasureTarget for SimpleFunc<O, F> {
    closed spec fn spec_name(&self) -> Seq<char> {
        self.name@
    }

    fn measure(&mut self, iterations: usize) -> u64 {
        proof {
            use_type_invariant(&*self);
        }
        let mut result: Vec<O> = Vec::with_capacity(iterations);
        let start = timer_start();
        let mut i: usize = 0;
        while i < iterations
            invariant
                call_requires(self.func, ()),
            decreases iterations - i,
        {
            result.push(sink((self.func)()));
            i = i + 1;
        }
        // `result` stays live past the timer stop and is released on return
        let time = timer_stop(&start);
        time
    }

    fn estimate_iterations(&mut self, time_ms: u32) -> (r: usize) {
        let mut measures: Vec<u64> = Vec::new();
        let mut i: usize = 0;
        while i < 10
            invariant
                measures@.len() == i,
            decreases 10 - i,
        {
            let m = self.measure(1);
            measures.push(m);
            i = i + 1;
        }
        let med = median(measures);
        iterations_that_fit(time_ms, med)
    }

    fn name(&self) -> (r: &str) {
        proof {
            use_type_invariant(&*self);
        }
        self.name
    }
}

/// Number of iterations of median cost `median_ticks` that fit in `time_ms`
/// milliseconds: `time_ms * 10^6 / median_ticks`, clamped into
/// `[1, usize::MAX]`, with a zero median treated as one tick.
pub open spec fn spec_iterations_that_fit(time_ms: u32, median_ticks: u64) -> int {
    let med: int = if median_ticks == 0 {
        1
    } else {
        median_ticks as int
    };
    let q: int = (time_ms * 1_000_000) / med;
    if q > usize::MAX {
        usize::MAX as int
    } else if q == 0 {
        1
    } else {
        q
    }
}

/// Number of iterations of median cost `median_ticks` that fit in `time_ms`
/// milliseconds, floored at one.
fn iterations_that_fit(time_ms: u32, median_ticks: u64) -> (r: usize)
    ensures
        r >= 1,
        r == spec_iterations_that_fit(time_ms, median_ticks),
{
    let med = if median_ticks == 0 {
        1
    } else {
        median_ticks
    };
    let q = (time_ms as u64) * 1_000_000 / med;
    let q = if q > usize::MAX as u64 {
        usize::MAX as u64
    } else {
        q
    };
    if q == 0 {
        1
    } else {
        q as usize
    }
}

/// Median duration in ticks of `iterations` single-call measurements.
pub fn median_execution_time<T: MeasureTarget>(target: &mut T, iterations: u32) -> (r: u64)
    requires
        iterations >= 1,
{
    let mut measures: Vec<u64> = Vec::new();
    let mut i: u32 = 0;
    while i < iterations
        invariant
            measures@.len() == i,
        decreases iterations - i,
    {
        let m = target.measure(1);
        measures.push(m);
        i = i + 1;
    }
    median(measures)
}

/// A non-empty name for a registered target.
struct Label {
    name: String,
}

impl Label {
    #[verifier::type_invariant]
    spec fn inv(self) -> bool {
        self.name@.len() != 0
    }

    spec fn view(self) -> Seq<char> {
        self.name@
    }

    fn new(name: String) -> (r: Label)
        requires
            name@.len() != 0,
        ensures
            r.view() == name@,
    {
        Label { name }
    }

    fn get(&self) -> (r: &str)
        ensures
            r@ == self.view(),
            r@.len() != 0,
    {
        proof {
            use_type_invariant(self);
        }
        self.name.as_str()
    }
}

/// A measured function paired with the generator that feeds it.
pub struct GenAndFunc<F, G> {
    f: F,
    g: G,
    label: Label,
}

impl<
    H,
    N,
    G: Generator<Haystack = H, Needle = N>,
    F: BenchmarkFn<H, N>,
> GenAndFunc<F, G> {
    /// Pair a measured function with a generator; the name is
    /// `function/generator`.
    pub fn new(f: F, g: G) -> (r: GenAndFunc<F, G>)
        ensures
            exists|generator_label: Seq<char>|
                r.spec_name() == #[trigger] (f.spec_name() + "/"@ + generator_label),
    {
        let gn = g.name();
        let name = crate::analysis::join_names(f.name(), "/", gn.as_str());
        let r = GenAndFunc { f, g, label: Label::new(name) };
        proof {
            assert(r.spec_name() == r.f.spec_name() + "/"@ + gn@);
        }
        r
    }
}

impl<
    H: 'static,
    N: 'static,
    G: Generator<Haystack = H, Needle = N> + 'static,
    F: BenchmarkFn<H, N> + 'static,
> GenAndFunc<F, G> {
    /// Boxed form of [`GenAndFunc::new`], for registries of targets.
    pub fn new_boxed(f: F, g: G) -> Box<dyn MeasureTarget> {
        Box::new(Self::new(f, g))
    }
}

impl<
    H,
    N,
    G: Generator<Haystack = H, Needle = N>,
    F: BenchmarkFn<H, N>,
> MeasureTarget for GenAndFunc<F, G> {
    closed spec fn spec_name(&self) -> Seq<char> {
        self.label.view()
    }

    fn measure(&mut self, iterations: usize) -> u64 {
        let haystack = self.g.next_haystack();
        let mut needles: Vec<N> = Vec::with_capacity(iterations);
        self.g.next_needles(&haystack, iterations, &mut needles);
        self.f.measure(&haystack, needles.as_slice())
    }

    fn estimate_iterations(&mut self, time_ms: u32) -> (r: usize) {
        let iterations: usize = 10;
        let haystack = self.g.next_haystack();
        let mut needles: Vec<N> = Vec::with_capacity(iterations);
        self.g.next_needles(&haystack, iterations, &mut needles);

        let mut measurements: Vec<u64> = Vec::with_capacity(iterations);
        while needles.len() > 0
            decreases needles@.len(),
        {
            let needle = match needles.pop() {
                Some(n) => n,
                None => {
                    break ;
                },
            };
            let batch = vec![needle];
            measurements.push(self.f.measure(&haystack, batch.as_slice()));
        }
        if measurements.len() == 0 {
            return 1;
        }
        let med = median(measurements);
        iterations_that_fit(time_ms, med)
    }

    fn name(&self) -> (r: &str) {
        self.label.get()
    }
}

/// Settings of the measurement loop.
#[derive(Clone, Copy, PartialEq, Eq, Structural, Debug)]
pub struct MeasurementSettings {
    /// Hard cap on the number of paired samples.
    pub max_samples: usize,
    /// Wall-clock budget for one pair, in nanoseconds.
    pub max_duration_ns: u64,
    /// Whether the interquartile-range filter trims the difference series.
    pub outlier_detection_enabled: bool,
    /// The number of consecutive samples that reuse one haystack.
    pub samples_per_haystack: usize,
    /// Minimum number of iterations in a sample for each of the 2 functions.
    pub min_iterations_per_sample: usize,
    /// Maximum number of iterations in a sample for each of the 2 functions.
    pub max_iterations_per_sample: usize,
}

impl MeasurementSettings {
    /// The settings the measurement loop is verified for.
    pub open spec fn wf_settings(self) -> bool {
        &&& self.max_samples <= MAX_SAMPLE_COUNT
        &&& self.samples_per_haystack >= 1
        &&& 1 <= self.min_iterations_per_sample <= self.max_iterations_per_sample
        &&& self.max_iterations_per_sample <= MAX_SAMPLE_COUNT
    }
}

impl Default for MeasurementSettings {
    fn default() -> (r: MeasurementSettings)
        ensures
            r.wf_settings(),
            r == (MeasurementSettings {
                max_samples: 1_000_000,
                max_duration_ns: 100_000_000,
                outlier_detection_enabled: true,
                samples_per_haystack: 1,
                min_iterations_per_sample: 1,
                max_iterations_per_sample: 50,
            }),
    {
        MeasurementSettings {
            max_samples: 1_000_000,
            max_duration_ns: 100_000_000,
            outlier_detection_enabled: true,
            samples_per_haystack: 1,
            min_iterations_per_sample: 1,
            max_iterations_per_sample: 50,
        }
    }
}

/// Options for a whole benchmark run over a set of registered pairs.
pub struct RunOpts {
    /// Only pairs whose key contains this filter are run.
    pub name_filter: Option<String>,
    /// Settings handed to the measurement loop.
    pub settings: MeasurementSettings,
}

/// Estimates the number of alternations of the two functions achievable in
/// one millisecond, rounded down to a multiple of ten and floored at one.
///
/// The pilot alternates single-iteration calls of both functions for about
/// ten milliseconds and counts completed alternations.
pub fn estimate_iterations_per_ms<
    G: Generator,
    B: BenchmarkFn<G::Haystack, G::Needle>,
    C: BenchmarkFn<G::Haystack, G::Needle>,
>(generator: &mut G, base: &B, candidate: &C) -> (r: usize)
    ensures
        1 <= r,
        r == 1 || r % 10 == 0,
{
    let haystack = generator.next_haystack();
    let mut needles: Vec<G::Needle> = Vec::with_capacity(1);
    generator.next_needles(&haystack, 1, &mut needles);

    let mut completed: usize = 0;
    let start = timer_start();
    while completed < PILOT_CAP && !elapsed_at_least(&start, 10_000_000)
        invariant
            completed <= PILOT_CAP,
        decreases PILOT_CAP - completed,
    {
        candidate.measure(&haystack, needles.as_slice());
        base.measure(&haystack, needles.as_slice());
        completed = completed + 1;
    }
    let per_ms = completed / 10 / 10 * 10;
    proof {
        assert(per_ms % 10 == 0) by (nonlinear_arith)
            requires
                per_ms == (completed as int / 10 / 10) * 10,
        ;
    }
    if per_ms == 0 {
        1
    } else {
        per_ms
    }
}

/// Paired measurement of a baseline and a candidate over shared inputs.
///
/// Returns `(base, candidate, diff)`: two equal-length series of
/// per-iteration times, saturated at [`MAX_ABS_SAMPLE`], and their exact
/// paired difference `diff[i] == candidate[i] - base[i]`.  The wall-clock
/// deadline is checked every ten samples, so the number of samples is a
/// multiple of ten unless the cap `max_samples` was reached.
pub fn measure_function_pair<
    G: Generator,
    B: BenchmarkFn<G::Haystack, G::Needle>,
    C: BenchmarkFn<G::Haystack, G::Needle>,
>(generator: &mut G, base: &B, candidate: &C, settings: &MeasurementSettings) -> (r: (
    Vec<i64>,
    Vec<i64>,
    Vec<i64>,
))
    requires
        settings.wf_settings(),
    ensures
        r.0@.len() == r.1@.len() && r.1@.len() == r.2@.len(),
        r.0@.len() <= settings.max_samples,
        r.0@.len() % 10 == 0 || r.0@.len() == settings.max_samples,
        forall|i: int| 0 <= i < r.2@.len() ==> r.2@[i] == r.1@[i] - r.0@[i],
        forall|i: int| 0 <= i < r.0@.len() ==> 0 <= #[trigger] r.0@[i] <= MAX_ABS_SAMPLE,
        forall|i: int| 0 <= i < r.1@.len() ==> 0 <= #[trigger] r.1@[i] <= MAX_ABS_SAMPLE,
        bounded_seq(r.2@, MAX_ABS_SAMPLE as int),
{
    let mut base_time: Vec<i64> = Vec::new();
    let mut candidate_time: Vec<i64> = Vec::new();
    let mut diff: Vec<i64> = Vec::new();

    let estimate = estimate_iterations_per_ms(generator, base, candidate);
    let mut top = estimate;
    if top > settings.max_iterations_per_sample {
        top = settings.max_iterations_per_sample;
    }
    if top < settings.min_iterations_per_sample {
        top = settings.min_iterations_per_sample;
    }
    let mut iterations_choices: Vec<usize> = Vec::new();
    let mut v = settings.min_iterations_per_sample;
    while v <= top
        invariant
            settings.wf_settings(),
            top <= MAX_SAMPLE_COUNT,
            settings.min_iterations_per_sample <= v,
            v <= top + 1,
            iterations_choices@.len() == v - settings.min_iterations_per_sample,
            forall|k: int| 0 <= k < iterations_choices@.len() ==> #[trigger] iterations_choices@[k]
                >= 1,
        decreases top + 1 - v,
    {
        iterations_choices.push(v);
        v = v + 1;
    }
    proof {
        assert(iterations_choices@.len() >= 1);
    }

    let start = timer_start();
    let mut haystack = generator.next_haystack();
    let mut needles: Vec<G::Needle> = Vec::new();

    let max_samples = settings.max_samples;
    let mut i: usize = 0;
    while i < max_samples
        invariant
            i <= max_samples,
            max_samples <= MAX_SAMPLE_COUNT,
            settings.samples_per_haystack >= 1,
            iterations_choices@.len() >= 1,
            forall|k: int| 0 <= k < iterations_choices@.len() ==> #[trigger] iterations_choices@[k]
                >= 1,
            base_time@.len() == i,
            candidate_time@.len() == i,
            diff@.len() == i,
            forall|k: int| 0 <= k < diff@.len() ==> diff@[k] == candidate_time@[k] - base_time@[k],
            forall|k: int| 0 <= k < base_time@.len() ==> 0 <= #[trigger] base_time@[k]
                <= MAX_ABS_SAMPLE,
            forall|k: int| 0 <= k < candidate_time@.len() ==> 0 <= #[trigger] candidate_time@[k]
                <= MAX_ABS_SAMPLE,
        ensures
            i <= max_samples,
            base_time@.len() == i,
            candidate_time@.len() == i,
            diff@.len() == i,
            i == max_samples || i % 10 == 0,
            forall|k: int| 0 <= k < diff@.len() ==> diff@[k] == candidate_time@[k] - base_time@[k],
            forall|k: int| 0 <= k < base_time@.len() ==> 0 <= #[trigger] base_time@[k]
                <= MAX_ABS_SAMPLE,
            forall|k: int| 0 <= k < candidate_time@.len() ==> 0 <= #[trigger] candidate_time@[k]
                <= MAX_ABS_SAMPLE,
        decreases max_samples - i,
    {
        if i % 10 == 0 && elapsed_at_least(&start, settings.max_duration_ns) {
            break ;
        }
        // the sample size rotates through the table to defuse resonance with
        // periodic noise; each size serves two consecutive samples, one per
        // interleaving order
        let idx = (i / 2) % iterations_choices.len();
        let iterations = iterations_choices[idx];
        // a fresh needle batch whenever the haystack turns over, or when the
        // rotated sample size no longer matches the batch
        if i % settings.samples_per_haystack == 0 || needles.len() != iterations {
            if i % settings.samples_per_haystack == 0 {
                haystack = generator.next_haystack();
            }
            needles = Vec::with_capacity(iterations);
            generator.next_needles(&haystack, iterations, &mut needles);
        }

        // ABBA interleaving: the order of the two functions alternates with
        // the parity of the sample index.
        let (base_sample, candidate_sample) = if i % 2 == 0 {
            let b = base.measure(&haystack, needles.as_slice());
            let c = candidate.measure(&haystack, needles.as_slice());
            (b, c)
        } else {
            let c = candidate.measure(&haystack, needles.as_slice());
            let b = base.measure(&haystack, needles.as_slice());
            (b, c)
        };

        let b = per_iteration_time(base_sample, iterations);
        let c = per_iteration_time(candidate_sample, iterations);
        base_time.push(b);
        candidate_time.push(c);
        diff.push(c - b);
        i = i + 1;
    }

    (base_time, candidate_time, diff)
}

/// Per-iteration time of a sample: the cumulative ticks divided by the
/// iteration count, saturated at [`MAX_ABS_SAMPLE`].
fn per_iteration_time(ticks: u64, iterations: usize) -> (r: i64)
    requires
        iterations >= 1,
    ensures
        0 <= r <= MAX_ABS_SAMPLE,
        r == if ticks / (iterations as u64) > MAX_ABS_SAMPLE {
            MAX_ABS_SAMPLE as int
        } else {
            ticks as int / (iterations as int)
        },
{
    let q = ticks / (iterations as u64);
    if q > MAX_ABS_SAMPLE as u64 {
        MAX_ABS_SAMPLE
    } else {
        q as i64
    }
}

/// Runs the pair `tries` times and counts how many runs were classified
/// significant.
pub fn calibrate_pair<
    G: Generator,
    B: BenchmarkFn<G::Haystack, G::Needle>,
    C: BenchmarkFn<G::Haystack, G::Needle>,
>(generator: &mut G, a: &B, b: &C, tries: usize, settings: &MeasurementSettings) -> (r: usize)
    requires
        settings.wf_settings(),
    ensures
        r <= tries,
{
    let mut succeed: usize = 0;
    let mut t: usize = 0;
    while t < tries
        invariant
            succeed <= t <= tries,
            settings.wf_settings(),
        decreases tries - t,
    {
        let (base_time, candidate_time, diff) = measure_function_pair(generator, a, b, settings);
        let base_summary = crate::summary::Summary::from(base_time.as_slice());
        let candidate_summary = crate::summary::Summary::from(candidate_time.as_slice());
        match (base_summary, candidate_summary) {
            (Some(bs), Some(cs)) => {
                let result = crate::analysis::calculate_run_result(
                    a.name(),
                    b.name(),
                    bs,
                    cs,
                    diff,
                    settings.outlier_detection_enabled,
                );
                match result {
                    Some(rr) => {
                        if rr.significant {
                            succeed = succeed + 1;
                        }
                    },
                    None => {},
                }
            },
            _ => {},
        }
        t = t + 1;
    }
    succeed
}

/// H0/H1 calibration counts over a list of registered pairs.
///
/// For each pair, runs `tries` calibrations of the baseline against itself,
/// of the candidate against itself, and of the pair, and returns the three
/// significant counts in that order.  The self-comparison counts are expected
/// to stay near zero, the paired count near `tries`.
pub fn calibration_counts<
    G: Generator,
    B: BenchmarkFn<G::Haystack, G::Needle>,
    C: BenchmarkFn<G::Haystack, G::Needle>,
>(
    generator: &mut G,
    pairs: &Vec<(&B, &C)>,
    tries: usize,
    settings: &MeasurementSettings,
) -> (r: Vec<(usize, usize, usize)>)
    requires
        settings.wf_settings(),
    ensures
        r@.len() == pairs@.len(),
        forall|k: int|
            0 <= k < r@.len() ==> (#[trigger] r@[k]).0 <= tries && r@[k].1 <= tries && r@[k].2
                <= tries,
{
    let mut counts: Vec<(usize, usize, usize)> = Vec::new();
    let mut i: usize = 0;
    while i < pairs.len()
        invariant
            settings.wf_settings(),
            i <= pairs@.len(),
            counts@.len() == i,
            forall|k: int|
                0 <= k < counts@.len() ==> (#[trigger] counts@[k]).0 <= tries && counts@[k].1
                    <= tries && counts@[k].2 <= tries,
        decreases pairs@.len() - i,
    {
        let baseline = pairs[i].0;
        let candidate = pairs[i].1;
        let h0_base = calibrate_pair(generator, baseline, baseline, tries, settings);
        let h0_candidate = calibrate_pair(generator, candidate, candidate, tries, settings);
        let h1 = calibrate_pair(generator, baseline, candidate, tries, settings);
        counts.push((h0_base, h0_candidate, h1));
        i = i + 1;
    }
    counts
}

/// A set of benchmarks built from one or more generators.
pub struct GeneratorBenchmarks<G> {
    generators: Vec<G>,
    functions: Vec<Box<dyn MeasureTarget>>,
    // the verifier cannot see into a list of boxed trait objects, so the
    // number of registered targets is tracked alongside it
    registered: Ghost<nat>,
}

impl<G> GeneratorBenchmarks<G> {
    /// How many generators feed this set.
    pub closed spec fn generator_count(self) -> nat {
        self.generators@.len()
    }

    /// How many targets have been registered so far.
    pub closed spec fn target_count(self) -> nat {
        self.registered@
    }
}

impl<
    H: 'static,
    N: 'static,
    G: Generator<Haystack = H, Needle = N> + 'static,
> GeneratorBenchmarks<G> {
    /// Benchmarks fed by a single generator.
    pub fn with_generator(generator: G) -> (r: GeneratorBenchmarks<G>)
        ensures
            r.generator_count() == 1,
            r.target_count() == 0,
    {
        let mut generators: Vec<G> = Vec::new();
        generators.push(generator);
        GeneratorBenchmarks { generators, functions: Vec::new(), registered: Ghost(0nat) }
    }

    /// Benchmarks fed by one generator per parameter.
    pub fn with_generators<P>(params: Vec<P>, generator: impl Fn(P) -> G) -> (r: GeneratorBenchmarks<
        G,
    >)
        requires
            forall|p: P| call_requires(generator, (p,)),
        ensures
            r.generator_count() == params@.len(),
            r.target_count() == 0,
    {
        let ghost total = params@.len();
        let mut params = params;
        let mut generators: Vec<G> = Vec::new();
        while params.len() > 0
            invariant
                forall|p: P| call_requires(generator, (p,)),
                generators@.len() + params@.len() == total,
            decreases params@.len(),
        {
            let p = params.remove(0);
            generators.push(generator(p));
        }
        GeneratorBenchmarks { generators, functions: Vec::new(), registered: Ghost(0nat) }
    }

    /// Registers `f` once for every generator, under `name`.
    pub fn add<O, F>(&mut self, name: &'static str, f: F) where
        G: Clone,
        O: 'static,
        F: Fn(&H, &N) -> O + Copy + 'static,

        requires
            name@.len() != 0,
            forall|h: &H, n: &N| call_requires(f, (h, n)),
        ensures
            final(self).generator_count() == old(self).generator_count(),
            final(self).target_count() == old(self).target_count()
                + old(self).generator_count(),
    {
        let ghost gens0 = self.generators@;
        let ghost count0 = self.registered@;
        let mut idx: usize = 0;
        while idx < self.generators.len()
            invariant
                name@.len() != 0,
                forall|h: &H, n: &N| call_requires(f, (h, n)),
                idx <= self.generators@.len(),
                self.generators@ == gens0,
                self.registered@ == count0 + idx,
            decreases self.generators.len() - idx,
        {
            let g = self.generators[idx].clone();
            let func = _benchmark_fn(name, f);
            self.functions.push(GenAndFunc::new_boxed(func, g));
            self.registered = Ghost(self.registered@ + 1);
            idx = idx + 1;
        }
    }
}

/// Anything that can hand over a registry of measurable targets.
pub trait IntoBenchmarks {
    /// The registered targets, in registration order.
    fn into_benchmarks(self) -> Vec<Box<dyn MeasureTarget>>;
}

impl<G> IntoBenchmarks for GeneratorBenchmarks<G> {
    fn into_benchmarks(self) -> Vec<Box<dyn MeasureTarget>> {
        self.functions
    }
}

impl IntoBenchmarks for Vec<Box<dyn MeasureTarget>> {
    fn into_benchmarks(self) -> Vec<Box<dyn MeasureTarget>> {
        self
    }
}

} // verus!
