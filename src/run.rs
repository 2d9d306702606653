//! The harness: binds a generator to a property and runs the samples.
use vstd::prelude::*;
use vstd::string::StringExecFns;

use std::time::SystemTime;

use crate::generator::{GenFailure, Generator};
use crate::property::{Outcome, Property};
use crate::rand::{child_state, seed_state, steps, RState, R};
use crate::seed::{Seed, SeedError};
use crate::ux::{debug_text, render, Element, TestResults};

verus! {

#[verifier::external_type_specification]
#[verifier::external_body]
pub struct ExSystemTime(SystemTime);

/// Relies on `SystemTime::now`: the current wall-clock time.
#[verifier::external_body]
fn now() -> SystemTime {
    SystemTime::now()
}

/// Relies on `SystemTime::elapsed`: the nanoseconds since `start`, or zero if
/// the clock went backwards.
#[verifier::external_body]
fn elapsed_since(start: SystemTime) -> u128 {
    start.elapsed().unwrap_or_default().as_nanos()
}

/// How many samples a run draws unless told otherwise.
pub const DEFAULT_NB_TESTS: u64 = 1000;

/// The message of a failed sampling attempt.
pub struct PanicError(pub String);

impl PanicError {
    /// The message for a generation failure.
    pub fn from_failure(e: GenFailure) -> (p: PanicError)
        ensures
            e == GenFailure::RetriesExhausted ==> p.0@ == "such that retry failure"@,
    {
        match e {
            GenFailure::RetriesExhausted => PanicError("such that retry failure".to_owned()),
        }
    }
}

/// The report of a sample whose generation failed: it names the rejection
/// sampling that ran out of retries.
pub open spec fn generation_record() -> Seq<char> {
    "generation failed\npanic: \""@ + "such that retry failure"@ + "\"\n"@
}

/// Whether `s` is the report of a sample whose property failed: the input's
/// `Debug` text, then the indented diagnostic tree.
pub open spec fn is_property_record(s: Seq<char>) -> bool {
    exists|d: Seq<char>, e: Element| s == property_record(d, e)
}

/// The report of a failed property on an input whose `Debug` text is `d`.
pub open spec fn property_record(d: Seq<char>, e: Element) -> Seq<char> {
    "input = "@ + d + "\nproperty failed:\n"@ + render(e, 2)
}

fn generation_failure_text(e: GenFailure) -> (s: String)
    ensures
        s@ == generation_record(),
{
    let p = PanicError::from_failure(e);
    let mut out = "generation failed\npanic: \"".to_owned();
    out.append(p.0.as_str());
    out.append("\"\n");
    out
}

fn property_failure_text<T: core::fmt::Debug>(input: &T, t: &Element) -> (s: String)
    ensures
        is_property_record(s@),
{
    let mut out = "input = ".to_owned();
    let d = debug_text(input);
    out.append(d.as_str());
    out.append("\nproperty failed:\n");
    let tree = t.display(2);
    out.append(tree.as_str());
    assert(out@ =~= property_record(d@, *t));
    out
}

/// A generator put in sampling mode.
#[derive(Clone)]
pub struct Forall<G> {
    generator: G,
}

impl<G> Forall<G> {
    /// The generator sampled.
    pub closed spec fn source(&self) -> G {
        self.generator
    }

    /// Bind the samples to a property.
    pub fn ensure<F>(self, f: F) -> (e: Ensure<G, F>)
        ensures
            e.source() == self.source(),
            e.check() == f,
    {
        Ensure { generator: self.generator, property_closure: f }
    }
}

/// Sample the items of a generator.
pub fn for_all<G: Generator>(g: G) -> (f: Forall<G>)
    ensures
        f.source() == g,
{
    Forall { generator: g }
}

/// The configuration and running results of a run.
pub struct Context {
    seed: Seed,
    nb_tests: u64,
    test_results: TestResults,
}

/// Why a run could not be configured.
#[derive(Debug, Clone, Copy, PartialEq, Eq, Structural)]
pub enum ConfigError {
    /// The seed override is not a seed.
    BadSeed(SeedError),
    /// The sample count override is not an unsigned decimal number.
    BadCount,
}

/// A text without its leading `+`, if it has one.
pub open spec fn unsigned_part(s: Seq<char>) -> Seq<char> {
    if s.len() > 0 && s[0] == '+' {
        s.drop_first()
    } else {
        s
    }
}

/// Whether `c` is a decimal digit.
pub open spec fn is_decimal_digit(c: char) -> bool {
    48 <= c as u32 <= 57
}

/// The number a run of decimal digits writes.
pub open spec fn decimal_value(d: Seq<char>) -> nat
    decreases d.len(),
{
    if d.len() == 0 {
        0
    } else {
        decimal_value(d.drop_last()) * 10 + (d.last() as u32 - 48) as nat
    }
}

/// The count a text writes: an optional `+`, then one or more decimal
/// digits, whose value fits in 64 bits.
pub open spec fn count_value(s: Seq<char>) -> Option<u64> {
    let d = unsigned_part(s);
    if d.len() > 0 && all_decimal(d) && decimal_value(d) <= u64::MAX {
        Some(decimal_value(d) as u64)
    } else {
        None
    }
}

/// Whether every character of `d` is a decimal digit.
pub open spec fn all_decimal(d: Seq<char>) -> bool {
    forall|i: int| 0 <= i < d.len() ==> is_decimal_digit(#[trigger] d[i])
}

proof fn lemma_decimal_prefix(d: Seq<char>, k: int)
    requires
        0 <= k <= d.len(),
    ensures
        decimal_value(d.take(k)) <= decimal_value(d),
    decreases d.len(),
{
    if k < d.len() {
        assert(d.take(k) =~= d.drop_last().take(k));
        lemma_decimal_prefix(d.drop_last(), k);
    } else {
        assert(d.take(k) =~= d);
    }
}

/// Read a sample count written in decimal.
pub fn parse_count(s: &str) -> (r: Option<u64>)
    ensures
        r == count_value(s@),
{
    let len = s.unicode_len();
    let start: usize = if len > 0 && s.get_char(0) == '+' {
        1
    } else {
        0
    };
    let ghost d = unsigned_part(s@);
    assert(d =~= s@.subrange(start as int, len as int));
    if start == len {
        return None;
    }
    let mut v: u64 = 0;
    let mut i: usize = start;
    while i < len
        invariant
            start <= i <= len,
            len == s@.len(),
            d == s@.subrange(start as int, len as int),
            d == unsigned_part(s@),
            v == decimal_value(d.take(i - start)),
            forall|k: int| 0 <= k < i - start ==> is_decimal_digit(#[trigger] d[k]),
        decreases len - i,
    {
        let c = s.get_char(i);
        assert(d[i - start] == c);
        let cu = c as u32;
        if cu < 48 || cu > 57 {
            assert(!is_decimal_digit(d[i - start]));
            return None;
        }
        let dv = (cu - 48) as u64;
        assert(d.take(i - start + 1).drop_last() =~= d.take(i - start));
        if v > (u64::MAX - dv) / 10 {
            proof {
                lemma_decimal_prefix(d, i - start + 1);
            }
            return None;
        }
        v = v * 10 + dv;
        i += 1;
    }
    assert(d.take(len - start) =~= d);
    Some(v)
}

impl Context {
    /// A run with the given seed and sample count, and no results yet.
    pub fn new(seed: Seed, nb_tests: u64) -> (c: Context)
        ensures
            c.seed_spec() == seed,
            c.nb_tests_spec() == nb_tests,
            c.results().nb_tests == 0,
            c.results().failures@.len() == 0,
            c.results().wf(),
    {
        Context { seed, nb_tests, test_results: TestResults::new() }
    }

    /// A run configured from optional overrides: a seed in its canonical
    /// text, and a sample count in decimal. Without an override the seed is
    /// `default_seed` and the count is 1000.
    pub fn configure(seed_text: Option<&str>, nb_tests_text: Option<&str>, default_seed: Seed) -> (r:
        Result<Context, ConfigError>)
        ensures
            match seed_text {
                Some(t) => crate::seed::parse_seed(t@) is Err ==> r == Err::<Context, ConfigError>(
                    ConfigError::BadSeed(crate::seed::parse_seed(t@)->Err_0),
                ),
                None => true,
            },
            (match seed_text {
                Some(t) => crate::seed::parse_seed(t@) is Ok,
                None => true,
            }) ==> match nb_tests_text {
                Some(t) => (count_value(t@) is None <==> r == Err::<Context, ConfigError>(
                    ConfigError::BadCount,
                )),
                None => r is Ok,
            },
            r matches Ok(c) ==> c.seed_spec() == match seed_text {
                Some(t) => crate::seed::parse_seed(t@)->Ok_0,
                None => default_seed,
            } && c.nb_tests_spec() == match nb_tests_text {
                Some(t) => count_value(t@)->0,
                None => DEFAULT_NB_TESTS,
            } && c.results().nb_tests == 0 && c.results().wf(),
    {
        let seed = match seed_text {
            Some(t) => match Seed::parse(t) {
                Ok(s) => s,
                Err(e) => {
                    return Err(ConfigError::BadSeed(e));
                },
            },
            None => default_seed,
        };
        let nb_tests = match nb_tests_text {
            Some(t) => match parse_count(t) {
                Some(n) => n,
                None => {
                    return Err(ConfigError::BadCount);
                },
            },
            None => DEFAULT_NB_TESTS,
        };
        Ok(Context::new(seed, nb_tests))
    }

    /// The seed.
    pub closed spec fn seed_spec(&self) -> Seed {
        self.seed
    }

    /// The sample count.
    pub closed spec fn nb_tests_spec(&self) -> u64 {
        self.nb_tests
    }

    /// The results so far.
    pub closed spec fn results(&self) -> TestResults {
        self.test_results
    }

    /// The seed.
    pub fn seed(&self) -> (s: Seed)
        ensures
            s == self.seed_spec(),
    {
        self.seed
    }

    /// Change the seed.
    pub fn set_seed(&mut self, seed: Seed)
        ensures
            final(self).seed_spec() == seed,
            final(self).nb_tests_spec() == old(self).nb_tests_spec(),
            final(self).results() == old(self).results(),
    {
        self.seed = seed;
    }

    /// The sample count.
    pub fn nb_tests(&self) -> (n: u64)
        ensures
            n == self.nb_tests_spec(),
    {
        self.nb_tests
    }

    /// Change the sample count.
    pub fn set_nb_tests(&mut self, nb_tests: u64)
        ensures
            final(self).nb_tests_spec() == nb_tests,
            final(self).seed_spec() == old(self).seed_spec(),
            final(self).results() == old(self).results(),
    {
        self.nb_tests = nb_tests;
    }

    /// Record a failure that stopped a run: its report is `panic: "message"`.
    pub fn record_panic(&mut self, message: String)
        requires
            old(self).results().nb_tests < usize::MAX,
            old(self).results().nb_failed < usize::MAX,
        ensures
            final(self).seed_spec() == old(self).seed_spec(),
            final(self).nb_tests_spec() == old(self).nb_tests_spec(),
            final(self).results().nb_tests == old(self).results().nb_tests + 1,
            final(self).results().nb_failed == old(self).results().nb_failed + 1,
            final(self).results().nb_success == old(self).results().nb_success,
            final(self).results().failures@.len() == old(self).results().failures@.len() + 1,
            old(self).results().wf() ==> final(self).results().wf(),
    {
        let mut text = "panic: \"".to_owned();
        text.append(message.as_str());
        text.append("\"\n");
        self.test_results.add_failed(text);
    }

    /// The results so far.
    pub fn test_results(&self) -> (t: &TestResults)
        ensures
            *t == self.results(),
    {
        &self.test_results
    }
}

/// A generator bound to a property.
pub struct Ensure<G, F> {
    generator: G,
    property_closure: F,
}

impl<G, F> Ensure<G, F> {
    /// The generator sampled.
    pub closed spec fn source(&self) -> G {
        self.generator
    }

    /// The function from a sample to the property checked on it.
    pub closed spec fn check(&self) -> F {
        self.property_closure
    }
}

/// How many of the verdicts are passes.
pub open spec fn count_passed(verdicts: Seq<bool>) -> nat
    decreases verdicts.len(),
{
    if verdicts.len() == 0 {
        0
    } else {
        count_passed(verdicts.drop_last()) + if verdicts.last() {
            1nat
        } else {
            0nat
        }
    }
}

/// Whether sample `i` of a run whose source starts at `s0` may end with the
/// verdict `passed`. The sample draws from the `i`-th child of the source. It
/// passes when an item drawn there gives a property that holds; it fails when
/// the draw fails there, or when an item drawn there gives a property that
/// does not hold.
pub open spec fn sample_verdict<G: Generator, P: Property, F: Fn(&G::Item) -> P>(
    g: G,
    f: F,
    s0: RState,
    i: nat,
    passed: bool,
) -> bool {
    let sub = child_state(steps(s0, i));
    if passed {
        exists|x: G::Item, e: RState, p: P|
            #[trigger] g.draws(sub, x, e) && #[trigger] f.ensures((&x,), p) && p.holds()
    } else {
        g.fails(sub) || exists|x: G::Item, e: RState, p: P|
            #[trigger] g.draws(sub, x, e) && #[trigger] f.ensures((&x,), p) && !p.holds()
    }
}

/// Whether every item `g` can draw gives, through `f`, a property that holds.
pub open spec fn always_holds<G: Generator, P: Property, F: Fn(&G::Item) -> P>(g: G, f: F) -> bool {
    forall|pre: RState, x: G::Item, post: RState, p: P|
        #[trigger] g.draws(pre, x, post) && #[trigger] f.ensures((&x,), p) ==> p.holds()
}

/// Whether no item `g` can draw gives, through `f`, a property that holds.
pub open spec fn never_holds<G: Generator, P: Property, F: Fn(&G::Item) -> P>(g: G, f: F) -> bool {
    forall|pre: RState, x: G::Item, post: RState, p: P|
        #[trigger] g.draws(pre, x, post) && #[trigger] f.ensures((&x,), p) ==> !p.holds()
}


impl<T: core::fmt::Debug, P: Property, G: Generator<Item = T>, F: Fn(&T) -> P> Ensure<G, F> {
    /// Whether the samples can be run: the generator can be drawn from, the
    /// function accepts every item, and every property it gives can be evaluated.
    pub open spec fn runnable(&self) -> bool {
        &&& self.source().ready()
        &&& forall|x: T| #[trigger] self.check().requires((&x,))
        &&& forall|x: T, p: P| #[trigger] self.check().ensures((&x,), p) ==> p.wf()
    }

    /// Draw `context`'s number of samples, each from its own sub-stream of the
    /// seed's stream, and evaluate the property on each. A sample whose
    /// generation fails counts as a failure, as does one whose property fails;
    /// neither stops the run.
    pub fn test(&self, context: &Context) -> (res: TestResults)
        requires
            self.runnable(),
            context.nb_tests_spec() <= usize::MAX,
        ensures
            res.nb_tests == context.nb_tests_spec(),
            res.nb_skipped == 0,
            res.wf(),
            self.source().total() && always_holds(self.source(), self.check()) ==> res.nb_failed
                == 0,
            never_holds(self.source(), self.check()) ==> res.nb_success == 0,
            forall|j: int|
                0 <= j < res.failures@.len() ==> #[trigger] res.failures@[j]@ == generation_record()
                    || is_property_record(res.failures@[j]@),
            exists|verdicts: Seq<bool>|
                verdicts.len() == context.nb_tests_spec() && res.nb_success == #[trigger] count_passed(
                    verdicts,
                ) && forall|i: int|
                    0 <= i < verdicts.len() ==> sample_verdict(
                        self.source(),
                        self.check(),
                        seed_state(context.seed_spec()),
                        i as nat,
                        #[trigger] verdicts[i],
                    ),
    {
        let mut r = R::from_seed(context.seed);
        let ghost mut verdicts: Seq<bool> = Seq::empty();
        let nb_tests = context.nb_tests;
        let start = now();
        let mut result = TestResults::new();
        let mut i: u64 = 0;
        while i < nb_tests
            invariant
                self.runnable(),
                i <= nb_tests,
                nb_tests <= usize::MAX,
                result.nb_tests == i,
                result.nb_skipped == 0,
                result.wf(),
                self.source().total() && always_holds(self.source(), self.check())
                    ==> result.nb_failed == 0,
                never_holds(self.source(), self.check()) ==> result.nb_success == 0,
                r@ == steps(seed_state(context.seed_spec()), i as nat),
                verdicts.len() == i,
                result.nb_success == count_passed(verdicts),
                forall|j: int|
                    0 <= j < result.failures@.len() ==> #[trigger] result.failures@[j]@
                        == generation_record() || is_property_record(result.failures@[j]@),
                forall|k: int|
                    0 <= k < verdicts.len() ==> sample_verdict(
                        self.source(),
                        self.check(),
                        seed_state(context.seed_spec()),
                        k as nat,
                        #[trigger] verdicts[k],
                    ),
            decreases nb_tests - i,
        {
            let ghost s0 = seed_state(context.seed_spec());
            let mut test_rng = r.sub();
            let ghost pre = test_rng@;
            assert(pre == child_state(steps(s0, i as nat)));
            let ghost old_verdicts = verdicts;
            match self.generator.gen(&mut test_rng) {
                Err(e) => {
                    result.add_failed(generation_failure_text(e));
                    proof {
                        verdicts = verdicts.push(false);
                    }
                },
                Ok(input) => {
                    let p = (self.property_closure)(&input);
                    assert(self.source().draws(pre, input, test_rng@));
                    assert(self.check().ensures((&input,), p));
                    match p.result() {
                        Outcome::Passed => {
                            result.add_success();
                            proof {
                                verdicts = verdicts.push(true);
                            }
                        },
                        Outcome::Failed(t) => {
                            let text = property_failure_text(&input, &t);
                            result.add_failed(text);
                            proof {
                                verdicts = verdicts.push(false);
                            }
                        },
                    }
                },
            }
            proof {
                assert(verdicts.drop_last() =~= old_verdicts);
                assert(sample_verdict(self.source(), self.check(), s0, i as nat, verdicts.last()));
                assert forall|k: int| 0 <= k < verdicts.len() implies sample_verdict(
                    self.source(),
                    self.check(),
                    s0,
                    k as nat,
                    #[trigger] verdicts[k],
                ) by {
                    if k < i {
                        assert(verdicts[k] == old_verdicts[k]);
                    }
                }
            }
            i += 1;
        }
        result.set_duration(elapsed_since(start));
        result
    }

    /// Run the samples and merge their results into the context's.
    pub fn run(&self, context: &mut Context)
        requires
            self.runnable(),
            old(context).nb_tests_spec() <= usize::MAX,
            old(context).results().nb_tests + old(context).nb_tests_spec() <= usize::MAX,
            old(context).results().wf(),
        ensures
            final(context).seed_spec() == old(context).seed_spec(),
            final(context).nb_tests_spec() == old(context).nb_tests_spec(),
            final(context).results().wf(),
            final(context).results().nb_tests == old(context).results().nb_tests
                + old(context).nb_tests_spec(),
            final(context).results().nb_skipped == old(context).results().nb_skipped,
            self.source().total() && always_holds(self.source(), self.check())
                ==> final(context).results().nb_failed == old(context).results().nb_failed,
            never_holds(self.source(), self.check()) ==> final(context).results().nb_success
                == old(context).results().nb_success,
            exists|verdicts: Seq<bool>|
                verdicts.len() == old(context).nb_tests_spec() && final(context).results().nb_success
                    == old(context).results().nb_success + #[trigger] count_passed(verdicts)
                    && forall|i: int|
                    0 <= i < verdicts.len() ==> sample_verdict(
                        self.source(),
                        self.check(),
                        seed_state(old(context).seed_spec()),
                        i as nat,
                        #[trigger] verdicts[i],
                    ),
    {
        let results = self.test(context);
        context.test_results.add_subtests(&results);
    }
}

/// Anything that can be run against a context.
pub trait Testable {
    /// Whether the test can be run.
    spec fn runnable(&self) -> bool;

    /// Run against a context and give the results.
    fn test(&self, context: &Context) -> (res: TestResults)
        requires
            self.runnable(),
            context.nb_tests_spec() <= usize::MAX,
        ensures
            res.nb_tests == context.nb_tests_spec(),
            res.wf(),
    ;

    /// Run against a context and merge the results into it.
    fn run(&self, context: &mut Context)
        requires
            self.runnable(),
            old(context).nb_tests_spec() <= usize::MAX,
            old(context).results().nb_tests + old(context).nb_tests_spec() <= usize::MAX,
            old(context).results().wf(),
        ensures
            final(context).seed_spec() == old(context).seed_spec(),
            final(context).nb_tests_spec() == old(context).nb_tests_spec(),
            final(context).results().wf(),
            final(context).results().nb_tests == old(context).results().nb_tests
                + old(context).nb_tests_spec(),
    ;
}

impl<T: core::fmt::Debug, P: Property, G: Generator<Item = T>, F: Fn(&T) -> P> Testable for Ensure<
    G,
    F,
> {
    open spec fn runnable(&self) -> bool {
        Ensure::<G, F>::runnable(self)
    }

    fn test(&self, context: &Context) -> (res: TestResults) {
        Ensure::<G, F>::test(self, context)
    }

    fn run(&self, context: &mut Context) {
        Ensure::<G, F>::run(self, context)
    }
}

} // verus!
