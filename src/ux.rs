//! Reporting: diagnostic trees and aggregate test results.
use vstd::prelude::*;
use vstd::string::StringExecFns;

verus! {

/// Relies on the `Debug` impl of `T`: its text for `x`.
#[verifier::external_body]
pub(crate) fn debug_text<T: core::fmt::Debug>(x: &T) -> String {
    format!("{:?}", x)
}

/// A key-value pair of a report.
#[derive(Debug, PartialEq, Eq)]
pub struct Element(pub String, pub Value);

/// An ordered list of key-value pairs.
#[derive(Debug, PartialEq, Eq)]
pub struct Elements(pub Vec<Element>);

/// A value in a report: a string, or a nested list of pairs.
#[derive(Debug, PartialEq, Eq)]
pub enum Value {
    Str(String),
    Tree(Elements),
}

/// `n` spaces.
pub open spec fn spaces(n: nat) -> Seq<char> {
    Seq::new(n, |i: int| ' ')
}

/// The indentation of nested pairs: two more spaces, at most `usize::MAX`.
pub open spec fn deeper(indent: usize) -> usize {
    if indent <= usize::MAX - 2 {
        (indent + 2) as usize
    } else {
        usize::MAX
    }
}

/// The text of an element at an indentation: `key: value` on one line for a
/// string, or `key: ` then the nested pairs indented two more spaces.
pub open spec fn render(e: Element, indent: usize) -> Seq<char>
    decreases e,
{
    let head = spaces(indent as nat) + e.0@ + seq![':', ' '];
    match e.1 {
        Value::Str(s) => head + s@ + seq!['\n'],
        Value::Tree(es) => head + seq!['\n'] + render_all(es.0@, deeper(indent)),
    }
}

/// The text of a list of elements at an indentation, one after another.
pub open spec fn render_all(es: Seq<Element>, indent: usize) -> Seq<char>
    decreases es,
{
    if es.len() == 0 {
        Seq::empty()
    } else {
        render_all(es.drop_last(), indent) + render(es.last(), indent)
    }
}

fn push_spaces(output: &mut String, n: usize)
    ensures
        final(output)@ == old(output)@ + spaces(n as nat),
{
    let mut i: usize = 0;
    while i < n
        invariant
            i <= n,
            output@ == old(output)@ + spaces(i as nat),
        decreases n - i,
    {
        crate::seed::push_char(output, ' ');
        i += 1;
        assert(output@ =~= old(output)@ + spaces(i as nat));
    }
}

/// How many elements a tree holds, itself included.
pub open spec fn size(e: Element) -> nat
    decreases e,
{
    match e.1 {
        Value::Str(_) => 1,
        Value::Tree(es) => 1 + size_all(es.0@),
    }
}

/// How many elements a list of trees holds.
pub open spec fn size_all(es: Seq<Element>) -> nat
    decreases es,
{
    if es.len() == 0 {
        0
    } else {
        size_all(es.drop_last()) + size(es.last())
    }
}

/// The text still owed for a stack of elements waiting to be written, each
/// with its indentation; the top of the stack (its last entry) comes first.
pub open spec fn pending<'a>(st: Seq<(&'a Element, usize)>) -> Seq<char>
    decreases st.len(),
{
    if st.len() == 0 {
        Seq::empty()
    } else {
        render(*st.last().0, st.last().1) + pending(st.drop_last())
    }
}

/// How many elements a stack of waiting elements holds.
pub open spec fn stack_size<'a>(st: Seq<(&'a Element, usize)>) -> nat
    decreases st.len(),
{
    if st.len() == 0 {
        0
    } else {
        size(*st.last().0) + stack_size(st.drop_last())
    }
}

/// The entries for `es` at an indentation, last first, so that the first of
/// `es` ends on top of a stack they are pushed onto.
pub open spec fn reversed<'a>(es: Seq<&'a Element>, indent: usize) -> Seq<(&'a Element, usize)> {
    Seq::new(es.len(), |i: int| (es[es.len() - 1 - i], indent))
}

proof fn lemma_push_reversed<'a>(st: Seq<(&'a Element, usize)>, es: Seq<&'a Element>, indent: usize)
    ensures
        pending(st + reversed(es, indent)) == render_all(es.map_values(|e: &'a Element| *e), indent)
            + pending(st),
        stack_size(st + reversed(es, indent)) == size_all(es.map_values(|e: &'a Element| *e))
            + stack_size(st),
    decreases es.len(),
{
    let plain = es.map_values(|e: &'a Element| *e);
    if es.len() == 0 {
        assert(st + reversed(es, indent) =~= st);
        assert(plain =~= Seq::<Element>::empty());
    } else {
        let front = es.drop_last();
        let top = st.push((es.last(), indent));
        lemma_push_reversed(top, front, indent);
        assert(st + reversed(es, indent) =~= top + reversed(front, indent));
        assert(top.drop_last() =~= st);
        assert(plain.drop_last() =~= front.map_values(|e: &'a Element| *e));
    }
}

fn push_reversed<'a>(stack: &mut Vec<(&'a Element, usize)>, es: &'a Vec<Element>, indent: usize)
    ensures
        final(stack)@ == old(stack)@ + reversed(Seq::new(es@.len(), |i: int| &es@[i]), indent),
{
    let ghost refs = Seq::new(es@.len(), |i: int| &es@[i]);
    let mut i: usize = es.len();
    while i > 0
        invariant
            i <= es@.len(),
            refs == Seq::new(es@.len(), |k: int| &es@[k]),
            stack@ == old(stack)@ + reversed(refs, indent).take(es@.len() - i),
        decreases i,
    {
        i -= 1;
        stack.push((&es[i], indent));
        assert(stack@ =~= old(stack)@ + reversed(refs, indent).take(es@.len() - i));
    }
    assert(reversed(refs, indent).take(es@.len() as int) =~= reversed(refs, indent));
}

/// Write what a stack of waiting elements owes. The nesting is walked with
/// this explicit stack, not by recursion, so that a deeply nested report
/// cannot exhaust the call stack.
fn display_stack(output: &mut String, stack: Vec<(&Element, usize)>)
    ensures
        final(output)@ == old(output)@ + pending(stack@),
{
    proof {
        reveal_strlit(": ");
        reveal_strlit("\n");
    }
    let mut stack = stack;
    let ghost goal = old(output)@ + pending(stack@);
    while stack.len() > 0
        invariant
            output@ + pending(stack@) == goal,
        decreases stack_size(stack@),
    {
        proof {
            reveal_strlit(": ");
            reveal_strlit("\n");
        }
        let ghost before_stack = stack@;
        let ghost before_out = output@;
        let (e, ind) = match stack.pop() {
            Some(top) => top,
            None => {
                return;
            },
        };
        assert(before_stack.drop_last() =~= stack@);
        let Element(k, v) = e;
        push_spaces(output, ind);
        output.append(k.as_str());
        output.append(": ");
        match v {
            Value::Str(s) => {
                output.append(s.as_str());
                output.append("\n");
                assert(output@ =~= before_out + render(*e, ind));
            },
            Value::Tree(tree) => {
                output.append("\n");
                let next = if ind <= usize::MAX - 2 {
                    ind + 2
                } else {
                    usize::MAX
                };
                let ghost mid = stack@;
                push_reversed(&mut stack, &tree.0, next);
                proof {
                    let refs = Seq::new(tree.0@.len(), |i: int| &tree.0@[i]);
                    lemma_push_reversed(mid, refs, next);
                    assert(refs.map_values(|x: &Element| *x) =~= tree.0@);
                }
                assert(output@ + render_all(tree.0@, next) =~= before_out + render(*e, ind));
            },
        }
    }
    assert(stack@.len() == 0);
}

fn display_elements(output: &mut String, indent: usize, elements: &Elements)
    ensures
        final(output)@ == old(output)@ + render_all(elements.0@, indent),
{
    let mut stack: Vec<(&Element, usize)> = Vec::new();
    push_reversed(&mut stack, &elements.0, indent);
    proof {
        let refs = Seq::new(elements.0@.len(), |i: int| &elements.0@[i]);
        lemma_push_reversed(Seq::empty(), refs, indent);
        assert(refs.map_values(|e: &Element| *e) =~= elements.0@);
        assert(Seq::<(&Element, usize)>::empty() + reversed(refs, indent) =~= stack@);
    }
    display_stack(output, stack);
}

fn display_element(output: &mut String, indent: usize, element: &Element)
    ensures
        final(output)@ == old(output)@ + render(*element, indent),
{
    let mut stack: Vec<(&Element, usize)> = Vec::new();
    stack.push((element, indent));
    proof {
        assert(stack@.drop_last() =~= Seq::<(&Element, usize)>::empty());
        assert(stack@.last() == (element, indent));
        assert(pending(Seq::<(&Element, usize)>::empty()) =~= Seq::<char>::empty());
        assert(pending(stack@) =~= render(*element, indent));
    }
    display_stack(output, stack);
}

impl Elements {
    /// An empty list.
    pub fn new() -> (r: Elements)
        ensures
            r.0@.len() == 0,
    {
        Elements(Vec::new())
    }

    /// Append a pair.
    pub fn append(&mut self, key: &str, value: Value)
        ensures
            final(self).0@.len() == old(self).0@.len() + 1,
            final(self).0@.drop_last() == old(self).0@,
            final(self).0@.last().0@ == key@,
            final(self).0@.last().1 == value,
    {
        self.0.push(Element::new(key, value));
    }

    /// The text of the pairs at an indentation.
    pub fn display(&self, indent: usize) -> (s: String)
        ensures
            s@ == render_all(self.0@, indent),
    {
        let mut output = String::new();
        display_elements(&mut output, indent, self);
        output
    }
}

impl Element {
    /// A pair of a key and a value.
    pub fn new(key: &str, v: Value) -> (e: Element)
        ensures
            e.0@ == key@,
            e.1 == v,
    {
        Element(key.to_owned(), v)
    }

    /// The text of this element at an indentation.
    pub fn display(&self, indent: usize) -> (s: String)
        ensures
            s@ == render(*self, indent),
    {
        let mut output = String::new();
        display_element(&mut output, indent, self);
        output
    }
}

impl Value {
    /// A value that nests one element.
    pub fn sub(element: Element) -> (v: Value)
        ensures
            v matches Value::Tree(es) && es.0@ == seq![element],
    {
        let mut es: Vec<Element> = Vec::new();
        es.push(element);
        Value::Tree(Elements(es))
    }

    /// A string value.
    pub fn text(s: &str) -> (v: Value)
        ensures
            v matches Value::Str(t) && t@ == s@,
    {
        Value::Str(s.to_owned())
    }
}

/// The status of a test run.
#[derive(Debug, Clone, Copy, PartialEq, Eq, Structural)]
pub enum TestRunStatus {
    Passed,
    Failed,
    Skipped,
}

/// Aggregate results of test runs.
#[derive(Debug, Clone, PartialEq, Eq)]
pub struct TestResults {
    /// Total inner tests.
    pub nb_tests: usize,
    /// Number of successful tests.
    pub nb_success: usize,
    /// Number of failed tests.
    pub nb_failed: usize,
    /// Number of skipped tests.
    pub nb_skipped: usize,
    /// A report for each failure, in order.
    pub failures: Vec<String>,
    /// Time spent, in nanoseconds.
    pub duration: u128,
}

/// The status that results stand for.
pub open spec fn status_of(t: TestResults) -> TestRunStatus {
    if t.nb_tests == 0 {
        TestRunStatus::Skipped
    } else if t.nb_failed > 0 {
        TestRunStatus::Failed
    } else if t.nb_skipped == t.nb_tests {
        TestRunStatus::Skipped
    } else {
        TestRunStatus::Passed
    }
}

impl TestResults {
    /// Every counter adds up: tests are successes, failures or skips, and
    /// each failure has its report.
    pub open spec fn wf(&self) -> bool {
        &&& self.nb_tests == self.nb_success + self.nb_failed + self.nb_skipped
        &&& self.failures@.len() == self.nb_failed
    }

    /// The status these results stand for.
    pub fn to_status(&self) -> (s: TestRunStatus)
        ensures
            s == status_of(*self),
    {
        if self.nb_tests == 0 {
            TestRunStatus::Skipped
        } else if self.nb_failed > 0 {
            TestRunStatus::Failed
        } else if self.nb_skipped == self.nb_tests {
            TestRunStatus::Skipped
        } else {
            TestRunStatus::Passed
        }
    }

    /// No tests yet.
    pub fn new() -> (t: TestResults)
        ensures
            t.nb_tests == 0,
            t.nb_success == 0,
            t.nb_failed == 0,
            t.nb_skipped == 0,
            t.failures@.len() == 0,
            t.duration == 0,
            t.wf(),
    {
        TestResults {
            nb_tests: 0,
            nb_success: 0,
            nb_failed: 0,
            nb_skipped: 0,
            failures: Vec::new(),
            duration: 0,
        }
    }

    /// Count one successful test.
    pub fn add_success(&mut self)
        requires
            old(self).nb_tests < usize::MAX,
            old(self).nb_success < usize::MAX,
        ensures
            final(self).nb_tests == old(self).nb_tests + 1,
            final(self).nb_success == old(self).nb_success + 1,
            final(self).nb_failed == old(self).nb_failed,
            final(self).nb_skipped == old(self).nb_skipped,
            final(self).failures@ == old(self).failures@,
            final(self).duration == old(self).duration,
            old(self).wf() ==> final(self).wf(),
    {
        self.nb_tests += 1;
        self.nb_success += 1;
    }

    /// Count one failed test, with its report.
    pub fn add_failed(&mut self, reason: String)
        requires
            old(self).nb_tests < usize::MAX,
            old(self).nb_failed < usize::MAX,
        ensures
            final(self).nb_tests == old(self).nb_tests + 1,
            final(self).nb_success == old(self).nb_success,
            final(self).nb_failed == old(self).nb_failed + 1,
            final(self).nb_skipped == old(self).nb_skipped,
            final(self).failures@ == old(self).failures@.push(reason),
            final(self).duration == old(self).duration,
            old(self).wf() ==> final(self).wf(),
    {
        self.nb_tests += 1;
        self.nb_failed += 1;
        self.failures.push(reason);
    }

    /// Record the time spent, in nanoseconds.
    pub fn set_duration(&mut self, d: u128)
        ensures
            final(self).duration == d,
            final(self).nb_tests == old(self).nb_tests,
            final(self).nb_success == old(self).nb_success,
            final(self).nb_failed == old(self).nb_failed,
            final(self).nb_skipped == old(self).nb_skipped,
            final(self).failures@ == old(self).failures@,
    {
        self.duration = d;
    }

    /// Merge in the results of a group of tests: counts add up, reports are
    /// appended in order, durations add up (capped at the largest `u128`).
    pub fn add_subtests(&mut self, sub_tests: &Self)
        requires
            old(self).nb_tests + sub_tests.nb_tests <= usize::MAX,
            old(self).nb_success + sub_tests.nb_success <= usize::MAX,
            old(self).nb_failed + sub_tests.nb_failed <= usize::MAX,
            old(self).nb_skipped + sub_tests.nb_skipped <= usize::MAX,
        ensures
            final(self).nb_tests == old(self).nb_tests + sub_tests.nb_tests,
            final(self).nb_success == old(self).nb_success + sub_tests.nb_success,
            final(self).nb_failed == old(self).nb_failed + sub_tests.nb_failed,
            final(self).nb_skipped == old(self).nb_skipped + sub_tests.nb_skipped,
            final(self).failures@ == old(self).failures@ + sub_tests.failures@,
            final(self).duration == if old(self).duration + sub_tests.duration <= u128::MAX {
                (old(self).duration + sub_tests.duration) as u128
            } else {
                u128::MAX
            },
            old(self).wf() && sub_tests.wf() ==> final(self).wf(),
    {
        self.nb_tests += sub_tests.nb_tests;
        self.nb_success += sub_tests.nb_success;
        self.nb_failed += sub_tests.nb_failed;
        self.nb_skipped += sub_tests.nb_skipped;
        let mut i: usize = 0;
        let ghost before = self.failures@;
        while i < sub_tests.failures.len()
            invariant
                i <= sub_tests.failures@.len(),
                self.failures@ == before + sub_tests.failures@.take(i as int),
                self.nb_tests == old(self).nb_tests + sub_tests.nb_tests,
                self.nb_success == old(self).nb_success + sub_tests.nb_success,
                self.nb_failed == old(self).nb_failed + sub_tests.nb_failed,
                self.nb_skipped == old(self).nb_skipped + sub_tests.nb_skipped,
                before == old(self).failures@,
                self.duration == old(self).duration,
            decreases sub_tests.failures@.len() - i,
        {
            self.failures.push(sub_tests.failures[i].clone());
            i += 1;
            assert(self.failures@ =~= before + sub_tests.failures@.take(i as int));
        }
        assert(sub_tests.failures@.take(i as int) =~= sub_tests.failures@);
        self.duration = if self.duration <= u128::MAX - sub_tests.duration {
            self.duration + sub_tests.duration
        } else {
            u128::MAX
        };
    }
}

} // verus!
