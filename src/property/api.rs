use vstd::prelude::*;

use crate::ux::{Element, Elements, Value};

verus! {

/// What evaluating a property gives.
#[derive(Debug, PartialEq, Eq)]
pub enum Outcome {
    Passed,
    Failed(Element),
}

/// Whether `e` is a failure named `name` with a `left` and a `right` entry.
pub open spec fn failure_shape(e: Element, name: Seq<char>) -> bool {
    &&& e.0@ == name
    &&& match e.1 {
        Value::Tree(es) => es.0@.len() == 2 && es.0@[0].0@ == seq!['l', 'e', 'f', 't'] && es.0@[1].0@
            == seq!['r', 'i', 'g', 'h', 't'],
        Value::Str(_) => false,
    }
}

/// The entry at `i` (0 for `left`, 1 for `right`) of a failure's list.
pub open spec fn entry(e: Element, i: int) -> Value {
    match e.1 {
        Value::Tree(es) => es.0@[i].1,
        Value::Str(_) => e.1,
    }
}

/// Whether `v` is the leaf `passed`.
pub open spec fn is_passed_leaf(v: Value) -> bool {
    v matches Value::Str(s) && s@ == seq!['p', 'a', 's', 's', 'e', 'd']
}

/// A property that can be evaluated.
pub trait Property: Sized {
    /// Whether the property can be evaluated (its values obey their specifications).
    spec fn wf(&self) -> bool;

    /// Whether the property holds.
    spec fn holds(&self) -> bool;

    /// Whether evaluating the property may give `o`.
    spec fn gives(&self, o: Outcome) -> bool;

    /// Evaluate the property.
    fn result(&self) -> (o: Outcome)
        requires
            self.wf(),
        ensures
            (o is Passed) == self.holds(),
            self.gives(o),
    ;
}

/// Whether `v` is how a composite reports a side whose outcome was `side`:
/// the leaf `passed`, or the side's failure element nested on its own.
pub open spec fn reports_side(v: Value, side: Outcome) -> bool {
    match side {
        Outcome::Passed => is_passed_leaf(v),
        Outcome::Failed(f) => match v {
            Value::Tree(es) => es.0@ == seq![f],
            Value::Str(_) => false,
        },
    }
}

/// Whether `o` is the outcome of a conjunction whose sides gave `oa` and `ob`.
pub open spec fn and_of(o: Outcome, oa: Outcome, ob: Outcome) -> bool {
    match o {
        Outcome::Passed => oa is Passed && ob is Passed,
        Outcome::Failed(e) => !(oa is Passed && ob is Passed) && failure_shape(e, seq!['a', 'n', 'd'])
            && reports_side(entry(e, 0), oa) && reports_side(entry(e, 1), ob),
    }
}

/// Whether `o` is the outcome of a disjunction whose sides gave `oa` and `ob`.
pub open spec fn or_of(o: Outcome, oa: Outcome, ob: Outcome) -> bool {
    match o {
        Outcome::Passed => oa is Passed || ob is Passed,
        Outcome::Failed(e) => oa is Failed && ob is Failed && failure_shape(e, seq!['o', 'r'])
            && reports_side(entry(e, 0), oa) && reports_side(entry(e, 1), ob),
    }
}

/// Both properties must hold.
pub fn both<A: Property, B: Property>(a: A, b: B) -> (r: And<A, B>)
    ensures
        r.left() == a,
        r.right() == b,
{
    And { prop_a: a, prop_b: b }
}

/// At least one of the properties must hold.
pub fn either<A: Property, B: Property>(a: A, b: B) -> (r: Or<A, B>)
    ensures
        r.left() == a,
        r.right() == b,
{
    Or { prop_a: a, prop_b: b }
}

/// A property on the heap.
pub struct BoxProperty<P>(pub Box<P>);

impl<P: Property> Property for BoxProperty<P> {
    open spec fn wf(&self) -> bool {
        (*self.0).wf()
    }

    open spec fn holds(&self) -> bool {
        (*self.0).holds()
    }

    open spec fn gives(&self, o: Outcome) -> bool {
        (*self.0).gives(o)
    }

    fn result(&self) -> (o: Outcome) {
        self.0.result()
    }
}

/// A property, or the message of a panic raised while building it.
pub struct Caught<P>(pub Result<P, String>);

impl<P: Property> Property for Caught<P> {
    open spec fn wf(&self) -> bool {
        match self.0 {
            Ok(p) => p.wf(),
            Err(_) => true,
        }
    }

    open spec fn holds(&self) -> bool {
        match self.0 {
            Ok(p) => p.holds(),
            Err(_) => false,
        }
    }

    /// A panic fails with the element `panic: message`.
    open spec fn gives(&self, o: Outcome) -> bool {
        match self.0 {
            Ok(p) => p.gives(o),
            Err(m) => match o {
                Outcome::Failed(e) => e.0@ == seq!['p', 'a', 'n', 'i', 'c'] && (e.1 matches Value::Str(
                    t,
                ) && t@ == m@),
                Outcome::Passed => false,
            },
        }
    }

    fn result(&self) -> (o: Outcome) {
        match &self.0 {
            Ok(p) => p.result(),
            Err(message) => {
                proof {
                    reveal_strlit("panic");
                    assert("panic"@ =~= seq!['p', 'a', 'n', 'i', 'c']);
                }
                Outcome::Failed(Element::new("panic", Value::Str(message.clone())))
            },
        }
    }
}

/// Both properties must hold.
pub struct And<A, B> {
    prop_a: A,
    prop_b: B,
}

impl<A, B> And<A, B> {
    /// The first property.
    pub closed spec fn left(&self) -> A {
        self.prop_a
    }

    /// The second property.
    pub closed spec fn right(&self) -> B {
        self.prop_b
    }
}

pub(crate) fn failure_element(name: &str, left: Value, right: Value) -> (o: Outcome)
    ensures
        o matches Outcome::Failed(e) && failure_shape(e, name@) && entry(e, 0) == left && entry(e, 1)
            == right,
{
    proof {
        reveal_strlit("left");
        reveal_strlit("right");
    }
    let mut output = Elements::new();
    output.append("left", left);
    let ghost first = output.0@;
    output.append("right", right);
    assert(output.0@[0] == first[0]);
    assert(output.0@[0].0@ =~= seq!['l', 'e', 'f', 't']);
    assert(output.0@[1].0@ =~= seq!['r', 'i', 'g', 'h', 't']);
    let e = Element::new(name, Value::Tree(output));
    assert(failure_shape(e, name@));
    Outcome::Failed(e)
}

impl<A: Property, B: Property> And<A, B> {
    /// This property and another one.
    pub fn and<O: Property>(self, other: O) -> (r: And<Self, O>)
        ensures
            r.left() == self,
            r.right() == other,
    {
        both(self, other)
    }

    /// This property or another one.
    pub fn or<O: Property>(self, other: O) -> (r: Or<Self, O>)
        ensures
            r.left() == self,
            r.right() == other,
    {
        either(self, other)
    }

    /// Evaluate; a failure is named `and` and nests both sides, a side that
    /// passed as the leaf `passed`.
    pub fn evaluate(&self) -> (o: Outcome)
        requires
            self.left().wf(),
            self.right().wf(),
        ensures
            (o is Passed) == (self.left().holds() && self.right().holds()),
            exists|oa: Outcome, ob: Outcome|
                #[trigger] self.left().gives(oa) && #[trigger] self.right().gives(ob) && (oa is Passed
                    == self.left().holds()) && (ob is Passed == self.right().holds()) && and_of(
                    o,
                    oa,
                    ob,
                ),
    {
        proof {
            reveal_strlit("and");
            assert("and"@ =~= seq!['a', 'n', 'd']);
            reveal_strlit("passed");
            assert("passed"@ =~= seq!['p', 'a', 's', 's', 'e', 'd']);
        }
        let oa = self.prop_a.result();
        let ob = self.prop_b.result();
        let ghost goa = oa;
        let ghost gob = ob;
        let o = match (oa, ob) {
            (Outcome::Passed, Outcome::Passed) => Outcome::Passed,
            (Outcome::Failed(f1), Outcome::Passed) => failure_element(
                "and",
                Value::sub(f1),
                Value::text("passed"),
            ),
            (Outcome::Passed, Outcome::Failed(f2)) => failure_element(
                "and",
                Value::text("passed"),
                Value::sub(f2),
            ),
            (Outcome::Failed(f1), Outcome::Failed(f2)) => failure_element(
                "and",
                Value::sub(f1),
                Value::sub(f2),
            ),
        };
        assert(and_of(o, goa, gob));
        o
    }
}

impl<A: Property, B: Property> Property for And<A, B> {
    open spec fn wf(&self) -> bool {
        self.left().wf() && self.right().wf()
    }

    open spec fn holds(&self) -> bool {
        self.left().holds() && self.right().holds()
    }

    open spec fn gives(&self, o: Outcome) -> bool {
        exists|oa: Outcome, ob: Outcome|
            #[trigger] self.left().gives(oa) && #[trigger] self.right().gives(ob) && and_of(o, oa, ob)
    }

    fn result(&self) -> (o: Outcome) {
        self.evaluate()
    }
}

/// At least one of the properties must hold.
pub struct Or<A, B> {
    prop_a: A,
    prop_b: B,
}

impl<A, B> Or<A, B> {
    /// The first property.
    pub closed spec fn left(&self) -> A {
        self.prop_a
    }

    /// The second property.
    pub closed spec fn right(&self) -> B {
        self.prop_b
    }
}

impl<A: Property, B: Property> Or<A, B> {
    /// This property and another one.
    pub fn and<O: Property>(self, other: O) -> (r: And<Self, O>)
        ensures
            r.left() == self,
            r.right() == other,
    {
        both(self, other)
    }

    /// This property or another one.
    pub fn or<O: Property>(self, other: O) -> (r: Or<Self, O>)
        ensures
            r.left() == self,
            r.right() == other,
    {
        either(self, other)
    }

    /// Evaluate; a failure is named `or` and nests both failures.
    pub fn evaluate(&self) -> (o: Outcome)
        requires
            self.left().wf(),
            self.right().wf(),
        ensures
            (o is Passed) == (self.left().holds() || self.right().holds()),
            exists|oa: Outcome, ob: Outcome|
                #[trigger] self.left().gives(oa) && #[trigger] self.right().gives(ob) && (oa is Passed
                    == self.left().holds()) && (ob is Passed == self.right().holds()) && or_of(
                    o,
                    oa,
                    ob,
                ),
    {
        proof {
            reveal_strlit("or");
            assert("or"@ =~= seq!['o', 'r']);
        }
        let oa = self.prop_a.result();
        let ob = self.prop_b.result();
        let ghost goa = oa;
        let ghost gob = ob;
        let o = match (oa, ob) {
            (Outcome::Passed, _) => Outcome::Passed,
            (_, Outcome::Passed) => Outcome::Passed,
            (Outcome::Failed(f1), Outcome::Failed(f2)) => failure_element(
                "or",
                Value::sub(f1),
                Value::sub(f2),
            ),
        };
        assert(or_of(o, goa, gob));
        o
    }
}

impl<A: Property, B: Property> Property for Or<A, B> {
    open spec fn wf(&self) -> bool {
        self.left().wf() && self.right().wf()
    }

    open spec fn holds(&self) -> bool {
        self.left().holds() || self.right().holds()
    }

    open spec fn gives(&self, o: Outcome) -> bool {
        exists|oa: Outcome, ob: Outcome|
            #[trigger] self.left().gives(oa) && #[trigger] self.right().gives(ob) && or_of(o, oa, ob)
    }

    fn result(&self) -> (o: Outcome) {
        self.evaluate()
    }
}

} // verus!
