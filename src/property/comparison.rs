use vstd::prelude::*;

use core::cmp::Ordering;
use vstd::std_specs::cmp::{OrdSpec, PartialEqSpec};

use super::api::{both, either, failure_element, And, Or, Outcome, Property};
use crate::ux::{debug_text, Value};

verus! {

/// A relation decided by `==`.
#[derive(Debug, Clone, Copy, PartialEq, Eq, Structural)]
pub enum EqOp {
    Equal,
    NotEqual,
}

/// A relation decided by the ordering.
#[derive(Debug, Clone, Copy, PartialEq, Eq, Structural)]
pub enum OrdOp {
    Greater,
    GreaterEqual,
    Less,
    LessEqual,
}

/// The symbol of a relation decided by `==`.
pub open spec fn eq_symbol(op: EqOp) -> Seq<char> {
    match op {
        EqOp::Equal => seq!['=', '='],
        EqOp::NotEqual => seq!['!', '='],
    }
}

/// The symbol of a relation decided by the ordering.
pub open spec fn ord_symbol(op: OrdOp) -> Seq<char> {
    match op {
        OrdOp::Greater => seq!['>'],
        OrdOp::GreaterEqual => seq!['>', '='],
        OrdOp::Less => seq!['<'],
        OrdOp::LessEqual => seq!['<', '='],
    }
}

/// Whether an ordering satisfies a relation.
pub open spec fn ord_accepts(op: OrdOp, o: Ordering) -> bool {
    match op {
        OrdOp::Greater => o == Ordering::Greater,
        OrdOp::GreaterEqual => o == Ordering::Greater || o == Ordering::Equal,
        OrdOp::Less => o == Ordering::Less,
        OrdOp::LessEqual => o == Ordering::Less || o == Ordering::Equal,
    }
}

/// Whether `o` is the outcome of a relation named `name`: a pass, or a
/// failure named `name` whose `left` and `right` entries are the operands' text.
pub open spec fn relation_outcome(o: Outcome, name: Seq<char>) -> bool {
    match o {
        Outcome::Passed => true,
        Outcome::Failed(e) => super::api::failure_shape(e, name) && super::api::entry(e, 0) is Str
            && super::api::entry(e, 1) is Str,
    }
}

/// Two values related by `==` or `!=`.
pub struct RelationEq<T> {
    left: T,
    right: T,
    op: EqOp,
}

impl<T> RelationEq<T> {
    /// The left operand.
    pub closed spec fn lhs(&self) -> T {
        self.left
    }

    /// The right operand.
    pub closed spec fn rhs(&self) -> T {
        self.right
    }

    /// The relation.
    pub closed spec fn relation(&self) -> EqOp {
        self.op
    }
}

impl<T: PartialEq + core::fmt::Debug> RelationEq<T> {
    /// This property and another one.
    pub fn and<O: Property>(self, other: O) -> (r: And<Self, O>)
        ensures
            r.left() == self,
            r.right() == other,
    {
        both(self, other)
    }

    /// This property or another one.
    pub fn or<O: Property>(self, other: O) -> (r: Or<Self, O>)
        ensures
            r.left() == self,
            r.right() == other,
    {
        either(self, other)
    }

    /// Evaluate; a failure is named by the relation's symbol and holds both
    /// operands' text.
    pub fn evaluate(&self) -> (o: Outcome)
        requires
            T::obeys_eq_spec(),
        ensures
            (o is Passed) == (self.lhs().eq_spec(&self.rhs()) == (self.relation() == EqOp::Equal)),
            relation_outcome(o, eq_symbol(self.relation())),
    {
        let same = self.left == self.right;
        let pass = match self.op {
            EqOp::Equal => same,
            EqOp::NotEqual => !same,
        };
        if pass {
            Outcome::Passed
        } else {
            proof {
                reveal_strlit("==");
                assert("=="@ =~= seq!['=', '=']);
                reveal_strlit("!=");
                assert("!="@ =~= seq!['!', '=']);
            }
            let name = match self.op {
                EqOp::Equal => "==",
                EqOp::NotEqual => "!=",
            };
            let left = Value::Str(debug_text(&self.left));
            let right = Value::Str(debug_text(&self.right));
            failure_element(name, left, right)
        }
    }
}

impl<T: PartialEq + core::fmt::Debug> Property for RelationEq<T> {
    open spec fn wf(&self) -> bool {
        T::obeys_eq_spec()
    }

    open spec fn holds(&self) -> bool {
        self.lhs().eq_spec(&self.rhs()) == (self.relation() == EqOp::Equal)
    }

    open spec fn gives(&self, o: Outcome) -> bool {
        relation_outcome(o, eq_symbol(self.relation()))
    }

    fn result(&self) -> (o: Outcome) {
        self.evaluate()
    }
}

/// Two values related by the ordering.
pub struct RelationOrd<T> {
    left: T,
    right: T,
    op: OrdOp,
}

impl<T> RelationOrd<T> {
    /// The left operand.
    pub closed spec fn lhs(&self) -> T {
        self.left
    }

    /// The right operand.
    pub closed spec fn rhs(&self) -> T {
        self.right
    }

    /// The relation.
    pub closed spec fn relation(&self) -> OrdOp {
        self.op
    }
}

impl<T: Ord + core::fmt::Debug> RelationOrd<T> {
    /// This property and another one.
    pub fn and<O: Property>(self, other: O) -> (r: And<Self, O>)
        ensures
            r.left() == self,
            r.right() == other,
    {
        both(self, other)
    }

    /// This property or another one.
    pub fn or<O: Property>(self, other: O) -> (r: Or<Self, O>)
        ensures
            r.left() == self,
            r.right() == other,
    {
        either(self, other)
    }

    /// Evaluate; a failure is named by the relation's symbol and holds both
    /// operands' text.
    pub fn evaluate(&self) -> (o: Outcome)
        requires
            T::obeys_cmp_spec(),
        ensures
            (o is Passed) == ord_accepts(self.relation(), self.lhs().cmp_spec(&self.rhs())),
            relation_outcome(o, ord_symbol(self.relation())),
    {
        let c = self.left.cmp(&self.right);
        let pass = match (self.op, c) {
            (OrdOp::Greater, Ordering::Greater) => true,
            (OrdOp::GreaterEqual, Ordering::Greater) => true,
            (OrdOp::GreaterEqual, Ordering::Equal) => true,
            (OrdOp::Less, Ordering::Less) => true,
            (OrdOp::LessEqual, Ordering::Less) => true,
            (OrdOp::LessEqual, Ordering::Equal) => true,
            _ => false,
        };
        if pass {
            Outcome::Passed
        } else {
            proof {
                reveal_strlit(">");
                assert(">"@ =~= seq!['>']);
                reveal_strlit(">=");
                assert(">="@ =~= seq!['>', '=']);
                reveal_strlit("<");
                assert("<"@ =~= seq!['<']);
                reveal_strlit("<=");
                assert("<="@ =~= seq!['<', '=']);
            }
            let name = match self.op {
                OrdOp::Greater => ">",
                OrdOp::GreaterEqual => ">=",
                OrdOp::Less => "<",
                OrdOp::LessEqual => "<=",
            };
            let left = Value::Str(debug_text(&self.left));
            let right = Value::Str(debug_text(&self.right));
            failure_element(name, left, right)
        }
    }
}

impl<T: Ord + core::fmt::Debug> Property for RelationOrd<T> {
    open spec fn wf(&self) -> bool {
        T::obeys_cmp_spec()
    }

    open spec fn holds(&self) -> bool {
        ord_accepts(self.relation(), self.lhs().cmp_spec(&self.rhs()))
    }

    open spec fn gives(&self, o: Outcome) -> bool {
        relation_outcome(o, ord_symbol(self.relation()))
    }

    fn result(&self) -> (o: Outcome) {
        self.evaluate()
    }
}

/// The two values are equal.
pub fn equal<T: PartialEq>(left: T, right: T) -> (p: RelationEq<T>)
    ensures
        p.lhs() == left,
        p.rhs() == right,
        p.relation() == EqOp::Equal,
{
    RelationEq { left, right, op: EqOp::Equal }
}

/// The two values differ.
pub fn not_equal<T: PartialEq>(left: T, right: T) -> (p: RelationEq<T>)
    ensures
        p.lhs() == left,
        p.rhs() == right,
        p.relation() == EqOp::NotEqual,
{
    RelationEq { left, right, op: EqOp::NotEqual }
}

/// The left value is greater than the right one.
pub fn greater<T: Ord>(left: T, right: T) -> (p: RelationOrd<T>)
    ensures
        p.lhs() == left,
        p.rhs() == right,
        p.relation() == OrdOp::Greater,
{
    RelationOrd { left, right, op: OrdOp::Greater }
}

/// The left value is greater than or equal to the right one.
pub fn greater_equal<T: Ord>(left: T, right: T) -> (p: RelationOrd<T>)
    ensures
        p.lhs() == left,
        p.rhs() == right,
        p.relation() == OrdOp::GreaterEqual,
{
    RelationOrd { left, right, op: OrdOp::GreaterEqual }
}

/// The left value is less than the right one.
pub fn less<T: Ord>(left: T, right: T) -> (p: RelationOrd<T>)
    ensures
        p.lhs() == left,
        p.rhs() == right,
        p.relation() == OrdOp::Less,
{
    RelationOrd { left, right, op: OrdOp::Less }
}

/// The left value is less than or equal to the right one.
pub fn less_equal<T: Ord>(left: T, right: T) -> (p: RelationOrd<T>)
    ensures
        p.lhs() == left,
        p.rhs() == right,
        p.relation() == OrdOp::LessEqual,
{
    RelationOrd { left, right, op: OrdOp::LessEqual }
}

} // verus!
