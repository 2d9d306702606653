//! Generators: fully specified ways to draw values of a type.
//!
//! A generator works like an iterator that never ends: instead of `next` it
//! has `gen`, which takes the random source to draw from. Combinators that
//! hold several generators give each its own sub-stream of the source, in a
//! fixed left-to-right order, so that a seed replays the same tree of values.
use vstd::prelude::*;

use crate::rand::{child_state, output_of, step, NumPrimitive, RState, R};

pub mod char;
pub mod string;

verus! {

/// Why a draw produced no value.
#[derive(Debug, Clone, Copy, PartialEq, Eq, Structural)]
pub enum GenFailure {
    /// A filtering generator rejected every candidate of its retry budget.
    RetriesExhausted,
}

/// How many candidates beyond the first a filtering generator may reject.
pub const DEFAULT_RETRIES: u32 = 1000;

/// Generator of items.
pub trait Generator: Sized {
    /// Type of the generated items.
    type Item;

    /// Whether `gen` may be called: every closure held accepts what it is given.
    spec fn ready(&self) -> bool;

    /// Whether a draw from source state `pre` may give `item` and leave the
    /// source at `post`.
    spec fn draws(&self, pre: RState, item: Self::Item, post: RState) -> bool;

    /// Whether a draw always gives an item (no filter can run out of retries).
    spec fn total(&self) -> bool;

    /// Whether a draw from source state `pre` can fail: a filter along the
    /// way rejects every candidate of its budget.
    spec fn fails(&self, pre: RState) -> bool;

    /// Draw the next item.
    fn gen(&self, r: &mut R) -> (out: Result<Self::Item, GenFailure>)
        requires
            self.ready(),
        ensures
            out is Ok ==> self.draws(old(r)@, out->Ok_0, final(r)@),
            out is Err ==> self.fails(old(r)@),
            self.total() ==> out is Ok,
    ;

    /// This generator, on the heap.
    fn into_boxed(self) -> (b: BoxGenerator<Self>)
        ensures
            *b.0 == self,
    {
        BoxGenerator(Box::new(self))
    }
}

/// Whether `items` may be drawn one after another by `g`, starting at state
/// `states[0]`, with `states[i + 1]` the state after item `i`.
pub open spec fn draws_chain<G: Generator>(g: G, items: Seq<G::Item>, states: Seq<RState>) -> bool {
    &&& states.len() == items.len() + 1
    &&& forall|i: int| 0 <= i < items.len() ==> g.draws(states[i], #[trigger] items[i], states[i + 1])
}

/// Whether the predicate rejects every one of the items.
pub open spec fn rejects_all<T, F: Fn(&T) -> bool>(f: F, items: Seq<T>) -> bool {
    forall|j: int| 0 <= j < items.len() ==> #[trigger] f.ensures((&items[j],), false)
}

/// A generator on the heap.
pub struct BoxGenerator<G>(pub Box<G>);

impl<G: Generator> Generator for BoxGenerator<G> {
    type Item = G::Item;

    open spec fn ready(&self) -> bool {
        (*self.0).ready()
    }

    open spec fn draws(&self, pre: RState, item: G::Item, post: RState) -> bool {
        (*self.0).draws(pre, item, post)
    }

    open spec fn total(&self) -> bool {
        (*self.0).total()
    }

    open spec fn fails(&self, pre: RState) -> bool {
        (*self.0).fails(pre)
    }

    fn gen(&self, r: &mut R) -> (out: Result<G::Item, GenFailure>) {
        self.0.gen(r)
    }
}

/// Generator that always gives (a clone of) the same value.
#[derive(Clone)]
pub struct Constant<T>(pub T);

impl<T: Clone> Generator for Constant<T> {
    type Item = T;

    open spec fn ready(&self) -> bool {
        true
    }

    open spec fn draws(&self, pre: RState, item: T, post: RState) -> bool {
        post == pre && cloned(self.0, item)
    }

    open spec fn total(&self) -> bool {
        true
    }

    open spec fn fails(&self, pre: RState) -> bool {
        false
    }

    fn gen(&self, r: &mut R) -> (out: Result<T, GenFailure>) {
        Ok(self.0.clone())
    }
}

/// Generator of numbers over the whole domain of `T`.
pub struct Num<T>(pub core::marker::PhantomData<T>);

impl<T: NumPrimitive> Generator for Num<T> {
    type Item = T;

    open spec fn ready(&self) -> bool {
        true
    }

    open spec fn draws(&self, pre: RState, item: T, post: RState) -> bool {
        (item, post) == T::drawn(pre)
    }

    open spec fn total(&self) -> bool {
        true
    }

    open spec fn fails(&self, pre: RState) -> bool {
        false
    }

    fn gen(&self, r: &mut R) -> (out: Result<T, GenFailure>) {
        Ok(r.num::<T>())
    }
}

/// Generator of numbers between two bounds, both included.
#[derive(Clone, Copy)]
pub struct NumRange<T> {
    min: T,
    max: T,
}

impl<T: NumPrimitive> NumRange<T> {
    /// The range from `range.start` to `range.end`, both included.
    pub fn new(range: core::ops::Range<T>) -> (g: NumRange<T>)
        requires
            T::le(range.start, range.end),
        ensures
            g.lower() == range.start,
            g.upper() == range.end,
    {
        NumRange { min: range.start, max: range.end }
    }

    /// The lower bound.
    pub closed spec fn lower(&self) -> T {
        self.min
    }

    /// The upper bound.
    pub closed spec fn upper(&self) -> T {
        self.max
    }
}

impl<T: NumPrimitive> Generator for NumRange<T> {
    type Item = T;

    open spec fn ready(&self) -> bool {
        T::le(self.lower(), self.upper())
    }

    open spec fn draws(&self, pre: RState, item: T, post: RState) -> bool {
        &&& (item, post) == T::drawn_in(pre, self.lower(), self.upper())
        &&& T::le(self.lower(), item)
        &&& T::le(item, self.upper())
    }

    open spec fn total(&self) -> bool {
        true
    }

    open spec fn fails(&self, pre: RState) -> bool {
        false
    }

    fn gen(&self, r: &mut R) -> (out: Result<T, GenFailure>) {
        Ok(r.num_range(self.min, self.max))
    }
}

/// A generator whose items go through a function.
#[derive(Clone)]
pub struct Mapped<G, F> {
    generator: G,
    f: F,
}

impl<G, F> Mapped<G, F> {
    /// The generator mapped over.
    pub closed spec fn source(&self) -> G {
        self.generator
    }

    /// The function applied.
    pub closed spec fn function(&self) -> F {
        self.f
    }
}

impl<O, G: Generator, F: Fn(G::Item) -> O> Generator for Mapped<G, F> {
    type Item = O;

    open spec fn ready(&self) -> bool {
        &&& self.source().ready()
        &&& forall|x: G::Item| #[trigger] self.function().requires((x,))
    }

    open spec fn draws(&self, pre: RState, item: O, post: RState) -> bool {
        exists|x: G::Item|
            #[trigger] self.source().draws(pre, x, post) && self.function().ensures((x,), item)
    }

    open spec fn total(&self) -> bool {
        self.source().total()
    }

    open spec fn fails(&self, pre: RState) -> bool {
        self.source().fails(pre)
    }

    fn gen(&self, r: &mut R) -> (out: Result<O, GenFailure>) {
        match self.generator.gen(r) {
            Ok(x) => {
                assert(self.function().requires((x,)));
                let y = (self.f)(x);
                assert(self.source().draws(old(r)@, x, r@) && self.function().ensures((x,), y));
                Ok(y)
            },
            Err(e) => Err(e),
        }
    }
}

/// A generator that keeps only the items a predicate accepts, retrying on the
/// same stream until one is accepted or the retry budget is spent.
#[derive(Clone)]
pub struct SuchThat<G, F> {
    retry: u32,
    generator: G,
    f: F,
}

impl<G, F> SuchThat<G, F> {
    /// The generator filtered.
    pub closed spec fn source(&self) -> G {
        self.generator
    }

    /// The predicate.
    pub closed spec fn predicate(&self) -> F {
        self.f
    }

    /// How many rejections are allowed before the draw fails.
    pub closed spec fn retries(&self) -> u32 {
        self.retry
    }
}

impl<G: Generator, F: Fn(&G::Item) -> bool> Generator for SuchThat<G, F> {
    type Item = G::Item;

    open spec fn ready(&self) -> bool {
        &&& self.source().ready()
        &&& forall|x: G::Item| #[trigger] self.predicate().requires((&x,))
    }

    /// The item is the first candidate the predicate accepts among at most
    /// `retries() + 1` drawn one after another on the same stream.
    open spec fn draws(&self, pre: RState, item: G::Item, post: RState) -> bool {
        exists|items: Seq<G::Item>, states: Seq<RState>|
            #[trigger] draws_chain(self.source(), items, states) && states[0] == pre && states.last()
                == post && 1 <= items.len() <= self.retries() + 1 && items.last() == item
                && self.predicate().ensures((&item,), true) && rejects_all(
                self.predicate(),
                items.drop_last(),
            )
    }

    open spec fn total(&self) -> bool {
        false
    }

    open spec fn fails(&self, pre: RState) -> bool {
        exists|items: Seq<G::Item>, states: Seq<RState>|
            #[trigger] draws_chain(self.source(), items, states) && states[0] == pre && items.len()
                <= self.retries() + 1 && rejects_all(self.predicate(), items) && (items.len()
                == self.retries() + 1 || self.source().fails(states.last()))
    }

    fn gen(&self, r: &mut R) -> (out: Result<G::Item, GenFailure>) {
        let mut retry = self.retry;
        let ghost mut items: Seq<G::Item> = Seq::empty();
        let ghost mut states: Seq<RState> = seq![r@];
        loop
            invariant
                self.ready(),
                retry <= self.retries(),
                items.len() == self.retries() - retry,
                states[0] == old(r)@,
                states.last() == r@,
                draws_chain(self.source(), items, states),
                rejects_all(self.predicate(), items),
            decreases retry,
        {
            let ghost before = r@;
            match self.generator.gen(r) {
                Err(e) => {
                    assert(self.source().fails(states.last()));
                    assert(draws_chain(self.source(), items, states));
                    return Err(e);
                },
                Ok(x) => {
                    assert(self.predicate().requires((&x,)));
                    let ok = (self.f)(&x);
                    let ghost next_items = items.push(x);
                    let ghost next_states = states.push(r@);
                    assert(self.source().draws(before, x, r@));
                    assert(forall|k: int|
                        0 <= k < next_items.len() ==> self.source().draws(
                            next_states[k],
                            #[trigger] next_items[k],
                            next_states[k + 1],
                        ));
                    assert(draws_chain(self.source(), next_items, next_states));
                    if ok {
                        assert(next_items.drop_last() =~= items);
                        assert(next_states[0] == old(r)@);
                        return Ok(x);
                    }
                    assert(rejects_all(self.predicate(), next_items)) by {
                        assert forall|j: int| 0 <= j < next_items.len() implies #[trigger]
                            self.predicate().ensures((&next_items[j],), false) by {
                            if j < items.len() {
                                assert(next_items[j] == items[j]);
                            }
                        }
                    }
                    if retry == 0 {
                        assert(draws_chain(self.source(), next_items, next_states));
                        return Err(GenFailure::RetriesExhausted);
                    }
                    retry -= 1;
                    proof {
                        items = next_items;
                        states = next_states;
                    }
                },
            }
        }
    }
}

/// Pairs of items of two generators, each drawn from its own sub-stream.
#[derive(Clone)]
pub struct And<A, B> {
    gen_a: A,
    gen_b: B,
}

impl<A, B> And<A, B> {
    /// The generator of first components.
    pub closed spec fn first(&self) -> A {
        self.gen_a
    }

    /// The generator of second components.
    pub closed spec fn second(&self) -> B {
        self.gen_b
    }
}

impl<A: Generator, B: Generator> Generator for And<A, B> {
    type Item = (A::Item, B::Item);

    open spec fn ready(&self) -> bool {
        self.first().ready() && self.second().ready()
    }

    open spec fn draws(&self, pre: RState, item: (A::Item, B::Item), post: RState) -> bool {
        &&& post == step(step(pre))
        &&& exists|e: RState| #[trigger] self.first().draws(child_state(pre), item.0, e)
        &&& exists|e: RState| #[trigger] self.second().draws(child_state(step(pre)), item.1, e)
    }

    open spec fn total(&self) -> bool {
        self.first().total() && self.second().total()
    }

    open spec fn fails(&self, pre: RState) -> bool {
        self.first().fails(child_state(pre)) || self.second().fails(child_state(step(pre)))
    }

    fn gen(&self, r: &mut R) -> (out: Result<(A::Item, B::Item), GenFailure>) {
        let mut ra = r.sub();
        let a = match self.gen_a.gen(&mut ra) {
            Ok(a) => a,
            Err(e) => {
                return Err(e);
            },
        };
        let mut rb = r.sub();
        let b = match self.gen_b.gen(&mut rb) {
            Ok(b) => b,
            Err(e) => {
                return Err(e);
            },
        };
        assert(self.first().draws(child_state(old(r)@), a, ra@));
        assert(self.second().draws(child_state(step(old(r)@)), b, rb@));
        let item = (a, b);
        assert(item.0 == a && item.1 == b);
        assert(self.first().draws(child_state(old(r)@), item.0, ra@));
        assert(self.second().draws(child_state(step(old(r)@)), item.1, rb@));
        Ok(item)
    }
}

/// Items of one generator or the other, on a fair coin.
#[derive(Clone)]
pub struct Or<A, B> {
    gen_a: A,
    gen_b: B,
}

impl<A, B> Or<A, B> {
    /// The generator used when the coin falls on one.
    pub closed spec fn first(&self) -> A {
        self.gen_a
    }

    /// The generator used when the coin falls on zero.
    pub closed spec fn second(&self) -> B {
        self.gen_b
    }
}

impl<T, A: Generator<Item = T>, B: Generator<Item = T>> Generator for Or<A, B> {
    type Item = T;

    open spec fn ready(&self) -> bool {
        self.first().ready() && self.second().ready()
    }

    open spec fn draws(&self, pre: RState, item: T, post: RState) -> bool {
        &&& post == step(step(pre))
        &&& if output_of(pre) % 2 == 1 {
            exists|e: RState| #[trigger] self.first().draws(child_state(step(pre)), item, e)
        } else {
            exists|e: RState| #[trigger] self.second().draws(child_state(step(pre)), item, e)
        }
    }

    open spec fn total(&self) -> bool {
        self.first().total() && self.second().total()
    }

    open spec fn fails(&self, pre: RState) -> bool {
        if output_of(pre) % 2 == 1 {
            self.first().fails(child_state(step(pre)))
        } else {
            self.second().fails(child_state(step(pre)))
        }
    }

    fn gen(&self, r: &mut R) -> (out: Result<T, GenFailure>) {
        if r.bool() {
            let mut ra = r.sub();
            let out = self.gen_a.gen(&mut ra);
            assert(out is Ok ==> self.first().draws(child_state(step(old(r)@)), out->Ok_0, ra@));
            out
        } else {
            let mut rb = r.sub();
            let out = self.gen_b.gen(&mut rb);
            assert(out is Ok ==> self.second().draws(child_state(step(old(r)@)), out->Ok_0, rb@));
            out
        }
    }
}

/// The image by a function of two generators' items: `f(x1, x2)`.
#[derive(Clone)]
pub struct Product2<G1, G2, F> {
    gen1: G1,
    gen2: G2,
    f: F,
}

impl<G1, G2, F> Product2<G1, G2, F> {
    fn new(gen1: G1, gen2: G2, f: F) -> (p: Self)
        ensures
            p.gen1 == gen1,
            p.gen2 == gen2,
            p.f == f,
    {
        Product2 { gen1, gen2, f }
    }

    /// The generator of first arguments.
    pub closed spec fn first(&self) -> G1 {
        self.gen1
    }

    /// The generator of second arguments.
    pub closed spec fn second(&self) -> G2 {
        self.gen2
    }

    /// The function applied.
    pub closed spec fn function(&self) -> F {
        self.f
    }
}

impl<O, G1: Generator, G2: Generator, F: Fn(G1::Item, G2::Item) -> O> Generator for Product2<
    G1,
    G2,
    F,
> {
    type Item = O;

    open spec fn ready(&self) -> bool {
        &&& self.first().ready()
        &&& self.second().ready()
        &&& forall|x1: G1::Item, x2: G2::Item| #[trigger] self.function().requires((x1, x2))
    }

    open spec fn draws(&self, pre: RState, item: O, post: RState) -> bool {
        &&& post == step(step(pre))
        &&& exists|x1: G1::Item, x2: G2::Item, e1: RState, e2: RState|
            #[trigger] self.first().draws(child_state(pre), x1, e1)
                && #[trigger] self.second().draws(child_state(step(pre)), x2, e2)
                && self.function().ensures((x1, x2), item)
    }

    open spec fn total(&self) -> bool {
        self.first().total() && self.second().total()
    }

    open spec fn fails(&self, pre: RState) -> bool {
        self.first().fails(child_state(pre)) || self.second().fails(child_state(step(pre)))
    }

    fn gen(&self, r: &mut R) -> (out: Result<O, GenFailure>) {
        let mut r1 = r.sub();
        let x1 = match self.gen1.gen(&mut r1) {
            Ok(x) => x,
            Err(e) => {
                return Err(e);
            },
        };
        let mut r2 = r.sub();
        let x2 = match self.gen2.gen(&mut r2) {
            Ok(x) => x,
            Err(e) => {
                return Err(e);
            },
        };
        assert(self.function().requires((x1, x2)));
        let y = (self.f)(x1, x2);
        assert(self.first().draws(child_state(old(r)@), x1, r1@));
        assert(self.second().draws(child_state(step(old(r)@)), x2, r2@));
        Ok(y)
    }
}

/// The image by a function of three generators' items: `f(x1, x2, x3)`.
#[derive(Clone)]
pub struct Product3<G1, G2, G3, F> {
    gen1: G1,
    gen2: G2,
    gen3: G3,
    f: F,
}

impl<G1, G2, G3, F> Product3<G1, G2, G3, F> {
    fn new(gen1: G1, gen2: G2, gen3: G3, f: F) -> (p: Self)
        ensures
            p.gen1 == gen1,
            p.gen2 == gen2,
            p.gen3 == gen3,
            p.f == f,
    {
        Product3 { gen1, gen2, gen3, f }
    }

    /// The generator of first arguments.
    pub closed spec fn first(&self) -> G1 {
        self.gen1
    }

    /// The generator of second arguments.
    pub closed spec fn second(&self) -> G2 {
        self.gen2
    }

    /// The generator of third arguments.
    pub closed spec fn third(&self) -> G3 {
        self.gen3
    }

    /// The function applied.
    pub closed spec fn function(&self) -> F {
        self.f
    }
}

impl<
    O,
    G1: Generator,
    G2: Generator,
    G3: Generator,
    F: Fn(G1::Item, G2::Item, G3::Item) -> O,
> Generator for Product3<G1, G2, G3, F> {
    type Item = O;

    open spec fn ready(&self) -> bool {
        &&& self.first().ready()
        &&& self.second().ready()
        &&& self.third().ready()
        &&& forall|x1: G1::Item, x2: G2::Item, x3: G3::Item| #[trigger]
            self.function().requires((x1, x2, x3))
    }

    open spec fn draws(&self, pre: RState, item: O, post: RState) -> bool {
        &&& post == step(step(step(pre)))
        &&& exists|x1: G1::Item, x2: G2::Item, x3: G3::Item, e1: RState, e2: RState, e3: RState|
            #[trigger] self.first().draws(child_state(pre), x1, e1)
                && #[trigger] self.second().draws(child_state(step(pre)), x2, e2)
                && #[trigger] self.third().draws(child_state(step(step(pre))), x3, e3)
                && self.function().ensures((x1, x2, x3), item)
    }

    open spec fn total(&self) -> bool {
        self.first().total() && self.second().total() && self.third().total()
    }

    open spec fn fails(&self, pre: RState) -> bool {
        self.first().fails(child_state(pre)) || self.second().fails(child_state(step(pre)))
            || self.third().fails(child_state(step(step(pre))))
    }

    fn gen(&self, r: &mut R) -> (out: Result<O, GenFailure>) {
        let mut r1 = r.sub();
        let x1 = match self.gen1.gen(&mut r1) {
            Ok(x) => x,
            Err(e) => {
                return Err(e);
            },
        };
        let mut r2 = r.sub();
        let x2 = match self.gen2.gen(&mut r2) {
            Ok(x) => x,
            Err(e) => {
                return Err(e);
            },
        };
        let mut r3 = r.sub();
        let x3 = match self.gen3.gen(&mut r3) {
            Ok(x) => x,
            Err(e) => {
                return Err(e);
            },
        };
        assert(self.function().requires((x1, x2, x3)));
        let y = (self.f)(x1, x2, x3);
        assert(self.first().draws(child_state(old(r)@), x1, r1@));
        assert(self.second().draws(child_state(step(old(r)@)), x2, r2@));
        assert(self.third().draws(child_state(step(step(old(r)@))), x3, r3@));
        Ok(y)
    }
}

/// Pairs whose second component is drawn from a generator built out of the
/// first component.
pub struct Depends<G, F> {
    src_gen: G,
    dst_gen: F,
}

impl<G, F> Depends<G, F> {
    /// The generator of first components.
    pub closed spec fn source(&self) -> G {
        self.src_gen
    }

    /// The function that builds the generator of second components.
    pub closed spec fn builder(&self) -> F {
        self.dst_gen
    }
}

impl<G1: Generator, G2: Generator, F: Fn(&G1::Item) -> G2> Generator for Depends<G1, F> {
    type Item = (G1::Item, G2::Item);

    open spec fn ready(&self) -> bool {
        &&& self.source().ready()
        &&& forall|x: G1::Item| #[trigger] self.builder().requires((&x,))
        &&& forall|x: G1::Item, g: G2| #[trigger] self.builder().ensures((&x,), g) ==> g.ready()
    }

    open spec fn draws(&self, pre: RState, item: (G1::Item, G2::Item), post: RState) -> bool {
        &&& post == step(step(pre))
        &&& exists|e1: RState| #[trigger] self.source().draws(child_state(pre), item.0, e1)
        &&& exists|g: G2, e2: RState|
            #[trigger] self.builder().ensures((&item.0,), g) && #[trigger] g.draws(
                child_state(step(pre)),
                item.1,
                e2,
            )
    }

    open spec fn total(&self) -> bool {
        &&& self.source().total()
        &&& forall|x: G1::Item, g: G2| #[trigger] self.builder().ensures((&x,), g) ==> g.total()
    }

    open spec fn fails(&self, pre: RState) -> bool {
        self.source().fails(child_state(pre)) || exists|x: G1::Item, e1: RState, g: G2|
            #[trigger] self.source().draws(child_state(pre), x, e1) && #[trigger] self.builder().ensures(
                (&x,),
                g,
            ) && g.fails(child_state(step(pre)))
    }

    fn gen(&self, r: &mut R) -> (out: Result<(G1::Item, G2::Item), GenFailure>) {
        let mut r1 = r.sub();
        let x = match self.src_gen.gen(&mut r1) {
            Ok(x) => x,
            Err(e) => {
                return Err(e);
            },
        };
        assert(self.builder().requires((&x,)));
        let g2 = (self.dst_gen)(&x);
        assert(self.builder().ensures((&x,), g2));
        let mut r2 = r.sub();
        let y = match g2.gen(&mut r2) {
            Ok(y) => y,
            Err(e) => {
                return Err(e);
            },
        };
        assert(self.source().draws(child_state(old(r)@), x, r1@));
        assert(self.builder().ensures((&x,), g2) && g2.draws(child_state(step(old(r)@)), y, r2@));
        let item = (x, y);
        assert(item.0 == x && item.1 == y);
        assert(self.source().draws(child_state(old(r)@), item.0, r1@));
        assert(self.builder().ensures((&item.0,), g2) && g2.draws(
            child_state(step(old(r)@)),
            item.1,
            r2@,
        ));
        Ok(item)
    }
}

/// One of a non-empty list of values, picked uniformly.
#[derive(Clone)]
pub struct OneOf<T> {
    data: Vec<T>,
}

impl<T> OneOf<T> {
    /// The values picked from.
    pub closed spec fn values(&self) -> Seq<T> {
        self.data@
    }
}

impl<T: Clone> Generator for OneOf<T> {
    type Item = T;

    open spec fn ready(&self) -> bool {
        self.values().len() > 0
    }

    open spec fn draws(&self, pre: RState, item: T, post: RState) -> bool {
        let (i, next) = usize::drawn_in(pre, 0, (self.values().len() - 1) as usize);
        next == post && cloned(self.values()[i as int], item)
    }

    open spec fn total(&self) -> bool {
        true
    }

    open spec fn fails(&self, pre: RState) -> bool {
        false
    }

    fn gen(&self, r: &mut R) -> (out: Result<T, GenFailure>) {
        let nb = r.num_range(0usize, self.data.len() - 1);
        Ok(self.data[nb].clone())
    }
}

/// One of a non-empty list of generators, picked uniformly, drawn from on a
/// sub-stream.
pub struct Choose<G> {
    generators: Vec<G>,
}

impl<G> Choose<G> {
    fn new(generators: Vec<G>) -> (c: Self)
        ensures
            c.generators@ == generators@,
    {
        Choose { generators }
    }

    /// The generators picked from.
    pub closed spec fn choices(&self) -> Seq<G> {
        self.generators@
    }
}

impl<G: Generator> Generator for Choose<G> {
    type Item = G::Item;

    open spec fn ready(&self) -> bool {
        &&& self.choices().len() > 0
        &&& forall|i: int| 0 <= i < self.choices().len() ==> #[trigger] self.choices()[i].ready()
    }

    open spec fn draws(&self, pre: RState, item: G::Item, post: RState) -> bool {
        let (i, mid) = usize::drawn_in(pre, 0, (self.choices().len() - 1) as usize);
        &&& post == step(mid)
        &&& exists|e: RState| #[trigger] self.choices()[i as int].draws(child_state(mid), item, e)
    }

    open spec fn total(&self) -> bool {
        forall|i: int| 0 <= i < self.choices().len() ==> #[trigger] self.choices()[i].total()
    }

    open spec fn fails(&self, pre: RState) -> bool {
        let (i, mid) = usize::drawn_in(pre, 0, (self.choices().len() - 1) as usize);
        self.choices()[i as int].fails(child_state(mid))
    }

    fn gen(&self, r: &mut R) -> (out: Result<G::Item, GenFailure>) {
        let ghost pre = r@;
        let nb = r.num_range(0usize, self.generators.len() - 1);
        let ghost mid = r@;
        let mut sub = r.sub();
        let out = self.generators[nb].gen(&mut sub);
        proof {
            let (i, m) = usize::drawn_in(pre, 0, (self.choices().len() - 1) as usize);
            assert(i == nb && m == mid);
            if out is Ok {
                assert(self.choices()[i as int].draws(child_state(m), out->Ok_0, sub@));
                assert(self.draws(pre, out->Ok_0, r@));
            }
        }
        out
    }
}

/// Constant generator: always the same value.
pub fn constant<T: Clone>(t: T) -> (g: Constant<T>)
    ensures
        g.0 == t,
{
    Constant(t)
}

/// Generator of numbers over the whole domain of `T`.
pub fn num<T: NumPrimitive>() -> (g: Num<T>) {
    Num(core::marker::PhantomData)
}

/// Generator of numbers from `range.start` to `range.end`, both included.
pub fn range<T: NumPrimitive>(bounds: core::ops::Range<T>) -> (g: NumRange<T>)
    requires
        T::le(bounds.start, bounds.end),
    ensures
        g.lower() == bounds.start,
        g.upper() == bounds.end,
{
    NumRange::new(bounds)
}

/// Pick uniformly among the given values (at least one).
pub fn one_of<T: Clone>(slice: &[T]) -> (g: OneOf<T>)
    requires
        slice@.len() > 0,
    ensures
        g.values().len() == slice@.len(),
        forall|i: int| 0 <= i < slice@.len() ==> cloned(slice@[i], #[trigger] g.values()[i]),
{
    let mut data: Vec<T> = Vec::new();
    let mut i: usize = 0;
    while i < slice.len()
        invariant
            i <= slice@.len(),
            data@.len() == i,
            forall|k: int| 0 <= k < i ==> cloned(slice@[k], #[trigger] data@[k]),
        decreases slice@.len() - i,
    {
        data.push(slice[i].clone());
        i += 1;
    }
    OneOf { data }
}

/// Pick uniformly among the given generators (at least one).
pub fn choice<G: Generator>(gens: Vec<G>) -> (g: Choose<G>)
    requires
        gens@.len() > 0,
    ensures
        g.choices() == gens@,
{
    Choose::new(gens)
}

/// Product of two generators through a function: `f(x1, x2)`.
pub fn product2<G1, G2, F>(gen1: G1, gen2: G2, f: F) -> (p: Product2<G1, G2, F>)
    ensures
        p.first() == gen1,
        p.second() == gen2,
        p.function() == f,
{
    Product2::new(gen1, gen2, f)
}

/// Product of three generators through a function: `f(x1, x2, x3)`.
pub fn product3<G1, G2, G3, F>(gen1: G1, gen2: G2, gen3: G3, f: F) -> (p: Product3<
    G1,
    G2,
    G3,
    F,
>)
    ensures
        p.first() == gen1,
        p.second() == gen2,
        p.third() == gen3,
        p.function() == f,
{
    Product3::new(gen1, gen2, gen3, f)
}

/// Pairs whose second component comes from the generator `f` builds out of
/// the first component.
pub fn depends<F, G1: Generator, G2: Generator>(g1: G1, f: F) -> (d: Depends<G1, F>) where
    F: Fn(&G1::Item) -> G2,

    ensures
        d.source() == g1,
        d.builder() == f,
{
    Depends { src_gen: g1, dst_gen: f }
}

/// Map the items of a generator through a function.
pub fn map<O, G: Generator, F: Fn(G::Item) -> O>(generator: G, f: F) -> (m: Mapped<G, F>)
    ensures
        m.source() == generator,
        m.function() == f,
{
    Mapped { generator, f }
}

/// Keep the items a predicate accepts, with the default retry budget.
pub fn such_that<G: Generator, F: Fn(&G::Item) -> bool>(generator: G, f: F) -> (s: SuchThat<G, F>)
    ensures
        s.source() == generator,
        s.predicate() == f,
        s.retries() == DEFAULT_RETRIES,
{
    SuchThat { retry: DEFAULT_RETRIES, generator, f }
}

/// Pairs of items of two generators.
pub fn and<A: Generator, B: Generator>(a: A, b: B) -> (g: And<A, B>)
    ensures
        g.first() == a,
        g.second() == b,
{
    And { gen_a: a, gen_b: b }
}

/// Items of one generator or the other, on a fair coin.
pub fn or<T, A: Generator<Item = T>, B: Generator<Item = T>>(a: A, b: B) -> (g: Or<A, B>)
    ensures
        g.first() == a,
        g.second() == b,
{
    Or { gen_a: a, gen_b: b }
}

/// The sum of the weights.
pub open spec fn total_weight(ws: Seq<usize>) -> nat
    decreases ws.len(),
{
    if ws.len() == 0 {
        0
    } else {
        total_weight(ws.drop_last()) + ws.last() as nat
    }
}

/// The selection table of a weight list: index `i` written `ws[i]` times, in order.
pub open spec fn expand(ws: Seq<usize>) -> Seq<usize>
    decreases ws.len(),
{
    if ws.len() == 0 {
        Seq::empty()
    } else {
        expand(ws.drop_last()) + Seq::new(ws.last() as nat, |k: int| (ws.len() - 1) as usize)
    }
}

/// The weights of a weighted list of generators.
pub open spec fn weights<G>(gens: Seq<(usize, G)>) -> Seq<usize> {
    gens.map_values(|p: (usize, G)| p.0)
}

proof fn lemma_expand_len(ws: Seq<usize>)
    ensures
        expand(ws).len() == total_weight(ws),
    decreases ws.len(),
{
    if ws.len() > 0 {
        lemma_expand_len(ws.drop_last());
    }
}

#[verifier::spinoff_prover]
#[verifier::rlimit(30)]
proof fn lemma_expand_at(ws: Seq<usize>, i: int, k: int)
    requires
        ws.len() <= usize::MAX,
        0 <= i < ws.len(),
        0 <= k < expand(ws).len(),
    ensures
        expand(ws)[k] == i <==> total_weight(ws.take(i)) <= k < total_weight(ws.take(i + 1)),
        expand(ws)[k] < ws.len(),
    decreases ws.len(),
{
    let n = ws.len() as int;
    let prev = ws.drop_last();
    lemma_expand_len(prev);
    lemma_expand_len(ws);
    assert(ws.take(n) =~= ws);
    assert(ws.take(n - 1) =~= prev);
    if k < total_weight(prev) {
        assert(expand(ws)[k] == expand(prev)[k]);
        if i < n - 1 {
            assert(ws.take(i) =~= prev.take(i));
            assert(ws.take(i + 1) =~= prev.take(i + 1));
            lemma_expand_at(prev, i, k);
        } else {
            lemma_expand_at(prev, 0, k);
        }
    } else {
        assert(expand(ws)[k] == n - 1);
        if i < n - 1 {
            assert(ws.take(i + 1) =~= prev.take(i + 1));
            lemma_total_weight_prefix(prev);
            assert(total_weight(prev.take(i + 1)) <= total_weight(prev));
        }
    }
}

/// The selection table gives index `i` exactly the slots from the sum of the
/// weights before it up to that sum plus its own weight: a uniform pick of a
/// slot selects `i` with probability `ws[i]` over the total weight.
pub proof fn lemma_expand(ws: Seq<usize>)
    requires
        ws.len() <= usize::MAX,
    ensures
        expand(ws).len() == total_weight(ws),
        forall|i: int, k: int|
            #![trigger expand(ws)[k], ws.take(i)]
            0 <= i < ws.len() && 0 <= k < expand(ws).len() ==> (expand(ws)[k] == i <==> total_weight(
                ws.take(i),
            ) <= k < total_weight(ws.take(i + 1))),
        forall|k: int| 0 <= k < expand(ws).len() ==> #[trigger] expand(ws)[k] < ws.len(),
{
    lemma_expand_len(ws);
    assert forall|i: int, k: int|
        #![trigger expand(ws)[k], ws.take(i)]
        0 <= i < ws.len() && 0 <= k < expand(ws).len() implies (expand(ws)[k] == i
            <==> total_weight(ws.take(i)) <= k < total_weight(ws.take(i + 1))) by {
        lemma_expand_at(ws, i, k);
    }
    assert forall|k: int| 0 <= k < expand(ws).len() implies #[trigger] expand(ws)[k] < ws.len() by {
        lemma_expand_at(ws, 0, k);
    }
}

proof fn lemma_total_weight_prefix(ws: Seq<usize>)
    ensures
        forall|i: int| 0 <= i <= ws.len() ==> #[trigger] total_weight(ws.take(i)) <= total_weight(ws),
    decreases ws.len(),
{
    if ws.len() > 0 {
        lemma_total_weight_prefix(ws.drop_last());
        assert forall|i: int| 0 <= i <= ws.len() implies #[trigger] total_weight(ws.take(i))
            <= total_weight(ws) by {
            if i < ws.len() {
                assert(ws.take(i) =~= ws.drop_last().take(i));
                assert(ws.drop_last().take(ws.drop_last().len() as int) =~= ws.drop_last());
            } else {
                assert(ws.take(i) =~= ws);
            }
        }
    }
}

/// Generators picked with probability proportional to their weight, drawn
/// from on a sub-stream.
pub struct Frequency<G> {
    frequencies: Vec<usize>,
    generators: Vec<(usize, G)>,
}

impl<G> Frequency<G> {
    /// The weighted generators.
    pub closed spec fn choices(&self) -> Seq<(usize, G)> {
        self.generators@
    }

    /// The selection table: each generator's index, once per unit of weight.
    pub closed spec fn table(&self) -> Seq<usize> {
        self.frequencies@
    }

    fn new(gens: Vec<(usize, G)>) -> (f: Self)
        requires
            total_weight(weights(gens@)) <= usize::MAX,
        ensures
            f.choices() == gens@,
            f.table() == expand(weights(gens@)),
    {
        let ghost ws = weights(gens@);
        let mut frequencies: Vec<usize> = Vec::new();
        let mut i: usize = 0;
        proof {
            lemma_total_weight_prefix(ws);
        }
        while i < gens.len()
            invariant
                i <= gens@.len(),
                ws == weights(gens@),
                total_weight(ws) <= usize::MAX,
                forall|k: int| 0 <= k <= ws.len() ==> #[trigger] total_weight(ws.take(k)) <= total_weight(ws),
                frequencies@ == expand(ws.take(i as int)),
            decreases gens@.len() - i,
        {
            let nb = gens[i].0;
            let ghost before = frequencies@;
            proof {
                lemma_expand(ws.take(i as int));
                assert(ws.take(i + 1).drop_last() =~= ws.take(i as int));
            }
            let mut j: usize = 0;
            while j < nb
                invariant
                    j <= nb,
                    nb == ws[i as int],
                    frequencies@ == before + Seq::new(j as nat, |k: int| i),
                    before.len() == total_weight(ws.take(i as int)),
                    total_weight(ws.take(i + 1)) <= usize::MAX,
                    ws.take(i + 1).drop_last() == ws.take(i as int),
                decreases nb - j,
            {
                frequencies.push(i);
                j += 1;
                assert(frequencies@ =~= before + Seq::new(j as nat, |k: int| i));
            }
            i += 1;
            assert(frequencies@ =~= expand(ws.take(i as int)));
        }
        assert(ws.take(gens@.len() as int) =~= ws);
        Frequency { frequencies, generators: gens }
    }
}

impl<G: Generator> Generator for Frequency<G> {
    type Item = G::Item;

    open spec fn ready(&self) -> bool {
        &&& self.table().len() > 0
        &&& forall|k: int| 0 <= k < self.table().len() ==> #[trigger] self.table()[k] < self.choices().len()
        &&& forall|i: int| 0 <= i < self.choices().len() ==> #[trigger] self.choices()[i].1.ready()
    }

    open spec fn draws(&self, pre: RState, item: G::Item, post: RState) -> bool {
        let (k, mid) = usize::drawn_in(pre, 0, (self.table().len() - 1) as usize);
        let i = self.table()[k as int];
        &&& post == step(mid)
        &&& exists|e: RState| #[trigger] self.choices()[i as int].1.draws(child_state(mid), item, e)
    }

    open spec fn total(&self) -> bool {
        forall|i: int| 0 <= i < self.choices().len() ==> #[trigger] self.choices()[i].1.total()
    }

    open spec fn fails(&self, pre: RState) -> bool {
        let (k, mid) = usize::drawn_in(pre, 0, (self.table().len() - 1) as usize);
        self.choices()[self.table()[k as int] as int].1.fails(child_state(mid))
    }

    fn gen(&self, r: &mut R) -> (out: Result<G::Item, GenFailure>) {
        let ghost pre = r@;
        let nb = r.num_range(0usize, self.frequencies.len() - 1);
        let idx = self.frequencies[nb];
        let ghost mid = r@;
        let mut sub = r.sub();
        let out = self.generators[idx].1.gen(&mut sub);
        proof {
            let (k, m) = usize::drawn_in(pre, 0, (self.table().len() - 1) as usize);
            assert(k == nb && m == mid);
            if out is Ok {
                assert(self.choices()[idx as int].1.draws(child_state(m), out->Ok_0, sub@));
            }
        }
        out
    }
}

/// Pick among generators with probability proportional to their weight.
/// The list is not empty and every weight is positive.
pub fn frequency<G: Generator>(gens: Vec<(usize, G)>) -> (f: Frequency<G>)
    requires
        gens@.len() > 0,
        forall|i: int| 0 <= i < gens@.len() ==> #[trigger] gens@[i].0 > 0,
        total_weight(weights(gens@)) <= usize::MAX,
    ensures
        f.choices() == gens@,
        f.table() == expand(weights(gens@)),
        f.table().len() == total_weight(weights(gens@)),
        f.table().len() > 0,
        forall|k: int| 0 <= k < f.table().len() ==> #[trigger] f.table()[k] < f.choices().len(),
{
    let n = gens.len();
    let f = Frequency::new(gens);
    proof {
        let ws = weights(f.choices());
        assert(ws.len() == n);
        lemma_expand(ws);
        lemma_total_weight_prefix(ws);
        assert(ws.take(1) =~= seq![ws[0]]);
        assert(seq![ws[0]].drop_last() =~= Seq::<usize>::empty());
        assert(total_weight(ws.take(1).drop_last()) == 0);
        assert(total_weight(ws.take(1)) == ws[0]);
    }
    f
}

/// Vectors whose length is drawn from one generator and whose elements are
/// drawn one after another from another, on one sub-stream.
#[derive(Clone)]
pub struct Vector<SZ, G> {
    size: SZ,
    t: G,
}

impl<SZ, G> Vector<SZ, G> {
    /// The generator of lengths.
    pub closed spec fn sizes(&self) -> SZ {
        self.size
    }

    /// The generator of elements.
    pub closed spec fn elements(&self) -> G {
        self.t
    }
}

impl<SZ: Generator<Item = usize>, G: Generator> Generator for Vector<SZ, G> {
    type Item = Vec<G::Item>;

    open spec fn ready(&self) -> bool {
        self.sizes().ready() && self.elements().ready()
    }

    open spec fn draws(&self, pre: RState, item: Vec<G::Item>, post: RState) -> bool {
        exists|s1: RState, states: Seq<RState>|
            #[trigger] self.sizes().draws(pre, item@.len() as usize, s1) && post == step(s1)
                && states[0] == child_state(s1) && #[trigger] draws_chain(
                self.elements(),
                item@,
                states,
            )
    }

    open spec fn total(&self) -> bool {
        self.sizes().total() && self.elements().total()
    }

    open spec fn fails(&self, pre: RState) -> bool {
        self.sizes().fails(pre) || exists|sz: usize, s1: RState, items: Seq<G::Item>, states: Seq<RState>|
            #[trigger] self.sizes().draws(pre, sz, s1) && states[0] == child_state(s1)
                && #[trigger] draws_chain(self.elements(), items, states) && items.len() < sz
                && self.elements().fails(states.last())
    }

    fn gen(&self, r: &mut R) -> (out: Result<Vec<G::Item>, GenFailure>) {
        let ghost pre = r@;
        let sz = match self.size.gen(r) {
            Ok(n) => n,
            Err(e) => {
                return Err(e);
            },
        };
        let ghost s1 = r@;
        let mut v: Vec<G::Item> = Vec::new();
        let mut sub_r = r.sub();
        let ghost mut states: Seq<RState> = seq![sub_r@];
        let mut i: usize = 0;
        while i < sz
            invariant
                self.ready(),
                i <= sz,
                v@.len() == i,
                pre == old(r)@,
                states[0] == child_state(s1),
                states.last() == sub_r@,
                draws_chain(self.elements(), v@, states),
                self.sizes().draws(pre, sz, s1),
            decreases sz - i,
        {
            let ghost before = sub_r@;
            let x = match self.t.gen(&mut sub_r) {
                Ok(x) => x,
                Err(e) => {
                    assert(self.elements().fails(states.last()));
                    assert(self.sizes().draws(pre, sz, s1) && draws_chain(self.elements(), v@, states));
                    return Err(e);
                },
            };
            v.push(x);
            proof {
                states = states.push(sub_r@);
                assert(self.elements().draws(before, x, sub_r@));
                assert(forall|k: int| 0 <= k < v@.len() ==> self.elements().draws(states[k], #[trigger] v@[k], states[k + 1]));
            }
            i += 1;
        }
        assert(self.sizes().draws(pre, v@.len() as usize, s1));
        Ok(v)
    }
}

/// Vectors whose length comes from `size` and elements from `elements`.
pub fn vector<SZ: Generator<Item = usize>, EL: Generator>(size: SZ, elements: EL) -> (g: Vector<SZ, EL>)
    ensures
        g.sizes() == size,
        g.elements() == elements,
{
    Vector { size, t: elements }
}

#[verifier::external_type_specification]
pub struct ExRangeFull(core::ops::RangeFull);

#[verifier::external_type_specification]
#[verifier::reject_recursive_types(Idx)]
pub struct ExRangeFrom<Idx>(core::ops::RangeFrom<Idx>);

#[verifier::external_type_specification]
#[verifier::reject_recursive_types(Idx)]
pub struct ExRangeTo<Idx>(core::ops::RangeTo<Idx>);

#[verifier::external_type_specification]
#[verifier::reject_recursive_types(Idx)]
pub struct ExRangeToInclusive<Idx>(core::ops::RangeToInclusive<Idx>);

/// Relies on `RangeInclusive::start`: the lower bound the range was made with.
#[verifier::external_body]
fn inclusive_start<T: Copy>(r: &core::ops::RangeInclusive<T>) -> (v: T)
    requires
        !r@.exhausted,
    ensures
        v == r@.start,
{
    *r.start()
}

/// Relies on `RangeInclusive::end`: the upper bound the range was made with.
#[verifier::external_body]
fn inclusive_end<T: Copy>(r: &core::ops::RangeInclusive<T>) -> (v: T)
    requires
        !r@.exhausted,
    ensures
        v == r@.end,
{
    *r.end()
}

/// The greatest value strictly below `end`.
pub open spec fn before<T: NumPrimitive>(end: T) -> T {
    choose|p: T|
        T::le(p, end) && p != end && forall|x: T| T::le(x, end) && x != end ==> #[trigger] T::le(x, p)
}

fn pred_of<T: NumPrimitive>(end: T) -> (p: T)
    requires
        end != T::min_spec(),
    ensures
        p == before(end),
        T::le(p, end),
        p != end,
        forall|x: T| T::le(x, end) && x != end ==> #[trigger] T::le(x, p),
{
    let p = T::pred(end);
    proof {
        let q = before(end);
        assert(T::le(q, end) && q != end && forall|x: T| T::le(x, end) && x != end ==> #[trigger] T::le(x, q));
        assert(T::le(q, p));
        assert(T::le(p, q));
        T::lemma_order(p, q, p);
    }
    p
}

/// Ranges of numbers, of any of the standard forms, seen as inclusive bounds.
pub trait NumBounds<T: NumPrimitive> {
    /// Whether the range has a member.
    spec fn nonempty(&self) -> bool;

    /// The least member.
    spec fn lower(&self) -> T;

    /// The greatest member.
    spec fn upper(&self) -> T;

    /// The least and the greatest member.
    fn bounds(&self) -> (b: (T, T))
        requires
            self.nonempty(),
        ensures
            b == (self.lower(), self.upper()),
            T::le(b.0, b.1),
    ;
}

impl<T: NumPrimitive> NumBounds<T> for core::ops::RangeFull {
    open spec fn nonempty(&self) -> bool {
        true
    }

    open spec fn lower(&self) -> T {
        T::min_spec()
    }

    open spec fn upper(&self) -> T {
        T::max_spec()
    }

    fn bounds(&self) -> (b: (T, T)) {
        proof {
            T::lemma_order(T::max_spec(), T::max_spec(), T::max_spec());
        }
        (T::min_value(), T::max_value())
    }
}

impl<T: NumPrimitive> NumBounds<T> for core::ops::Range<T> {
    open spec fn nonempty(&self) -> bool {
        T::le(self.start, self.end) && self.start != self.end
    }

    open spec fn lower(&self) -> T {
        self.start
    }

    open spec fn upper(&self) -> T {
        before(self.end)
    }

    fn bounds(&self) -> (b: (T, T)) {
        proof {
            T::lemma_order(self.end, self.end, self.end);
            T::lemma_order(T::min_spec(), self.start, self.end);
            if self.end == T::min_spec() {
                T::lemma_order(self.start, self.end, self.end);
            }
        }
        let hi = pred_of(self.end);
        (self.start, hi)
    }
}

impl<T: NumPrimitive> NumBounds<T> for core::ops::RangeInclusive<T> {
    open spec fn nonempty(&self) -> bool {
        T::le(self@.start, self@.end) && !self@.exhausted
    }

    open spec fn lower(&self) -> T {
        self@.start
    }

    open spec fn upper(&self) -> T {
        self@.end
    }

    fn bounds(&self) -> (b: (T, T)) {
        (inclusive_start(self), inclusive_end(self))
    }
}

impl<T: NumPrimitive> NumBounds<T> for core::ops::RangeFrom<T> {
    open spec fn nonempty(&self) -> bool {
        true
    }

    open spec fn lower(&self) -> T {
        self.start
    }

    open spec fn upper(&self) -> T {
        T::max_spec()
    }

    fn bounds(&self) -> (b: (T, T)) {
        proof {
            T::lemma_order(self.start, self.start, self.start);
        }
        (self.start, T::max_value())
    }
}

impl<T: NumPrimitive> NumBounds<T> for core::ops::RangeTo<T> {
    open spec fn nonempty(&self) -> bool {
        self.end != T::min_spec()
    }

    open spec fn lower(&self) -> T {
        T::min_spec()
    }

    open spec fn upper(&self) -> T {
        before(self.end)
    }

    fn bounds(&self) -> (b: (T, T)) {
        let hi = pred_of(self.end);
        proof {
            T::lemma_order(hi, hi, hi);
        }
        (T::min_value(), hi)
    }
}

impl<T: NumPrimitive> NumBounds<T> for core::ops::RangeToInclusive<T> {
    open spec fn nonempty(&self) -> bool {
        true
    }

    open spec fn lower(&self) -> T {
        T::min_spec()
    }

    open spec fn upper(&self) -> T {
        self.end
    }

    fn bounds(&self) -> (b: (T, T)) {
        proof {
            T::lemma_order(self.end, self.end, self.end);
        }
        (T::min_value(), self.end)
    }
}

/// Generator of numbers within a range of any of the standard forms.
pub struct NumRangeBounds<T, U>(U, core::marker::PhantomData<T>);

impl<T: NumPrimitive, U: NumBounds<T>> NumRangeBounds<T, U> {
    /// Numbers within `range`, which has a member.
    pub fn new(range: U) -> (g: Self)
        requires
            range.nonempty(),
        ensures
            g.range() == range,
    {
        NumRangeBounds(range, core::marker::PhantomData)
    }

    /// The range.
    pub closed spec fn range(&self) -> U {
        self.0
    }
}

impl<T: NumPrimitive, U: NumBounds<T>> Generator for NumRangeBounds<T, U> {
    type Item = T;

    open spec fn ready(&self) -> bool {
        self.range().nonempty()
    }

    open spec fn draws(&self, pre: RState, item: T, post: RState) -> bool {
        &&& (item, post) == T::drawn_in(pre, self.range().lower(), self.range().upper())
        &&& T::le(self.range().lower(), item)
        &&& T::le(item, self.range().upper())
    }

    open spec fn total(&self) -> bool {
        true
    }

    open spec fn fails(&self, pre: RState) -> bool {
        false
    }

    fn gen(&self, r: &mut R) -> (out: Result<T, GenFailure>) {
        let (lo, hi) = self.0.bounds();
        Ok(r.num_range(lo, hi))
    }
}

/// Generator of numbers within a range of any of the standard forms.
pub fn range_bounds<T: NumPrimitive, U: NumBounds<T>>(bounds: U) -> (g: NumRangeBounds<T, U>)
    requires
        bounds.nonempty(),
    ensures
        g.range() == bounds,
{
    NumRangeBounds::new(bounds)
}

/// Relies on `TryFrom<Vec<T>>` for `[T; N]`: a vector of exactly `N` items
/// becomes the array of those items.
#[verifier::external_body]
fn vec_into_array<T, const N: usize>(v: Vec<T>) -> (a: [T; N])
    requires
        v@.len() == N,
    ensures
        a@ == v@,
{
    <[T; N]>::try_from(v).ok().unwrap()
}

/// Arrays of `N` items drawn one after another from a generator, on one
/// sub-stream.
pub struct Array<G, const N: usize> {
    gen: G,
}

impl<G: Generator, const N: usize> Array<G, N> {
    /// Arrays of items of `g`.
    pub fn new(g: G) -> (a: Self)
        ensures
            a.elements() == g,
    {
        Array { gen: g }
    }

    /// The generator of items.
    pub closed spec fn elements(&self) -> G {
        self.gen
    }
}

impl<G: Generator, const N: usize> Generator for Array<G, N> {
    type Item = [G::Item; N];

    open spec fn ready(&self) -> bool {
        self.elements().ready()
    }

    open spec fn draws(&self, pre: RState, item: [G::Item; N], post: RState) -> bool {
        &&& post == step(pre)
        &&& exists|states: Seq<RState>|
            states.len() > 0 && states[0] == child_state(pre) && #[trigger] draws_chain(
                self.elements(),
                item@,
                states,
            )
    }

    open spec fn total(&self) -> bool {
        self.elements().total()
    }

    open spec fn fails(&self, pre: RState) -> bool {
        exists|items: Seq<G::Item>, states: Seq<RState>|
            states[0] == child_state(pre) && #[trigger] draws_chain(self.elements(), items, states)
                && items.len() < N && self.elements().fails(states.last())
    }

    fn gen(&self, r: &mut R) -> (out: Result<[G::Item; N], GenFailure>) {
        let ghost pre = r@;
        let mut v: Vec<G::Item> = Vec::new();
        let mut sub_r = r.sub();
        let ghost mut states: Seq<RState> = seq![sub_r@];
        let mut i: usize = 0;
        while i < N
            invariant
                self.ready(),
                i <= N,
                v@.len() == i,
                pre == old(r)@,
                states[0] == child_state(pre),
                states.last() == sub_r@,
                draws_chain(self.elements(), v@, states),
            decreases N - i,
        {
            let ghost before = sub_r@;
            let x = match self.gen.gen(&mut sub_r) {
                Ok(x) => x,
                Err(e) => {
                    assert(self.elements().fails(states.last()));
                    assert(draws_chain(self.elements(), v@, states));
                    return Err(e);
                },
            };
            v.push(x);
            proof {
                states = states.push(sub_r@);
                assert(self.elements().draws(before, x, sub_r@));
                assert(forall|k: int|
                    0 <= k < v@.len() ==> self.elements().draws(
                        states[k],
                        #[trigger] v@[k],
                        states[k + 1],
                    ));
            }
            i += 1;
        }
        let a: [G::Item; N] = vec_into_array(v);
        Ok(a)
    }
}

/// Arrays of `N` items of a generator.
pub fn array<EL: Generator, const SZ: usize>(elements: EL) -> (a: Array<EL, SZ>)
    ensures
        a.elements() == elements,
{
    Array { gen: elements }
}

/// Tuples of items of 3 generators, each drawn from its own sub-stream, in order.
#[derive(Clone)]
pub struct Tuple3<A, B, C> {
    a: A,
    b: B,
    c: C,
}

impl<A, B, C> Tuple3<A, B, C> {
    /// Component 0 of the tuples.
    pub closed spec fn part0(&self) -> A {
        self.a
    }

    /// Component 1 of the tuples.
    pub closed spec fn part1(&self) -> B {
        self.b
    }

    /// Component 2 of the tuples.
    pub closed spec fn part2(&self) -> C {
        self.c
    }
}

impl<A: Generator, B: Generator, C: Generator> Generator for Tuple3<A, B, C> {
    type Item = (A::Item, B::Item, C::Item);

    open spec fn ready(&self) -> bool {
        self.part0().ready() && self.part1().ready() && self.part2().ready()
    }

    open spec fn draws(&self, pre: RState, item: (A::Item, B::Item, C::Item), post: RState) -> bool {
        &&& post == step(step(step(pre)))
        &&& exists|e: RState| #[trigger] self.part0().draws(child_state(pre), item.0, e)
        &&& exists|e: RState| #[trigger] self.part1().draws(child_state(step(pre)), item.1, e)
        &&& exists|e: RState| #[trigger] self.part2().draws(child_state(step(step(pre))), item.2, e)
    }

    open spec fn total(&self) -> bool {
        self.part0().total() && self.part1().total() && self.part2().total()
    }

    open spec fn fails(&self, pre: RState) -> bool {
        self.part0().fails(child_state(pre))
            || self.part1().fails(child_state(step(pre)))
            || self.part2().fails(child_state(step(step(pre))))
    }

    fn gen(&self, r: &mut R) -> (out: Result<(A::Item, B::Item, C::Item), GenFailure>) {
        let mut r0 = r.sub();
        let x0 = match self.a.gen(&mut r0) {
            Ok(x) => x,
            Err(e) => {
                return Err(e);
            },
        };
        let mut r1 = r.sub();
        let x1 = match self.b.gen(&mut r1) {
            Ok(x) => x,
            Err(e) => {
                return Err(e);
            },
        };
        let mut r2 = r.sub();
        let x2 = match self.c.gen(&mut r2) {
            Ok(x) => x,
            Err(e) => {
                return Err(e);
            },
        };
        let item = (x0, x1, x2);
        assert(item.0 == x0 && item.1 == x1 && item.2 == x2);
        assert(self.part0().draws(child_state(old(r)@), item.0, r0@));
        assert(self.part1().draws(child_state(step(old(r)@)), item.1, r1@));
        assert(self.part2().draws(child_state(step(step(old(r)@))), item.2, r2@));
        Ok(item)
    }
}

/// Tuples of items of 3 generators.
pub fn tuple3<A: Generator, B: Generator, C: Generator>(a: A, b: B, c: C) -> (g: Tuple3<A, B, C>)
    ensures
        g.part0() == a,
        g.part1() == b,
        g.part2() == c,
{
    Tuple3 { a, b, c }
}

/// Tuples of items of 4 generators, each drawn from its own sub-stream, in order.
#[derive(Clone)]
pub struct Tuple4<A, B, C, D> {
    a: A,
    b: B,
    c: C,
    d: D,
}

impl<A, B, C, D> Tuple4<A, B, C, D> {
    /// Component 0 of the tuples.
    pub closed spec fn part0(&self) -> A {
        self.a
    }

    /// Component 1 of the tuples.
    pub closed spec fn part1(&self) -> B {
        self.b
    }

    /// Component 2 of the tuples.
    pub closed spec fn part2(&self) -> C {
        self.c
    }

    /// Component 3 of the tuples.
    pub closed spec fn part3(&self) -> D {
        self.d
    }
}

impl<A: Generator, B: Generator, C: Generator, D: Generator> Generator for Tuple4<A, B, C, D> {
    type Item = (A::Item, B::Item, C::Item, D::Item);

    open spec fn ready(&self) -> bool {
        self.part0().ready() && self.part1().ready() && self.part2().ready() && self.part3().ready()
    }

    open spec fn draws(&self, pre: RState, item: (A::Item, B::Item, C::Item, D::Item), post: RState) -> bool {
        &&& post == step(step(step(step(pre))))
        &&& exists|e: RState| #[trigger] self.part0().draws(child_state(pre), item.0, e)
        &&& exists|e: RState| #[trigger] self.part1().draws(child_state(step(pre)), item.1, e)
        &&& exists|e: RState| #[trigger] self.part2().draws(child_state(step(step(pre))), item.2, e)
        &&& exists|e: RState|
            #[trigger] self.part3().draws(child_state(step(step(step(pre)))), item.3, e)
    }

    open spec fn total(&self) -> bool {
        self.part0().total() && self.part1().total() && self.part2().total() && self.part3().total()
    }

    open spec fn fails(&self, pre: RState) -> bool {
        self.part0().fails(child_state(pre))
            || self.part1().fails(child_state(step(pre)))
            || self.part2().fails(child_state(step(step(pre))))
            || self.part3().fails(child_state(step(step(step(pre)))))
    }

    fn gen(&self, r: &mut R) -> (out: Result<(A::Item, B::Item, C::Item, D::Item), GenFailure>) {
        let mut r0 = r.sub();
        let x0 = match self.a.gen(&mut r0) {
            Ok(x) => x,
            Err(e) => {
                return Err(e);
            },
        };
        let mut r1 = r.sub();
        let x1 = match self.b.gen(&mut r1) {
            Ok(x) => x,
            Err(e) => {
                return Err(e);
            },
        };
        let mut r2 = r.sub();
        let x2 = match self.c.gen(&mut r2) {
            Ok(x) => x,
            Err(e) => {
                return Err(e);
            },
        };
        let mut r3 = r.sub();
        let x3 = match self.d.gen(&mut r3) {
            Ok(x) => x,
            Err(e) => {
                return Err(e);
            },
        };
        let item = (x0, x1, x2, x3);
        assert(item.0 == x0 && item.1 == x1 && item.2 == x2 && item.3 == x3);
        assert(self.part0().draws(child_state(old(r)@), item.0, r0@));
        assert(self.part1().draws(child_state(step(old(r)@)), item.1, r1@));
        assert(self.part2().draws(child_state(step(step(old(r)@))), item.2, r2@));
        assert(self.part3().draws(child_state(step(step(step(old(r)@)))), item.3, r3@));
        Ok(item)
    }
}

/// Tuples of items of 4 generators.
pub fn tuple4<A: Generator, B: Generator, C: Generator, D: Generator>(a: A, b: B, c: C, d: D) -> (g: Tuple4<A, B, C, D>)
    ensures
        g.part0() == a,
        g.part1() == b,
        g.part2() == c,
        g.part3() == d,
{
    Tuple4 { a, b, c, d }
}

/// Tuples of items of 5 generators, each drawn from its own sub-stream, in order.
#[derive(Clone)]
pub struct Tuple5<A, B, C, D, E> {
    a: A,
    b: B,
    c: C,
    d: D,
    e: E,
}

impl<A, B, C, D, E> Tuple5<A, B, C, D, E> {
    /// Component 0 of the tuples.
    pub closed spec fn part0(&self) -> A {
        self.a
    }

    /// Component 1 of the tuples.
    pub closed spec fn part1(&self) -> B {
        self.b
    }

    /// Component 2 of the tuples.
    pub closed spec fn part2(&self) -> C {
        self.c
    }

    /// Component 3 of the tuples.
    pub closed spec fn part3(&self) -> D {
        self.d
    }

    /// Component 4 of the tuples.
    pub closed spec fn part4(&self) -> E {
        self.e
    }
}

impl<A: Generator, B: Generator, C: Generator, D: Generator, E: Generator> Generator for Tuple5<A, B, C, D, E> {
    type Item = (A::Item, B::Item, C::Item, D::Item, E::Item);

    open spec fn ready(&self) -> bool {
        self.part0().ready() && self.part1().ready() && self.part2().ready() && self.part3().ready() && self.part4().ready()
    }

    open spec fn draws(&self, pre: RState, item: (A::Item, B::Item, C::Item, D::Item, E::Item), post: RState) -> bool {
        &&& post == step(step(step(step(step(pre)))))
        &&& exists|e: RState| #[trigger] self.part0().draws(child_state(pre), item.0, e)
        &&& exists|e: RState| #[trigger] self.part1().draws(child_state(step(pre)), item.1, e)
        &&& exists|e: RState| #[trigger] self.part2().draws(child_state(step(step(pre))), item.2, e)
        &&& exists|e: RState|
            #[trigger] self.part3().draws(child_state(step(step(step(pre)))), item.3, e)
        &&& exists|e: RState|
            #[trigger] self.part4().draws(child_state(step(step(step(step(pre))))), item.4, e)
    }

    open spec fn total(&self) -> bool {
        self.part0().total() && self.part1().total() && self.part2().total() && self.part3().total() && self.part4().total()
    }

    open spec fn fails(&self, pre: RState) -> bool {
        self.part0().fails(child_state(pre))
            || self.part1().fails(child_state(step(pre)))
            || self.part2().fails(child_state(step(step(pre))))
            || self.part3().fails(child_state(step(step(step(pre)))))
            || self.part4().fails(child_state(step(step(step(step(pre))))))
    }

    fn gen(&self, r: &mut R) -> (out: Result<(A::Item, B::Item, C::Item, D::Item, E::Item), GenFailure>) {
        let mut r0 = r.sub();
        let x0 = match self.a.gen(&mut r0) {
            Ok(x) => x,
            Err(e) => {
                return Err(e);
            },
        };
        let mut r1 = r.sub();
        let x1 = match self.b.gen(&mut r1) {
            Ok(x) => x,
            Err(e) => {
                return Err(e);
            },
        };
        let mut r2 = r.sub();
        let x2 = match self.c.gen(&mut r2) {
            Ok(x) => x,
            Err(e) => {
                return Err(e);
            },
        };
        let mut r3 = r.sub();
        let x3 = match self.d.gen(&mut r3) {
            Ok(x) => x,
            Err(e) => {
                return Err(e);
            },
        };
        let mut r4 = r.sub();
        let x4 = match self.e.gen(&mut r4) {
            Ok(x) => x,
            Err(e) => {
                return Err(e);
            },
        };
        let item = (x0, x1, x2, x3, x4);
        assert(item.0 == x0 && item.1 == x1 && item.2 == x2 && item.3 == x3 && item.4 == x4);
        assert(self.part0().draws(child_state(old(r)@), item.0, r0@));
        assert(self.part1().draws(child_state(step(old(r)@)), item.1, r1@));
        assert(self.part2().draws(child_state(step(step(old(r)@))), item.2, r2@));
        assert(self.part3().draws(child_state(step(step(step(old(r)@)))), item.3, r3@));
        assert(self.part4().draws(child_state(step(step(step(step(old(r)@))))), item.4, r4@));
        Ok(item)
    }
}

/// Tuples of items of 5 generators.
pub fn tuple5<A: Generator, B: Generator, C: Generator, D: Generator, E: Generator>(a: A, b: B, c: C, d: D, e: E) -> (g: Tuple5<A, B, C, D, E>)
    ensures
        g.part0() == a,
        g.part1() == b,
        g.part2() == c,
        g.part3() == d,
        g.part4() == e,
{
    Tuple5 { a, b, c, d, e }
}

/// Tuples of items of 6 generators, each drawn from its own sub-stream, in order.
#[derive(Clone)]
pub struct Tuple6<A, B, C, D, E, F> {
    a: A,
    b: B,
    c: C,
    d: D,
    e: E,
    f: F,
}

impl<A, B, C, D, E, F> Tuple6<A, B, C, D, E, F> {
    /// Component 0 of the tuples.
    pub closed spec fn part0(&self) -> A {
        self.a
    }

    /// Component 1 of the tuples.
    pub closed spec fn part1(&self) -> B {
        self.b
    }

    /// Component 2 of the tuples.
    pub closed spec fn part2(&self) -> C {
        self.c
    }

    /// Component 3 of the tuples.
    pub closed spec fn part3(&self) -> D {
        self.d
    }

    /// Component 4 of the tuples.
    pub closed spec fn part4(&self) -> E {
        self.e
    }

    /// Component 5 of the tuples.
    pub closed spec fn part5(&self) -> F {
        self.f
    }
}

impl<A: Generator, B: Generator, C: Generator, D: Generator, E: Generator, F: Generator> Generator for Tuple6<A, B, C, D, E, F> {
    type Item = (A::Item, B::Item, C::Item, D::Item, E::Item, F::Item);

    open spec fn ready(&self) -> bool {
        self.part0().ready() && self.part1().ready() && self.part2().ready() && self.part3().ready() && self.part4().ready() && self.part5().ready()
    }

    open spec fn draws(&self, pre: RState, item: (A::Item, B::Item, C::Item, D::Item, E::Item, F::Item), post: RState) -> bool {
        &&& post == step(step(step(step(step(step(pre))))))
        &&& exists|e: RState| #[trigger] self.part0().draws(child_state(pre), item.0, e)
        &&& exists|e: RState| #[trigger] self.part1().draws(child_state(step(pre)), item.1, e)
        &&& exists|e: RState| #[trigger] self.part2().draws(child_state(step(step(pre))), item.2, e)
        &&& exists|e: RState|
            #[trigger] self.part3().draws(child_state(step(step(step(pre)))), item.3, e)
        &&& exists|e: RState|
            #[trigger] self.part4().draws(child_state(step(step(step(step(pre))))), item.4, e)
        &&& exists|e: RState|
            #[trigger] self.part5().draws(child_state(step(step(step(step(step(pre)))))), item.5, e)
    }

    open spec fn total(&self) -> bool {
        self.part0().total() && self.part1().total() && self.part2().total() && self.part3().total() && self.part4().total() && self.part5().total()
    }

    open spec fn fails(&self, pre: RState) -> bool {
        self.part0().fails(child_state(pre))
            || self.part1().fails(child_state(step(pre)))
            || self.part2().fails(child_state(step(step(pre))))
            || self.part3().fails(child_state(step(step(step(pre)))))
            || self.part4().fails(child_state(step(step(step(step(pre))))))
            || self.part5().fails(child_state(step(step(step(step(step(pre)))))))
    }

    fn gen(&self, r: &mut R) -> (out: Result<(A::Item, B::Item, C::Item, D::Item, E::Item, F::Item), GenFailure>) {
        let mut r0 = r.sub();
        let x0 = match self.a.gen(&mut r0) {
            Ok(x) => x,
            Err(e) => {
                return Err(e);
            },
        };
        let mut r1 = r.sub();
        let x1 = match self.b.gen(&mut r1) {
            Ok(x) => x,
            Err(e) => {
                return Err(e);
            },
        };
        let mut r2 = r.sub();
        let x2 = match self.c.gen(&mut r2) {
            Ok(x) => x,
            Err(e) => {
                return Err(e);
            },
        };
        let mut r3 = r.sub();
        let x3 = match self.d.gen(&mut r3) {
            Ok(x) => x,
            Err(e) => {
                return Err(e);
            },
        };
        let mut r4 = r.sub();
        let x4 = match self.e.gen(&mut r4) {
            Ok(x) => x,
            Err(e) => {
                return Err(e);
            },
        };
        let mut r5 = r.sub();
        let x5 = match self.f.gen(&mut r5) {
            Ok(x) => x,
            Err(e) => {
                return Err(e);
            },
        };
        let item = (x0, x1, x2, x3, x4, x5);
        assert(item.0 == x0 && item.1 == x1 && item.2 == x2 && item.3 == x3 && item.4 == x4 && item.5 == x5);
        assert(self.part0().draws(child_state(old(r)@), item.0, r0@));
        assert(self.part1().draws(child_state(step(old(r)@)), item.1, r1@));
        assert(self.part2().draws(child_state(step(step(old(r)@))), item.2, r2@));
        assert(self.part3().draws(child_state(step(step(step(old(r)@)))), item.3, r3@));
        assert(self.part4().draws(child_state(step(step(step(step(old(r)@))))), item.4, r4@));
        assert(self.part5().draws(child_state(step(step(step(step(step(old(r)@)))))), item.5, r5@));
        Ok(item)
    }
}

/// Tuples of items of 6 generators.
pub fn tuple6<A: Generator, B: Generator, C: Generator, D: Generator, E: Generator, F: Generator>(a: A, b: B, c: C, d: D, e: E, f: F) -> (g: Tuple6<A, B, C, D, E, F>)
    ensures
        g.part0() == a,
        g.part1() == b,
        g.part2() == c,
        g.part3() == d,
        g.part4() == e,
        g.part5() == f,
{
    Tuple6 { a, b, c, d, e, f }
}

/// Pairs of items of two generators (the same as `and`).
pub fn tuple2<A: Generator, B: Generator>(a: A, b: B) -> (g: And<A, B>)
    ensures
        g.first() == a,
        g.second() == b,
{
    And { gen_a: a, gen_b: b }
}

/// The image by a function of 4 generators' items.
#[derive(Clone)]
pub struct Product4<A, B, C, D, M> {
    a: A,
    b: B,
    c: C,
    d: D,
    mapper: M,
}

impl<A, B, C, D, M> Product4<A, B, C, D, M> {
    /// Generator of argument 0.
    pub closed spec fn part0(&self) -> A {
        self.a
    }

    /// Generator of argument 1.
    pub closed spec fn part1(&self) -> B {
        self.b
    }

    /// Generator of argument 2.
    pub closed spec fn part2(&self) -> C {
        self.c
    }

    /// Generator of argument 3.
    pub closed spec fn part3(&self) -> D {
        self.d
    }

    /// The function applied.
    pub closed spec fn function(&self) -> M {
        self.mapper
    }

    /// The generator of the argument tuples.
    pub closed spec fn arguments(&self) -> Tuple4<A, B, C, D> {
        Tuple4 { a: self.part0(), b: self.part1(), c: self.part2(), d: self.part3() }
    }
}

impl<O, A: Generator, B: Generator, C: Generator, D: Generator, M: Fn(A::Item, B::Item, C::Item, D::Item) -> O> Generator for Product4<A, B, C, D, M> {
    type Item = O;

    open spec fn ready(&self) -> bool {
        &&& self.arguments().ready()
        &&& forall|args: (A::Item, B::Item, C::Item, D::Item)| #[trigger] self.function().requires(args)
    }

    open spec fn draws(&self, pre: RState, item: O, post: RState) -> bool {
        exists|args: (A::Item, B::Item, C::Item, D::Item)|
            #[trigger] self.arguments().draws(pre, args, post) && self.function().ensures(args, item)
    }

    open spec fn total(&self) -> bool {
        self.arguments().total()
    }

    open spec fn fails(&self, pre: RState) -> bool {
        self.arguments().fails(pre)
    }

    fn gen(&self, r: &mut R) -> (out: Result<O, GenFailure>) {
        let mut r0 = r.sub();
        let x0 = match self.a.gen(&mut r0) {
            Ok(x) => x,
            Err(e) => {
                return Err(e);
            },
        };
        let mut r1 = r.sub();
        let x1 = match self.b.gen(&mut r1) {
            Ok(x) => x,
            Err(e) => {
                return Err(e);
            },
        };
        let mut r2 = r.sub();
        let x2 = match self.c.gen(&mut r2) {
            Ok(x) => x,
            Err(e) => {
                return Err(e);
            },
        };
        let mut r3 = r.sub();
        let x3 = match self.d.gen(&mut r3) {
            Ok(x) => x,
            Err(e) => {
                return Err(e);
            },
        };
        let ghost args = (x0, x1, x2, x3);
        assert(args.0 == x0 && args.1 == x1 && args.2 == x2 && args.3 == x3);
        assert(self.part0().draws(child_state(old(r)@), args.0, r0@));
        assert(self.part1().draws(child_state(step(old(r)@)), args.1, r1@));
        assert(self.part2().draws(child_state(step(step(old(r)@))), args.2, r2@));
        assert(self.part3().draws(child_state(step(step(step(old(r)@)))), args.3, r3@));
        assert(self.arguments().draws(old(r)@, args, r@));
        assert(self.function().requires(args));
        let y = (self.mapper)(x0, x1, x2, x3);
        Ok(y)
    }
}

/// Product of 4 generators through a function.
pub fn product4<A, B, C, D, M>(a: A, b: B, c: C, d: D, mapper: M) -> (p: Product4<A, B, C, D, M>)
    ensures
        p.part0() == a,
        p.part1() == b,
        p.part2() == c,
        p.part3() == d,
        p.function() == mapper,
{
    Product4 { a, b, c, d, mapper }
}

/// The image by a function of 5 generators' items.
#[derive(Clone)]
pub struct Product5<A, B, C, D, E, M> {
    a: A,
    b: B,
    c: C,
    d: D,
    e: E,
    mapper: M,
}

impl<A, B, C, D, E, M> Product5<A, B, C, D, E, M> {
    /// Generator of argument 0.
    pub closed spec fn part0(&self) -> A {
        self.a
    }

    /// Generator of argument 1.
    pub closed spec fn part1(&self) -> B {
        self.b
    }

    /// Generator of argument 2.
    pub closed spec fn part2(&self) -> C {
        self.c
    }

    /// Generator of argument 3.
    pub closed spec fn part3(&self) -> D {
        self.d
    }

    /// Generator of argument 4.
    pub closed spec fn part4(&self) -> E {
        self.e
    }

    /// The function applied.
    pub closed spec fn function(&self) -> M {
        self.mapper
    }

    /// The generator of the argument tuples.
    pub closed spec fn arguments(&self) -> Tuple5<A, B, C, D, E> {
        Tuple5 { a: self.part0(), b: self.part1(), c: self.part2(), d: self.part3(), e: self.part4() }
    }
}

impl<O, A: Generator, B: Generator, C: Generator, D: Generator, E: Generator, M: Fn(A::Item, B::Item, C::Item, D::Item, E::Item) -> O> Generator for Product5<A, B, C, D, E, M> {
    type Item = O;

    open spec fn ready(&self) -> bool {
        &&& self.arguments().ready()
        &&& forall|args: (A::Item, B::Item, C::Item, D::Item, E::Item)| #[trigger] self.function().requires(args)
    }

    open spec fn draws(&self, pre: RState, item: O, post: RState) -> bool {
        exists|args: (A::Item, B::Item, C::Item, D::Item, E::Item)|
            #[trigger] self.arguments().draws(pre, args, post) && self.function().ensures(args, item)
    }

    open spec fn total(&self) -> bool {
        self.arguments().total()
    }

    open spec fn fails(&self, pre: RState) -> bool {
        self.arguments().fails(pre)
    }

    fn gen(&self, r: &mut R) -> (out: Result<O, GenFailure>) {
        let mut r0 = r.sub();
        let x0 = match self.a.gen(&mut r0) {
            Ok(x) => x,
            Err(e) => {
                return Err(e);
            },
        };
        let mut r1 = r.sub();
        let x1 = match self.b.gen(&mut r1) {
            Ok(x) => x,
            Err(e) => {
                return Err(e);
            },
        };
        let mut r2 = r.sub();
        let x2 = match self.c.gen(&mut r2) {
            Ok(x) => x,
            Err(e) => {
                return Err(e);
            },
        };
        let mut r3 = r.sub();
        let x3 = match self.d.gen(&mut r3) {
            Ok(x) => x,
            Err(e) => {
                return Err(e);
            },
        };
        let mut r4 = r.sub();
        let x4 = match self.e.gen(&mut r4) {
            Ok(x) => x,
            Err(e) => {
                return Err(e);
            },
        };
        let ghost args = (x0, x1, x2, x3, x4);
        assert(args.0 == x0 && args.1 == x1 && args.2 == x2 && args.3 == x3 && args.4 == x4);
        assert(self.part0().draws(child_state(old(r)@), args.0, r0@));
        assert(self.part1().draws(child_state(step(old(r)@)), args.1, r1@));
        assert(self.part2().draws(child_state(step(step(old(r)@))), args.2, r2@));
        assert(self.part3().draws(child_state(step(step(step(old(r)@)))), args.3, r3@));
        assert(self.part4().draws(child_state(step(step(step(step(old(r)@))))), args.4, r4@));
        assert(self.arguments().draws(old(r)@, args, r@));
        assert(self.function().requires(args));
        let y = (self.mapper)(x0, x1, x2, x3, x4);
        Ok(y)
    }
}

/// Product of 5 generators through a function.
pub fn product5<A, B, C, D, E, M>(a: A, b: B, c: C, d: D, e: E, mapper: M) -> (p: Product5<A, B, C, D, E, M>)
    ensures
        p.part0() == a,
        p.part1() == b,
        p.part2() == c,
        p.part3() == d,
        p.part4() == e,
        p.function() == mapper,
{
    Product5 { a, b, c, d, e, mapper }
}

/// The image by a function of 6 generators' items.
#[derive(Clone)]
pub struct Product6<A, B, C, D, E, F, M> {
    a: A,
    b: B,
    c: C,
    d: D,
    e: E,
    f: F,
    mapper: M,
}

impl<A, B, C, D, E, F, M> Product6<A, B, C, D, E, F, M> {
    /// Generator of argument 0.
    pub closed spec fn part0(&self) -> A {
        self.a
    }

    /// Generator of argument 1.
    pub closed spec fn part1(&self) -> B {
        self.b
    }

    /// Generator of argument 2.
    pub closed spec fn part2(&self) -> C {
        self.c
    }

    /// Generator of argument 3.
    pub closed spec fn part3(&self) -> D {
        self.d
    }

    /// Generator of argument 4.
    pub closed spec fn part4(&self) -> E {
        self.e
    }

    /// Generator of argument 5.
    pub closed spec fn part5(&self) -> F {
        self.f
    }

    /// The function applied.
    pub closed spec fn function(&self) -> M {
        self.mapper
    }

    /// The generator of the argument tuples.
    pub closed spec fn arguments(&self) -> Tuple6<A, B, C, D, E, F> {
        Tuple6 { a: self.part0(), b: self.part1(), c: self.part2(), d: self.part3(), e: self.part4(), f: self.part5() }
    }
}

impl<O, A: Generator, B: Generator, C: Generator, D: Generator, E: Generator, F: Generator, M: Fn(A::Item, B::Item, C::Item, D::Item, E::Item, F::Item) -> O> Generator for Product6<A, B, C, D, E, F, M> {
    type Item = O;

    open spec fn ready(&self) -> bool {
        &&& self.arguments().ready()
        &&& forall|args: (A::Item, B::Item, C::Item, D::Item, E::Item, F::Item)| #[trigger] self.function().requires(args)
    }

    open spec fn draws(&self, pre: RState, item: O, post: RState) -> bool {
        exists|args: (A::Item, B::Item, C::Item, D::Item, E::Item, F::Item)|
            #[trigger] self.arguments().draws(pre, args, post) && self.function().ensures(args, item)
    }

    open spec fn total(&self) -> bool {
        self.arguments().total()
    }

    open spec fn fails(&self, pre: RState) -> bool {
        self.arguments().fails(pre)
    }

    fn gen(&self, r: &mut R) -> (out: Result<O, GenFailure>) {
        let mut r0 = r.sub();
        let x0 = match self.a.gen(&mut r0) {
            Ok(x) => x,
            Err(e) => {
                return Err(e);
            },
        };
        let mut r1 = r.sub();
        let x1 = match self.b.gen(&mut r1) {
            Ok(x) => x,
            Err(e) => {
                return Err(e);
            },
        };
        let mut r2 = r.sub();
        let x2 = match self.c.gen(&mut r2) {
            Ok(x) => x,
            Err(e) => {
                return Err(e);
            },
        };
        let mut r3 = r.sub();
        let x3 = match self.d.gen(&mut r3) {
            Ok(x) => x,
            Err(e) => {
                return Err(e);
            },
        };
        let mut r4 = r.sub();
        let x4 = match self.e.gen(&mut r4) {
            Ok(x) => x,
            Err(e) => {
                return Err(e);
            },
        };
        let mut r5 = r.sub();
        let x5 = match self.f.gen(&mut r5) {
            Ok(x) => x,
            Err(e) => {
                return Err(e);
            },
        };
        let ghost args = (x0, x1, x2, x3, x4, x5);
        assert(args.0 == x0 && args.1 == x1 && args.2 == x2 && args.3 == x3 && args.4 == x4 && args.5 == x5);
        assert(self.part0().draws(child_state(old(r)@), args.0, r0@));
        assert(self.part1().draws(child_state(step(old(r)@)), args.1, r1@));
        assert(self.part2().draws(child_state(step(step(old(r)@))), args.2, r2@));
        assert(self.part3().draws(child_state(step(step(step(old(r)@)))), args.3, r3@));
        assert(self.part4().draws(child_state(step(step(step(step(old(r)@))))), args.4, r4@));
        assert(self.part5().draws(child_state(step(step(step(step(step(old(r)@)))))), args.5, r5@));
        assert(self.arguments().draws(old(r)@, args, r@));
        assert(self.function().requires(args));
        let y = (self.mapper)(x0, x1, x2, x3, x4, x5);
        Ok(y)
    }
}

/// Product of 6 generators through a function.
pub fn product6<A, B, C, D, E, F, M>(a: A, b: B, c: C, d: D, e: E, f: F, mapper: M) -> (p: Product6<A, B, C, D, E, F, M>)
    ensures
        p.part0() == a,
        p.part1() == b,
        p.part2() == c,
        p.part3() == d,
        p.part4() == e,
        p.part5() == f,
        p.function() == mapper,
{
    Product6 { a, b, c, d, e, f, mapper }
}

} // verus!
