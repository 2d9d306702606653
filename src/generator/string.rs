//! Generators of strings.
use vstd::prelude::*;

use crate::generator::char::AsciiChar;
use crate::generator::{draws_chain, GenFailure, Generator};
use crate::rand::{child_state, step, RState, R};
use crate::seed::push_char;

verus! {

/// Strings whose length is drawn from one generator and whose characters are
/// drawn one after another from another, each on its own sub-stream.
pub struct StringGenerator<SZ, C>(SZ, C);

impl<SZ, C> StringGenerator<SZ, C> {
    /// The generator of lengths.
    pub closed spec fn sizes(&self) -> SZ {
        self.0
    }

    /// The generator of characters.
    pub closed spec fn characters(&self) -> C {
        self.1
    }
}

impl<SZ: Generator<Item = usize>, C: Generator<Item = char>> Generator for StringGenerator<SZ, C> {
    type Item = String;

    open spec fn ready(&self) -> bool {
        self.sizes().ready() && self.characters().ready()
    }

    open spec fn draws(&self, pre: RState, item: String, post: RState) -> bool {
        &&& post == step(step(pre))
        &&& exists|e: RState| #[trigger] self.sizes().draws(child_state(pre), item@.len() as usize, e)
        &&& exists|states: Seq<RState>|
            states.len() > 0 && states[0] == child_state(step(pre)) && #[trigger] draws_chain(
                self.characters(),
                item@,
                states,
            )
    }

    open spec fn total(&self) -> bool {
        self.sizes().total() && self.characters().total()
    }

    open spec fn fails(&self, pre: RState) -> bool {
        self.sizes().fails(child_state(pre)) || exists|
            sz: usize,
            e: RState,
            items: Seq<char>,
            states: Seq<RState>,
        |
            #[trigger] self.sizes().draws(child_state(pre), sz, e) && states[0] == child_state(step(pre))
                && #[trigger] draws_chain(self.characters(), items, states) && items.len() < sz
                && self.characters().fails(states.last())
    }

    fn gen(&self, r: &mut R) -> (out: Result<String, GenFailure>) {
        let ghost pre = r@;
        let mut size_r = r.sub();
        let sz = match self.0.gen(&mut size_r) {
            Ok(n) => n,
            Err(e) => {
                return Err(e);
            },
        };
        let mut chars_r = r.sub();
        let mut out = String::new();
        let ghost mut states: Seq<RState> = seq![chars_r@];
        let mut i: usize = 0;
        while i < sz
            invariant
                self.ready(),
                i <= sz,
                out@.len() == i,
                pre == old(r)@,
                states[0] == child_state(step(pre)),
                states.last() == chars_r@,
                draws_chain(self.characters(), out@, states),
                self.sizes().draws(child_state(pre), sz, size_r@),
            decreases sz - i,
        {
            let ghost before = chars_r@;
            let c = match self.1.gen(&mut chars_r) {
                Ok(c) => c,
                Err(e) => {
                    assert(self.characters().fails(states.last()));
                    assert(self.sizes().draws(child_state(pre), sz, size_r@) && draws_chain(
                        self.characters(),
                        out@,
                        states,
                    ));
                    return Err(e);
                },
            };
            push_char(&mut out, c);
            proof {
                states = states.push(chars_r@);
                assert(self.characters().draws(before, c, chars_r@));
                assert(forall|k: int|
                    0 <= k < out@.len() ==> self.characters().draws(
                        states[k],
                        #[trigger] out@[k],
                        states[k + 1],
                    ));
            }
            i += 1;
        }
        assert(self.sizes().draws(child_state(pre), out@.len() as usize, size_r@));
        Ok(out)
    }
}

/// Strings of printable ASCII characters whose length comes from `size`.
pub type AsciiString<SZ> = StringGenerator<SZ, AsciiChar>;

/// Strings of printable ASCII characters whose length comes from `size`.
pub fn ascii<SZ: Generator<Item = usize>>(size: SZ) -> (g: AsciiString<SZ>)
    ensures
        g.sizes() == size,
{
    StringGenerator(size, AsciiChar)
}

/// Strings whose length comes from `size` and characters from `chars`.
pub fn string<SZ: Generator<Item = usize>, C: Generator<Item = char>>(size: SZ, chars: C) -> (g:
    StringGenerator<SZ, C>)
    ensures
        g.sizes() == size,
        g.characters() == chars,
{
    StringGenerator(size, chars)
}

} // verus!
