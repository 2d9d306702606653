//! A small splittable pseudo-random source.
//!
//! The generator is a permuted congruential one: good enough to spread test
//! inputs, not meant for anything where the quality of randomness matters.
use vstd::prelude::*;

use crate::seed::Seed;

verus! {

/// The multiplier of the congruential step.
pub const MUL_FACTOR: u64 = 6364136223846793005;

/// State of a source: the multiplied word and the increment word.
pub type RState = (u64, u64);

/// A pseudo-random source at a given point of its stream.
///
/// Made from a seed with `R::from_seed`, or from another source with
/// `sub`, so that sources form a tree.
pub struct R(u64, u64);

impl View for R {
    type V = RState;

    closed spec fn view(&self) -> RState {
        (self.0, self.1)
    }
}

/// `x` rotated right by `n` bits, for `n < 32`.
pub open spec fn rotr32(x: u32, n: u32) -> u32 {
    if n == 0 {
        x
    } else {
        (x >> n) | (x << (32 - n) as u32)
    }
}

/// The word drawn from state `s`.
pub open spec fn output_of(s: RState) -> u32 {
    let xor_shifted = (((s.0 >> 18u64) ^ s.0) >> 27u64) as u32;
    let rot = (s.0 >> 59u64) as u32;
    rotr32(xor_shifted, rot)
}

/// The state that follows `s` once a word was drawn.
pub open spec fn step(s: RState) -> RState {
    (s.0.wrapping_mul(MUL_FACTOR).wrapping_add(s.1 | 1), s.1)
}

/// The state of a source made from `seed`.
pub open spec fn seed_state(seed: Seed) -> RState {
    ((seed.0 >> 64u128) as u64, seed.0 as u64)
}

/// The state of the child derived from `s` (the parent moves on to `step(s)`).
pub open spec fn child_state(s: RState) -> RState {
    let n = output_of(s) as u64;
    (s.0.wrapping_mul(n), s.1.wrapping_add(n))
}

fn rotate_right32(x: u32, n: u32) -> (r: u32)
    requires
        n < 32,
    ensures
        r == rotr32(x, n),
{
    if n == 0 {
        x
    } else {
        (x >> n) | (x << (32 - n))
    }
}

/// The state reached from `s` after `n` draws.
pub open spec fn steps(s: RState, n: nat) -> RState
    decreases n,
{
    if n == 0 {
        s
    } else {
        step(steps(s, (n - 1) as nat))
    }
}

/// Whether `v` is a Unicode scalar value.
pub open spec fn is_scalar(v: u32) -> bool {
    v < 0xD800 || (0xE000 <= v && v < 0x11_0000)
}

/// How many draws `codepoint` may spend before it settles for U+FFFD.
pub const CODEPOINT_BUDGET: u64 = 0xffff_ffff_ffff_ffff;

/// The character `codepoint` returns from state `s` with `budget` retries left,
/// and the state after.
pub open spec fn codepoint_from(s: RState, budget: nat) -> (char, RState)
    decreases budget,
{
    let v = output_of(s) % 0x11_0000;
    if is_scalar(v) {
        (v as char, step(s))
    } else if budget == 0 {
        ('\u{FFFD}', step(s))
    } else {
        codepoint_from(step(s), (budget - 1) as nat)
    }
}

/// Byte `j` (0 to 3) of `w` in little-endian order.
pub open spec fn le_byte(w: u32, j: int) -> u8 {
    (w >> (8 * j) as u32) as u8
}

/// The bytes `next_bytes` writes from state `s`: word `k` gives bytes `4k` to `4k + 3`.
pub open spec fn byte_at(s: RState, i: int) -> u8 {
    le_byte(output_of(steps(s, (i / 4) as nat)), i % 4)
}

/// Values drawn one after another over the whole domain, and the state after.
pub open spec fn drawn_seq<T: NumPrimitive>(s: RState, n: nat) -> (Seq<T>, RState)
    decreases n,
{
    if n == 0 {
        (Seq::empty(), s)
    } else {
        let (prev, mid) = drawn_seq::<T>(s, (n - 1) as nat);
        let (v, next) = T::drawn(mid);
        (prev.push(v), next)
    }
}

/// Values drawn one after another within `[min, max]`, and the state after.
pub open spec fn drawn_seq_in<T: NumPrimitive>(s: RState, n: nat, min: T, max: T) -> (Seq<T>, RState)
    decreases n,
{
    if n == 0 {
        (Seq::empty(), s)
    } else {
        let (prev, mid) = drawn_seq_in::<T>(s, (n - 1) as nat, min, max);
        let (v, next) = T::drawn_in(mid, min, max);
        (prev.push(v), next)
    }
}

/// An operation on a source, and the word it gives: a drawn word; the first
/// word of a derived child; a boolean (0 or 1); an ASCII character or a
/// Unicode scalar value, as its code.
#[derive(Debug, Clone, Copy, PartialEq, Eq, Structural)]
pub enum SourceOp {
    Next,
    Sub,
    Bool,
    Ascii,
    Codepoint,
}

/// The words a source in state `s` gives for `ops`, in order, and its state after.
pub open spec fn replay_spec(s: RState, ops: Seq<SourceOp>) -> (Seq<u32>, RState)
    decreases ops.len(),
{
    if ops.len() == 0 {
        (Seq::empty(), s)
    } else {
        let (words, mid) = replay_spec(s, ops.drop_last());
        match ops.last() {
            SourceOp::Next => (words.push(output_of(mid)), step(mid)),
            SourceOp::Sub => (words.push(output_of(child_state(mid))), step(mid)),
            SourceOp::Bool => (words.push(if output_of(mid) % 2 == 1 {
                1u32
            } else {
                0u32
            }), step(mid)),
            SourceOp::Ascii => (words.push(output_of(mid) % 0x80), step(mid)),
            SourceOp::Codepoint => {
                let (c, next) = codepoint_from(mid, CODEPOINT_BUDGET as nat);
                (words.push(c as u32), next)
            },
        }
    }
}

/// Two sources made from the same seed and driven by the same operations
/// give the same words and end in the same state.
pub proof fn lemma_same_seed_same_stream(a: R, b: R, seed: Seed, ops: Seq<SourceOp>)
    requires
        a@ == seed_state(seed),
        b@ == seed_state(seed),
    ensures
        replay_spec(a@, ops) == replay_spec(b@, ops),
{
}

/// Two children derived one after the other are the same source only if the
/// parent drew the same word twice in a row: the child's increment word is the
/// parent's plus the word drawn.
pub proof fn lemma_consecutive_children(s: RState)
    ensures
        child_state(s) == child_state(step(s)) ==> output_of(s) == output_of(step(s)),
{
    let n0 = output_of(s) as u64;
    let n1 = output_of(step(s)) as u64;
    let b = s.1;
    assert(b.wrapping_add(n0) == b.wrapping_add(n1) && n0 <= 0xffff_ffff && n1 <= 0xffff_ffff
        ==> n0 == n1) by (bit_vector);
}

/// Relies on `char::from_u32`: a character exactly for Unicode scalar values.
#[verifier::external_body]
fn char_from_u32(v: u32) -> (c: Option<char>)
    ensures
        c == (if is_scalar(v) {
            Some(v as char)
        } else {
            None
        }),
{
    std::char::from_u32(v)
}

impl R {
    /// The source whose stream the seed identifies.
    pub fn from_seed(seed: Seed) -> (r: R)
        ensures
            r@ == seed_state(seed),
    {
        R((seed.0 >> 64u128) as u64, seed.0 as u64)
    }

    /// Draw the next 32-bit word.
    pub fn next(&mut self) -> (out: u32)
        ensures
            out == output_of(old(self)@),
            final(self)@ == step(old(self)@),
    {
        let old_state = self.0;
        self.0 = old_state.wrapping_mul(MUL_FACTOR).wrapping_add(self.1 | 1);
        let xor_shifted = (((old_state >> 18u64) ^ old_state) >> 27u64) as u32;
        let rot = (old_state >> 59u64) as u32;
        proof {
            assert((old_state >> 59u64) < 32) by (bit_vector);
        }
        rotate_right32(xor_shifted, rot)
    }

    /// Derive an independent child source; this source advances by one draw.
    pub fn sub(&mut self) -> (child: R)
        ensures
            child@ == child_state(old(self)@),
            final(self)@ == step(old(self)@),
    {
        let r0 = self.0;
        let r1 = self.1;
        let n = self.next();
        R(r0.wrapping_mul(n as u64), r1.wrapping_add(n as u64))
    }

    /// Apply operations in order and collect the word each gives.
    pub fn replay(&mut self, ops: &[SourceOp]) -> (words: Vec<u32>)
        ensures
            (words@, final(self)@) == replay_spec(old(self)@, ops@),
    {
        let ghost s0 = self@;
        let mut words: Vec<u32> = Vec::new();
        let mut i: usize = 0;
        while i < ops.len()
            invariant
                i <= ops@.len(),
                (words@, self@) == replay_spec(s0, ops@.take(i as int)),
            decreases ops@.len() - i,
        {
            proof {
                assert(ops@.take(i + 1).drop_last() =~= ops@.take(i as int));
            }
            match ops[i] {
                SourceOp::Next => {
                    let w = self.next();
                    words.push(w);
                },
                SourceOp::Sub => {
                    let mut child = self.sub();
                    let w = child.next();
                    words.push(w);
                },
                SourceOp::Bool => {
                    let b = self.bool();
                    words.push(if b {
                        1
                    } else {
                        0
                    });
                },
                SourceOp::Ascii => {
                    let c = self.ascii();
                    words.push(c as u32);
                },
                SourceOp::Codepoint => {
                    let c = self.codepoint();
                    words.push(c as u32);
                },
            }
            i += 1;
        }
        assert(ops@.take(ops@.len() as int) =~= ops@);
        words
    }

    /// Fill `buf` with drawn bytes: each draw gives four bytes, little-endian.
    pub fn next_bytes(&mut self, buf: &mut [u8])
        ensures
            final(buf)@.len() == old(buf)@.len(),
            forall|i: int| 0 <= i < old(buf)@.len() ==> final(buf)@[i] == byte_at(old(self)@, i),
            final(self)@ == steps(old(self)@, ((old(buf)@.len() + 3) / 4) as nat),
    {
        let ghost s0 = self@;
        let len = buf.len();
        let mut i: usize = 0;
        let mut word: u32 = 0;
        while i < len
            invariant
                len == buf@.len(),
                len == old(buf)@.len(),
                i <= len,
                self@ == steps(s0, ((i + 3) / 4) as nat),
                i % 4 != 0 ==> word == output_of(steps(s0, (i / 4) as nat)),
                forall|k: int| 0 <= k < i ==> buf@[k] == byte_at(s0, k),
            decreases len - i,
        {
            if i % 4 == 0 {
                word = self.next();
            }
            let shift: u32 = 8 * (i % 4) as u32;
            buf[i] = #[verifier::truncate] ((word >> shift) as u8);
            i += 1;
        }
    }

    /// Draw a printable-or-control ASCII character (code below 0x80).
    pub fn ascii(&mut self) -> (c: char)
        ensures
            c == (output_of(old(self)@) % 0x80) as char,
            final(self)@ == step(old(self)@),
    {
        let v = self.next() % 0x80;
        (v as u8) as char
    }

    /// Draw a Unicode scalar value; draws that land on a surrogate are retried.
    pub fn codepoint(&mut self) -> (c: char)
        ensures
            (c, final(self)@) == codepoint_from(old(self)@, CODEPOINT_BUDGET as nat),
    {
        let mut budget: u64 = CODEPOINT_BUDGET;
        loop
            invariant
                codepoint_from(self@, budget as nat) == codepoint_from(old(self)@, CODEPOINT_BUDGET as nat),
            decreases budget,
        {
            let v = self.next() % 0x11_0000;
            match char_from_u32(v) {
                Some(c) => {
                    return c;
                },
                None => {
                    if budget == 0 {
                        return '\u{FFFD}';
                    }
                    budget -= 1;
                },
            }
        }
    }

    /// Draw a boolean: the low bit of the next word.
    pub fn bool(&mut self) -> (b: bool)
        ensures
            b == (output_of(old(self)@) % 2 == 1),
            final(self)@ == step(old(self)@),
    {
        (self.next() % 2) == 1
    }

    /// Draw a number over the whole domain of `T`.
    pub fn num<T: NumPrimitive>(&mut self) -> (v: T)
        ensures
            (v, final(self)@) == T::drawn(old(self)@),
    {
        T::num(self)
    }

    /// Draw a number between `min_value` and `max_value`, both included.
    pub fn num_range<T: NumPrimitive>(&mut self, min_value: T, max_value: T) -> (v: T)
        requires
            T::le(min_value, max_value),
        ensures
            (v, final(self)@) == T::drawn_in(old(self)@, min_value, max_value),
            T::le(min_value, v),
            T::le(v, max_value),
    {
        T::num_range(self, min_value, max_value)
    }

    /// Fill `buf` with numbers drawn over the whole domain, in order.
    pub fn array_num<T: NumPrimitive>(&mut self, buf: &mut [T])
        ensures
            final(buf)@.len() == old(buf)@.len(),
            (final(buf)@, final(self)@) == drawn_seq::<T>(old(self)@, old(buf)@.len()),
    {
        let ghost s0 = self@;
        let len = buf.len();
        let mut i: usize = 0;
        while i < len
            invariant
                len == buf@.len(),
                len == old(buf)@.len(),
                i <= len,
                (buf@.take(i as int), self@) == drawn_seq::<T>(s0, i as nat),
            decreases len - i,
        {
            let ghost before = buf@;
            buf[i] = T::num(self);
            assert(buf@.take(i + 1) =~= before.take(i as int).push(buf@[i as int]));
            i += 1;
        }
        assert(buf@.take(len as int) =~= buf@);
    }

    /// Fill `buf` with numbers drawn within `[min_value, max_value]`, in order.
    pub fn array_num_range<T: NumPrimitive>(&mut self, min_value: T, max_value: T, buf: &mut [T])
        requires
            T::le(min_value, max_value),
        ensures
            final(buf)@.len() == old(buf)@.len(),
            (final(buf)@, final(self)@) == drawn_seq_in::<T>(old(self)@, old(buf)@.len(), min_value, max_value),
            forall|i: int| 0 <= i < final(buf)@.len() ==> T::le(min_value, #[trigger] final(buf)@[i]) && T::le(final(buf)@[i], max_value),
    {
        let ghost s0 = self@;
        let len = buf.len();
        let mut i: usize = 0;
        while i < len
            invariant
                len == buf@.len(),
                len == old(buf)@.len(),
                i <= len,
                T::le(min_value, max_value),
                (buf@.take(i as int), self@) == drawn_seq_in::<T>(s0, i as nat, min_value, max_value),
                forall|k: int| 0 <= k < i ==> T::le(min_value, #[trigger] buf@[k]) && T::le(buf@[k], max_value),
            decreases len - i,
        {
            let ghost before = buf@;
            buf[i] = T::num_range(self, min_value, max_value);
            assert(buf@.take(i + 1) =~= before.take(i as int).push(buf@[i as int]));
            i += 1;
        }
        assert(buf@.take(len as int) =~= buf@);
    }
}

/// Numbers that a source can draw: over the whole domain, or within bounds.
pub trait NumPrimitive: Copy + Sized {
    /// The type's own order.
    spec fn le(a: Self, b: Self) -> bool;

    /// The value drawn over the whole domain from state `s`, and the state after.
    spec fn drawn(s: RState) -> (Self, RState);

    /// The value drawn within `[min, max]` from state `s`, and the state after.
    spec fn drawn_in(s: RState, min: Self, max: Self) -> (Self, RState);

    /// The least value of the type.
    spec fn min_spec() -> Self;

    /// The greatest value of the type.
    spec fn max_spec() -> Self;

    /// Every value lies between the least and the greatest; the order is
    /// reflexive and transitive.
    proof fn lemma_order(a: Self, b: Self, c: Self)
        ensures
            Self::le(Self::min_spec(), a),
            Self::le(a, Self::max_spec()),
            Self::le(a, a),
            Self::le(a, b) && Self::le(b, c) ==> Self::le(a, c),
            Self::le(a, b) || Self::le(b, a),
            Self::le(a, b) && Self::le(b, a) ==> a == b,
    ;

    /// The least value of the type.
    fn min_value() -> (v: Self)
        ensures
            v == Self::min_spec(),
    ;

    /// The greatest value of the type.
    fn max_value() -> (v: Self)
        ensures
            v == Self::max_spec(),
    ;

    /// Whether `a` comes strictly before `b`.
    fn less(a: Self, b: Self) -> (r: bool)
        ensures
            r == (Self::le(a, b) && a != b),
    ;

    /// The value just before `a`, which is not the least.
    fn pred(a: Self) -> (p: Self)
        requires
            a != Self::min_spec(),
        ensures
            Self::le(p, a),
            p != a,
            forall|x: Self| Self::le(x, a) && x != a ==> #[trigger] Self::le(x, p),
    ;

    /// Draw a value over the whole domain of the type.
    fn num(r: &mut R) -> (v: Self)
        ensures
            (v, final(r)@) == Self::drawn(old(r)@),
    ;

    /// Draw a value between `min_value` and `max_value`, both included.
    fn num_range(r: &mut R, min_value: Self, max_value: Self) -> (v: Self)
        requires
            Self::le(min_value, max_value),
        ensures
            (v, final(r)@) == Self::drawn_in(old(r)@, min_value, max_value),
            Self::le(min_value, v),
            Self::le(v, max_value),
    ;
}

impl NumPrimitive for u8 {
    open spec fn min_spec() -> u8 {
        u8::MIN
    }

    open spec fn max_spec() -> u8 {
        u8::MAX
    }

    proof fn lemma_order(a: u8, b: u8, c: u8) {
    }

    fn min_value() -> (v: u8) {
        u8::MIN
    }

    fn max_value() -> (v: u8) {
        u8::MAX
    }

    fn less(a: u8, b: u8) -> (r: bool) {
        a < b
    }

    fn pred(a: u8) -> (p: u8) {
        a - 1
    }

    open spec fn le(a: Self, b: Self) -> bool {
        a <= b
    }

    open spec fn drawn(s: RState) -> (u8, RState) {
        (output_of(s) as u8, step(s))
    }

    open spec fn drawn_in(s: RState, min: u8, max: u8) -> (u8, RState) {
        let width = (max - min) as u8;
        if width == u8::MAX {
            Self::drawn(s)
        } else {
            ((min + (output_of(s) as u8 as int) % (width as int + 1)) as u8, step(s))
        }
    }

    fn num(r: &mut R) -> (v: u8) {
        r.next() as u8
    }

    fn num_range(r: &mut R, min_value: u8, max_value: u8) -> (v: u8) {
        let width = max_value - min_value;
        if width == u8::MAX {
            Self::num(r)
        } else {
            min_value + (r.next() as u8 % (width + 1))
        }
    }
}

impl NumPrimitive for u16 {
    open spec fn min_spec() -> u16 {
        u16::MIN
    }

    open spec fn max_spec() -> u16 {
        u16::MAX
    }

    proof fn lemma_order(a: u16, b: u16, c: u16) {
    }

    fn min_value() -> (v: u16) {
        u16::MIN
    }

    fn max_value() -> (v: u16) {
        u16::MAX
    }

    fn less(a: u16, b: u16) -> (r: bool) {
        a < b
    }

    fn pred(a: u16) -> (p: u16) {
        a - 1
    }

    open spec fn le(a: Self, b: Self) -> bool {
        a <= b
    }

    open spec fn drawn(s: RState) -> (u16, RState) {
        (output_of(s) as u16, step(s))
    }

    open spec fn drawn_in(s: RState, min: u16, max: u16) -> (u16, RState) {
        let width = (max - min) as u16;
        if width == u16::MAX {
            Self::drawn(s)
        } else {
            ((min + (output_of(s) as u16 as int) % (width as int + 1)) as u16, step(s))
        }
    }

    fn num(r: &mut R) -> (v: u16) {
        r.next() as u16
    }

    fn num_range(r: &mut R, min_value: u16, max_value: u16) -> (v: u16) {
        let width = max_value - min_value;
        if width == u16::MAX {
            Self::num(r)
        } else {
            min_value + (r.next() as u16 % (width + 1))
        }
    }
}

impl NumPrimitive for u32 {
    open spec fn min_spec() -> u32 {
        u32::MIN
    }

    open spec fn max_spec() -> u32 {
        u32::MAX
    }

    proof fn lemma_order(a: u32, b: u32, c: u32) {
    }

    fn min_value() -> (v: u32) {
        u32::MIN
    }

    fn max_value() -> (v: u32) {
        u32::MAX
    }

    fn less(a: u32, b: u32) -> (r: bool) {
        a < b
    }

    fn pred(a: u32) -> (p: u32) {
        a - 1
    }

    open spec fn le(a: Self, b: Self) -> bool {
        a <= b
    }

    open spec fn drawn(s: RState) -> (u32, RState) {
        (output_of(s) as u32, step(s))
    }

    open spec fn drawn_in(s: RState, min: u32, max: u32) -> (u32, RState) {
        let width = (max - min) as u32;
        if width == u32::MAX {
            Self::drawn(s)
        } else {
            ((min + (output_of(s) as u32 as int) % (width as int + 1)) as u32, step(s))
        }
    }

    fn num(r: &mut R) -> (v: u32) {
        r.next()
    }

    fn num_range(r: &mut R, min_value: u32, max_value: u32) -> (v: u32) {
        let width = max_value - min_value;
        if width == u32::MAX {
            Self::num(r)
        } else {
            min_value + (r.next() as u32 % (width + 1))
        }
    }
}

impl NumPrimitive for u64 {
    open spec fn min_spec() -> u64 {
        u64::MIN
    }

    open spec fn max_spec() -> u64 {
        u64::MAX
    }

    proof fn lemma_order(a: u64, b: u64, c: u64) {
    }

    fn min_value() -> (v: u64) {
        u64::MIN
    }

    fn max_value() -> (v: u64) {
        u64::MAX
    }

    fn less(a: u64, b: u64) -> (r: bool) {
        a < b
    }

    fn pred(a: u64) -> (p: u64) {
        a - 1
    }

    open spec fn le(a: Self, b: Self) -> bool {
        a <= b
    }

    open spec fn drawn(s: RState) -> (u64, RState) {
        (((output_of(s) as u64) << 32u64) | (output_of(step(s)) as u64), step(step(s)))
    }

    open spec fn drawn_in(s: RState, min: u64, max: u64) -> (u64, RState) {
        let width = (max - min) as u64;
        if width == u64::MAX {
            Self::drawn(s)
        } else if width >= 0xffff_ffff {
            ((min + (Self::drawn(s).0 as int) % (width as int + 1)) as u64, Self::drawn(s).1)
        } else {
            ((min + (output_of(s) as u64 as int) % (width as int + 1)) as u64, step(s))
        }
    }

    fn num(r: &mut R) -> (v: u64) {
        let v1 = r.next() as u64;
        let v2 = r.next() as u64;
        (v1 << 32u64) | v2
    }

    fn num_range(r: &mut R, min_value: u64, max_value: u64) -> (v: u64) {
        let width = max_value - min_value;
        if width == u64::MAX {
            Self::num(r)
        } else {
            let diff = width + 1;
            if diff > 0xffff_ffff {
                let v = Self::num(r) % diff;
                min_value + v
            } else {
                min_value + (r.next() as u64 % diff)
            }
        }
    }
}

impl NumPrimitive for u128 {
    open spec fn min_spec() -> u128 {
        u128::MIN
    }

    open spec fn max_spec() -> u128 {
        u128::MAX
    }

    proof fn lemma_order(a: u128, b: u128, c: u128) {
    }

    fn min_value() -> (v: u128) {
        u128::MIN
    }

    fn max_value() -> (v: u128) {
        u128::MAX
    }

    fn less(a: u128, b: u128) -> (r: bool) {
        a < b
    }

    fn pred(a: u128) -> (p: u128) {
        a - 1
    }

    open spec fn le(a: Self, b: Self) -> bool {
        a <= b
    }

    open spec fn drawn(s: RState) -> (u128, RState) {
        (((output_of(s) as u128) << 96u128) | ((output_of(step(s)) as u128) << 64u128)
            | ((output_of(step(step(s))) as u128) << 32u128)
            | (output_of(step(step(step(s)))) as u128), step(step(step(step(s)))))
    }

    open spec fn drawn_in(s: RState, min: u128, max: u128) -> (u128, RState) {
        let width = (max - min) as u128;
        if width == u128::MAX {
            Self::drawn(s)
        } else if width >= 0xffff_ffff {
            ((min + (Self::drawn(s).0 as int) % (width as int + 1)) as u128, Self::drawn(s).1)
        } else {
            ((min + (output_of(s) as u128 as int) % (width as int + 1)) as u128, step(s))
        }
    }

    fn num(r: &mut R) -> (v: u128) {
        let v1 = r.next() as u128;
        let v2 = r.next() as u128;
        let v3 = r.next() as u128;
        let v4 = r.next() as u128;
        (v1 << 96u128) | (v2 << 64u128) | (v3 << 32u128) | v4
    }

    fn num_range(r: &mut R, min_value: u128, max_value: u128) -> (v: u128) {
        let width = max_value - min_value;
        if width == u128::MAX {
            Self::num(r)
        } else {
            let diff = width + 1;
            if diff > 0xffff_ffff {
                let v = Self::num(r) % diff;
                min_value + v
            } else {
                min_value + (r.next() as u128 % diff)
            }
        }
    }
}

impl NumPrimitive for usize {
    open spec fn min_spec() -> usize {
        usize::MIN
    }

    open spec fn max_spec() -> usize {
        usize::MAX
    }

    proof fn lemma_order(a: usize, b: usize, c: usize) {
    }

    fn min_value() -> (v: usize) {
        usize::MIN
    }

    fn max_value() -> (v: usize) {
        usize::MAX
    }

    fn less(a: usize, b: usize) -> (r: bool) {
        a < b
    }

    fn pred(a: usize) -> (p: usize) {
        a - 1
    }

    open spec fn le(a: Self, b: Self) -> bool {
        a <= b
    }

    open spec fn drawn(s: RState) -> (usize, RState) {
        (<u64 as NumPrimitive>::drawn(s).0 as usize, <u64 as NumPrimitive>::drawn(s).1)
    }

    open spec fn drawn_in(s: RState, min: usize, max: usize) -> (usize, RState) {
        let width = (max - min) as usize;
        if width == usize::MAX {
            Self::drawn(s)
        } else if width >= 0xffff_ffff {
            ((min + (Self::drawn(s).0 as int) % (width as int + 1)) as usize, Self::drawn(s).1)
        } else {
            ((min + (output_of(s) as usize as int) % (width as int + 1)) as usize, step(s))
        }
    }

    fn num(r: &mut R) -> (v: usize) {
        <u64 as NumPrimitive>::num(r) as usize
    }

    fn num_range(r: &mut R, min_value: usize, max_value: usize) -> (v: usize) {
        let width = max_value - min_value;
        if width == usize::MAX {
            Self::num(r)
        } else {
            let diff = width + 1;
            if diff > 0xffff_ffff {
                let v = Self::num(r) % diff;
                min_value + v
            } else {
                min_value + (r.next() as usize % diff)
            }
        }
    }
}

// A signed range is drawn as an unsigned offset from the lower bound.
impl NumPrimitive for i8 {
    open spec fn min_spec() -> i8 {
        i8::MIN
    }

    open spec fn max_spec() -> i8 {
        i8::MAX
    }

    proof fn lemma_order(a: i8, b: i8, c: i8) {
    }

    fn min_value() -> (v: i8) {
        i8::MIN
    }

    fn max_value() -> (v: i8) {
        i8::MAX
    }

    fn less(a: i8, b: i8) -> (r: bool) {
        a < b
    }

    fn pred(a: i8) -> (p: i8) {
        a - 1
    }

    open spec fn le(a: Self, b: Self) -> bool {
        a <= b
    }

    open spec fn drawn(s: RState) -> (i8, RState) {
        (<u8 as NumPrimitive>::drawn(s).0 as i8, <u8 as NumPrimitive>::drawn(s).1)
    }

    open spec fn drawn_in(s: RState, min: i8, max: i8) -> (i8, RState) {
        let (offset, next) = <u8 as NumPrimitive>::drawn_in(s, 0, (max - min) as u8);
        ((min + offset) as i8, next)
    }

    fn num(r: &mut R) -> (v: i8) {
        #[verifier::truncate]
        (<u8 as NumPrimitive>::num(r) as i8)
    }

    fn num_range(r: &mut R, min_value: i8, max_value: i8) -> (v: i8) {
        let width: u8 = if min_value >= 0 || max_value < 0 {
            (max_value - min_value) as u8
        } else {
            (max_value as u8) + ((-(min_value + 1)) as u8) + 1
        };
        let offset = <u8 as NumPrimitive>::num_range(r, 0, width);
        if offset <= i8::MAX as u8 {
            min_value + offset as i8
        } else {
            (offset - ((-(min_value + 1)) as u8 + 1)) as i8
        }
    }
}

// A signed range is drawn as an unsigned offset from the lower bound.
impl NumPrimitive for i16 {
    open spec fn min_spec() -> i16 {
        i16::MIN
    }

    open spec fn max_spec() -> i16 {
        i16::MAX
    }

    proof fn lemma_order(a: i16, b: i16, c: i16) {
    }

    fn min_value() -> (v: i16) {
        i16::MIN
    }

    fn max_value() -> (v: i16) {
        i16::MAX
    }

    fn less(a: i16, b: i16) -> (r: bool) {
        a < b
    }

    fn pred(a: i16) -> (p: i16) {
        a - 1
    }

    open spec fn le(a: Self, b: Self) -> bool {
        a <= b
    }

    open spec fn drawn(s: RState) -> (i16, RState) {
        (<u16 as NumPrimitive>::drawn(s).0 as i16, <u16 as NumPrimitive>::drawn(s).1)
    }

    open spec fn drawn_in(s: RState, min: i16, max: i16) -> (i16, RState) {
        let (offset, next) = <u16 as NumPrimitive>::drawn_in(s, 0, (max - min) as u16);
        ((min + offset) as i16, next)
    }

    fn num(r: &mut R) -> (v: i16) {
        #[verifier::truncate]
        (<u16 as NumPrimitive>::num(r) as i16)
    }

    fn num_range(r: &mut R, min_value: i16, max_value: i16) -> (v: i16) {
        let width: u16 = if min_value >= 0 || max_value < 0 {
            (max_value - min_value) as u16
        } else {
            (max_value as u16) + ((-(min_value + 1)) as u16) + 1
        };
        let offset = <u16 as NumPrimitive>::num_range(r, 0, width);
        if offset <= i16::MAX as u16 {
            min_value + offset as i16
        } else {
            (offset - ((-(min_value + 1)) as u16 + 1)) as i16
        }
    }
}

// A signed range is drawn as an unsigned offset from the lower bound.
impl NumPrimitive for i32 {
    open spec fn min_spec() -> i32 {
        i32::MIN
    }

    open spec fn max_spec() -> i32 {
        i32::MAX
    }

    proof fn lemma_order(a: i32, b: i32, c: i32) {
    }

    fn min_value() -> (v: i32) {
        i32::MIN
    }

    fn max_value() -> (v: i32) {
        i32::MAX
    }

    fn less(a: i32, b: i32) -> (r: bool) {
        a < b
    }

    fn pred(a: i32) -> (p: i32) {
        a - 1
    }

    open spec fn le(a: Self, b: Self) -> bool {
        a <= b
    }

    open spec fn drawn(s: RState) -> (i32, RState) {
        (<u32 as NumPrimitive>::drawn(s).0 as i32, <u32 as NumPrimitive>::drawn(s).1)
    }

    open spec fn drawn_in(s: RState, min: i32, max: i32) -> (i32, RState) {
        let (offset, next) = <u32 as NumPrimitive>::drawn_in(s, 0, (max - min) as u32);
        ((min + offset) as i32, next)
    }

    fn num(r: &mut R) -> (v: i32) {
        #[verifier::truncate]
        (<u32 as NumPrimitive>::num(r) as i32)
    }

    fn num_range(r: &mut R, min_value: i32, max_value: i32) -> (v: i32) {
        let width: u32 = if min_value >= 0 || max_value < 0 {
            (max_value - min_value) as u32
        } else {
            (max_value as u32) + ((-(min_value + 1)) as u32) + 1
        };
        let offset = <u32 as NumPrimitive>::num_range(r, 0, width);
        if offset <= i32::MAX as u32 {
            min_value + offset as i32
        } else {
            (offset - ((-(min_value + 1)) as u32 + 1)) as i32
        }
    }
}

// A signed range is drawn as an unsigned offset from the lower bound.
impl NumPrimitive for i64 {
    open spec fn min_spec() -> i64 {
        i64::MIN
    }

    open spec fn max_spec() -> i64 {
        i64::MAX
    }

    proof fn lemma_order(a: i64, b: i64, c: i64) {
    }

    fn min_value() -> (v: i64) {
        i64::MIN
    }

    fn max_value() -> (v: i64) {
        i64::MAX
    }

    fn less(a: i64, b: i64) -> (r: bool) {
        a < b
    }

    fn pred(a: i64) -> (p: i64) {
        a - 1
    }

    open spec fn le(a: Self, b: Self) -> bool {
        a <= b
    }

    open spec fn drawn(s: RState) -> (i64, RState) {
        (<u64 as NumPrimitive>::drawn(s).0 as i64, <u64 as NumPrimitive>::drawn(s).1)
    }

    open spec fn drawn_in(s: RState, min: i64, max: i64) -> (i64, RState) {
        let (offset, next) = <u64 as NumPrimitive>::drawn_in(s, 0, (max - min) as u64);
        ((min + offset) as i64, next)
    }

    fn num(r: &mut R) -> (v: i64) {
        #[verifier::truncate]
        (<u64 as NumPrimitive>::num(r) as i64)
    }

    fn num_range(r: &mut R, min_value: i64, max_value: i64) -> (v: i64) {
        let width: u64 = if min_value >= 0 || max_value < 0 {
            (max_value - min_value) as u64
        } else {
            (max_value as u64) + ((-(min_value + 1)) as u64) + 1
        };
        let offset = <u64 as NumPrimitive>::num_range(r, 0, width);
        if offset <= i64::MAX as u64 {
            min_value + offset as i64
        } else {
            (offset - ((-(min_value + 1)) as u64 + 1)) as i64
        }
    }
}

// A signed range is drawn as an unsigned offset from the lower bound.
impl NumPrimitive for i128 {
    open spec fn min_spec() -> i128 {
        i128::MIN
    }

    open spec fn max_spec() -> i128 {
        i128::MAX
    }

    proof fn lemma_order(a: i128, b: i128, c: i128) {
    }

    fn min_value() -> (v: i128) {
        i128::MIN
    }

    fn max_value() -> (v: i128) {
        i128::MAX
    }

    fn less(a: i128, b: i128) -> (r: bool) {
        a < b
    }

    fn pred(a: i128) -> (p: i128) {
        a - 1
    }

    open spec fn le(a: Self, b: Self) -> bool {
        a <= b
    }

    open spec fn drawn(s: RState) -> (i128, RState) {
        (<u128 as NumPrimitive>::drawn(s).0 as i128, <u128 as NumPrimitive>::drawn(s).1)
    }

    open spec fn drawn_in(s: RState, min: i128, max: i128) -> (i128, RState) {
        let (offset, next) = <u128 as NumPrimitive>::drawn_in(s, 0, (max - min) as u128);
        ((min + offset) as i128, next)
    }

    fn num(r: &mut R) -> (v: i128) {
        #[verifier::truncate]
        (<u128 as NumPrimitive>::num(r) as i128)
    }

    fn num_range(r: &mut R, min_value: i128, max_value: i128) -> (v: i128) {
        let width: u128 = if min_value >= 0 || max_value < 0 {
            (max_value - min_value) as u128
        } else {
            (max_value as u128) + ((-(min_value + 1)) as u128) + 1
        };
        let offset = <u128 as NumPrimitive>::num_range(r, 0, width);
        if offset <= i128::MAX as u128 {
            min_value + offset as i128
        } else {
            (offset - ((-(min_value + 1)) as u128 + 1)) as i128
        }
    }
}

// A signed range is drawn as an unsigned offset from the lower bound.
impl NumPrimitive for isize {
    open spec fn min_spec() -> isize {
        isize::MIN
    }

    open spec fn max_spec() -> isize {
        isize::MAX
    }

    proof fn lemma_order(a: isize, b: isize, c: isize) {
    }

    fn min_value() -> (v: isize) {
        isize::MIN
    }

    fn max_value() -> (v: isize) {
        isize::MAX
    }

    fn less(a: isize, b: isize) -> (r: bool) {
        a < b
    }

    fn pred(a: isize) -> (p: isize) {
        a - 1
    }

    open spec fn le(a: Self, b: Self) -> bool {
        a <= b
    }

    open spec fn drawn(s: RState) -> (isize, RState) {
        (<usize as NumPrimitive>::drawn(s).0 as isize, <usize as NumPrimitive>::drawn(s).1)
    }

    open spec fn drawn_in(s: RState, min: isize, max: isize) -> (isize, RState) {
        let (offset, next) = <usize as NumPrimitive>::drawn_in(s, 0, (max - min) as usize);
        ((min + offset) as isize, next)
    }

    fn num(r: &mut R) -> (v: isize) {
        #[verifier::truncate]
        (<usize as NumPrimitive>::num(r) as isize)
    }

    fn num_range(r: &mut R, min_value: isize, max_value: isize) -> (v: isize) {
        let width: usize = if min_value >= 0 || max_value < 0 {
            (max_value - min_value) as usize
        } else {
            (max_value as usize) + ((-(min_value + 1)) as usize) + 1
        };
        let offset = <usize as NumPrimitive>::num_range(r, 0, width);
        if offset <= isize::MAX as usize {
            min_value + offset as isize
        } else {
            (offset - ((-(min_value + 1)) as usize + 1)) as isize
        }
    }
}

} // verus!
