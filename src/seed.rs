//! Seeds and their canonical text form.
//!
//! A seed is written as four groups of eight upper-case hexadecimal digits,
//! the 128 bits split into four 32-bit words, most significant first, with a
//! hyphen between groups: `00000000-00000000-00000000-00000000`.
use vstd::arithmetic::div_mod::lemma_mod_breakdown;
use vstd::prelude::*;

verus! {

/// Seed of a random stream: 128 bits that identify a reproducible run.
#[derive(Debug, Clone, Copy, PartialEq, Eq, Structural)]
pub struct Seed(pub u128);

/// Why a text is not a seed.
#[derive(Debug, Clone, Copy, PartialEq, Eq, Structural)]
pub enum SeedError {
    /// The text does not have exactly four hyphen-separated groups.
    WrongArity,
    /// The group at this position (0 to 3) is not a hexadecimal 32-bit number.
    NotHex(usize),
}

/// The sentence that says what a parse error is.
pub open spec fn message_of(e: SeedError) -> Seq<char> {
    match e {
        SeedError::WrongArity => "expecting 4 hexadecimal values separated by -"@,
        SeedError::NotHex(0) => "cannot parse 1st element as hexadecimal integer"@,
        SeedError::NotHex(1) => "cannot parse 2nd element as hexadecimal integer"@,
        SeedError::NotHex(2) => "cannot parse 3rd element as hexadecimal integer"@,
        SeedError::NotHex(_) => "cannot parse 4th element as hexadecimal integer"@,
    }
}

impl SeedError {
    /// A sentence that says what is wrong.
    pub fn message(&self) -> (m: &'static str)
        ensures
            m@ == message_of(*self),
    {
        match self {
            SeedError::WrongArity => "expecting 4 hexadecimal values separated by -",
            SeedError::NotHex(0) => "cannot parse 1st element as hexadecimal integer",
            SeedError::NotHex(1) => "cannot parse 2nd element as hexadecimal integer",
            SeedError::NotHex(2) => "cannot parse 3rd element as hexadecimal integer",
            SeedError::NotHex(_) => "cannot parse 4th element as hexadecimal integer",
        }
    }
}

impl From<u128> for Seed {
    fn from(u: u128) -> (s: Seed) {
        Seed(u)
    }
}

impl vstd::std_specs::convert::FromSpecImpl<u128> for Seed {
    open spec fn obeys_from_spec() -> bool {
        true
    }

    open spec fn from_spec(u: u128) -> Seed {
        Seed(u)
    }
}

/// Word `i` (0 to 3, most significant first) of a 128-bit value.
pub open spec fn word(x: u128, i: int) -> u32 {
    (x >> (96 - 32 * i) as u128) as u32
}

/// The 128-bit value made of four words, most significant first.
pub open spec fn join_words(a: u32, b: u32, c: u32, d: u32) -> u128 {
    ((a as u128) << 96u128) | ((b as u128) << 64u128) | ((c as u128) << 32u128) | (d as u128)
}

/// The upper-case hexadecimal digit of `d < 16`.
pub open spec fn hex_char(d: nat) -> char {
    if d < 10 {
        (d + 48) as char
    } else {
        (d + 55) as char
    }
}

/// The last `n` hexadecimal digits of `v`, most significant first.
pub open spec fn hex_digits(v: nat, n: nat) -> Seq<char>
    decreases n,
{
    if n == 0 {
        Seq::empty()
    } else {
        hex_digits(v / 16, (n - 1) as nat).push(hex_char(v % 16))
    }
}

/// The canonical text of a seed.
pub open spec fn seed_text(seed: Seed) -> Seq<char> {
    hex_digits(word(seed.0, 0) as nat, 8) + seq!['-'] + hex_digits(word(seed.0, 1) as nat, 8)
        + seq!['-'] + hex_digits(word(seed.0, 2) as nat, 8) + seq!['-'] + hex_digits(
        word(seed.0, 3) as nat,
        8,
    )
}

/// The hyphen-separated fields of `s`, empty ones included.
pub open spec fn fields(s: Seq<char>) -> Seq<Seq<char>>
    decreases s.len(),
{
    if s.len() == 0 {
        seq![Seq::empty()]
    } else {
        let prev = fields(s.drop_last());
        if s.last() == '-' {
            prev.push(Seq::empty())
        } else {
            prev.update(prev.len() - 1, prev.last().push(s.last()))
        }
    }
}

/// Whether `c` is an upper-case hexadecimal digit.
pub open spec fn is_hex_digit(c: char) -> bool {
    (48 <= c as u32 <= 57) || (65 <= c as u32 <= 70)
}

/// The value of the hexadecimal digit `c`.
pub open spec fn hex_value(c: char) -> nat {
    if c as u32 <= 57 {
        (c as u32 - 48) as nat
    } else {
        (c as u32 - 55) as nat
    }
}

/// The number that a run of hexadecimal digits writes.
pub open spec fn digits_value(d: Seq<char>) -> nat
    decreases d.len(),
{
    if d.len() == 0 {
        0
    } else {
        digits_value(d.drop_last()) * 16 + hex_value(d.last())
    }
}

/// Whether every character of `d` is an upper-case hexadecimal digit.
pub open spec fn all_hex(d: Seq<char>) -> bool {
    forall|i: int| 0 <= i < d.len() ==> is_hex_digit(#[trigger] d[i])
}

/// The 32-bit word a group writes: exactly eight upper-case hexadecimal digits.
pub open spec fn group_value(g: Seq<char>) -> Option<u32> {
    if g.len() == 8 && all_hex(g) {
        Some(digits_value(g) as u32)
    } else {
        None
    }
}

/// What parsing `s` as a seed gives.
pub open spec fn parse_seed(s: Seq<char>) -> Result<Seed, SeedError> {
    let f = fields(s);
    if f.len() != 4 {
        Err(SeedError::WrongArity)
    } else if group_value(f[0]) is None {
        Err(SeedError::NotHex(0))
    } else if group_value(f[1]) is None {
        Err(SeedError::NotHex(1))
    } else if group_value(f[2]) is None {
        Err(SeedError::NotHex(2))
    } else if group_value(f[3]) is None {
        Err(SeedError::NotHex(3))
    } else {
        Ok(
            Seed(
                join_words(
                    group_value(f[0])->0,
                    group_value(f[1])->0,
                    group_value(f[2])->0,
                    group_value(f[3])->0,
                ),
            ),
        )
    }
}

/// Relies on `String::push`: the character is appended.
#[verifier::external_body]
pub(crate) fn push_char(s: &mut String, c: char)
    ensures
        final(s)@ == old(s)@.push(c),
{
    s.push(c)
}

fn hex_char_of(d: u32) -> (c: char)
    requires
        d < 16,
    ensures
        c == hex_char(d as nat),
{
    if d < 10 {
        ((d + 48) as u8) as char
    } else {
        ((d + 55) as u8) as char
    }
}

fn push_hex_digits(out: &mut String, v: u32, n: usize)
    ensures
        final(out)@ == old(out)@ + hex_digits(v as nat, n as nat),
    decreases n,
{
    if n > 0 {
        push_hex_digits(out, v / 16, n - 1);
        push_char(out, hex_char_of(v % 16));
        assert(final(out)@ =~= old(out)@ + hex_digits(v as nat, n as nat));
    }
}

/// 16 to the power `n`.
pub open spec fn pow16(n: nat) -> nat
    decreases n,
{
    if n == 0 {
        1
    } else {
        16 * pow16((n - 1) as nat)
    }
}

fn hex_value_of(c: char) -> (r: Option<u64>)
    ensures
        r == (if is_hex_digit(c) {
            Some(hex_value(c) as u64)
        } else {
            None
        }),
{
    let cu = c as u32;
    if 48 <= cu && cu <= 57 {
        Some((cu - 48) as u64)
    } else if 65 <= cu && cu <= 70 {
        Some((cu - 55) as u64)
    } else {
        None
    }
}

fn group_value_of(g: &Vec<char>) -> (r: Option<u32>)
    ensures
        r == group_value(g@),
{
    if g.len() != 8 {
        return None;
    }
    let mut v: u64 = 0;
    let mut i: usize = 0;
    while i < 8
        invariant
            i <= 8,
            g@.len() == 8,
            v == digits_value(g@.take(i as int)),
            v < pow16(i as nat),
            all_hex(g@.take(i as int)),
        decreases 8 - i,
    {
        assert(g@.take(i + 1).drop_last() =~= g@.take(i as int));
        let dv: u64 = match hex_value_of(g[i]) {
            Some(x) => x,
            None => {
                assert(!is_hex_digit(g@[i as int]));
                return None;
            },
        };
        proof {
            reveal_with_fuel(pow16, 9);
            assert(pow16(8) == 0x1_0000_0000);
            lemma_pow16_grows(i as nat);
        }
        v = v * 16 + dv;
        i += 1;
        assert(all_hex(g@.take(i as int))) by {
            assert forall|k: int| 0 <= k < i implies is_hex_digit(#[trigger] g@.take(i as int)[k]) by {
                if k < i - 1 {
                    assert(g@.take(i as int)[k] == g@.take(i - 1)[k]);
                }
            }
        }
    }
    assert(g@.take(8) =~= g@);
    proof {
        reveal_with_fuel(pow16, 9);
    }
    Some(v as u32)
}

proof fn lemma_pow16_grows(n: nat)
    requires
        n < 8,
    ensures
        16 * pow16(n) <= pow16(8),
        pow16(n + 1) == 16 * pow16(n),
    decreases 8 - n,
{
    reveal_with_fuel(pow16, 9);
    if n < 7 {
        lemma_pow16_grows(n + 1);
    }
}

impl Seed {
    /// The canonical text of this seed.
    pub fn to_string(&self) -> (s: String)
        ensures
            s@ == seed_text(*self),
    {
        let mut out = String::new();
        push_hex_digits(&mut out, #[verifier::truncate] ((self.0 >> 96u128) as u32), 8);
        push_char(&mut out, '-');
        push_hex_digits(&mut out, #[verifier::truncate] ((self.0 >> 64u128) as u32), 8);
        push_char(&mut out, '-');
        push_hex_digits(&mut out, #[verifier::truncate] ((self.0 >> 32u128) as u32), 8);
        push_char(&mut out, '-');
        push_hex_digits(&mut out, #[verifier::truncate] (self.0 as u32), 8);
        proof {
            lemma_shift_zero(self.0);
        }
        assert(out@ =~= seed_text(*self));
        out
    }

    /// Read a seed from its canonical text: four hyphen-separated groups of
    /// eight upper-case hexadecimal digits.
    pub fn parse(s: &str) -> (r: Result<Seed, SeedError>)
        ensures
            r == parse_seed(s@),
    {
        let n = s.unicode_len();
        let mut vals: Vec<Option<u32>> = Vec::new();
        let mut cur: Vec<char> = Vec::new();
        let mut i: usize = 0;
        proof {
            assert(s@.take(0) =~= Seq::<char>::empty());
        }
        while i < n
            invariant
                n == s@.len(),
                i <= n,
                fields(s@.take(i as int)).len() == vals@.len() + 1,
                forall|k: int|
                    0 <= k < vals@.len() ==> vals@[k] == group_value(
                        #[trigger] fields(s@.take(i as int))[k],
                    ),
                cur@ == fields(s@.take(i as int)).last(),
                vals@.len() <= i,
            decreases n - i,
        {
            let c = s.get_char(i);
            proof {
                assert(s@.take(i + 1).drop_last() =~= s@.take(i as int));
            }
            if c == '-' {
                let v = group_value_of(&cur);
                vals.push(v);
                cur = Vec::new();
            } else {
                cur.push(c);
            }
            i += 1;
            proof {
                let f = fields(s@.take(i as int));
                assert forall|k: int| 0 <= k < vals@.len() implies vals@[k] == group_value(
                    #[trigger] f[k],
                ) by {}
            }
        }
        assert(s@.take(n as int) =~= s@);
        if vals.len() != 3 {
            return Err(SeedError::WrongArity);
        }
        let last = group_value_of(&cur);
        match (vals[0], vals[1], vals[2], last) {
            (None, _, _, _) => Err(SeedError::NotHex(0)),
            (_, None, _, _) => Err(SeedError::NotHex(1)),
            (_, _, None, _) => Err(SeedError::NotHex(2)),
            (_, _, _, None) => Err(SeedError::NotHex(3)),
            (Some(a), Some(b), Some(c), Some(d)) => Ok(
                Seed(((a as u128) << 96u128) | ((b as u128) << 64u128) | ((c as u128) << 32u128) | (
                d as u128)),
            ),
        }
    }
}

impl std::str::FromStr for Seed {
    type Err = &'static str;

    fn from_str(s: &str) -> (r: Result<Seed, &'static str>)
        ensures
            r is Ok <==> parse_seed(s@) is Ok,
            r is Ok ==> r->Ok_0 == parse_seed(s@)->Ok_0,
            r is Err ==> r->Err_0@ == message_of(parse_seed(s@)->Err_0),
    {
        match Seed::parse(s) {
            Ok(seed) => Ok(seed),
            Err(e) => Err(e.message()),
        }
    }
}

proof fn lemma_fields_nonempty(s: Seq<char>)
    ensures
        fields(s).len() >= 1,
    decreases s.len(),
{
    if s.len() > 0 {
        lemma_fields_nonempty(s.drop_last());
    }
}

proof fn lemma_fields_single(g: Seq<char>)
    requires
        forall|i: int| 0 <= i < g.len() ==> g[i] != '-',
    ensures
        fields(g) == seq![g],
    decreases g.len(),
{
    if g.len() > 0 {
        lemma_fields_single(g.drop_last());
        assert(g.drop_last().push(g.last()) =~= g);
        assert(fields(g) =~= seq![g]);
    } else {
        assert(g =~= Seq::<char>::empty());
    }
}

proof fn lemma_fields_join(a: Seq<char>, b: Seq<char>)
    ensures
        fields(a + seq!['-'] + b) == fields(a) + fields(b),
    decreases b.len(),
{
    let ab = a + seq!['-'] + b;
    if b.len() == 0 {
        assert(ab.drop_last() =~= a);
        assert(fields(ab) =~= fields(a) + fields(b));
    } else {
        assert(ab.drop_last() =~= a + seq!['-'] + b.drop_last());
        lemma_fields_join(a, b.drop_last());
        lemma_fields_nonempty(b.drop_last());
        lemma_fields_nonempty(a);
        assert(fields(ab) =~= fields(a) + fields(b));
    }
}

proof fn lemma_hex_digits(v: nat, n: nat)
    ensures
        hex_digits(v, n).len() == n,
        forall|i: int|
            0 <= i < n ==> is_hex_digit(#[trigger] hex_digits(v, n)[i]) && hex_digits(v, n)[i]
                != '-',
        digits_value(hex_digits(v, n)) == v % pow16(n),
        pow16(n) > 0,
    decreases n,
{
    if n > 0 {
        let prev = hex_digits(v / 16, (n - 1) as nat);
        lemma_hex_digits(v / 16, (n - 1) as nat);
        let d = v % 16;
        let c = hex_char(d);
        assert(hex_value(c) == d && is_hex_digit(c) && c != '-');
        assert(hex_digits(v, n).drop_last() =~= prev);
        lemma_mod_breakdown(v as int, 16, pow16((n - 1) as nat) as int);
    }
}

proof fn lemma_shift_zero(x: u128)
    ensures
        x >> 0u128 == x,
{
    assert(x >> 0u128 == x) by (bit_vector);
}

proof fn lemma_words(x: u128)
    ensures
        join_words(word(x, 0), word(x, 1), word(x, 2), word(x, 3)) == x,
{
    assert(((((x >> 96u128) as u32) as u128) << 96u128) | ((((x >> 64u128) as u32) as u128)
        << 64u128) | ((((x >> 32u128) as u32) as u128) << 32u128) | (((x >> 0u128) as u32) as u128)
        == x) by (bit_vector);
}

/// Formatting a seed and parsing the text back gives the same seed.
pub proof fn lemma_seed_round_trip(seed: Seed)
    ensures
        parse_seed(seed_text(seed)) == Ok::<Seed, SeedError>(seed),
{
    let h0 = hex_digits(word(seed.0, 0) as nat, 8);
    let h1 = hex_digits(word(seed.0, 1) as nat, 8);
    let h2 = hex_digits(word(seed.0, 2) as nat, 8);
    let h3 = hex_digits(word(seed.0, 3) as nat, 8);
    reveal_with_fuel(pow16, 9);
    assert(pow16(8) == 0x1_0000_0000);
    lemma_hex_digits(word(seed.0, 0) as nat, 8);
    lemma_hex_digits(word(seed.0, 1) as nat, 8);
    lemma_hex_digits(word(seed.0, 2) as nat, 8);
    lemma_hex_digits(word(seed.0, 3) as nat, 8);
    lemma_fields_single(h0);
    lemma_fields_single(h1);
    lemma_fields_single(h2);
    lemma_fields_single(h3);
    lemma_fields_join(h0, h1);
    lemma_fields_join(h0 + seq!['-'] + h1, h2);
    lemma_fields_join(h0 + seq!['-'] + h1 + seq!['-'] + h2, h3);
    let f = fields(seed_text(seed));
    assert(f =~= seq![h0, h1, h2, h3]);
    lemma_words(seed.0);
}

} // verus!
