use smoke::generator::char::{ascii as ascii_char, digits};
use smoke::generator::string::{ascii, string};
use smoke::generator::{
    array, constant, num, product4, product6, range, tuple2, tuple3, tuple6, Array,
};
use smoke::rand::SourceOp;
use smoke::{Generator, Seed, R};

fn source(k: u128) -> R {
    R::from_seed(Seed::from(0xfeed_0000_0000_0000_0000_0000_0000_0000 + k))
}

#[test]
fn tuples_draw_each_component_from_its_own_child() {
    let mut r = source(1);
    let mut expect = source(1);
    let (a, b, c) = tuple3(num::<u32>(), num::<u32>(), num::<u32>()).gen(&mut r).unwrap();
    assert_eq!(a, expect.sub().next());
    assert_eq!(b, expect.sub().next());
    assert_eq!(c, expect.sub().next());
    assert_eq!(r.next(), expect.next());
    let t = tuple6(
        constant(1u8),
        constant(2u16),
        constant(3u32),
        constant(4u64),
        constant('x'),
        constant(true),
    );
    assert_eq!(t.gen(&mut r), Ok((1, 2, 3, 4, 'x', true)));
    assert_eq!(tuple2(constant(1), constant(2)).gen(&mut r), Ok((1, 2)));
}

#[test]
fn wide_products_apply_the_function() {
    let mut r = source(2);
    let four_args = product4(constant(1u32), constant(2u32), constant(3u32), constant(4u32), |a: u32, b: u32, c: u32, d: u32| a * 1000 + b * 100 + c * 10 + d);
    assert_eq!(four_args.gen(&mut r), Ok(1234));
    let six_args = product6(
        range(0u8..9),
        range(0u8..9),
        range(0u8..9),
        range(0u8..9),
        range(0u8..9),
        range(0u8..9),
        |a: u8, b: u8, c: u8, d: u8, e: u8, f: u8| [a, b, c, d, e, f],
    );
    for _ in 0..100 {
        assert!(six_args.gen(&mut r).unwrap().iter().all(|v| *v <= 9));
    }
}

#[test]
fn characters_and_strings() {
    let mut r = source(3);
    for _ in 0..500 {
        let c = ascii_char().gen(&mut r).unwrap() as u32;
        assert!((0x20..=0x7e).contains(&c));
        assert!(digits().gen(&mut r).unwrap().is_ascii_digit());
    }
    let s = ascii(constant(12usize)).gen(&mut r).unwrap();
    assert_eq!(s.chars().count(), 12);
    assert!(s.chars().all(|c| (0x20..=0x7e).contains(&(c as u32))));
    let four_digits = string(constant(4usize), digits()).gen(&mut r).unwrap();
    assert_eq!(four_digits.len(), 4);
    assert!(four_digits.chars().all(|c| c.is_ascii_digit()));
    let short = string(range(1usize..8), ascii_char());
    for _ in 0..50 {
        let n = short.gen(&mut r).unwrap().chars().count();
        assert!((1..=8).contains(&n));
    }
}

#[test]
fn arrays_of_fixed_length() {
    let mut r = source(4);
    let g: Array<_, 32> = array(range(1u32..45));
    let a = g.gen(&mut r).unwrap();
    assert_eq!(a.len(), 32);
    assert!(a.iter().all(|v| (1..=45).contains(v)));
    let same: [u8; 3] = Array::new(constant(7u8)).gen(&mut r).unwrap();
    assert_eq!(same, [7, 7, 7]);
}

#[test]
fn boxed_generator_draws_the_same() {
    let mut a = source(5);
    let mut b = source(5);
    let g = range(0u64..1_000_000);
    let boxed = range(0u64..1_000_000).into_boxed();
    for _ in 0..20 {
        assert_eq!(g.gen(&mut a), boxed.gen(&mut b));
    }
}

#[test]
fn replay_matches_direct_calls() {
    let ops = [
        SourceOp::Next,
        SourceOp::Sub,
        SourceOp::Bool,
        SourceOp::Next,
        SourceOp::Ascii,
        SourceOp::Codepoint,
        SourceOp::Sub,
    ];
    let mut a = source(6);
    let mut b = source(6);
    let words = a.replay(&ops);
    let mut direct = Vec::new();
    for op in ops {
        match op {
            SourceOp::Next => direct.push(b.next()),
            SourceOp::Sub => direct.push(b.sub().next()),
            SourceOp::Bool => direct.push(b.bool() as u32),
            SourceOp::Ascii => direct.push(b.ascii() as u32),
            SourceOp::Codepoint => direct.push(b.codepoint() as u32),
        }
    }
    assert_eq!(words, direct);
    let mut c = source(6);
    assert_eq!(c.replay(&ops), words);
    assert_eq!(a.next(), b.next());
}

#[test]
fn such_that_gives_the_first_accepted_candidate_of_the_same_stream() {
    let g = smoke::generator::such_that(num::<u32>(), |n: &u32| n % 7 == 3);
    for k in 0..20u128 {
        let mut r = source(100 + k);
        let mut copy = source(100 + k);
        let v = g.gen(&mut r).unwrap();
        let mut expected = copy.next();
        while expected % 7 != 3 {
            expected = copy.next();
        }
        assert_eq!(v, expected);
        assert_eq!(r.next(), copy.next());
    }
}

#[test]
fn such_that_gives_up_after_exactly_the_budget_plus_one() {
    let g = smoke::generator::such_that(num::<u32>(), |_: &u32| false);
    let mut r = source(7);
    let mut copy = source(7);
    assert!(g.gen(&mut r).is_err());
    for _ in 0..1001 {
        copy.next();
    }
    assert_eq!(r.next(), copy.next());
}
