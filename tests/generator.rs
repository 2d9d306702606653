use smoke::generator::{
    and, choice, constant, depends, frequency, num, one_of, or, product2, product3, range,
    such_that, vector, GenFailure,
};
use smoke::{Generator, Seed, R};

fn source(k: u128) -> R {
    R::from_seed(Seed::from(0x0bad_cafe_0000_0000_0000_0000_0000_0000 + k))
}

#[test]
fn same_seed_same_stream() {
    for k in 0..20u128 {
        let mut a = source(k);
        let mut b = source(k);
        for step in 0..50 {
            if step % 7 == 3 {
                let mut ca = a.sub();
                let mut cb = b.sub();
                assert_eq!(ca.next(), cb.next());
            } else {
                assert_eq!(a.next(), b.next());
            }
        }
    }
}

#[test]
fn consecutive_children_differ() {
    let mut same = 0;
    for k in 0..200u128 {
        let mut r = source(k);
        let mut c1 = r.sub();
        let mut c2 = r.sub();
        if c1.next() == c2.next() {
            same += 1;
        }
    }
    assert!(same <= 1);
}

#[test]
fn drawing_from_a_child_leaves_the_sibling_alone() {
    let mut r1 = source(3);
    let mut r2 = source(3);
    let mut a1 = r1.sub();
    let mut b1 = r1.sub();
    let _a2 = r2.sub();
    let mut b2 = r2.sub();
    for _ in 0..10 {
        a1.next();
    }
    assert_eq!(b1.next(), b2.next());
}

#[test]
fn next_bytes_are_little_endian_words() {
    let mut a = source(1);
    let mut b = source(1);
    let mut buf = [0u8; 6];
    a.next_bytes(&mut buf);
    let w0 = b.next().to_le_bytes();
    let w1 = b.next().to_le_bytes();
    assert_eq!(buf, [w0[0], w0[1], w0[2], w0[3], w1[0], w1[1]]);
    assert_eq!(a.next(), b.next());
}

#[test]
fn ascii_and_codepoint_and_bool() {
    let mut r = source(2);
    for _ in 0..1000 {
        assert!((r.ascii() as u32) < 0x80);
        let c = r.codepoint() as u32;
        assert!(c < 0x11_0000 && !(0xD800..0xE000).contains(&c));
    }
    let mut a = source(4);
    let mut b = source(4);
    assert_eq!(a.bool(), b.next() % 2 == 1);
}

#[test]
fn array_fill_matches_single_draws() {
    let mut a = source(5);
    let mut b = source(5);
    let mut buf = [0u16; 5];
    a.array_num(&mut buf);
    for v in buf {
        assert_eq!(v, b.num::<u16>());
    }
    let mut buf = [0i8; 100];
    a.array_num_range(-3, 3, &mut buf);
    assert!(buf.iter().all(|v| (-3..=3).contains(v)));
}

#[test]
fn such_that_odd_gives_only_odd_values() {
    let g = such_that(num::<u32>(), |n: &u32| n % 2 == 1);
    let mut r = source(6);
    for _ in 0..1000 {
        let v = g.gen(&mut r).unwrap();
        assert_eq!(v % 2, 1);
    }
}

#[test]
fn such_that_unreachable_exhausts_retries() {
    let g = such_that(range(0u32..10), |n: &u32| *n > 10);
    let mut r = source(7);
    assert_eq!(g.gen(&mut r), Err(GenFailure::RetriesExhausted));
}

#[test]
fn frequency_three_to_seven() {
    let f = frequency(vec![(3, constant(0u8)), (7, constant(1u8))]);
    let mut r = source(8);
    let mut a = 0u32;
    for _ in 0..100_000 {
        if f.gen(&mut r).unwrap() == 0 {
            a += 1;
        }
    }
    let ratio = a as f64 / 100_000.0;
    assert!((ratio - 0.3).abs() < 0.02, "ratio {}", ratio);
}

#[test]
fn constant_one_of_and_choice() {
    let mut r = source(9);
    assert_eq!(constant(5).gen(&mut r), Ok(5));
    let g = one_of(&[2u8, 4, 8]);
    let c = choice(vec![constant(1u8), constant(2u8)]);
    let mut seen = [false; 3];
    for _ in 0..200 {
        assert!([2u8, 4, 8].contains(&g.gen(&mut r).unwrap()));
        let v = c.gen(&mut r).unwrap();
        seen[v as usize] = true;
    }
    assert!(seen[1] && seen[2]);
}

#[test]
fn single_value_one_of() {
    let mut r = source(10);
    assert_eq!(one_of(&[42i64]).gen(&mut r), Ok(42));
}

#[test]
fn pairs_products_and_alternatives() {
    let mut r = source(11);
    let p = and(range(0u8..3), constant(9u32));
    let m = smoke::generator::map(num::<u16>(), |n: u16| n as u32 + 70_000);
    let s2 = product2(constant(2u64), constant(3u64), |a: u64, b: u64| a * b);
    let s3 = product3(constant(1i32), constant(2i32), constant(3i32), |a: i32, b: i32, c: i32| a + b + c);
    let o = or(constant('a'), constant('b'));
    let d = depends(range(1usize..4), |n: &usize| vector(constant(*n), constant(7u8)));
    for _ in 0..100 {
        let (x, y) = p.gen(&mut r).unwrap();
        assert!(x <= 3 && y == 9);
        assert!(m.gen(&mut r).unwrap() >= 70_000);
        assert_eq!(s2.gen(&mut r), Ok(6));
        assert_eq!(s3.gen(&mut r), Ok(6));
        assert!(['a', 'b'].contains(&o.gen(&mut r).unwrap()));
        let (n, v) = d.gen(&mut r).unwrap();
        assert!((1..=4).contains(&n));
        assert_eq!(v, vec![7u8; n]);
    }
}

#[test]
fn pair_components_come_from_consecutive_children() {
    let mut r = source(12);
    let mut expect = source(12);
    let (a, b) = and(num::<u32>(), num::<u32>()).gen(&mut r).unwrap();
    assert_eq!(a, expect.sub().next());
    assert_eq!(b, expect.sub().next());
    assert_eq!(r.next(), expect.next());
}

#[test]
fn vector_of_drawn_length() {
    let mut r = source(13);
    let g = vector(range(0usize..5), num::<u8>());
    for _ in 0..100 {
        assert!(g.gen(&mut r).unwrap().len() <= 5);
    }
    assert_eq!(vector(constant(0usize), num::<u8>()).gen(&mut r), Ok(vec![]));
}

#[test]
fn same_seed_same_generated_values() {
    let g = vector(range(0usize..8), and(num::<u64>(), range(-5i16..5)));
    let mut a = source(14);
    let mut b = source(14);
    for _ in 0..50 {
        assert_eq!(g.gen(&mut a), g.gen(&mut b));
    }
}
