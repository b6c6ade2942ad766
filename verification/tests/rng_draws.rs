use tile_world::rng::{from_seed, new_seed, range, shuffle, xorshift, Xs};

#[test]
fn first_draws_are_known() {
    let mut rng = Xs { a: 1, b: 2, c: 3, d: 4 };
    assert_eq!(xorshift(&mut rng), 8229);
    assert_eq!(rng, Xs { a: 8229, b: 1, c: 2, d: 3 });
    assert_eq!(xorshift(&mut rng), 14398);
    assert_eq!(xorshift(&mut rng), 10284);
    assert_eq!(xorshift(&mut rng), 8229);
}

#[test]
fn seed_bytes_are_read_lowest_first() {
    let seed = [0, 1, 2, 3, 4, 5, 6, 7, 8, 9, 10, 11, 12, 13, 14, 15];
    let mut rng = from_seed(seed);
    assert_eq!(rng, Xs { a: 0x0302_0100, b: 0x0706_0504, c: 0x0B0A_0908, d: 0x0F0E_0D0C });
    assert_eq!(xorshift(&mut rng), 2082146817);
    assert_eq!(xorshift(&mut rng), 654446275);
    assert_eq!(xorshift(&mut rng), 270205186);
}

#[test]
fn zero_seed_is_replaced() {
    let rng = from_seed([0; 16]);
    assert_eq!(rng, Xs { a: 0x0BAD_5EED, b: 0x0BAD_5EED, c: 0x0BAD_5EED, d: 0x0BAD_5EED });
}

#[test]
fn range_adds_the_lower_bound() {
    let mut rng = Xs { a: 1, b: 2, c: 3, d: 4 };
    // 8229 % 10 + 10
    assert_eq!(range(&mut rng, 10, 20), 19);
    assert_eq!(rng, Xs { a: 8229, b: 1, c: 2, d: 3 });
}

#[test]
fn range_stays_inside() {
    let mut rng = from_seed([7; 16]);
    for _ in 0..1000 {
        let drawn = range(&mut rng, 3, 8);
        assert!(3 <= drawn && drawn < 8);
    }
}

#[test]
fn shuffle_is_known_and_keeps_the_items() {
    let mut rng = Xs { a: 1, b: 2, c: 3, d: 4 };
    let mut items = [0, 1, 2, 3];
    shuffle(&mut rng, &mut items);
    assert_eq!(items, [3, 2, 1, 0]);
    let mut rng = Xs { a: 5, b: 2, c: 0, d: 0 };
    let mut items = [10, 11, 12, 13];
    shuffle(&mut rng, &mut items);
    assert_eq!(items, [10, 11, 12, 13]);
    let mut rng = from_seed([9; 16]);
    let mut many = [0u32; 100];
    for i in 0..100 {
        many[i] = i as u32;
    }
    shuffle(&mut rng, &mut many);
    let mut sorted = many;
    sorted.sort();
    for i in 0..100 {
        assert_eq!(sorted[i], i as u32);
    }
}

#[test]
fn shuffle_of_one_draws_nothing() {
    let mut rng = Xs { a: 1, b: 2, c: 3, d: 4 };
    let mut one = [7];
    shuffle(&mut rng, &mut one);
    assert_eq!(one, [7]);
    assert_eq!(rng, Xs { a: 1, b: 2, c: 3, d: 4 });
    let mut none: [u8; 0] = [];
    shuffle(&mut rng, &mut none);
    assert_eq!(rng, Xs { a: 1, b: 2, c: 3, d: 4 });
}

#[test]
fn new_seed_takes_four_draws() {
    let mut rng = Xs { a: 1, b: 2, c: 3, d: 4 };
    let seed = new_seed(&mut rng);
    assert_eq!(seed, [37, 32, 0, 0, 62, 56, 0, 0, 44, 40, 0, 0, 37, 32, 0, 0]);
    let mut other = Xs { a: 1, b: 2, c: 3, d: 4 };
    for _ in 0..4 {
        xorshift(&mut other);
    }
    assert_eq!(rng, other);
}
