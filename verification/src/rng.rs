use vstd::prelude::*;

verus! {

/// Sixteen bytes from which a generator is made.
pub type Seed = [u8; 16];

/// A xorshift generator with 128 bits of state.
#[derive(Clone, Copy, Debug, PartialEq, Eq, Structural)]
pub struct Xs {
    pub a: u32,
    pub b: u32,
    pub c: u32,
    pub d: u32,
}

/// The word whose bytes, lowest first, are `b0`, `b1`, `b2`, `b3`.
pub open spec fn word_of(b0: u8, b1: u8, b2: u8, b3: u8) -> u32 {
    (b0 as u32) | ((b1 as u32) << 8) | ((b2 as u32) << 16) | ((b3 as u32) << 24)
}

/// The four bytes of `word`, lowest first.
pub open spec fn bytes_of(word: u32) -> Seq<u8> {
    seq![
        (word & 0xFF) as u8,
        ((word >> 8) & 0xFF) as u8,
        ((word >> 16) & 0xFF) as u8,
        ((word >> 24) & 0xFF) as u8,
    ]
}

/// The state that all generators made from an all-zero seed start in: xorshift never leaves
/// the all-zero state, so that seed is replaced.
pub open spec fn fallback() -> Xs {
    Xs { a: 0x0BAD_5EED, b: 0x0BAD_5EED, c: 0x0BAD_5EED, d: 0x0BAD_5EED }
}

/// The generator that `seed` gives.
pub open spec fn seeded(seed: Seq<u8>) -> Xs
    recommends
        seed.len() == 16,
{
    let direct = Xs {
        a: word_of(seed[0], seed[1], seed[2], seed[3]),
        b: word_of(seed[4], seed[5], seed[6], seed[7]),
        c: word_of(seed[8], seed[9], seed[10], seed[11]),
        d: word_of(seed[12], seed[13], seed[14], seed[15]),
    };
    if direct.a == 0 && direct.b == 0 && direct.c == 0 && direct.d == 0 {
        fallback()
    } else {
        direct
    }
}

/// The state after one draw; the number drawn is its field `a`.
pub open spec fn stepped(s: Xs) -> Xs {
    let t1 = s.d ^ (s.d << 11);
    let t2 = t1 ^ (t1 >> 8);
    Xs { a: t2 ^ s.a ^ (s.a >> 19), b: s.a, c: s.b, d: s.c }
}

/// The state after `n` draws.
pub open spec fn stepped_by(s: Xs, n: nat) -> Xs
    decreases n,
{
    if n == 0 {
        s
    } else {
        stepped_by(stepped(s), (n - 1) as nat)
    }
}

/// The number that a draw from `s` gives in `min..max`.
pub open spec fn ranged(s: Xs, min: u32, max: u32) -> u32
    recommends
        min < max,
{
    ((stepped(s).a % ((max - min) as u32)) + min) as u32
}

/// The seed that is drawn from `s`, which takes four draws.
pub open spec fn drawn_seed(s: Xs) -> Seq<u8> {
    bytes_of(stepped_by(s, 1).a) + bytes_of(stepped_by(s, 2).a) + bytes_of(stepped_by(s, 3).a)
        + bytes_of(stepped_by(s, 4).a)
}

/// `items` after the draws from `s` have shuffled everything from index `i` on: the item at
/// each index in turn changes places with one at a drawn index not after it. The state after
/// the last draw comes with it.
pub open spec fn shuffled_from<A>(s: Xs, items: Seq<A>, i: int) -> (Xs, Seq<A>)
    decreases items.len() - i,
{
    if 1 <= i < items.len() && i < u32::MAX {
        let r = ranged(s, 0, (i + 1) as u32) as int;
        let swapped = items.update(i, items[r]).update(r, items[i]);
        shuffled_from(stepped(s), swapped, i + 1)
    } else {
        (s, items)
    }
}

/// `items` shuffled by draws from `s`, and the state after the last draw.
pub open spec fn shuffled<A>(s: Xs, items: Seq<A>) -> (Xs, Seq<A>) {
    shuffled_from(s, items, 1)
}

fn word(b0: u8, b1: u8, b2: u8, b3: u8) -> (r: u32)
    ensures
        r == word_of(b0, b1, b2, b3),
{
    (b0 as u32) | ((b1 as u32) << 8) | ((b2 as u32) << 16) | ((b3 as u32) << 24)
}

/// Makes a generator from `seed`.
pub fn from_seed(seed: Seed) -> (r: Xs)
    ensures
        r == seeded(seed@),
{
    let direct = Xs {
        a: word(seed[0], seed[1], seed[2], seed[3]),
        b: word(seed[4], seed[5], seed[6], seed[7]),
        c: word(seed[8], seed[9], seed[10], seed[11]),
        d: word(seed[12], seed[13], seed[14], seed[15]),
    };
    if direct.a == 0 && direct.b == 0 && direct.c == 0 && direct.d == 0 {
        Xs { a: 0x0BAD_5EED, b: 0x0BAD_5EED, c: 0x0BAD_5EED, d: 0x0BAD_5EED }
    } else {
        direct
    }
}

/// Draws the next number.
pub fn xorshift(xs: &mut Xs) -> (r: u32)
    ensures
        *final(xs) == stepped(*old(xs)),
        r == final(xs).a,
{
    let mut t: u32 = xs.d;
    let s: u32 = xs.a;
    t ^= t << 11;
    t ^= t >> 8;
    let drawn: u32 = t ^ s ^ (s >> 19);
    *xs = Xs { a: drawn, b: s, c: xs.b, d: xs.c };
    drawn
}

/// Draws a number that is at least `min` and less than `max`.
pub fn range(xs: &mut Xs, min: u32, max: u32) -> (r: u32)
    requires
        min < max,
    ensures
        *final(xs) == stepped(*old(xs)),
        r == ranged(*old(xs), min, max),
        min <= r < max,
{
    let drawn: u32 = xorshift(xs);
    (drawn % (max - min)) + min
}

/// Draws a seed for another generator.
pub fn new_seed(xs: &mut Xs) -> (r: Seed)
    ensures
        *final(xs) == stepped_by(*old(xs), 4),
        r@ == drawn_seed(*old(xs)),
{
    let ghost start = *xs;
    let w0: u32 = xorshift(xs);
    let w1: u32 = xorshift(xs);
    let w2: u32 = xorshift(xs);
    let w3: u32 = xorshift(xs);
    proof {
        reveal_with_fuel(stepped_by, 5);
        assert(w0 == stepped_by(start, 1).a);
        assert(w1 == stepped_by(start, 2).a);
        assert(w2 == stepped_by(start, 3).a);
        assert(w3 == stepped_by(start, 4).a);
    }
    let seed: Seed = [
        (w0 & 0xFF) as u8,
        ((w0 >> 8) & 0xFF) as u8,
        ((w0 >> 16) & 0xFF) as u8,
        ((w0 >> 24) & 0xFF) as u8,
        (w1 & 0xFF) as u8,
        ((w1 >> 8) & 0xFF) as u8,
        ((w1 >> 16) & 0xFF) as u8,
        ((w1 >> 24) & 0xFF) as u8,
        (w2 & 0xFF) as u8,
        ((w2 >> 8) & 0xFF) as u8,
        ((w2 >> 16) & 0xFF) as u8,
        ((w2 >> 24) & 0xFF) as u8,
        (w3 & 0xFF) as u8,
        ((w3 >> 8) & 0xFF) as u8,
        ((w3 >> 16) & 0xFF) as u8,
        ((w3 >> 24) & 0xFF) as u8,
    ];
    assert(seed@ =~= drawn_seed(start));
    seed
}

/// Shuffles `items` in place.
pub fn shuffle<A: Copy, const N: usize>(xs: &mut Xs, items: &mut [A; N])
    ensures
        (*final(xs), final(items)@) == shuffled(*old(xs), old(items)@),
        final(items)@.to_multiset() == old(items)@.to_multiset(),
{
    let mut i: usize = 1;
    while i < N && i < u32::MAX as usize
        invariant
            1 <= i,
            items@.len() == N,
            shuffled_from(*xs, items@, i as int) == shuffled(*old(xs), old(items)@),
            items@.to_multiset() == old(items)@.to_multiset(),
        decreases N - i,
    {
        let ghost before = items@;
        let r: usize = range(xs, 0, i as u32 + 1) as usize;
        let at_i: A = items[i];
        let at_r: A = items[r];
        items[i] = at_r;
        items[r] = at_i;
        proof {
            assert(items@ =~= before.update(i as int, before[r as int]).update(
                r as int,
                before[i as int],
            ));
            lemma_swap_keeps_items(before, i as int, r as int);
        }
        i += 1;
    }
}

/// One draw more than `n` draws is `n + 1` draws.
pub proof fn lemma_stepped_by_more(s: Xs, n: nat)
    ensures
        stepped(stepped_by(s, n)) == stepped_by(s, n + 1),
    decreases n,
{
    reveal_with_fuel(stepped_by, 3);
    if n > 0 {
        lemma_stepped_by_more(stepped(s), (n - 1) as nat);
        assert(stepped_by(s, n) == stepped_by(stepped(s), (n - 1) as nat));
        assert(stepped_by(s, n + 1) == stepped_by(stepped(s), n));
    }
}

/// Two items of a sequence changing places leaves the same items, each as often as before.
pub proof fn lemma_swap_keeps_items<A>(s: Seq<A>, i: int, j: int)
    requires
        0 <= i < s.len(),
        0 <= j < s.len(),
    ensures
        s.update(i, s[j]).update(j, s[i]).to_multiset() == s.to_multiset(),
{
    let mid = s.update(i, s[j]);
    vstd::seq_lib::to_multiset_update(s, i, s[j]);
    vstd::seq_lib::to_multiset_update(mid, j, s[i]);
    s.to_multiset_ensures();
    assert(s.contains(s[i]));
    assert(s.contains(s[j]));
    assert(mid.update(j, s[i]).to_multiset() =~= s.to_multiset());
}

} // verus!
