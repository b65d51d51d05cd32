use hantu::generators::{
    GeneratorTrait, Lehmer64, RomuDuoJr, RomuTrio, SplitMix64, Wyhash64, XorShiro128ss,
    XorShiro256ss, Xorshift64,
};
use hantu::prng::{Generator, Rng, SPECIAL_CHAR};
use hantu::shishua::ShiShua;
use hantu::seed::{generate_seeds, ENTROPY};
use hantu::utils::hstr_to_int;

fn all_generators(seed: usize) -> Vec<Generator> {
    vec![
        Generator::Xorshift64(Xorshift64::new(seed)),
        Generator::RomuDuoJr(RomuDuoJr::new(seed)),
        Generator::RomuTrio(RomuTrio::new(seed)),
        Generator::SplitMix64(SplitMix64::new(seed)),
        Generator::XorShiro128ss(XorShiro128ss::new(seed)),
        Generator::XorShiro256ss(XorShiro256ss::new(seed)),
        Generator::Lehmer64(Lehmer64::new(seed)),
        Generator::Wyhash64(Wyhash64::new(seed)),
        Generator::ShiShua(ShiShua::new(seed)),
    ]
}

#[test]
fn same_seed_same_stream() {
    let mut a = Xorshift64::new(0x1234);
    let mut b = Xorshift64::new(0x1234);
    for _ in 0..1000 {
        assert_eq!(a.rand(), b.rand());
    }
    let mut c = Xorshift64::from_chain_base(0);
    let mut d = Xorshift64::from_chain_base(0);
    for _ in 0..1000 {
        assert_eq!(c.rand(), d.rand());
    }
}

#[test]
fn xorshift_first_value_is_the_mixed_seed() {
    let mut g = Xorshift64::new(1);
    assert_eq!(g.rand(), (1 ^ ENTROPY) as usize);
    let mut h = Xorshift64::new(1);
    h.rand();
    let s = 1 ^ ENTROPY;
    let s = s ^ (s << 13);
    let s = s ^ (s >> 17);
    let s = s ^ (s << 43);
    assert_eq!(h.rand(), s as usize);
}

#[test]
fn seeds_chain_from_the_user_seed() {
    let s = generate_seeds(5, 3);
    let w = 5 ^ ENTROPY;
    let x = w ^ ENTROPY ^ 1;
    let y = x ^ ENTROPY ^ 2;
    assert_eq!(s.state_w, w as usize);
    assert_eq!(s.state_x, x as usize);
    assert_eq!(s.state_y, y as usize);
    assert_eq!(s.state_z, 0);
}

#[test]
fn zero_seed_draws_from_the_clock() {
    let a = generate_seeds(0, 1);
    let differs = (0..100_000).any(|_| generate_seeds(0, 1).state_w != a.state_w);
    assert!(differs);
}

#[test]
fn splitmix_known_first_value() {
    // SplitMix64 from state 0: the first output of the reference algorithm.
    let mut g = SplitMix64 { state: 0 };
    assert_eq!(g.rand(), 0xe220a8397b1dcdaf);
}

#[test]
fn set_seed_keeps_the_kind() {
    let mut g = Generator::Lehmer64(Lehmer64::new(9));
    g.set_seed(11);
    assert_eq!(g, Generator::Lehmer64(Lehmer64::new(11)));
}

#[test]
fn rand_two_is_sorted_and_distinct() {
    for g in all_generators(42) {
        let mut prng = Rng::new(g);
        for k in 2..200usize {
            let (a, b) = prng.rand_two(k);
            assert!(a < b && b < k);
        }
        assert_eq!(prng.rand_two(1), (0, 1));
        assert_eq!(prng.rand_two(0), (0, 1));
    }
}

#[test]
fn rand_range_bounds() {
    let mut prng = Rng::new(Generator::Xorshift64(Xorshift64::new(3)));
    assert_eq!(prng.rand_range(7, 7), 7);
    for _ in 0..1000 {
        let v = prng.rand_range(10, 20);
        assert!((10..20).contains(&v));
    }
    let mut p1 = Rng::new(Generator::Xorshift64(Xorshift64::new(3)));
    let mut p2 = Rng::new(Generator::Xorshift64(Xorshift64::new(3)));
    let raw = p2.rand();
    assert_eq!(p1.rand_range(5, 105), 5 + raw % 100);
}

#[test]
fn rand_exp_stays_in_range() {
    let mut prng = Rng::new(Generator::Wyhash64(Wyhash64::new(3))).set_rand_exp(true);
    for _ in 0..1000 {
        let v = prng.rand_exp(3, 50);
        assert!((3..50).contains(&v));
    }
}

#[test]
fn shuffle_two_always_swaps() {
    let mut prng = Rng::new(Generator::RomuTrio(RomuTrio::new(8)));
    for _ in 0..100 {
        let mut v = [1u8, 2u8];
        prng.shuffle(&mut v);
        assert_eq!(v, [2, 1]);
    }
}

#[test]
fn shuffle_is_a_permutation() {
    let mut prng = Rng::new(Generator::XorShiro256ss(XorShiro256ss::new(8)));
    for n in 0..40usize {
        let mut v: Vec<usize> = (0..n).collect();
        prng.shuffle(&mut v);
        let mut sorted = v.clone();
        sorted.sort();
        assert_eq!(sorted, (0..n).collect::<Vec<_>>());
    }
}

#[test]
fn bytes_and_chars() {
    let mut prng = Rng::new(Generator::XorShiro128ss(XorShiro128ss::new(8)));
    let v = prng.rand_byte_vec(1000);
    assert_eq!(v.len(), 1000);
    assert!(v.iter().all(|&b| b < 255));
    for _ in 0..1000 {
        let c = prng.rand_char();
        assert!(c < 255 || SPECIAL_CHAR.contains(&c));
    }
    let entries = [10, 20, 30];
    for _ in 0..100 {
        assert!(entries.contains(&prng.pick(&entries)));
        assert!(entries.contains(prng.pick_ref(&entries)));
    }
    assert!(prng.bool_chance(1));
}

#[test]
fn gen_range_is_inclusive_and_fill_bytes_fills() {
    let mut prng = Rng::new(Generator::Xorshift64(Xorshift64::new(77)));
    let mut seen_max = false;
    for _ in 0..2000 {
        let v = prng.gen_range(0, 3);
        assert!(v <= 3);
        seen_max |= v == 3;
    }
    assert!(seen_max);
    let mut buf = vec![1u8, 2, 3];
    prng.fill_bytes(&mut buf, 20);
    assert!(buf.len() >= 20);
    assert_eq!(&buf[..3], &[1, 2, 3]);
    assert!(buf[3..].iter().any(|&b| b != 0));
}

/// Chi-squared statistic of samples binned into 100 equal-width bins.
fn chi_squared(prng: &mut Rng, samples: usize) -> f64 {
    let mut bins = [0u64; 100];
    for _ in 0..samples {
        let v = prng.rand() as u64;
        let bin = ((v as u128 * 100) >> 64) as usize;
        bins[bin] += 1;
    }
    let expected = samples as f64 / 100.0;
    bins.iter().map(|&o| (o as f64 - expected).powi(2) / expected).sum()
}

#[test]
fn generators_are_uniform() {
    // The 0.01 critical value of the chi-squared distribution with 99 degrees of freedom.
    let critical = 134.642;
    for g in all_generators(0x5eed) {
        let mut prng = Rng::new(g);
        let stat = chi_squared(&mut prng, 1_000_000);
        assert!(stat < critical, "chi-squared {stat} too large");
    }
}

#[test]
fn generators_have_high_entropy() {
    for g in all_generators(0xfeed) {
        let mut prng = Rng::new(g);
        let mut counts = [0u64; 256];
        let n_bytes = 3 * 1024 * 1024;
        for _ in 0..n_bytes / 8 {
            let v = prng.rand() as u64;
            for b in v.to_le_bytes() {
                counts[b as usize] += 1;
            }
        }
        let total = n_bytes as f64;
        let h: f64 = counts
            .iter()
            .filter(|&&c| c > 0)
            .map(|&c| {
                let p = c as f64 / total;
                -p * p.log2()
            })
            .sum();
        assert!(h >= 7.95, "entropy {h} too low");
    }
}

#[test]
fn hex_strings() {
    assert_eq!(hstr_to_int("0x1A"), Some(26));
    assert_eq!(hstr_to_int("1A"), Some(26));
    assert_eq!(hstr_to_int("26"), Some(38));
    assert_eq!(hstr_to_int("0xffffffffffffffff"), Some(usize::MAX));
    assert_eq!(hstr_to_int("0x10000000000000000"), None);
    assert_eq!(hstr_to_int(""), None);
    assert_eq!(hstr_to_int("0x"), None);
    assert_eq!(hstr_to_int("0xg1"), None);
    assert_eq!(hstr_to_int("+f"), Some(15));
}

#[test]
fn distinct_draws() {
    let mut prng = Rng::new(Generator::SplitMix64(SplitMix64::new(21)));
    let v = prng.rand_range_vec(10, 20, 10);
    let mut sorted = v.clone();
    sorted.sort();
    assert_eq!(sorted, (10..20).collect::<Vec<_>>());
    let w = prng.rand_range_vec(0, 1000, 50);
    assert_eq!(w.len(), 50);
    let mut d = w.clone();
    d.sort();
    d.dedup();
    assert_eq!(d.len(), 50);
    let entries = [7u8; 12];
    let idx = prng.choose_multiple(&entries, 5);
    assert_eq!(idx.len(), 5);
    assert!(idx.iter().all(|&i| i < 12));
    assert!(prng.rand_range_vec(5, 5, 0).is_empty());
}

#[test]
fn shishua_same_seed_same_stream() {
    let mut a = ShiShua::new(99);
    let mut b = ShiShua::new(99);
    let mut c = ShiShua::new(100);
    let mut differs = false;
    for _ in 0..100 {
        let x = a.rand();
        assert_eq!(x, b.rand());
        differs |= x != c.rand();
    }
    assert!(differs);
}
