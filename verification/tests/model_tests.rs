use cp_ai::candidates::{Intent, INTENT_COUNT, LOCAL_DIM};
use cp_ai::cnn::{idx, in_ch_out, Lcg};
use cp_ai::features::GLOBAL_DIM;
use cp_ai::mlp::{param_count, Genome};
use cp_ai::policy::{default_arch, XorShift32, POLICY_INPUT_DIM};
use cp_ai::policy_spatial::{default_arch_spatial, warmstart_spatial, POLICY_INPUT_DIM_SPATIAL};
use cp_ai::spatial_arch::SpatialArch;

fn xorshift32(mut s: u32) -> u32 {
    s ^= s << 13;
    s ^= s >> 17;
    s ^= s << 5;
    s
}

fn js_seed(seed: u32) -> u32 {
    let prod = (seed as f64) * 2654435761.0;
    let s = prod.rem_euclid(4294967296.0) as u32;
    if s == 0 {
        0x9e3779b9
    } else {
        s
    }
}

#[test]
fn xorshift32_matches_the_f64_seed_scramble() {
    for seed in [0u32, 1, 2, 7, 12345, 0xC0FFEE, 0x8000_0000, u32::MAX, 4_000_000_000] {
        let mut r = XorShift32::new(seed);
        let expect = xorshift32(js_seed(seed));
        assert_eq!(r.next_u32(), expect, "seed {seed}");
        assert_eq!(r.next_u32(), xorshift32(expect), "seed {seed}");
    }
    // seed 0 scrambles to 0 and falls back to the golden-ratio constant
    let mut z = XorShift32::new(0);
    assert_eq!(z.next_u32(), xorshift32(0x9e3779b9));
}

#[test]
fn lcg_is_xorshift64_of_the_scrambled_seed() {
    let step = |mut x: u64| {
        x ^= x << 13;
        x ^= x >> 7;
        x ^= x << 17;
        x
    };
    let mut g = Lcg::new(0);
    let s0 = 0x9e37_79b9_7f4a_7c15u64;
    assert_eq!(g.next_u64(), step(s0));
    // the seed that scrambles to zero starts from the fixed state
    let mut h = Lcg::new(0x9e37_79b9_7f4a_7c15);
    assert_eq!(h.next_u64(), step(0x1234_5678_9abc_def0));
}

#[test]
fn feature_map_layout() {
    assert_eq!(idx(0, 0, 0, 12, 12), 0);
    assert_eq!(idx(2, 3, 4, 12, 12), (2 * 12 + 3) * 12 + 4);
    assert_eq!(in_ch_out(3, 144), 432);
    assert_eq!(in_ch_out(3, 144), idx(3, 0, 0, 12, 12));
}

#[test]
fn input_dimensions() {
    assert_eq!(GLOBAL_DIM, 36);
    assert_eq!(INTENT_COUNT, 16);
    assert_eq!(LOCAL_DIM, 16);
    assert_eq!(POLICY_INPUT_DIM, 68);
    assert_eq!(POLICY_INPUT_DIM_SPATIAL, 74);
    assert_eq!(default_arch(), [68, 24, 16, 1]);
    assert_eq!(default_arch_spatial()[0], 74);
}

#[test]
fn param_count_sums_layers() {
    assert_eq!(param_count(&[68, 24, 16, 1]), 68 * 24 + 24 + 24 * 16 + 16 + 16 + 1);
    assert_eq!(param_count(&[5]), 0);
    assert_eq!(param_count(&[]), 0);
    let g = Genome::zero(&[3, 2, 1], 0.0f64);
    assert_eq!(g.params.len(), 11);
    assert!(g.params.iter().all(|&p| p == 0.0));
}

/// A He-style random policy genome (SplitMix64 stream, zero biases).
fn random_genome(arch: &[usize], seed: u64) -> Genome<f64> {
    let mut params = vec![0.0; param_count(arch)];
    let mut s = seed.wrapping_add(0x9E3779B97F4A7C15);
    let mut next = || {
        s = s.wrapping_add(0x9E3779B97F4A7C15);
        let mut z = s;
        z = (z ^ (z >> 30)).wrapping_mul(0xBF58476D1CE4E5B9);
        z = (z ^ (z >> 27)).wrapping_mul(0x94D049BB133111EB);
        z ^= z >> 31;
        ((z >> 11) as f64 / (1u64 << 53) as f64) * 2.0 - 1.0
    };
    let mut offset = 0usize;
    for l in 0..arch.len() - 1 {
        let (nin, nout) = (arch[l], arch[l + 1]);
        let scale = 1.0 / (nin as f64).sqrt();
        for j in 0..nout {
            for i in 0..nin {
                params[offset + j * nin + i] = next() * scale;
            }
        }
        offset += nin * nout + nout;
    }
    Genome { arch: arch.to_vec(), params }
}

/// The network's score: tanh hidden layers, a linear output.
fn score(g: &Genome<f64>, input: &[f64]) -> f64 {
    let mut act = input.to_vec();
    let mut offset = 0usize;
    for l in 0..g.arch.len() - 1 {
        let (nin, nout) = (g.arch[l], g.arch[l + 1]);
        let hidden = l < g.arch.len() - 2;
        act = (0..nout)
            .map(|j| {
                let sum = g.params[offset + nin * nout + j]
                    + (0..nin).map(|i| g.params[offset + j * nin + i] * act[i]).sum::<f64>();
                if hidden {
                    sum.tanh()
                } else {
                    sum
                }
            })
            .collect();
        offset += nin * nout + nout;
    }
    act[0]
}

#[test]
fn warmstart_predicts_identically_to_base() {
    // A warm-started spatial net scores exactly as its base for any input,
    // whatever the six spatial features (their weights are 0).
    let base = random_genome(&default_arch().to_vec(), 7);
    let sp = warmstart_spatial(&base, 0.0);
    assert_eq!(sp.arch, vec![POLICY_INPUT_DIM_SPATIAL, 24, 16, 1]);
    assert_eq!(sp.params.len(), param_count(&sp.arch));
    let base_inp: Vec<f64> = (0..POLICY_INPUT_DIM).map(|i| (i as f64) * 0.013 - 0.4).collect();
    for spatial6 in [[0.0; 6], [0.5, -0.5, 1.0, 0.2, 0.7, -0.1], [1.0; 6]] {
        let mut sp_inp = base_inp.clone();
        sp_inp.extend_from_slice(&spatial6);
        let sb = score(&base, &base_inp);
        let ss = score(&sp, &sp_inp);
        assert!((sb - ss).abs() < 1e-12, "warm-start diverged: base {sb} spatial {ss}");
    }
}

#[test]
fn warmstart_layout_keeps_base_weights() {
    let arch = default_arch().to_vec();
    let n = param_count(&arch);
    let base = Genome { arch: arch.clone(), params: (0..n).map(|i| (i as f64) * 0.001 - 0.3).collect::<Vec<f64>>() };
    let sp = warmstart_spatial(&base, 0.0);
    // the first layer keeps the base weights and gives the new inputs weight 0
    let (in_old, in_new, h1) = (arch[0], POLICY_INPUT_DIM_SPATIAL, arch[1]);
    for j in 0..h1 {
        for i in 0..in_new {
            let w = sp.params[j * in_new + i];
            if i < in_old {
                assert_eq!(w, base.params[j * in_old + i]);
            } else {
                assert_eq!(w, 0.0);
            }
        }
    }
    // biases and later layers are copied unchanged
    assert_eq!(&sp.params[h1 * in_new..], &base.params[h1 * in_old..]);
}

#[test]
fn intent_indices_round_trip() {
    for i in 0..INTENT_COUNT {
        let it = Intent::from_index(i).unwrap();
        assert_eq!(it.index(), i);
    }
    assert!(Intent::from_index(INTENT_COUNT).is_none());
    assert_eq!(Intent::Pass.index(), 10);
    assert_eq!(Intent::MarchSoldier.index(), 15);
}

#[test]
fn round3_default_arch_param_count() {
    let net = SpatialArch::default_with_value_scalars(24, 18, 12, 12);
    assert!(net.residual, "round-3 default uses the residual trunk");
    assert_eq!(net.d1, 32);
    assert_eq!(net.d, 48);
    assert_eq!(net.hv, 64);
    assert_eq!(net.hp, 64);
    assert_eq!(net.param_count(), 53762, "round-3 deployed param count");
}

#[test]
fn small_default_arch_param_count() {
    let net = SpatialArch::default_small_with_value_scalars(24, 18, 12, 12);
    assert!(!net.residual, "small arch has NO residual trunk");
    assert_eq!(net.d1, 16);
    assert_eq!(net.d, 24);
    assert_eq!(net.hv, 24);
    assert_eq!(net.hp, 24);
    assert_eq!(net.param_count(), 9786, "small (round-1/2) param count");
    assert_eq!(net.policy_in_dim(), 2 * 24 + 18 + 12);
    assert_eq!(SpatialArch::default_for(27, 18, 12).value_scalar_dim, 0);
}
