use ark_bls12_381::{Fq, Fq2, Fr, G1Affine, G2Affine};
use ark_ec::{AffineRepr, CurveGroup};
use ark_ff::{BigInteger, PrimeField};
use ec_precompiles::bls12_381::{
    bls12_381_decode_g1, bls12_381_decode_g2, bls12_381_decode_msm_term,
    bls12_381_decode_msm_terms, bls12_381_decode_pairing_term, bls12_381_decode_pairing_terms,
    bls12_381_g1_classify, bls12_381_g2_classify,
};
use ec_precompiles::point::PointKind;
use ec_precompiles::{
    bls12_381_g1_add, bls12_381_g1_mul, bls12_381_g1_multiexp, bls12_381_g1_output_size,
    bls12_381_pairing, bls12_381_pairing_output_size, Bls12381Result,
};

fn hex(s: &str) -> Vec<u8> {
    (0..s.len() / 2).map(|i| u8::from_str_radix(&s[2 * i..2 * i + 2], 16).unwrap()).collect()
}

fn word(n: u8) -> Vec<u8> {
    let mut w = vec![0u8; 32];
    w[31] = n;
    w
}

/// A field element in its slot of 64 bytes.
fn slot(f: Fq) -> Vec<u8> {
    let mut v = vec![0u8; 16];
    v.extend(f.into_bigint().to_bytes_be());
    v
}

/// A G1 point in two slots of 64 bytes.
fn g1(p: G1Affine) -> Vec<u8> {
    let mut v = slot(p.x);
    v.extend(slot(p.y));
    v
}

/// A G1 point in twice 48 bytes, as G1-MSM reads it.
fn g1_packed(p: G1Affine) -> Vec<u8> {
    let mut v = p.x.into_bigint().to_bytes_be();
    v.extend(p.y.into_bigint().to_bytes_be());
    v
}

fn g2(p: G2Affine) -> Vec<u8> {
    let mut v = slot(p.x.c0);
    v.extend(slot(p.x.c1));
    v.extend(slot(p.y.c0));
    v.extend(slot(p.y.c1));
    v
}

fn msm_chunk(p: &[u8], scalar: &[u8]) -> Vec<u8> {
    let mut v = p.to_vec();
    v.extend_from_slice(scalar);
    v.extend_from_slice(&[0xeeu8; 32]);
    assert_eq!(v.len(), 160);
    v
}

fn generator_bytes() -> Vec<u8> {
    hex(
        "00000000000000000000000000000000\
         17f1d3a73197d7942695638c4fa9ac0fc3688c4f9774b905a14e3a3f171bac58\
         6c55e83ff97a1aeffb3af00adb22c6bb\
         00000000000000000000000000000000\
         08b3f481e3aaa0f1a09e30ed741d8ae4fcf5e095d5d00af600db18cb2c04b3ed\
         d03cc744a2888ae40caa232946c5e7e1",
    )
}

/// The group order plus `n`, which decodes to `n`.
fn fr_order_plus(n: u8) -> Vec<u8> {
    let mut v = hex("73eda753299d7d483339d80809a1d80553bda402fffe5bfeffffffff00000001");
    v[31] += n;
    v
}

/// A point of the G1 curve outside the subgroup of prime order.
fn g1_outside_subgroup() -> G1Affine {
    let mut k = 1u64;
    loop {
        if let Some(p) = G1Affine::get_point_from_x_unchecked(Fq::from(k), false) {
            if !p.is_in_correct_subgroup_assuming_on_curve() {
                return p;
            }
        }
        k += 1;
    }
}

/// A point of the G2 curve outside the subgroup of prime order.
fn g2_outside_subgroup() -> G2Affine {
    let mut k = 1u64;
    loop {
        let x = Fq2::new(Fq::from(k), Fq::from(1u64));
        if let Some(p) = G2Affine::get_point_from_x_unchecked(x, false) {
            if !p.is_in_correct_subgroup_assuming_on_curve() {
                return p;
            }
        }
        k += 1;
    }
}

fn times(n: u64) -> G1Affine {
    (G1Affine::generator() * Fr::from(n)).into_affine()
}

#[test]
fn bls_output_sizes() {
    assert_eq!(bls12_381_g1_output_size(), 128);
    assert_eq!(bls12_381_pairing_output_size(), 32);
}

#[test]
fn generator_is_encoded_as_expected() {
    assert_eq!(g1(G1Affine::generator()), generator_bytes());
}

#[test]
fn g1_add_infinity_and_a_point_gives_the_point() {
    let mut input = vec![0u8; 128];
    input.extend(generator_bytes());
    let mut output = [0xaau8; 128];
    assert_eq!(bls12_381_g1_add(Some(&input), Some(&mut output)), Bls12381Result::Success);
    assert_eq!(output.to_vec(), generator_bytes());

    let mut input = generator_bytes();
    input.extend(vec![0u8; 128]);
    let mut output = [0xaau8; 128];
    assert_eq!(bls12_381_g1_add(Some(&input), Some(&mut output)), Bls12381Result::Success);
    assert_eq!(output.to_vec(), generator_bytes());
}

#[test]
fn g1_add_two_points() {
    let mut input = g1(times(2));
    input.extend(g1(times(3)));
    let mut output = [0xaau8; 130];
    assert_eq!(bls12_381_g1_add(Some(&input), Some(&mut output)), Bls12381Result::Success);
    assert_eq!(output[..128].to_vec(), g1(times(5)));
    assert_eq!(output[128..], [0xaau8; 2]);
}

#[test]
fn g1_add_reads_the_first_256_bytes_only() {
    let mut input = g1(times(2));
    input.extend(g1(times(3)));
    input.extend_from_slice(&[0xffu8; 44]);
    let mut output = [0xaau8; 128];
    assert_eq!(bls12_381_g1_add(Some(&input), Some(&mut output)), Bls12381Result::Success);
    assert_eq!(output.to_vec(), g1(times(5)));
}

#[test]
fn g1_add_a_point_and_itself() {
    let mut input = generator_bytes();
    input.extend(generator_bytes());
    let mut output = [0xaau8; 128];
    assert_eq!(bls12_381_g1_add(Some(&input), Some(&mut output)), Bls12381Result::Success);
    assert_eq!(output.to_vec(), g1(times(2)));
}

#[test]
fn g1_add_a_point_and_its_negative_gives_infinity() {
    let mut input = g1(times(7));
    input.extend(g1(-times(7)));
    let mut output = [0xaau8; 128];
    assert_eq!(bls12_381_g1_add(Some(&input), Some(&mut output)), Bls12381Result::Success);
    assert_eq!(output, [0u8; 128]);
}

#[test]
fn g1_add_rejected_point_succeeds_with_zeros() {
    let mut bad = generator_bytes();
    bad[127] ^= 1;
    let mut input = bad.clone();
    input.extend(generator_bytes());
    let mut output = [0xaau8; 128];
    assert_eq!(bls12_381_g1_add(Some(&input), Some(&mut output)), Bls12381Result::Success);
    assert_eq!(output, [0u8; 128]);

    let mut input = generator_bytes();
    input.extend(g1(g1_outside_subgroup()));
    let mut output = [0xaau8; 128];
    assert_eq!(bls12_381_g1_add(Some(&input), Some(&mut output)), Bls12381Result::Success);
    assert_eq!(output, [0u8; 128]);
}

#[test]
fn g1_add_refuses_bad_shapes() {
    let mut output = [0xaau8; 128];
    assert_eq!(
        bls12_381_g1_add(Some(&[0u8; 255]), Some(&mut output)),
        Bls12381Result::InvalidInput
    );
    assert_eq!(bls12_381_g1_add(None, Some(&mut output)), Bls12381Result::InvalidInput);
    assert_eq!(output, [0xaau8; 128]);
    assert_eq!(bls12_381_g1_add(Some(&[0u8; 256]), None), Bls12381Result::InvalidInput);
    let mut small = [0xaau8; 127];
    assert_eq!(
        bls12_381_g1_add(Some(&[0u8; 256]), Some(&mut small)),
        Bls12381Result::InvalidInput
    );
    assert_eq!(small, [0xaau8; 127]);
}

#[test]
fn g1_add_decodes_whole_slots() {
    // Sixteen bytes of the slot in front of the coordinate take part in the
    // number, which is reduced modulo the field order.
    let order = hex(
        "1a0111ea397fe69a4b1ba7b6434bacd764774b84f38512bf6730d2a0f6b0f624\
         1eabfffeb153ffffb9feffffffffaaab",
    );
    let shifted = |coordinate: &[u8]| {
        // coordinate + order * 2^8, written in 64 bytes
        let mut sum = vec![0u8; 64];
        sum[16..].copy_from_slice(coordinate);
        let mut carry = 0u16;
        for i in (0..48).rev() {
            let s = sum[15 + i] as u16 + order[i] as u16 + carry;
            sum[15 + i] = s as u8;
            carry = s >> 8;
        }
        sum[14] = carry as u8;
        sum
    };
    let generator = generator_bytes();
    let mut input = shifted(&generator[16..64]);
    input.extend(shifted(&generator[80..128]));
    assert!(input[14] != 0 || input[15] != 0);
    input.extend(vec![0u8; 128]);
    let mut output = [0xaau8; 128];
    assert_eq!(bls12_381_g1_add(Some(&input), Some(&mut output)), Bls12381Result::Success);
    assert_eq!(output.to_vec(), generator);
}

#[test]
fn g1_mul_by_two() {
    let mut input = generator_bytes();
    input.extend(word(2));
    let mut output = [0xaau8; 128];
    assert_eq!(bls12_381_g1_mul(Some(&input), Some(&mut output)), Bls12381Result::Success);
    assert_eq!(output.to_vec(), g1(times(2)));
}

#[test]
fn g1_mul_reads_the_first_160_bytes_only() {
    let mut input = generator_bytes();
    input.extend(word(6));
    input.extend_from_slice(&[0xffu8; 7]);
    let mut output = [0xaau8; 131];
    assert_eq!(bls12_381_g1_mul(Some(&input), Some(&mut output)), Bls12381Result::Success);
    assert_eq!(output[..128].to_vec(), g1(times(6)));
    assert_eq!(output[128..], [0xaau8; 3]);
}

#[test]
fn g1_mul_reduces_the_scalar() {
    let mut input = generator_bytes();
    input.extend(fr_order_plus(3));
    let mut output = [0xaau8; 128];
    assert_eq!(bls12_381_g1_mul(Some(&input), Some(&mut output)), Bls12381Result::Success);
    assert_eq!(output.to_vec(), g1(times(3)));
}

#[test]
fn g1_mul_by_zero_or_of_infinity_gives_infinity() {
    let mut input = generator_bytes();
    input.extend(word(0));
    let mut output = [0xaau8; 128];
    assert_eq!(bls12_381_g1_mul(Some(&input), Some(&mut output)), Bls12381Result::Success);
    assert_eq!(output, [0u8; 128]);

    let mut input = vec![0u8; 128];
    input.extend(word(9));
    let mut output = [0xaau8; 128];
    assert_eq!(bls12_381_g1_mul(Some(&input), Some(&mut output)), Bls12381Result::Success);
    assert_eq!(output, [0u8; 128]);
}

#[test]
fn g1_mul_rejected_point_succeeds_with_zeros() {
    let mut input = generator_bytes();
    input[63] ^= 1;
    input.extend(word(2));
    let mut output = [0xaau8; 128];
    assert_eq!(bls12_381_g1_mul(Some(&input), Some(&mut output)), Bls12381Result::Success);
    assert_eq!(output, [0u8; 128]);

    let mut input = g1(g1_outside_subgroup());
    input.extend(word(2));
    let mut output = [0xaau8; 128];
    assert_eq!(bls12_381_g1_mul(Some(&input), Some(&mut output)), Bls12381Result::Success);
    assert_eq!(output, [0u8; 128]);
}

#[test]
fn g1_mul_refuses_bad_shapes() {
    let mut output = [0xaau8; 128];
    assert_eq!(
        bls12_381_g1_mul(Some(&[0u8; 159]), Some(&mut output)),
        Bls12381Result::InvalidInput
    );
    assert_eq!(bls12_381_g1_mul(None, Some(&mut output)), Bls12381Result::InvalidInput);
    assert_eq!(output, [0xaau8; 128]);
    assert_eq!(bls12_381_g1_mul(Some(&[0u8; 160]), None), Bls12381Result::InvalidInput);
    let mut small = [0xaau8; 100];
    assert_eq!(
        bls12_381_g1_mul(Some(&[0u8; 160]), Some(&mut small)),
        Bls12381Result::InvalidInput
    );
    assert_eq!(small, [0xaau8; 100]);
}

#[test]
fn msm_sums_the_products() {
    let mut input = msm_chunk(&g1_packed(times(1)), &word(2));
    input.extend(msm_chunk(&g1_packed(times(5)), &word(3)));
    let mut output = [0xaau8; 128];
    assert_eq!(bls12_381_g1_multiexp(Some(&input), Some(&mut output)), Bls12381Result::Success);
    assert_eq!(output.to_vec(), g1(times(17)));
}

#[test]
fn msm_of_one_chunk() {
    let input = msm_chunk(&g1_packed(times(1)), &word(2));
    let mut output = [0xaau8; 128];
    assert_eq!(bls12_381_g1_multiexp(Some(&input), Some(&mut output)), Bls12381Result::Success);
    assert_eq!(output.to_vec(), g1(times(2)));
}

#[test]
fn msm_drops_infinity_and_rejected_points() {
    let mut bad = g1_packed(times(1));
    bad[95] ^= 1;
    let mut input = msm_chunk(&bad, &word(4));
    input.extend(msm_chunk(&g1_packed(times(5)), &word(3)));
    input.extend(msm_chunk(&[0u8; 96], &word(9)));
    input.extend(msm_chunk(&g1_packed(g1_outside_subgroup()), &word(9)));
    let mut output = [0xaau8; 128];
    assert_eq!(bls12_381_g1_multiexp(Some(&input), Some(&mut output)), Bls12381Result::Success);
    assert_eq!(output.to_vec(), g1(times(15)));
}

#[test]
fn msm_with_nothing_to_sum_gives_infinity() {
    let mut output = [0xaau8; 128];
    assert_eq!(bls12_381_g1_multiexp(Some(&[]), Some(&mut output)), Bls12381Result::Success);
    assert_eq!(output, [0u8; 128]);

    let mut input = msm_chunk(&[0u8; 96], &word(4));
    input.extend(msm_chunk(&[0u8; 96], &word(5)));
    let mut output = [0xaau8; 128];
    assert_eq!(bls12_381_g1_multiexp(Some(&input), Some(&mut output)), Bls12381Result::Success);
    assert_eq!(output, [0u8; 128]);

    let mut bad = g1_packed(times(1));
    bad[0] ^= 1;
    let mut input = msm_chunk(&bad, &word(4));
    input.extend(msm_chunk(&g1_packed(g1_outside_subgroup()), &word(5)));
    let mut output = [0xaau8; 128];
    assert_eq!(bls12_381_g1_multiexp(Some(&input), Some(&mut output)), Bls12381Result::Success);
    assert_eq!(output, [0u8; 128]);
}

#[test]
fn msm_whose_sum_is_infinity() {
    let mut input = msm_chunk(&g1_packed(times(3)), &word(2));
    input.extend(msm_chunk(&g1_packed(-times(2)), &word(3)));
    let mut output = [0xaau8; 128];
    assert_eq!(bls12_381_g1_multiexp(Some(&input), Some(&mut output)), Bls12381Result::Success);
    assert_eq!(output, [0u8; 128]);
}

#[test]
fn msm_refuses_bad_shapes() {
    let mut output = [0xaau8; 128];
    assert_eq!(
        bls12_381_g1_multiexp(Some(&[0u8; 161]), Some(&mut output)),
        Bls12381Result::InvalidInput
    );
    assert_eq!(bls12_381_g1_multiexp(None, Some(&mut output)), Bls12381Result::InvalidInput);
    assert_eq!(output, [0xaau8; 128]);
    assert_eq!(bls12_381_g1_multiexp(Some(&[]), None), Bls12381Result::InvalidInput);
    let mut small = [0xaau8; 127];
    assert_eq!(
        bls12_381_g1_multiexp(Some(&[]), Some(&mut small)),
        Bls12381Result::InvalidInput
    );
    assert_eq!(small, [0xaau8; 127]);
}

#[test]
fn bls_decode_msm_chunks() {
    let mut input = msm_chunk(&g1_packed(times(1)), &fr_order_plus(2));
    input.extend(msm_chunk(&[0u8; 96], &word(9)));
    input.extend(msm_chunk(&g1_packed(times(5)), &word(3)));
    let term = bls12_381_decode_msm_term(&input, 0).unwrap();
    assert_eq!(term.point.x.bytes, generator_bytes()[16..64].to_vec());
    assert_eq!(term.point.y.bytes, generator_bytes()[80..128].to_vec());
    assert_eq!(term.scalar.bytes, word(2));
    assert!(bls12_381_decode_msm_term(&input, 1).is_none());
    let terms = bls12_381_decode_msm_terms(&input);
    assert_eq!(terms.len(), 2);
    assert_eq!(terms[1].scalar.bytes, word(3));
    assert_eq!(terms[1].point.x.bytes, times(5).x.into_bigint().to_bytes_be());
}

#[test]
fn bls_classify_g1() {
    assert_eq!(
        bls12_381_g1_classify(&bls12_381_decode_g1(&generator_bytes(), 0, 64)),
        PointKind::Valid
    );
    assert_eq!(
        bls12_381_g1_classify(&bls12_381_decode_g1(&[0u8; 128], 0, 64)),
        PointKind::Infinity
    );
    let mut off_curve = generator_bytes();
    off_curve[127] ^= 1;
    assert_eq!(
        bls12_381_g1_classify(&bls12_381_decode_g1(&off_curve, 0, 64)),
        PointKind::Invalid
    );
    let outside = g1_packed(g1_outside_subgroup());
    assert_eq!(
        bls12_381_g1_classify(&bls12_381_decode_g1(&outside, 0, 48)),
        PointKind::Invalid
    );
}

#[test]
fn bls_classify_g2() {
    let generator = g2(G2Affine::generator());
    assert_eq!(bls12_381_g2_classify(&bls12_381_decode_g2(&generator, 0)), PointKind::Valid);
    assert_eq!(
        bls12_381_g2_classify(&bls12_381_decode_g2(&[0u8; 256], 0)),
        PointKind::Infinity
    );
    let mut off_curve = generator.clone();
    off_curve[255] ^= 1;
    assert_eq!(bls12_381_g2_classify(&bls12_381_decode_g2(&off_curve, 0)), PointKind::Invalid);
    let outside = g2(g2_outside_subgroup());
    assert_eq!(bls12_381_g2_classify(&bls12_381_decode_g2(&outside, 0)), PointKind::Invalid);
}

#[test]
fn pairing_empty_input_is_true() {
    let mut output = [0xaau8; 32];
    assert_eq!(bls12_381_pairing(Some(&[]), Some(&mut output)), Bls12381Result::Success);
    assert_eq!(output.to_vec(), word(1));
}

#[test]
fn pairing_of_a_point_and_its_negative_is_true() {
    let mut input = g1(G1Affine::generator());
    input.extend(g2(G2Affine::generator()));
    input.extend(g1(-G1Affine::generator()));
    input.extend(g2(G2Affine::generator()));
    assert_eq!(input.len(), 768);
    let mut output = [0xaau8; 32];
    assert_eq!(bls12_381_pairing(Some(&input), Some(&mut output)), Bls12381Result::Success);
    assert_eq!(output.to_vec(), word(1));
}

#[test]
fn pairing_of_three_pairs() {
    // e(2G, Q) * e(3G, Q) * e(-5G, Q) = 1
    let mut input = Vec::new();
    for p in [times(2), times(3), -times(5)] {
        input.extend(g1(p));
        input.extend(g2(G2Affine::generator()));
    }
    let mut output = [0xaau8; 32];
    assert_eq!(bls12_381_pairing(Some(&input), Some(&mut output)), Bls12381Result::Success);
    assert_eq!(output.to_vec(), word(1));

    // The same with 4G in place of 5G is not one.
    let mut input = Vec::new();
    for p in [times(2), times(3), -times(4)] {
        input.extend(g1(p));
        input.extend(g2(G2Affine::generator()));
    }
    let mut output = [0xaau8; 32];
    assert_eq!(bls12_381_pairing(Some(&input), Some(&mut output)), Bls12381Result::Success);
    assert_eq!(output, [0u8; 32]);
}

#[test]
fn pairing_of_the_generators_is_false() {
    let mut input = g1(G1Affine::generator());
    input.extend(g2(G2Affine::generator()));
    let mut output = [0xaau8; 32];
    assert_eq!(bls12_381_pairing(Some(&input), Some(&mut output)), Bls12381Result::Success);
    assert_eq!(output, [0u8; 32]);
}

#[test]
fn pairing_with_infinity_is_true() {
    let mut input = vec![0u8; 128];
    input.extend(g2(G2Affine::generator()));
    let mut output = [0xaau8; 32];
    assert_eq!(bls12_381_pairing(Some(&input), Some(&mut output)), Bls12381Result::Success);
    assert_eq!(output.to_vec(), word(1));
}

#[test]
fn pairing_rejected_point_is_false() {
    let mut input = g1(g1_outside_subgroup());
    input.extend(vec![0u8; 256]);
    let mut output = [0xaau8; 32];
    assert_eq!(bls12_381_pairing(Some(&input), Some(&mut output)), Bls12381Result::Success);
    assert_eq!(output, [0u8; 32]);

    let mut input = vec![0u8; 128];
    input.extend(g2(g2_outside_subgroup()));
    let mut output = [0xaau8; 32];
    assert_eq!(bls12_381_pairing(Some(&input), Some(&mut output)), Bls12381Result::Success);
    assert_eq!(output, [0u8; 32]);
}

#[test]
fn pairing_refuses_bad_shapes() {
    let mut output = [0xaau8; 32];
    assert_eq!(
        bls12_381_pairing(Some(&[0u8; 383]), Some(&mut output)),
        Bls12381Result::InvalidInput
    );
    assert_eq!(bls12_381_pairing(None, Some(&mut output)), Bls12381Result::InvalidInput);
    assert_eq!(output, [0xaau8; 32]);
    assert_eq!(bls12_381_pairing(Some(&[]), None), Bls12381Result::InvalidInput);
    let mut small = [0xaau8; 31];
    assert_eq!(bls12_381_pairing(Some(&[]), Some(&mut small)), Bls12381Result::InvalidInput);
    assert_eq!(small, [0xaau8; 31]);
}

#[test]
fn bls_decode_pairing_chunks() {
    let mut input = g1(G1Affine::generator());
    input.extend(g2(G2Affine::generator()));
    input.extend(vec![0u8; 384]);
    let term = bls12_381_decode_pairing_term(&input, 0).unwrap();
    assert_eq!(term.g1.x.bytes, generator_bytes()[16..64].to_vec());
    assert_eq!(term.g2.y.c1.bytes, G2Affine::generator().y.c1.into_bigint().to_bytes_be());
    let terms = bls12_381_decode_pairing_terms(&input).unwrap();
    assert_eq!(terms.len(), 2);
    assert!(terms[1].g1.is_infinity() && terms[1].g2.is_infinity());

    input[127] ^= 1;
    assert!(bls12_381_decode_pairing_term(&input, 0).is_none());
    assert!(bls12_381_decode_pairing_term(&input, 1).is_some());
    assert!(bls12_381_decode_pairing_terms(&input).is_none());
}

#[test]
fn bls_status_codes() {
    assert_eq!(Bls12381Result::Success.code(), 0);
    assert_eq!(Bls12381Result::InvalidInput.code(), 1);
    assert_eq!(Bls12381Result::InvalidPoint.code(), 2);
    assert_eq!(Bls12381Result::InvalidScalar.code(), 3);
    assert_eq!(Bls12381Result::ComputationFailed.code(), 4);
}
