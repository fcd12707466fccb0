use revive_snapshot::fees::{BlockRatioFee, ConfigurationError, Weight};

/// The configuration used throughout: fee ratio 1/100 over a block
/// envelope of 2·10⁹ reference time and 5·10⁶ proof size.
fn converter() -> BlockRatioFee {
    BlockRatioFee::new(1, 100, 2_000_000_000, 5_000_000).expect("configuration is valid")
}

#[test]
fn construction_rejects_zero_p() {
    assert_eq!(
        BlockRatioFee::new(0, 100, 2_000_000_000, 5_000_000),
        Err(ConfigurationError::ZeroFeeRatio)
    );
}

#[test]
fn construction_rejects_zero_q() {
    assert_eq!(
        BlockRatioFee::new(1, 0, 2_000_000_000, 5_000_000),
        Err(ConfigurationError::ZeroFeeRatio)
    );
}

#[test]
fn construction_rejects_zero_envelope() {
    assert_eq!(
        BlockRatioFee::new(1, 100, 0, 5_000_000),
        Err(ConfigurationError::ZeroResourceEnvelope)
    );
    assert_eq!(
        BlockRatioFee::new(1, 100, 2_000_000_000, 0),
        Err(ConfigurationError::ZeroResourceEnvelope)
    );
}

#[test]
fn weight_to_fee_charges_the_dominant_axis() {
    let c = converter();
    // Reference time: 10⁹ · (1/100) = 10⁷. Proof size: the coefficient is
    // (1/100)·(2·10⁹/5·10⁶) = 4, so 10⁶ · 4 = 4·10⁶. The larger axis wins.
    let fee = c.weight_to_fee(&Weight {
        ref_time: 1_000_000_000,
        proof_size: 1_000_000,
    });
    assert_eq!(fee, 10_000_000);
}

#[test]
fn weight_to_fee_proof_axis_can_dominate() {
    let c = converter();
    let fee = c.weight_to_fee(&Weight {
        ref_time: 0,
        proof_size: 5_000_000,
    });
    // 5·10⁶ at coefficient 4.
    assert_eq!(fee, 20_000_000);
}

#[test]
fn weight_to_fee_truncates_toward_zero() {
    // Ratio 3/2: 7 units of reference time cost ⌊21/2⌋ = 10.
    let c = BlockRatioFee::new(3, 2, 10, 10).expect("configuration is valid");
    let fee = c.weight_to_fee(&Weight {
        ref_time: 7,
        proof_size: 0,
    });
    assert_eq!(fee, 10);
}

#[test]
fn round_trip_reproduces_only_the_dominant_axis() {
    let c = converter();
    let before = Weight {
        ref_time: 1_000_000_000,
        proof_size: 1_000_000,
    };
    let fee = c.weight_to_fee(&before);
    let back = c.fee_to_weight(fee);
    // The dominant axis comes back exactly.
    assert_eq!(back.ref_time, 1_000_000_000);
    // The other axis does not: the round trip is lossy by design.
    assert_eq!(back.proof_size, 2_500_000);
    assert_ne!(back.proof_size, before.proof_size);
}

#[test]
fn fee_to_weight_of_zero_is_zero() {
    let c = converter();
    let w = c.fee_to_weight(0);
    assert_eq!((w.ref_time, w.proof_size), (0, 0));
}

#[test]
fn fee_is_monotone_in_each_axis() {
    let c = converter();
    let samples: [(u64, u64); 4] = [(0, 0), (17, 3), (1_000_000, 999), (1_000_000_000, 5_000_000)];
    for &(rt, ps) in samples.iter() {
        let base = c.weight_to_fee(&Weight {
            ref_time: rt,
            proof_size: ps,
        });
        let more_time = c.weight_to_fee(&Weight {
            ref_time: rt + 123_456,
            proof_size: ps,
        });
        let more_proof = c.weight_to_fee(&Weight {
            ref_time: rt,
            proof_size: ps + 777,
        });
        assert!(more_time >= base);
        assert!(more_proof >= base);
    }
}

#[test]
fn proof_size_coefficient_is_derived_once_as_a_rational() {
    let c = converter();
    let (num, den) = c.proof_size_to_fee();
    // (P·max_reference_time) / (Q·max_proof_size) = 2·10⁹ / 5·10⁸ = 4.
    assert_eq!(num, 2_000_000_000);
    assert_eq!(den, 500_000_000);
    assert_eq!(num / den, 4);
}

#[test]
fn fee_to_weight_divides_by_the_proof_coefficient_once() {
    // Ratio 2/1 over envelope (2, 3): the proof-size coefficient is
    // (2·2)/(1·3). A fee of 3 buys ⌊3·1·3 / (2·2)⌋ = 2 proof size in one
    // truncating division by that coefficient, and ⌊3·1/2⌋ = 1 reference
    // time.
    let c = BlockRatioFee::new(2, 1, 2, 3).expect("configuration is valid");
    let w = c.fee_to_weight(3);
    assert_eq!(w.ref_time, 1);
    assert_eq!(w.proof_size, 2);
}
