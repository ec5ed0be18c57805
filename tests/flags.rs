use boreas::qaa::{flag_messages, messages_for_flags, QAAMessage, QaaFlags};

#[test]
fn no_flags_no_messages() {
    assert!(messages_for_flags(0).is_empty());
    assert!(flag_messages(0).is_empty());
}

#[test]
fn each_bit_gives_its_message_alone() {
    let all = [
        QAAMessage::InvalidData,
        QAAMessage::NegativeBackscattering,
        QAAMessage::DecompositionError,
        QAAMessage::AphCorrectionApplied,
        QAAMessage::NegativeAphValues,
        QAAMessage::ChlorophyllCalculationError,
        QAAMessage::AphRatioForcedMax,
        QAAMessage::BackscatteringLessThanWater,
    ];
    for (i, m) in all.iter().enumerate() {
        assert_eq!(m.bit(), 1u8 << i);
        let mut f = QaaFlags::new();
        f.raise(*m);
        assert_eq!(f.bits(), 1u8 << i);
        assert_eq!(messages_for_flags(f.bits()), vec![*m]);
        for o in all.iter() {
            assert_eq!(f.is_raised(*o), o == m);
        }
    }
}

#[test]
fn all_bits_in_order() {
    let ms = messages_for_flags(0xFF);
    assert_eq!(ms.len(), 8);
    assert_eq!(ms[0], QAAMessage::InvalidData);
    assert_eq!(ms[7], QAAMessage::BackscatteringLessThanWater);
}

#[test]
fn message_texts() {
    let texts = flag_messages(0x05);
    assert_eq!(
        texts,
        vec![
            "Invalid data for log calculation (negative Rrs ratios)".to_string(),
            "Absorption decomposition error (division by zero)".to_string(),
        ]
    );
    assert_eq!(QAAMessage::AphRatioForcedMax.as_str(), "aph/a ratio forced to maximum (0.6)");
    assert_eq!(QAAMessage::ChlorophyllCalculationError.as_str(), "Chlorophyll calculation error");
}

#[test]
fn flags_accumulate() {
    let mut f = QaaFlags::new();
    assert_eq!(f.bits(), 0);
    f.raise(QAAMessage::NegativeAphValues);
    f.raise(QAAMessage::InvalidData);
    f.raise(QAAMessage::NegativeAphValues);
    assert_eq!(f.bits(), 0x11);
    assert!(f.is_raised(QAAMessage::InvalidData));
    assert!(f.is_raised(QAAMessage::NegativeAphValues));
    assert!(!f.is_raised(QAAMessage::DecompositionError));
    assert_eq!(
        messages_for_flags(f.bits()),
        vec![QAAMessage::InvalidData, QAAMessage::NegativeAphValues]
    );
}
