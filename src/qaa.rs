//! The discrete side of the quasi-analytical inversion: which native bands
//! stand for the canonical wavelengths, and the quality-flag field with its
//! catalogue of messages.
use vstd::prelude::*;

use crate::sat_bands::{is_nearest, lemma_nearest_unique, SatBands};

verus! {

/// The anomalies that an inversion can record, one flag bit each.
#[derive(Debug, Clone, Copy, PartialEq, Eq, Structural)]
pub enum QAAMessage {
    InvalidData,
    NegativeBackscattering,
    DecompositionError,
    AphCorrectionApplied,
    NegativeAphValues,
    ChlorophyllCalculationError,
    AphRatioForcedMax,
    BackscatteringLessThanWater,
}

/// The flag bit of each anomaly.
pub open spec fn flag_bit(m: QAAMessage) -> u8 {
    match m {
        QAAMessage::InvalidData => 0x01u8,
        QAAMessage::NegativeBackscattering => 0x02u8,
        QAAMessage::DecompositionError => 0x04u8,
        QAAMessage::AphCorrectionApplied => 0x08u8,
        QAAMessage::NegativeAphValues => 0x10u8,
        QAAMessage::ChlorophyllCalculationError => 0x20u8,
        QAAMessage::AphRatioForcedMax => 0x40u8,
        QAAMessage::BackscatteringLessThanWater => 0x80u8,
    }
}

/// The human-readable text of each anomaly.
pub open spec fn message_text(m: QAAMessage) -> Seq<char> {
    match m {
        QAAMessage::InvalidData => "Invalid data for log calculation (negative Rrs ratios)"@,
        QAAMessage::NegativeBackscattering => "Negative particulate backscattering detected"@,
        QAAMessage::DecompositionError => "Absorption decomposition error (division by zero)"@,
        QAAMessage::AphCorrectionApplied => "aph/a ratio correction applied at 443nm"@,
        QAAMessage::NegativeAphValues => "Negative phytoplankton absorption values corrected"@,
        QAAMessage::ChlorophyllCalculationError => "Chlorophyll calculation error"@,
        QAAMessage::AphRatioForcedMax => "aph/a ratio forced to maximum (0.6)"@,
        QAAMessage::BackscatteringLessThanWater => "Backscattering less than water backscattering"@,
    }
}

/// Every anomaly, in the order of its bit (lowest first).
pub open spec fn all_messages() -> Seq<QAAMessage> {
    seq![
        QAAMessage::InvalidData,
        QAAMessage::NegativeBackscattering,
        QAAMessage::DecompositionError,
        QAAMessage::AphCorrectionApplied,
        QAAMessage::NegativeAphValues,
        QAAMessage::ChlorophyllCalculationError,
        QAAMessage::AphRatioForcedMax,
        QAAMessage::BackscatteringLessThanWater,
    ]
}

/// Whether the bit of `m` is set in `flags`.
pub open spec fn is_flagged(flags: u8, m: QAAMessage) -> bool {
    flags & flag_bit(m) != 0
}

/// The anomalies recorded in `flags`, one per set bit, lowest bit first.
pub open spec fn flagged_messages(flags: u8) -> Seq<QAAMessage> {
    all_messages().filter(|m: QAAMessage| is_flagged(flags, m))
}

impl QAAMessage {
    pub fn as_str(&self) -> (r: &'static str)
        ensures
            r@ == message_text(*self),
    {
        match self {
            QAAMessage::InvalidData => "Invalid data for log calculation (negative Rrs ratios)",
            QAAMessage::NegativeBackscattering => "Negative particulate backscattering detected",
            QAAMessage::DecompositionError => "Absorption decomposition error (division by zero)",
            QAAMessage::AphCorrectionApplied => "aph/a ratio correction applied at 443nm",
            QAAMessage::NegativeAphValues => "Negative phytoplankton absorption values corrected",
            QAAMessage::ChlorophyllCalculationError => "Chlorophyll calculation error",
            QAAMessage::AphRatioForcedMax => "aph/a ratio forced to maximum (0.6)",
            QAAMessage::BackscatteringLessThanWater => {
                "Backscattering less than water backscattering"
            },
        }
    }

    pub fn bit(&self) -> (r: u8)
        ensures
            r == flag_bit(*self),
    {
        match self {
            QAAMessage::InvalidData => 0x01,
            QAAMessage::NegativeBackscattering => 0x02,
            QAAMessage::DecompositionError => 0x04,
            QAAMessage::AphCorrectionApplied => 0x08,
            QAAMessage::NegativeAphValues => 0x10,
            QAAMessage::ChlorophyllCalculationError => 0x20,
            QAAMessage::AphRatioForcedMax => 0x40,
            QAAMessage::BackscatteringLessThanWater => 0x80,
        }
    }
}

/// The anomalies in bit order, as a vector.
fn message_catalogue() -> (r: Vec<QAAMessage>)
    ensures
        r@ == all_messages(),
{
    let r = vec![
        QAAMessage::InvalidData,
        QAAMessage::NegativeBackscattering,
        QAAMessage::DecompositionError,
        QAAMessage::AphCorrectionApplied,
        QAAMessage::NegativeAphValues,
        QAAMessage::ChlorophyllCalculationError,
        QAAMessage::AphRatioForcedMax,
        QAAMessage::BackscatteringLessThanWater,
    ];
    assert(r@ =~= all_messages());
    r
}

/// The anomalies recorded in `flags`, one per set bit, lowest bit first.
pub fn messages_for_flags(flags: u8) -> (r: Vec<QAAMessage>)
    ensures
        r@ == flagged_messages(flags),
{
    let all = message_catalogue();
    let mut r: Vec<QAAMessage> = Vec::new();
    let mut i: usize = 0;
    while i < all.len()
        invariant
            0 <= i <= all@.len(),
            all@ == all_messages(),
            r@ == all@.subrange(0, i as int).filter(|m: QAAMessage| is_flagged(flags, m)),
        decreases all@.len() - i,
    {
        let m = all[i];
        let ghost prefix = all@.subrange(0, i as int + 1);
        proof {
            assert(prefix.drop_last() =~= all@.subrange(0, i as int));
            reveal(Seq::filter);
        }
        if flags & m.bit() != 0 {
            r.push(m);
        }
        i = i + 1;
    }
    assert(all@.subrange(0, all@.len() as int) =~= all@);
    r
}

/// One message per set bit of `flags`, lowest bit first.
pub fn flag_messages(flags: u8) -> (r: Vec<String>)
    ensures
        r@.len() == flagged_messages(flags).len(),
        forall|i: int| 0 <= i < r@.len() ==> #[trigger] r@[i]@ == message_text(flagged_messages(flags)[i]),
{
    let ms = messages_for_flags(flags);
    let mut r: Vec<String> = Vec::new();
    let mut i: usize = 0;
    while i < ms.len()
        invariant
            0 <= i <= ms@.len(),
            ms@ == flagged_messages(flags),
            r@.len() == i,
            forall|j: int| 0 <= j < i ==> #[trigger] r@[j]@ == message_text(ms@[j]),
        decreases ms@.len() - i,
    {
        let s = ms[i].as_str().to_string();
        r.push(s);
        i = i + 1;
    }
    r
}

/// The quality-flag field of one inversion. Bits are only ever added.
#[derive(Debug, Clone, Copy, PartialEq, Eq, Structural)]
pub struct QaaFlags {
    bits: u8,
}

impl View for QaaFlags {
    type V = u8;

    closed spec fn view(&self) -> u8 {
        self.bits
    }
}

impl QaaFlags {
    /// A field with no anomaly recorded.
    pub fn new() -> (r: Self)
        ensures
            r@ == 0,
    {
        QaaFlags { bits: 0 }
    }

    /// Records `m`: sets its bit, keeping every bit already set.
    pub fn raise(&mut self, m: QAAMessage)
        ensures
            final(self)@ == old(self)@ | flag_bit(m),
            is_flagged(final(self)@, m),
            forall|o: QAAMessage| is_flagged(old(self)@, o) ==> is_flagged(final(self)@, o),
    {
        let ghost before = self.bits;
        self.bits = self.bits | m.bit();
        proof {
            lemma_raise_accumulates(before, m);
        }
    }

    pub fn is_raised(&self, m: QAAMessage) -> (r: bool)
        ensures
            r == is_flagged(self@, m),
    {
        self.bits & m.bit() != 0
    }

    pub fn bits(&self) -> (r: u8)
        ensures
            r == self@,
    {
        self.bits
    }
}

/// Setting the bit of `m` sets it and clears no other.
pub proof fn lemma_raise_accumulates(flags: u8, m: QAAMessage)
    ensures
        is_flagged(flags | flag_bit(m), m),
        forall|o: QAAMessage| is_flagged(flags, o) ==> is_flagged(flags | flag_bit(m), o),
{
    let b = flag_bit(m);
    assert(b != 0);
    assert(forall|x: u8, y: u8| y != 0 ==> #[trigger] ((x | y) & y) != 0) by (bit_vector);
    assert(forall|x: u8, y: u8, z: u8| (x & z) != 0 ==> #[trigger] ((x | y) & z) != 0)
        by (bit_vector);
}

/// Distinct anomalies have disjoint bits, so a field in which one anomaly
/// alone was raised reads back as exactly that anomaly.
pub proof fn lemma_flags_independent(m: QAAMessage)
    ensures
        forall|o: QAAMessage| o != m ==> !is_flagged(flag_bit(m), o),
        is_flagged(flag_bit(m), m),
        flagged_messages(0u8 | flag_bit(m)) == seq![m],
{
    assert(0x01u8 & 0x02u8 == 0 && 0x01u8 & 0x04u8 == 0 && 0x01u8 & 0x08u8 == 0 && 0x01u8 & 0x10u8 == 0
        && 0x01u8 & 0x20u8 == 0 && 0x01u8 & 0x40u8 == 0 && 0x01u8 & 0x80u8 == 0 && 0x02u8 & 0x01u8
        == 0 && 0x02u8 & 0x04u8 == 0 && 0x02u8 & 0x08u8 == 0 && 0x02u8 & 0x10u8 == 0 && 0x02u8
        & 0x20u8 == 0 && 0x02u8 & 0x40u8 == 0 && 0x02u8 & 0x80u8 == 0 && 0x04u8 & 0x01u8 == 0
        && 0x04u8 & 0x02u8 == 0 && 0x04u8 & 0x08u8 == 0 && 0x04u8 & 0x10u8 == 0 && 0x04u8
        & 0x20u8 == 0 && 0x04u8 & 0x40u8 == 0 && 0x04u8 & 0x80u8 == 0 && 0x08u8 & 0x01u8 == 0
        && 0x08u8 & 0x02u8 == 0 && 0x08u8 & 0x04u8 == 0 && 0x08u8 & 0x10u8 == 0 && 0x08u8
        & 0x20u8 == 0 && 0x08u8 & 0x40u8 == 0 && 0x08u8 & 0x80u8 == 0 && 0x10u8 & 0x01u8 == 0
        && 0x10u8 & 0x02u8 == 0 && 0x10u8 & 0x04u8 == 0 && 0x10u8 & 0x08u8 == 0 && 0x10u8
        & 0x20u8 == 0 && 0x10u8 & 0x40u8 == 0 && 0x10u8 & 0x80u8 == 0 && 0x20u8 & 0x01u8 == 0
        && 0x20u8 & 0x02u8 == 0 && 0x20u8 & 0x04u8 == 0 && 0x20u8 & 0x08u8 == 0 && 0x20u8
        & 0x10u8 == 0 && 0x20u8 & 0x40u8 == 0 && 0x20u8 & 0x80u8 == 0 && 0x40u8 & 0x01u8 == 0
        && 0x40u8 & 0x02u8 == 0 && 0x40u8 & 0x04u8 == 0 && 0x40u8 & 0x08u8 == 0 && 0x40u8
        & 0x10u8 == 0 && 0x40u8 & 0x20u8 == 0 && 0x40u8 & 0x80u8 == 0 && 0x80u8 & 0x01u8 == 0
        && 0x80u8 & 0x02u8 == 0 && 0x80u8 & 0x04u8 == 0 && 0x80u8 & 0x08u8 == 0 && 0x80u8
        & 0x10u8 == 0 && 0x80u8 & 0x20u8 == 0 && 0x80u8 & 0x40u8 == 0) by (bit_vector);
    assert(0x01u8 & 0x01u8 != 0 && 0x02u8 & 0x02u8 != 0 && 0x04u8 & 0x04u8 != 0 && 0x08u8 & 0x08u8
        != 0 && 0x10u8 & 0x10u8 != 0 && 0x20u8 & 0x20u8 != 0 && 0x40u8 & 0x40u8 != 0 && 0x80u8
        & 0x80u8 != 0) by (bit_vector);
    let b = flag_bit(m);
    assert(forall|x: u8| #[trigger] (0u8 | x) == x) by (bit_vector);
    assert(0u8 | b == b);
    reveal_with_fuel(Seq::filter, 9);
    assert(flagged_messages(b) =~= seq![m]);
}

/// The native bands that stand for the five canonical wavelengths of the
/// inversion: violet (410 nm), cyan (443), blue (490), green (555, the
/// reference band) and red (670).
#[derive(Debug, Clone, Copy, PartialEq, Eq, Structural)]
pub struct QaaBands {
    pub violet: u32,
    pub cyan: u32,
    pub blue: u32,
    pub green: u32,
    pub red: u32,
}

/// The canonical wavelengths, in the order violet, cyan, blue, green, red.
pub open spec fn canonical_wavelengths() -> Seq<u32> {
    seq![410u32, 443u32, 490u32, 555u32, 670u32]
}

/// What `QaaBands::for_sensor` promises of its result for a band set.
pub open spec fn maps_canonical_bands(bands: Seq<u32>, r: QaaBands) -> bool {
    forall|i: int|
        0 <= i < 5 ==> is_nearest(bands.to_set(), canonical_wavelengths()[i], #[trigger] r.spec_seq()[i])
}

/// The band mapping of the inversion is determined by the sensor: two
/// mappings of the same band set agree on every band.
pub proof fn lemma_qaa_bands_deterministic(bands: Seq<u32>, a: QaaBands, b: QaaBands)
    requires
        maps_canonical_bands(bands, a),
        maps_canonical_bands(bands, b),
    ensures
        a == b,
{
    assert forall|i: int| 0 <= i < 5 implies a.spec_seq()[i] == b.spec_seq()[i] by {
        lemma_nearest_unique(bands.to_set(), canonical_wavelengths()[i], a.spec_seq()[i], b.spec_seq()[i]);
    }
    assert(a.spec_seq()[0] == a.violet);
    assert(b.spec_seq()[0] == b.violet);
    assert(a.spec_seq()[1] == a.cyan);
    assert(b.spec_seq()[1] == b.cyan);
    assert(a.spec_seq()[2] == a.blue);
    assert(b.spec_seq()[2] == b.blue);
    assert(a.spec_seq()[3] == a.green);
    assert(b.spec_seq()[3] == b.green);
    assert(a.spec_seq()[4] == a.red);
    assert(b.spec_seq()[4] == b.red);
}

impl QaaBands {
    /// The bands in the order violet, cyan, blue, green, red.
    pub open spec fn spec_seq(&self) -> Seq<u32> {
        seq![self.violet, self.cyan, self.blue, self.green, self.red]
    }

    /// Maps each canonical wavelength to the nearest native band of `bands`.
    pub fn for_sensor(bands: &SatBands) -> (r: Self)
        ensures
            maps_canonical_bands(bands.bands(), r),
    {
        let r = QaaBands {
            violet: bands.closest_band(410),
            cyan: bands.closest_band(443),
            blue: bands.closest_band(490),
            green: bands.closest_band(555),
            red: bands.closest_band(670),
        };
        assert(forall|i: int| 0 <= i < 5 ==> #[trigger] r.spec_seq()[i] == seq![r.violet, r.cyan, r.blue, r.green, r.red][i]);
        r
    }

    /// The bands as a vector, in the order violet, cyan, blue, green, red.
    pub fn wavelengths(&self) -> (r: Vec<u32>)
        ensures
            r@ == self.spec_seq(),
    {
        let r = vec![self.violet, self.cyan, self.blue, self.green, self.red];
        assert(r@ =~= self.spec_seq());
        r
    }

    /// The reference band of the inversion (the green one).
    pub fn reference(&self) -> (r: u32)
        ensures
            r == self.green,
    {
        self.green
    }
}

} // verus!
