//! Color samples and how they are packed into the bytes of a frame.

use vstd::arithmetic::power2::pow2;
use vstd::prelude::*;
use crate::packing::{
    field, lemma_fields_determine, lemma_packed_fields, lemma_place_cases, lemma_with_field, packed,
    place, sample_width, slots_of, with_field,
};

verus! {

/// The classes of panels by what a pixel can show.
#[derive(Clone, Copy, Debug, PartialEq, Eq, Structural)]
pub enum ColorModel {
    /// Two samples: black and white.
    Mono,
    /// Three samples: black, white and one chromatic color.
    Tri,
    /// Four samples.
    Quad,
    /// Seven samples.
    Seven,
    /// Eight samples.
    Oct,
}

/// One sample of a model's palette, by its bit pattern.
#[derive(Clone, Copy, Debug, PartialEq, Eq, Structural)]
pub struct ColorSample {
    pub model: ColorModel,
    pub code: u8,
}

impl ColorSample {
    /// Whether the sample is one of its model's palette.
    pub open spec fn valid(self) -> bool {
        self.code < self.model.spec_cardinality()
    }

    /// Whether the sample is one of its model's palette.
    pub fn is_valid(&self) -> (valid: bool)
        ensures
            valid == self.valid(),
    {
        self.code < self.model.cardinality()
    }
}

/// The bit patterns of a sequence of samples.
pub open spec fn codes_of(samples: Seq<ColorSample>) -> Seq<u8> {
    Seq::new(samples.len(), |i: int| samples[i].code)
}

impl ColorModel {
    /// Number of samples in the palette.
    pub open spec fn spec_cardinality(self) -> nat {
        match self {
            ColorModel::Mono => 2,
            ColorModel::Tri => 3,
            ColorModel::Quad => 4,
            ColorModel::Seven => 7,
            ColorModel::Oct => 8,
        }
    }

    /// Number of bits that one sample takes in a frame.
    pub open spec fn spec_bits(self) -> nat {
        match self {
            ColorModel::Mono => 1,
            ColorModel::Tri => 2,
            ColorModel::Quad => 2,
            ColorModel::Seven => 4,
            ColorModel::Oct => 4,
        }
    }

    /// Number of samples that one byte of a frame holds.
    pub open spec fn spec_slots(self) -> nat {
        slots_of(self.spec_bits())
    }

    /// Whether a sample is one of this model's palette.
    pub open spec fn admits(self, sample: ColorSample) -> bool {
        sample.model == self && sample.valid()
    }

    /// Whether every sample of a sequence is one of this model's palette.
    pub open spec fn admits_all(self, samples: Seq<ColorSample>) -> bool {
        forall|i: int| 0 <= i < samples.len() ==> self.admits(#[trigger] samples[i])
    }

    /// The sample whose pattern a slot of a byte holds, if the byte has
    /// the slot and the pattern stands for a sample.
    pub open spec fn spec_sample_at(self, byte: u8, slot: nat) -> Option<ColorSample> {
        if slot < self.spec_slots() && field(self.spec_bits(), byte as nat, slot) < self.spec_cardinality() {
            Some(ColorSample { model: self, code: field(self.spec_bits(), byte as nat, slot) as u8 })
        } else {
            None
        }
    }

    /// The byte with the sample in one slot replaced, if the byte has the
    /// slot and the sample is one of this model.
    pub open spec fn spec_replace(self, byte: u8, slot: nat, sample: ColorSample) -> Option<u8> {
        if slot < self.spec_slots() && self.admits(sample) {
            Some(with_field(self.spec_bits(), byte as nat, slot, sample.code as nat) as u8)
        } else {
            None
        }
    }

    /// The byte that holds the samples, the first in the most significant
    /// bits: there is one for as many samples of this model as a byte has
    /// slots.
    pub open spec fn spec_pack(self, samples: Seq<ColorSample>) -> Option<u8> {
        if samples.len() == self.spec_slots() && self.admits_all(samples) {
            Some(packed(self.spec_bits(), codes_of(samples)) as u8)
        } else {
            None
        }
    }

    /// The samples that a byte holds, if every slot holds the pattern of one.
    pub open spec fn spec_unpack(self, byte: u8) -> Option<Seq<ColorSample>> {
        if forall|slot: nat| slot < self.spec_slots() ==> (#[trigger] self.spec_sample_at(byte, slot)) is Some {
            Some(Seq::new(self.spec_slots(), |slot: int| self.spec_sample_at(byte, slot as nat)->0))
        } else {
            None
        }
    }

    /// The byte that holds one sample in every slot, if the sample is one
    /// of this model.
    pub open spec fn spec_fill_byte(self, sample: ColorSample) -> Option<u8> {
        self.spec_pack(Seq::new(self.spec_slots(), |slot: int| sample))
    }

    /// Number of samples in the palette.
    pub fn cardinality(self) -> (cardinality: u8)
        ensures
            cardinality == self.spec_cardinality(),
    {
        match self {
            ColorModel::Mono => 2,
            ColorModel::Tri => 3,
            ColorModel::Quad => 4,
            ColorModel::Seven => 7,
            ColorModel::Oct => 8,
        }
    }

    /// Number of bits that one sample takes in a frame.
    pub fn bits_per_sample(self) -> (bits: u8)
        ensures
            bits == self.spec_bits(),
            sample_width(bits as nat),
    {
        match self {
            ColorModel::Mono => 1,
            ColorModel::Tri => 2,
            ColorModel::Quad => 2,
            ColorModel::Seven => 4,
            ColorModel::Oct => 4,
        }
    }

    /// Number of samples that one byte of a frame holds.
    pub fn samples_per_byte(self) -> (slots: u8)
        ensures
            slots == self.spec_slots(),
            slots * self.spec_bits() == 8,
    {
        match self {
            ColorModel::Mono => 8,
            ColorModel::Tri => 4,
            ColorModel::Quad => 4,
            ColorModel::Seven => 2,
            ColorModel::Oct => 2,
        }
    }

    /// The sample with the given bit pattern: there is one for each
    /// pattern below the cardinality of the palette.
    pub fn sample(self, code: u8) -> (sample: Option<ColorSample>)
        ensures
            code < self.spec_cardinality() ==> sample == Some(ColorSample { model: self, code }),
            code >= self.spec_cardinality() ==> sample is None,
    {
        if code < self.cardinality() {
            Some(ColorSample { model: self, code })
        } else {
            None
        }
    }

    /// Number of patterns that the bits of a sample can take.
    fn radix(self) -> (radix: u8)
        ensures
            radix == pow2(self.spec_bits()),
            self.spec_cardinality() <= radix,
    {
        proof {
            lemma_place_cases(self.spec_bits(), 0);
        }
        match self {
            ColorModel::Mono => 2,
            ColorModel::Tri => 4,
            ColorModel::Quad => 4,
            ColorModel::Seven => 16,
            ColorModel::Oct => 16,
        }
    }

    /// The place value of a slot.
    fn weight(self, slot: u8) -> (weight: u8)
        requires
            slot < self.spec_slots(),
        ensures
            weight == place(self.spec_bits(), slot as nat),
            weight > 0,
    {
        proof {
            lemma_place_cases(self.spec_bits(), slot as nat);
        }
        match self.bits_per_sample() {
            1 => match slot {
                0 => 128,
                1 => 64,
                2 => 32,
                3 => 16,
                4 => 8,
                5 => 4,
                6 => 2,
                _ => 1,
            },
            2 => match slot {
                0 => 64,
                1 => 16,
                2 => 4,
                _ => 1,
            },
            _ => match slot {
                0 => 16,
                _ => 1,
            },
        }
    }

    /// The sample whose pattern a slot of a byte holds. There is none
    /// where the byte has no such slot, or the pattern stands for no
    /// sample of the palette.
    pub fn sample_at(self, byte: u8, slot: u8) -> (sample: Option<ColorSample>)
        ensures
            sample == self.spec_sample_at(byte, slot as nat),
    {
        if slot >= self.samples_per_byte() {
            return None;
        }
        let code = (byte / self.weight(slot)) % self.radix();
        self.sample(code)
    }

    /// The byte with the sample in one slot replaced and every other slot
    /// as it was. There is none where the byte has no such slot, or the
    /// sample is not one of this model.
    pub fn replace(self, byte: u8, slot: u8, sample: ColorSample) -> (changed: Option<u8>)
        ensures
            changed == self.spec_replace(byte, slot as nat, sample),
    {
        if slot >= self.samples_per_byte() || !(sample.model == self && sample.is_valid()) {
            return None;
        }
        let weight = self.weight(slot);
        let radix = self.radix();
        let code = (byte / weight) % radix;
        proof {
            lemma_with_field(self.spec_bits(), byte as nat, slot as nat, sample.code as nat);
        }
        Some(byte - code * weight + sample.code * weight)
    }

    /// Packs samples into a byte, the first in the most significant bits.
    /// There is a byte for as many samples of this model as a byte has
    /// slots, and for nothing else.
    pub fn pack(self, samples: &[ColorSample]) -> (byte: Option<u8>)
        ensures
            byte == self.spec_pack(samples@),
    {
        let slots = self.samples_per_byte();
        if samples.len() != slots as usize {
            return None;
        }
        let ghost bits = self.spec_bits();
        let mut byte: u8 = 0;
        let mut slot: u8 = 0;
        while slot < slots
            invariant
                slot <= slots == self.spec_slots() == samples@.len(),
                bits == self.spec_bits(),
                forall|i: int| 0 <= i < slot ==> self.admits(#[trigger] samples@[i]),
                forall|i: nat| i < slot ==> #[trigger] field(bits, byte as nat, i) == samples@[i as int].code,
            decreases slots - slot,
        {
            let sample = samples[slot as usize];
            match self.replace(byte, slot, sample) {
                None => {
                    assert(!self.admits(samples@[slot as int]));
                    return None;
                },
                Some(changed) => {
                    proof {
                        self.lemma_admitted_code(sample);
                        lemma_with_field(bits, byte as nat, slot as nat, sample.code as nat);
                    }
                    byte = changed;
                },
            }
            slot = slot + 1;
        }
        proof {
            let codes = codes_of(samples@);
            assert forall|i: int| 0 <= i < codes.len() implies codes[i] < pow2(bits) by {
                self.lemma_admitted_code(samples@[i]);
            }
            lemma_packed_fields(bits, codes);
            lemma_fields_determine(bits, byte as nat, packed(bits, codes));
        }
        Some(byte)
    }

    /// Unpacks the samples of a byte, the first from the most significant
    /// bits. There are none where a slot holds a pattern that stands for
    /// no sample of the palette.
    pub fn unpack(self, byte: u8) -> (samples: Option<Vec<ColorSample>>)
        ensures
            match samples {
                Some(samples) => self.spec_unpack(byte) == Some(samples@),
                None => self.spec_unpack(byte) is None,
            },
    {
        let slots = self.samples_per_byte();
        let mut samples: Vec<ColorSample> = Vec::new();
        let mut slot: u8 = 0;
        while slot < slots
            invariant
                slot <= slots == self.spec_slots(),
                samples@.len() == slot,
                forall|i: nat| i < slot ==> #[trigger] self.spec_sample_at(byte, i) == Some(samples@[i as int]),
            decreases slots - slot,
        {
            match self.sample_at(byte, slot) {
                None => {
                    return None;
                },
                Some(sample) => {
                    samples.push(sample);
                },
            }
            slot = slot + 1;
        }
        assert(self.spec_unpack(byte)->0 =~= samples@);
        Some(samples)
    }

    /// The byte that holds one sample in every slot. There is none where
    /// the sample is not one of this model.
    pub fn fill_byte(self, sample: ColorSample) -> (byte: Option<u8>)
        ensures
            byte == self.spec_fill_byte(sample),
    {
        let slots = self.samples_per_byte();
        let mut samples: Vec<ColorSample> = Vec::new();
        let mut slot: u8 = 0;
        while slot < slots
            invariant
                slot <= slots == self.spec_slots(),
                samples@ == Seq::new(slot as nat, |i: int| sample),
            decreases slots - slot,
        {
            samples.push(sample);
            slot = slot + 1;
            assert(samples@ =~= Seq::new(slot as nat, |i: int| sample));
        }
        self.pack(samples.as_slice())
    }

    /// The pattern of a sample of this model fits the bits of a sample.
    pub proof fn lemma_admitted_code(self, sample: ColorSample)
        requires
            self.admits(sample),
        ensures
            sample.code < pow2(self.spec_bits()),
            sample_width(self.spec_bits()),
    {
        lemma_place_cases(self.spec_bits(), 0);
    }

    /// Packing as many samples as a byte holds and unpacking the byte
    /// gives every one of them back, in every model.
    pub proof fn lemma_pack_unpack(self, samples: Seq<ColorSample>)
        requires
            samples.len() == self.spec_slots(),
            self.admits_all(samples),
        ensures
            self.spec_pack(samples) is Some,
            self.spec_unpack(self.spec_pack(samples)->0) == Some(samples),
            forall|slot: nat|
                slot < self.spec_slots() ==> #[trigger] self.spec_sample_at(self.spec_pack(samples)->0, slot)
                    == Some(samples[slot as int]),
    {
        let bits = self.spec_bits();
        let codes = codes_of(samples);
        assert forall|i: int| 0 <= i < codes.len() implies codes[i] < pow2(bits) by {
            self.lemma_admitted_code(samples[i]);
        }
        self.lemma_admitted_code(samples[0]);
        lemma_packed_fields(bits, codes);
        let byte = self.spec_pack(samples)->0;
        assert(byte == packed(bits, codes));
        assert forall|slot: nat| slot < self.spec_slots() implies #[trigger] self.spec_sample_at(byte, slot)
            == Some(samples[slot as int]) by {
            assert(field(bits, byte as nat, slot) == codes[slot as int]);
            assert(self.admits(samples[slot as int]));
        }
        assert(self.spec_unpack(byte)->0 =~= samples);
    }

    /// Replacing the sample in a slot makes the slot hold that sample and
    /// leaves the samples in the other slots as they were.
    pub proof fn lemma_replace_sample_at(self, byte: u8, slot: nat, sample: ColorSample)
        requires
            slot < self.spec_slots(),
            self.admits(sample),
        ensures
            self.spec_replace(byte, slot, sample) is Some,
            self.spec_sample_at(self.spec_replace(byte, slot, sample)->0, slot) == Some(sample),
            forall|other: nat|
                other != slot ==> #[trigger] self.spec_sample_at(
                    self.spec_replace(byte, slot, sample)->0,
                    other,
                ) == self.spec_sample_at(byte, other),
    {
        self.lemma_admitted_code(sample);
        lemma_with_field(self.spec_bits(), byte as nat, slot, sample.code as nat);
    }
}

/// The samples of a seven-color panel, and the high-impedance sample that
/// the controller knows besides them.
#[derive(Clone, Copy, Debug, PartialEq, Eq, Structural)]
pub enum OctColor {
    Black,
    White,
    Green,
    Blue,
    Red,
    Yellow,
    Orange,
    /// High impedance: the pixel is left as it is.
    HiZ,
}

impl OctColor {
    /// The four-bit pattern that stands for the sample on the bus.
    pub open spec fn spec_nibble(self) -> u8 {
        match self {
            OctColor::Black => 0,
            OctColor::White => 1,
            OctColor::Green => 2,
            OctColor::Blue => 3,
            OctColor::Red => 4,
            OctColor::Yellow => 5,
            OctColor::Orange => 6,
            OctColor::HiZ => 7,
        }
    }

    /// The sample that a four-bit pattern stands for, if any.
    pub open spec fn spec_from_nibble(nibble: u8) -> Option<OctColor> {
        if nibble == 0 {
            Some(OctColor::Black)
        } else if nibble == 1 {
            Some(OctColor::White)
        } else if nibble == 2 {
            Some(OctColor::Green)
        } else if nibble == 3 {
            Some(OctColor::Blue)
        } else if nibble == 4 {
            Some(OctColor::Red)
        } else if nibble == 5 {
            Some(OctColor::Yellow)
        } else if nibble == 6 {
            Some(OctColor::Orange)
        } else if nibble == 7 {
            Some(OctColor::HiZ)
        } else {
            None
        }
    }

    /// The byte that holds two samples: the first in the high four bits,
    /// the second in the low four.
    pub open spec fn spec_colors_byte(first: OctColor, second: OctColor) -> u8 {
        (16 * first.spec_nibble() + second.spec_nibble()) as u8
    }

    /// The two samples that a byte holds, if both of its halves stand for one.
    pub open spec fn spec_split_byte(byte: u8) -> Option<(OctColor, OctColor)> {
        match (OctColor::spec_from_nibble(byte / 16), OctColor::spec_from_nibble(byte % 16)) {
            (Some(first), Some(second)) => Some((first, second)),
            _ => None,
        }
    }

    /// The four-bit pattern that stands for the sample on the bus.
    pub fn get_nibble(self) -> (nibble: u8)
        ensures
            nibble == self.spec_nibble(),
            nibble < 8,
    {
        match self {
            OctColor::Black => 0,
            OctColor::White => 1,
            OctColor::Green => 2,
            OctColor::Blue => 3,
            OctColor::Red => 4,
            OctColor::Yellow => 5,
            OctColor::Orange => 6,
            OctColor::HiZ => 7,
        }
    }

    /// The sample that a four-bit pattern stands for: one for each pattern
    /// below 8, none for any other value.
    pub fn from_nibble(nibble: u8) -> (color: Option<OctColor>)
        ensures
            color == OctColor::spec_from_nibble(nibble),
            color is Some <==> nibble < 8,
    {
        match nibble {
            0 => Some(OctColor::Black),
            1 => Some(OctColor::White),
            2 => Some(OctColor::Green),
            3 => Some(OctColor::Blue),
            4 => Some(OctColor::Red),
            5 => Some(OctColor::Yellow),
            6 => Some(OctColor::Orange),
            7 => Some(OctColor::HiZ),
            _ => None,
        }
    }

    /// The sample as one of the eight-sample model.
    pub open spec fn spec_sample(self) -> ColorSample {
        ColorSample { model: ColorModel::Oct, code: self.spec_nibble() }
    }

    /// The sample as one of the eight-sample model.
    pub fn sample(self) -> (sample: ColorSample)
        ensures
            sample == self.spec_sample(),
            ColorModel::Oct.admits(sample),
    {
        ColorSample { model: ColorModel::Oct, code: self.get_nibble() }
    }

    /// The color of a sample of the eight-sample model; none for a sample
    /// of another model, or one outside the palette.
    pub fn from_sample(sample: ColorSample) -> (color: Option<OctColor>)
        ensures
            ColorModel::Oct.admits(sample) ==> color == OctColor::spec_from_nibble(sample.code) && color is Some
                && color->0.spec_sample() == sample,
            !ColorModel::Oct.admits(sample) ==> color is None,
    {
        match sample.model {
            ColorModel::Oct => OctColor::from_nibble(sample.code),
            _ => None,
        }
    }

    /// Packs two samples into one byte, the first in the high four bits.
    pub fn colors_byte(first: OctColor, second: OctColor) -> (byte: u8)
        ensures
            byte == OctColor::spec_colors_byte(first, second),
    {
        let high: u8 = first.get_nibble();
        let low: u8 = second.get_nibble();
        assert((high << 4) | low == 16 * high + low) by (bit_vector)
            requires
                high < 8,
                low < 8,
        ;
        (high << 4) | low
    }

    /// Unpacks the two samples of a byte, the first from the high four
    /// bits. There are none where a half of the byte is 8 or more.
    pub fn split_byte(byte: u8) -> (pair: Option<(OctColor, OctColor)>)
        ensures
            pair == OctColor::spec_split_byte(byte),
            pair is Some <==> byte / 16 < 8 && byte % 16 < 8,
    {
        assert(byte >> 4 == byte / 16) by (bit_vector);
        assert(byte & 0x0f == byte % 16) by (bit_vector);
        match (OctColor::from_nibble(byte >> 4), OctColor::from_nibble(byte & 0x0f)) {
            (Some(first), Some(second)) => Some((first, second)),
            _ => None,
        }
    }

    /// Two samples with the same bit pattern are the same sample, and the
    /// pattern of a sample stands for that sample.
    pub proof fn lemma_nibble_injective(first: OctColor, second: OctColor)
        ensures
            first.spec_nibble() == second.spec_nibble() ==> first == second,
            OctColor::spec_from_nibble(first.spec_nibble()) == Some(first),
    {
    }

    /// The byte of two colors is the byte that the eight-sample model
    /// packs from their samples; with the same color twice it is the byte
    /// that holds the sample in every slot.
    pub proof fn lemma_colors_byte_packs(first: OctColor, second: OctColor)
        ensures
            ColorModel::Oct.spec_pack(seq![first.spec_sample(), second.spec_sample()]) == Some(
                OctColor::spec_colors_byte(first, second),
            ),
            ColorModel::Oct.spec_fill_byte(first.spec_sample()) == Some(OctColor::spec_colors_byte(first, first)),
    {
        let pair = seq![first.spec_sample(), second.spec_sample()];
        let twice = Seq::new(ColorModel::Oct.spec_slots(), |slot: int| first.spec_sample());
        reveal_with_fuel(packed, 3);
        lemma_place_cases(4, 0);
        lemma_place_cases(4, 1);
        assert(codes_of(pair).drop_last().drop_last() =~= Seq::<u8>::empty());
        assert(codes_of(twice).drop_last().drop_last() =~= Seq::<u8>::empty());
    }

    /// Packing two samples and unpacking the byte gives both back.
    pub proof fn lemma_split_colors_byte(first: OctColor, second: OctColor)
        ensures
            OctColor::spec_split_byte(OctColor::spec_colors_byte(first, second)) == Some((first, second)),
    {
        let high = first.spec_nibble();
        let low = second.spec_nibble();
        assert((16 * high + low) / 16 == high as int);
        assert((16 * high + low) % 16 == low as int);
    }
}

} // verus!
