use epd_waveshare::color::{ColorModel, ColorSample, OctColor};

const MODELS: [ColorModel; 5] =
    [ColorModel::Mono, ColorModel::Tri, ColorModel::Quad, ColorModel::Seven, ColorModel::Oct];

const OCT_COLORS: [OctColor; 8] = [
    OctColor::Black,
    OctColor::White,
    OctColor::Green,
    OctColor::Blue,
    OctColor::Red,
    OctColor::Yellow,
    OctColor::Orange,
    OctColor::HiZ,
];

fn samples(model: ColorModel, codes: &[u8]) -> Vec<ColorSample> {
    codes.iter().map(|code| ColorSample { model, code: *code }).collect()
}

/// Every sequence of `len` codes below `cardinality`.
fn all_codes(cardinality: u8, len: usize) -> Vec<Vec<u8>> {
    let mut all = vec![Vec::new()];
    for _ in 0..len {
        let mut longer = Vec::new();
        for codes in &all {
            for code in 0..cardinality {
                let mut next = codes.clone();
                next.push(code);
                longer.push(next);
            }
        }
        all = longer;
    }
    all
}

#[test]
fn models_have_their_cardinalities() {
    let cardinalities: Vec<u8> = MODELS.iter().map(|model| model.cardinality()).collect();
    assert_eq!(cardinalities, vec![2, 3, 4, 7, 8]);
}

#[test]
fn models_have_their_sample_widths() {
    let bits: Vec<u8> = MODELS.iter().map(|model| model.bits_per_sample()).collect();
    assert_eq!(bits, vec![1, 2, 2, 4, 4]);
    let slots: Vec<u8> = MODELS.iter().map(|model| model.samples_per_byte()).collect();
    assert_eq!(slots, vec![8, 4, 4, 2, 2]);
}

#[test]
fn sample_exists_below_the_cardinality_only() {
    for model in MODELS {
        for code in 0..=255u8 {
            let sample = model.sample(code);
            if code < model.cardinality() {
                assert_eq!(sample, Some(ColorSample { model, code }));
                assert!(sample.unwrap().is_valid());
            } else {
                assert_eq!(sample, None);
                assert!(!ColorSample { model, code }.is_valid());
            }
        }
    }
}

#[test]
fn pack_puts_the_first_sample_in_the_highest_bits() {
    assert_eq!(ColorModel::Mono.pack(&samples(ColorModel::Mono, &[1, 0, 1, 0, 0, 0, 0, 1])), Some(0xA1));
    assert_eq!(ColorModel::Mono.pack(&samples(ColorModel::Mono, &[1, 0, 0, 0, 0, 0, 0, 0])), Some(0x80));
    assert_eq!(ColorModel::Tri.pack(&samples(ColorModel::Tri, &[2, 1, 0, 2])), Some(0x92));
    assert_eq!(ColorModel::Quad.pack(&samples(ColorModel::Quad, &[3, 0, 2, 1])), Some(0xC9));
    assert_eq!(ColorModel::Seven.pack(&samples(ColorModel::Seven, &[6, 0])), Some(0x60));
    assert_eq!(ColorModel::Oct.pack(&samples(ColorModel::Oct, &[1, 4])), Some(0x14));
    assert_eq!(ColorModel::Oct.pack(&samples(ColorModel::Oct, &[7, 7])), Some(0x77));
}

#[test]
fn pack_then_unpack_recovers_every_sample() {
    for model in MODELS {
        let slots = model.samples_per_byte() as usize;
        for codes in all_codes(model.cardinality(), slots) {
            let packed = samples(model, &codes);
            let byte = model.pack(&packed).unwrap();
            assert_eq!(model.unpack(byte), Some(packed.clone()));
            for (slot, sample) in packed.iter().enumerate() {
                assert_eq!(model.sample_at(byte, slot as u8), Some(*sample));
            }
        }
    }
}

#[test]
fn pack_of_two_samples_recovers_both() {
    for model in [ColorModel::Seven, ColorModel::Oct] {
        for first in 0..model.cardinality() {
            for second in 0..model.cardinality() {
                let pair = samples(model, &[first, second]);
                let byte = model.pack(&pair).unwrap();
                assert_eq!(byte, first * 16 + second);
                assert_eq!(model.unpack(byte).unwrap(), pair);
            }
        }
    }
}

#[test]
fn pack_is_refused_for_the_wrong_number_of_samples() {
    assert_eq!(ColorModel::Oct.pack(&samples(ColorModel::Oct, &[1])), None);
    assert_eq!(ColorModel::Oct.pack(&samples(ColorModel::Oct, &[1, 2, 3])), None);
    assert_eq!(ColorModel::Mono.pack(&samples(ColorModel::Mono, &[1, 1])), None);
    assert_eq!(ColorModel::Quad.pack(&[]), None);
}

#[test]
fn pack_is_refused_for_a_sample_of_another_model() {
    let mut pair = samples(ColorModel::Oct, &[1, 2]);
    pair[1].model = ColorModel::Seven;
    assert_eq!(ColorModel::Oct.pack(&pair), None);
    assert_eq!(ColorModel::Seven.pack(&pair), None);
}

#[test]
fn pack_is_refused_for_a_pattern_outside_the_palette() {
    assert_eq!(ColorModel::Seven.pack(&samples(ColorModel::Seven, &[7, 0])), None);
    assert_eq!(ColorModel::Tri.pack(&samples(ColorModel::Tri, &[0, 0, 0, 3])), None);
    assert_eq!(ColorModel::Oct.pack(&samples(ColorModel::Oct, &[0, 16])), None);
}

#[test]
fn unpack_is_refused_for_a_pattern_outside_the_palette() {
    assert_eq!(ColorModel::Tri.unpack(0xC0), None);
    assert_eq!(ColorModel::Tri.unpack(0x03), None);
    assert_eq!(ColorModel::Seven.unpack(0x70), None);
    assert_eq!(ColorModel::Seven.unpack(0x07), None);
    assert_eq!(ColorModel::Oct.unpack(0x80), None);
    assert_eq!(ColorModel::Oct.unpack(0x77), Some(samples(ColorModel::Oct, &[7, 7])));
}

#[test]
fn unpack_reads_every_byte_of_a_full_palette() {
    for byte in 0..=255u8 {
        let bits: Vec<u8> = (0..8).map(|slot| (byte >> (7 - slot)) & 1).collect();
        assert_eq!(ColorModel::Mono.unpack(byte), Some(samples(ColorModel::Mono, &bits)));
        let pairs: Vec<u8> = (0..4).map(|slot| (byte >> (6 - 2 * slot)) & 3).collect();
        assert_eq!(ColorModel::Quad.unpack(byte), Some(samples(ColorModel::Quad, &pairs)));
    }
}

#[test]
fn sample_at_is_refused_past_the_last_slot() {
    assert_eq!(ColorModel::Oct.sample_at(0x11, 2), None);
    assert_eq!(ColorModel::Quad.sample_at(0x00, 4), None);
    assert_eq!(ColorModel::Mono.sample_at(0xFF, 8), None);
    assert_eq!(ColorModel::Mono.sample_at(0xFF, 7), Some(ColorSample { model: ColorModel::Mono, code: 1 }));
}

#[test]
fn replace_changes_one_slot_only() {
    let zero = ColorSample { model: ColorModel::Quad, code: 0 };
    assert_eq!(ColorModel::Quad.replace(0xFF, 1, zero), Some(0xCF));
    let one = ColorSample { model: ColorModel::Mono, code: 1 };
    assert_eq!(ColorModel::Mono.replace(0x00, 0, one), Some(0x80));
    assert_eq!(ColorModel::Mono.replace(0x00, 7, one), Some(0x01));
    let red = ColorSample { model: ColorModel::Seven, code: 4 };
    assert_eq!(ColorModel::Seven.replace(0x11, 0, red), Some(0x41));
    assert_eq!(ColorModel::Seven.replace(0x11, 1, red), Some(0x14));
}

#[test]
fn replace_keeps_the_other_slots_in_every_model() {
    for model in MODELS {
        let slots = model.samples_per_byte();
        for byte in 0..=255u8 {
            for slot in 0..slots {
                for code in 0..model.cardinality() {
                    let sample = ColorSample { model, code };
                    let changed = model.replace(byte, slot, sample).unwrap();
                    assert_eq!(model.sample_at(changed, slot), Some(sample));
                    for other in 0..slots {
                        if other != slot {
                            assert_eq!(model.sample_at(changed, other), model.sample_at(byte, other));
                        }
                    }
                }
            }
        }
    }
}

#[test]
fn replace_is_refused_for_a_bad_slot_or_sample() {
    let white = ColorSample { model: ColorModel::Oct, code: 1 };
    assert_eq!(ColorModel::Oct.replace(0x00, 2, white), None);
    assert_eq!(ColorModel::Seven.replace(0x00, 0, white), None);
    assert_eq!(ColorModel::Oct.replace(0x00, 0, ColorSample { model: ColorModel::Oct, code: 8 }), None);
}

#[test]
fn fill_byte_holds_the_sample_in_every_slot() {
    assert_eq!(ColorModel::Mono.fill_byte(ColorSample { model: ColorModel::Mono, code: 1 }), Some(0xFF));
    assert_eq!(ColorModel::Mono.fill_byte(ColorSample { model: ColorModel::Mono, code: 0 }), Some(0x00));
    assert_eq!(ColorModel::Tri.fill_byte(ColorSample { model: ColorModel::Tri, code: 2 }), Some(0xAA));
    assert_eq!(ColorModel::Quad.fill_byte(ColorSample { model: ColorModel::Quad, code: 3 }), Some(0xFF));
    assert_eq!(ColorModel::Seven.fill_byte(ColorSample { model: ColorModel::Seven, code: 1 }), Some(0x11));
    assert_eq!(ColorModel::Oct.fill_byte(ColorSample { model: ColorModel::Oct, code: 6 }), Some(0x66));
    assert_eq!(ColorModel::Seven.fill_byte(ColorSample { model: ColorModel::Seven, code: 7 }), None);
    assert_eq!(ColorModel::Seven.fill_byte(ColorSample { model: ColorModel::Oct, code: 1 }), None);
}

#[test]
fn oct_color_nibbles_are_distinct_and_come_back() {
    for (position, color) in OCT_COLORS.iter().enumerate() {
        assert_eq!(color.get_nibble() as usize, position);
        assert_eq!(OctColor::from_nibble(color.get_nibble()), Some(*color));
    }
}

#[test]
fn from_nibble_is_refused_from_eight_on() {
    for nibble in 8..=255u8 {
        assert_eq!(OctColor::from_nibble(nibble), None);
    }
}

#[test]
fn colors_byte_puts_the_first_color_high() {
    assert_eq!(OctColor::colors_byte(OctColor::White, OctColor::Black), 0x10);
    assert_eq!(OctColor::colors_byte(OctColor::Black, OctColor::White), 0x01);
    assert_eq!(OctColor::colors_byte(OctColor::Orange, OctColor::HiZ), 0x67);
    assert_eq!(OctColor::colors_byte(OctColor::White, OctColor::White), 0x11);
    assert_eq!(OctColor::colors_byte(OctColor::Black, OctColor::Black), 0x00);
}

#[test]
fn split_byte_inverts_colors_byte() {
    for first in OCT_COLORS {
        for second in OCT_COLORS {
            assert_eq!(OctColor::split_byte(OctColor::colors_byte(first, second)), Some((first, second)));
        }
    }
}

#[test]
fn split_byte_is_refused_for_a_half_from_eight_on() {
    assert_eq!(OctColor::split_byte(0x80), None);
    assert_eq!(OctColor::split_byte(0x08), None);
    assert_eq!(OctColor::split_byte(0xFF), None);
    assert_eq!(OctColor::split_byte(0x76), Some((OctColor::HiZ, OctColor::Orange)));
}

#[test]
fn oct_color_is_a_sample_of_the_eight_color_model() {
    for color in OCT_COLORS {
        let sample = color.sample();
        assert_eq!(sample, ColorSample { model: ColorModel::Oct, code: color.get_nibble() });
        assert!(sample.is_valid());
        assert_eq!(OctColor::from_sample(sample), Some(color));
    }
}

#[test]
fn from_sample_is_refused_for_other_models_and_patterns() {
    assert_eq!(OctColor::from_sample(ColorSample { model: ColorModel::Seven, code: 1 }), None);
    assert_eq!(OctColor::from_sample(ColorSample { model: ColorModel::Mono, code: 0 }), None);
    assert_eq!(OctColor::from_sample(ColorSample { model: ColorModel::Oct, code: 8 }), None);
    assert_eq!(OctColor::from_sample(ColorSample { model: ColorModel::Oct, code: 7 }), Some(OctColor::HiZ));
}

#[test]
fn colors_byte_agrees_with_the_eight_color_model() {
    for first in OCT_COLORS {
        for second in OCT_COLORS {
            let pair = samples(ColorModel::Oct, &[first.get_nibble(), second.get_nibble()]);
            assert_eq!(ColorModel::Oct.pack(&pair), Some(OctColor::colors_byte(first, second)));
        }
    }
}
