use qrud::decimal::{push_decimal, push_signed_decimal};
use qrud::qrud::scale::{Note, Scale, ScaleError, ScaleType, STANDARD_TUNING_HZ_BITS};

fn chromatic() -> Vec<String> {
    ["C", "C#", "D", "D#", "E", "F", "F#", "G", "G#", "A", "A#", "B"]
        .iter()
        .map(|s| s.to_string())
        .collect()
}

fn et_frequencies(tuning_hz: f32, reference_note: u16, divisions: u16, amount: u16) -> Vec<u32> {
    (0..amount)
        .map(|i| {
            let distance = i as i32 - reference_note as i32;
            (tuning_hz * 2.0f32.powf(distance as f32 / divisions as f32)).to_bits()
        })
        .collect()
}

fn et(reference: u16, hz: f32, divisions: u16, classes: Vec<String>, octave: i8, amount: u16) -> ScaleType {
    ScaleType::EqualTemperament {
        new_reference_note: reference,
        new_tuning_hz: hz.to_bits(),
        new_octave_divisions: divisions,
        new_note_class_set: classes,
        octave,
        note_amount: amount,
    }
}

#[test]
fn standard_tuning_frequencies_land_on_their_notes() {
    let freqs = et_frequencies(440.0, 69, 12, 128);
    let s = Scale::new(et(69, 440.0, 12, chromatic(), -2, 128), freqs).ok().unwrap();
    assert_eq!(f32::from_bits(s.notes[69].frequency), 440.0);
    assert!((f32::from_bits(s.notes[81].frequency) - 880.0).abs() < 0.01);
    assert!((f32::from_bits(s.notes[57].frequency) - 220.0).abs() < 0.01);
}

#[test]
fn standard_tuning_names_and_numbers() {
    let freqs = et_frequencies(440.0, 69, 12, 128);
    let s = Scale::new(et(69, 440.0, 12, chromatic(), -2, 128), freqs.clone()).ok().unwrap();
    assert_eq!(s.name, "12-Tone Equal Temperament");
    assert_eq!(s.description, "The Standard Tuning");
    assert_eq!(s.scale_type, "EqualTemperament");
    assert_eq!(s.scale_num, 0);
    assert_eq!(s.reference_note, 69);
    assert_eq!(s.tuning_hz, STANDARD_TUNING_HZ_BITS);
    assert_eq!(s.octave_divisions, 12);
    assert_eq!(s.note_class_set, chromatic());
    assert_eq!(s.notes.len(), 128);
    assert_eq!(s.notes[0].name, "C-2");
    assert_eq!(s.notes[1].name, "C#-2");
    assert_eq!(s.notes[11].name, "B-2");
    assert_eq!(s.notes[12].name, "C-1");
    assert_eq!(s.notes[24].name, "C0");
    assert_eq!(s.notes[69].name, "A3");
    assert_eq!(s.notes[127].name, "G8");
    for (i, n) in s.notes.iter().enumerate() {
        assert_eq!(n.note_num as usize, 69 + i);
        assert_eq!(n.scale_num, 0);
        assert_eq!(n.color, "#FFFFFF");
        assert_eq!(n.frequency, freqs[i]);
    }
}

#[test]
fn standard_tuning_bits_are_440_hz() {
    assert_eq!(STANDARD_TUNING_HZ_BITS, 440.0f32.to_bits());
}

#[test]
fn other_tuning_description_names_divisions() {
    let classes: Vec<String> = (0..19).map(|i| format!("n{}", i)).collect();
    let s = Scale::new(et(0, 432.0, 19, classes, 0, 40), et_frequencies(432.0, 0, 19, 40)).ok().unwrap();
    assert_eq!(s.name, "19-Tone Equal Temperament");
    assert_eq!(s.description, "19-Tone Equal Temperament Scale");
    assert_eq!(s.notes[18].name, "n180");
    assert_eq!(s.notes[19].name, "n01");
    assert_eq!(s.notes[39].name, "n12");
}

#[test]
fn twelve_divisions_at_another_frequency_is_not_standard() {
    let s = Scale::new(et(69, 442.0, 12, chromatic(), -2, 3), et_frequencies(442.0, 69, 12, 3)).ok().unwrap();
    assert_eq!(s.description, "12-Tone Equal Temperament Scale");
}

#[test]
fn octave_wraps_with_short_class_cycle() {
    let classes = vec!["X".to_string(), "Y".to_string()];
    let s = Scale::new(et(10, 440.0, 2, classes, 127, 5), et_frequencies(440.0, 10, 2, 5)).ok().unwrap();
    let names: Vec<&str> = s.notes.iter().map(|n| n.name.as_str()).collect();
    assert_eq!(names, vec!["X127", "Y127", "X128", "Y128", "X129"]);
}

#[test]
fn zero_divisions_is_invalid() {
    let r = Scale::new(et(69, 440.0, 0, chromatic(), -2, 4), vec![0; 4]);
    assert!(matches!(r, Err(ScaleError::InvalidParameters)));
}

#[test]
fn empty_pitch_classes_is_invalid() {
    let r = Scale::new(et(69, 440.0, 12, vec![], -2, 4), vec![0; 4]);
    assert!(matches!(r, Err(ScaleError::InvalidParameters)));
}

#[test]
fn other_tuning_systems_are_not_implemented() {
    let kinds = vec![
        ScaleType::JustIntonation,
        ScaleType::Pythagorean5Limit,
        ScaleType::Werckmeister,
        ScaleType::Kirnberger,
        ScaleType::Maqam,
        ScaleType::Ndebele,
        ScaleType::Gagaku,
        ScaleType::Pelog,
        ScaleType::Slendro,
        ScaleType::Hijaz,
        ScaleType::ShonaMbira,
        ScaleType::BohlenPierce,
    ];
    for k in kinds {
        assert!(matches!(Scale::new(k, vec![]), Err(ScaleError::NotImplemented)));
    }
}

#[test]
fn empty_scale_has_no_notes() {
    let s = Scale::new(et(0, 440.0, 12, chromatic(), 0, 0), vec![]).ok().unwrap();
    assert!(s.notes.is_empty());
}

#[test]
fn refresh_note_nums_numbers_from_reference() {
    let mut s = Scale::new(et(5, 440.0, 12, chromatic(), 0, 4), vec![1, 2, 3, 4]).ok().unwrap();
    s.reference_note = 100;
    s.notes[2].set_note_num(7);
    s.refresh_note_nums();
    let nums: Vec<u16> = s.notes.iter().map(|n| n.note_num).collect();
    assert_eq!(nums, vec![100, 101, 102, 103]);
    assert_eq!(s.notes[2].frequency, 3);
}

#[test]
fn note_setters_change_one_field() {
    let mut n = Note::new("A4".to_string(), 1, 69, 440.0f32.to_bits(), "#000000".to_string());
    n.set_name("B4".to_string());
    n.set_scale_num(2);
    n.set_note_num(71);
    n.set_frequency(493.88f32.to_bits());
    n.set_color("#FF0000".to_string());
    assert_eq!(n.name, "B4");
    assert_eq!(n.scale_num, 2);
    assert_eq!(n.note_num, 71);
    assert_eq!(f32::from_bits(n.frequency), 493.88);
    assert_eq!(n.color, "#FF0000");
}

#[test]
fn decimal_rendering() {
    let mut s = String::from("x");
    push_decimal(&mut s, 0);
    assert_eq!(s, "x0");
    let mut s = String::new();
    push_decimal(&mut s, 4294967295);
    assert_eq!(s, "4294967295");
    let mut s = String::new();
    push_signed_decimal(&mut s, -2);
    assert_eq!(s, "-2");
    let mut s = String::new();
    push_signed_decimal(&mut s, i32::MIN);
    assert_eq!(s, "-2147483648");
    let mut s = String::new();
    push_signed_decimal(&mut s, 1050);
    assert_eq!(s, "1050");
}
