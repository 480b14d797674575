use qrud::qrud::qr_input::{ActionInput, TranspositionInput, TranspositionKB};
use qrud::qrud::{Aero, Combo, Delta, Fret, MIDIParams, Oscillator, Pad};

fn action(key: &str) -> ActionInput {
    ActionInput { kb_down: vec![key.to_string()], kb_up: vec![], m_n_on: vec![60], m_n_off: vec![] }
}

fn transp() -> TranspositionInput {
    TranspositionInput {
        kb_down: vec![TranspositionKB {
            code: "KeyA".to_string(),
            note_bool: true,
            cent_bool: false,
            note_delta: -12,
            cent_delta: 0.5f32.to_bits(),
        }],
        kb_up: vec![],
        m_n_on: vec![],
        m_n_off: vec![],
    }
}

#[test]
fn delta_new_is_neutral() {
    let d = Delta::new();
    assert!(d.note_bool);
    assert!(d.cent_bool);
    assert_eq!(d.note_delta, 0);
    assert_eq!(f32::from_bits(d.cents_delta), 0.0);
}

#[test]
fn record_constructors_keep_fields() {
    let m = MIDIParams::new(vec![true, false]);
    assert_eq!(m.output, vec![true, false]);
    let o = Oscillator::new(true, "sine".to_string(), 0.25f32.to_bits());
    assert_eq!(o.wave_type, "sine");
    assert_eq!(f32::from_bits(o.gain), 0.25);
    let p = Pad::new("p".to_string(), "pad".to_string(), 1, 2, action("a"), action("b"), action("c"), action("d"), action("e"));
    assert_eq!(p.aero_num, 1);
    assert_eq!(p.pad_num, 2);
    assert_eq!(p.sus_in.kb_down, vec!["b".to_string()]);
    assert_eq!(p.aso_in.m_n_on, vec![60]);
    let f = Fret::new("f".to_string(), "fret".to_string(), 3, 4, action("a"), action("b"), action("c"), action("d"), action("e"), transp());
    assert_eq!(f.gut_num, 3);
    assert_eq!(f.fret_num, 4);
    assert_eq!(f.transp_in.kb_down[0].note_delta, -12);
    let c = Combo::new("c".to_string(), "combo".to_string(), 5, 300, vec![true], transp(), vec![Delta::new()]);
    assert_eq!(c.combo_num, 300);
    assert_eq!(c.delta_set.len(), 1);
    let a = Aero::new("a".to_string(), "aero".to_string(), 6, transp(), vec![p], vec![c]);
    assert_eq!(a.aero_num, 6);
    assert_eq!(a.pads[0].name, "p");
    assert_eq!(a.combos[0].name, "c");
}
