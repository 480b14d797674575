//! The instrument aggregate, its performance surfaces, and the scale registry
//! whose positions every surface's open-note binding refers to.
pub mod qr_input;
pub mod registry;
pub mod scale;

use vstd::prelude::*;
use vstd::string::*;
use self::qr_input::{ActionInput, TranspositionInput};
use self::registry::{
    renumbered, normalized, scales_numbered, bindings_sized, bindings_in_range, insert_note,
    remove_note, clamp_binding, lemma_with_note_nums_fixed, lemma_placed_at_fixed,
    lemma_normalized_fixed, lemma_normalized_numbered, lemma_numbered_fits,
};
use self::scale::{
    Note, Scale, ScaleType, ScaleView, equal_temperament, STANDARD_TUNING_HZ_BITS, STANDARD_OCTAVE_DIVISIONS,
};
use self::scale::{ with_note_nums, placed_at};

verus! {

/// Which MIDI outputs a surface drives.
pub struct MIDIParams {
    pub output: Vec<bool>,
}

impl MIDIParams {
    pub fn new(output: Vec<bool>) -> (r: MIDIParams)
        ensures
            r.output == output,
    {
        MIDIParams { output }
    }
}

/// One oscillator of a surface. The gain is an `f32` bit pattern.
pub struct Oscillator {
    pub output: bool,
    pub wave_type: String,
    pub gain: u32,
}

impl Oscillator {
    pub fn new(output: bool, wave_type: String, gain: u32) -> (r: Oscillator)
        ensures
            r.output == output,
            r.wave_type == wave_type,
            r.gain == gain,
    {
        Oscillator { output, wave_type, gain }
    }
}

/// A string-like performance surface. `open_notes[i]` is the position of the
/// note of scale `i` that it plays untransposed.
pub struct Gut {
    pub name: String,
    pub description: String,
    pub gut_num: u8,
    pub midi: MIDIParams,
    pub oscillators: Vec<Oscillator>,
    pub require_fret: bool,
    pub require_aero: bool,
    pub open_notes: Vec<u16>,
    pub act_in: ActionInput,
    pub sus_in: ActionInput,
    pub asu_in: ActionInput,
    pub sos_in: ActionInput,
    pub aso_in: ActionInput,
    pub transp_in: TranspositionInput,
    pub frets: Vec<Fret>,
}

impl Gut {
    pub fn new(
        name: String,
        description: String,
        gut_num: u8,
        midi: MIDIParams,
        oscillators: Vec<Oscillator>,
        require_fret: bool,
        require_aero: bool,
        open_notes: Vec<u16>,
        act_in: ActionInput,
        sus_in: ActionInput,
        asu_in: ActionInput,
        sos_in: ActionInput,
        aso_in: ActionInput,
        transp_in: TranspositionInput,
        frets: Vec<Fret>,
    ) -> (r: Gut)
        ensures
            r == (Gut {
                name,
                description,
                gut_num,
                midi,
                oscillators,
                require_fret,
                require_aero,
                open_notes,
                act_in,
                sus_in,
                asu_in,
                sos_in,
                aso_in,
                transp_in,
                frets,
            }),
    {
        Gut {
            name,
            description,
            gut_num,
            midi,
            oscillators,
            require_fret,
            require_aero,
            open_notes,
            act_in,
            sus_in,
            asu_in,
            sos_in,
            aso_in,
            transp_in,
            frets,
        }
    }
}

/// A fret of a gut.
pub struct Fret {
    pub name: String,
    pub description: String,
    pub gut_num: u8,
    pub fret_num: u8,
    pub act_in: ActionInput,
    pub sus_in: ActionInput,
    pub asu_in: ActionInput,
    pub sos_in: ActionInput,
    pub aso_in: ActionInput,
    pub transp_in: TranspositionInput,
}

impl Fret {
    pub fn new(
        name: String,
        description: String,
        gut_num: u8,
        fret_num: u8,
        act_in: ActionInput,
        sus_in: ActionInput,
        asu_in: ActionInput,
        sos_in: ActionInput,
        aso_in: ActionInput,
        transp_in: TranspositionInput,
    ) -> (r: Fret)
        ensures
            r == (Fret {
                name,
                description,
                gut_num,
                fret_num,
                act_in,
                sus_in,
                asu_in,
                sos_in,
                aso_in,
                transp_in,
            }),
    {
        Fret { name, description, gut_num, fret_num, act_in, sus_in, asu_in, sos_in, aso_in, transp_in }
    }
}

/// A pad of an aero.
pub struct Pad {
    pub name: String,
    pub description: String,
    pub aero_num: u8,
    pub pad_num: u8,
    pub act_in: ActionInput,
    pub sus_in: ActionInput,
    pub asu_in: ActionInput,
    pub sos_in: ActionInput,
    pub aso_in: ActionInput,
}

impl Pad {
    pub fn new(
        name: String,
        description: String,
        aero_num: u8,
        pad_num: u8,
        act_in: ActionInput,
        sus_in: ActionInput,
        asu_in: ActionInput,
        sos_in: ActionInput,
        aso_in: ActionInput,
    ) -> (r: Pad)
        ensures
            r == (Pad { name, description, aero_num, pad_num, act_in, sus_in, asu_in, sos_in, aso_in }),
    {
        Pad { name, description, aero_num, pad_num, act_in, sus_in, asu_in, sos_in, aso_in }
    }
}

/// A transposition applied by a combo. The cent offset is an `f32` bit
/// pattern.
pub struct Delta {
    pub note_bool: bool,
    pub cent_bool: bool,
    pub note_delta: i16,
    pub cents_delta: u32,
}

impl Delta {
    /// The neutral transposition: both parts enabled, no offset.
    pub fn new() -> (r: Delta)
        ensures
            r.note_bool,
            r.cent_bool,
            r.note_delta == 0,
            r.cents_delta == 0,
    {
        Delta { note_bool: true, cent_bool: true, note_delta: 0, cents_delta: 0 }
    }
}

/// A chord of pads of an aero and the transpositions it applies.
pub struct Combo {
    pub name: String,
    pub description: String,
    pub aero_num: u8,
    pub combo_num: u16,
    pub combo: Vec<bool>,
    pub transp_in: TranspositionInput,
    pub delta_set: Vec<Delta>,
}

impl Combo {
    pub fn new(
        name: String,
        description: String,
        aero_num: u8,
        combo_num: u16,
        combo: Vec<bool>,
        transp_in: TranspositionInput,
        delta_set: Vec<Delta>,
    ) -> (r: Combo)
        ensures
            r == (Combo { name, description, aero_num, combo_num, combo, transp_in, delta_set }),
    {
        Combo { name, description, aero_num, combo_num, combo, transp_in, delta_set }
    }
}

/// A breath or gesture surface with pads and combos.
pub struct Aero {
    pub name: String,
    pub description: String,
    pub aero_num: u8,
    pub transp_in: TranspositionInput,
    pub pads: Vec<Pad>,
    pub combos: Vec<Combo>,
}

impl Aero {
    pub fn new(
        name: String,
        description: String,
        aero_num: u8,
        transp_in: TranspositionInput,
        pads: Vec<Pad>,
        combos: Vec<Combo>,
    ) -> (r: Aero)
        ensures
            r == (Aero { name, description, aero_num, transp_in, pads, combos }),
    {
        Aero { name, description, aero_num, transp_in, pads, combos }
    }
}

/// Reference note of the default scale.
pub const DEFAULT_REFERENCE_NOTE: u16 = 69;

/// Number of notes of the default scale.
pub const DEFAULT_NOTE_AMOUNT: u16 = 128;

/// Octave of the default scale's first note.
pub const DEFAULT_OCTAVE: i8 = -2;

/// The twelve pitch classes of the default scale.
pub open spec fn chromatic_names() -> Seq<Seq<char>> {
    seq![
        "C"@, "C#"@, "D"@, "D#"@, "E"@, "F"@, "F#"@, "G"@, "G#"@, "A"@, "A#"@, "B"@,
    ]
}

/// The default scale: 128 notes of twelve-tone equal temperament at 440 Hz,
/// referenced at note 69, starting in octave -2.
pub open spec fn default_scale(frequencies: Seq<u32>) -> ScaleView {
    equal_temperament(
        DEFAULT_REFERENCE_NOTE,
        STANDARD_TUNING_HZ_BITS,
        STANDARD_OCTAVE_DIVISIONS,
        chromatic_names(),
        DEFAULT_OCTAVE,
        DEFAULT_NOTE_AMOUNT,
        frequencies,
    )
}

fn chromatic_classes() -> (r: Vec<String>)
    ensures
        r@.map_values(|c: String| c@) == chromatic_names(),
        r@.len() == 12,
{
    proof {
        reveal_strlit("C");
        reveal_strlit("C#");
        reveal_strlit("D");
        reveal_strlit("D#");
        reveal_strlit("E");
        reveal_strlit("F");
        reveal_strlit("F#");
        reveal_strlit("G");
        reveal_strlit("G#");
        reveal_strlit("A");
        reveal_strlit("A#");
        reveal_strlit("B");
    }
    let mut v: Vec<String> = Vec::new();
    v.push(String::from_str("C"));
    v.push(String::from_str("C#"));
    v.push(String::from_str("D"));
    v.push(String::from_str("D#"));
    v.push(String::from_str("E"));
    v.push(String::from_str("F"));
    v.push(String::from_str("F#"));
    v.push(String::from_str("G"));
    v.push(String::from_str("G#"));
    v.push(String::from_str("A"));
    v.push(String::from_str("A#"));
    v.push(String::from_str("B"));
    assert(v@.map_values(|c: String| c@) =~= chromatic_names());
    v
}

/// The instrument: its metadata, the scale registry, and its surfaces.
pub struct Qrud {
    pub name: String,
    pub version: String,
    pub unix_timestamp: u64,
    pub description: String,
    pub debounce_timer: u16,
    pub scales: Vec<Scale>,
    pub guts: Vec<Gut>,
    pub aeros: Vec<Aero>,
}

/// Whether `after` is `before` with at most the open-note bindings changed.
pub open spec fn guts_rebound(before: Seq<Gut>, after: Seq<Gut>) -> bool {
    &&& after.len() == before.len()
    &&& forall|g: int| 0 <= g < before.len()
        ==> #[trigger] after[g] == (Gut { open_notes: after[g].open_notes, ..before[g] })
}

impl Qrud {
    /// The registry, scale by scale.
    pub open spec fn scales_view(&self) -> Seq<ScaleView> {
        self.scales@.map_values(|s: Scale| s@)
    }

    /// The open-note binding of each gut.
    pub open spec fn bindings(&self) -> Seq<Seq<u16>> {
        self.guts@.map_values(|g: Gut| g.open_notes@)
    }

    /// Every scale and note numbered by position, and every binding with one
    /// in-range entry per scale.
    pub open spec fn wf(&self) -> bool {
        &&& scales_numbered(self.scales_view())
        &&& bindings_sized(self.bindings(), self.scales@.len())
        &&& bindings_in_range(self.bindings(), self.scales_view())
    }

    /// The default instrument, created at `unix_timestamp`: one default
    /// scale whose note `i` has frequency `frequencies[i]`, and no surfaces.
    pub fn new(unix_timestamp: u64, frequencies: Vec<u32>) -> (r: Qrud)
        requires
            frequencies@.len() == DEFAULT_NOTE_AMOUNT,
        ensures
            r.wf(),
            r.name@ == "Qwert-O-Phone Redux Default"@,
            r.version@ == "0.1.0"@,
            r.unix_timestamp == unix_timestamp,
            r.description@ == "Default QRUD"@,
            r.debounce_timer == 0,
            r.scales_view() == seq![default_scale(frequencies@)],
            r.guts@.len() == 0,
            r.aeros@.len() == 0,
    {
        let ghost fs = frequencies@;
        let classes = chromatic_classes();
        let scale_type = ScaleType::EqualTemperament {
            new_reference_note: DEFAULT_REFERENCE_NOTE,
            new_tuning_hz: STANDARD_TUNING_HZ_BITS,
            new_octave_divisions: STANDARD_OCTAVE_DIVISIONS,
            new_note_class_set: classes,
            octave: DEFAULT_OCTAVE,
            note_amount: DEFAULT_NOTE_AMOUNT,
        };
        let scale = Scale::new(scale_type, frequencies).unwrap();
        let mut scales: Vec<Scale> = Vec::new();
        scales.push(scale);
        proof {
            reveal_strlit("Qwert-O-Phone Redux Default");
            reveal_strlit("0.1.0");
            reveal_strlit("Default QRUD");
        }
        let r = Qrud {
            name: String::from_str("Qwert-O-Phone Redux Default"),
            version: String::from_str("0.1.0"),
            unix_timestamp,
            description: String::from_str("Default QRUD"),
            debounce_timer: 0,
            scales,
            guts: Vec::new(),
            aeros: Vec::new(),
        };
        assert(r.scales_view() =~= seq![default_scale(fs)]);
        proof {
            let sv = default_scale(fs);
            assert(sv.notes.len() == DEFAULT_NOTE_AMOUNT);
            assert forall|q: int| 0 <= q < sv.notes.len() implies #[trigger] sv.notes[q].note_num
                == sv.reference_note + q by {
                assert(0 <= DEFAULT_REFERENCE_NOTE + q < 0x1_0000);
            }
            assert(r.bindings() =~= Seq::<Seq<u16>>::empty());
        }
        r
    }

    /// Numbers every scale, and every note within it, by the scale's position.
    pub fn refresh_scale_nums(&mut self)
        requires
            old(self).scales@.len() <= 0x100,
        ensures
            final(self).scales_view() == renumbered(old(self).scales_view()),
            *final(self) == (Qrud { scales: final(self).scales, ..*old(self) }),
    {
        let n = self.scales.len();
        let mut p: usize = 0;
        while p < n
            invariant
                n == old(self).scales@.len(),
                n <= 0x100,
                p <= n,
                self.scales@.len() == n,
                *self == (Qrud { scales: self.scales, ..*old(self) }),
                forall|k: int| 0 <= k < p ==> #[trigger] self.scales@[k]@ == renumbered(old(self).scales_view())[k],
                forall|k: int| p <= k < n ==> #[trigger] self.scales@[k] == old(self).scales@[k],
            decreases n - p,
        {
            self.scales[p].place_at(p as u8);
            p = p + 1;
        }
        assert(self.scales_view() =~= renumbered(old(self).scales_view()));
    }

    /// Appends a default entry to every gut's binding.
    fn push_default_bindings(&mut self)
        ensures
            guts_rebound(old(self).guts@, final(self).guts@),
            final(self).bindings() == old(self).bindings().map_values(|b: Seq<u16>| b.push(0)),
            *final(self) == (Qrud { guts: final(self).guts, ..*old(self) }),
    {
        let n = self.guts.len();
        let mut g: usize = 0;
        while g < n
            invariant
                n == old(self).guts@.len(),
                g <= n,
                self.guts@.len() == n,
                *self == (Qrud { guts: self.guts, ..*old(self) }),
                forall|k: int| 0 <= k < g ==> #[trigger] self.guts@[k] == (Gut {
                    open_notes: self.guts@[k].open_notes,
                    ..old(self).guts@[k]
                }) && self.guts@[k].open_notes@ == old(self).guts@[k].open_notes@.push(0),
                forall|k: int| g <= k < n ==> #[trigger] self.guts@[k] == old(self).guts@[k],
            decreases n - g,
        {
            self.guts[g].open_notes.push(0);
            g = g + 1;
        }
        assert(self.bindings() =~= old(self).bindings().map_values(|b: Seq<u16>| b.push(0)));
    }

    /// Removes the entry at `index` from every gut's binding.
    fn remove_bindings_at(&mut self, index: usize)
        requires
            forall|g: int| 0 <= g < old(self).guts@.len() ==> index < #[trigger] old(self).guts@[g].open_notes@.len(),
        ensures
            guts_rebound(old(self).guts@, final(self).guts@),
            final(self).bindings() == old(self).bindings().map_values(|b: Seq<u16>| b.remove(index as int)),
            *final(self) == (Qrud { guts: final(self).guts, ..*old(self) }),
    {
        let n = self.guts.len();
        let mut g: usize = 0;
        while g < n
            invariant
                n == old(self).guts@.len(),
                g <= n,
                self.guts@.len() == n,
                *self == (Qrud { guts: self.guts, ..*old(self) }),
                forall|k: int| 0 <= k < n ==> index < #[trigger] old(self).guts@[k].open_notes@.len(),
                forall|k: int| 0 <= k < g ==> #[trigger] self.guts@[k] == (Gut {
                    open_notes: self.guts@[k].open_notes,
                    ..old(self).guts@[k]
                }) && self.guts@[k].open_notes@ == old(self).guts@[k].open_notes@.remove(index as int),
                forall|k: int| g <= k < n ==> #[trigger] self.guts@[k] == old(self).guts@[k],
            decreases n - g,
        {
            self.guts[g].open_notes.remove(index);
            g = g + 1;
        }
        assert(self.bindings() =~= old(self).bindings().map_values(|b: Seq<u16>| b.remove(index as int)));
    }

    /// Keeps the entry at `index` of every gut's binding below `n`.
    fn clamp_bindings_at(&mut self, index: usize, n: usize)
        requires
            0 < n <= 0x1_0000,
            forall|g: int| 0 <= g < old(self).guts@.len() ==> index < #[trigger] old(self).guts@[g].open_notes@.len(),
        ensures
            guts_rebound(old(self).guts@, final(self).guts@),
            final(self).bindings() == old(self).bindings().map_values(
                |b: Seq<u16>| b.update(index as int, clamp_binding(b[index as int], n as nat)),
            ),
            *final(self) == (Qrud { guts: final(self).guts, ..*old(self) }),
    {
        let len = self.guts.len();
        let mut g: usize = 0;
        while g < len
            invariant
                len == old(self).guts@.len(),
                0 < n <= 0x1_0000,
                g <= len,
                self.guts@.len() == len,
                *self == (Qrud { guts: self.guts, ..*old(self) }),
                forall|k: int| 0 <= k < len ==> index < #[trigger] old(self).guts@[k].open_notes@.len(),
                forall|k: int| 0 <= k < g ==> #[trigger] self.guts@[k] == (Gut {
                    open_notes: self.guts@[k].open_notes,
                    ..old(self).guts@[k]
                }) && self.guts@[k].open_notes@ == old(self).guts@[k].open_notes@.update(
                    index as int,
                    clamp_binding(old(self).guts@[k].open_notes@[index as int], n as nat),
                ),
                forall|k: int| g <= k < len ==> #[trigger] self.guts@[k] == old(self).guts@[k],
            decreases len - g,
        {
            if self.guts[g].open_notes[index] as usize >= n {
                self.guts[g].open_notes[index] = (n - 1) as u16;
            }
            proof {
                assert(self.guts@[g as int].open_notes@ =~= old(self).guts@[g as int].open_notes@.update(
                    index as int,
                    clamp_binding(old(self).guts@[g as int].open_notes@[index as int], n as nat),
                ));
            }
            g = g + 1;
        }
        assert(self.bindings() =~= old(self).bindings().map_values(
            |b: Seq<u16>| b.update(index as int, clamp_binding(b[index as int], n as nat)),
        ));
    }

    /// Appends a scale to the registry, numbers it and its notes by
    /// position, and gives every gut a binding entry of 0 for it.
    pub fn add_scale(&mut self, scale: Scale)
        requires
            old(self).wf(),
            old(self).scales@.len() < 0x100,
            scale.reference_note + scale.notes@.len() <= 0x1_0000,
        ensures
            final(self).wf(),
            final(self).scales_view() == normalized(old(self).scales_view().push(scale@)),
            guts_rebound(old(self).guts@, final(self).guts@),
            final(self).bindings() == old(self).bindings().map_values(|b: Seq<u16>| b.push(0)),
            *final(self) == (Qrud { scales: final(self).scales, guts: final(self).guts, ..*old(self) }),
    {
        let ghost s0 = self.scales_view();
        let ghost added = scale@;
        let mut scale = scale;
        scale.refresh_note_nums();
        self.scales.push(scale);
        assert(self.scales_view() =~= s0.push(with_note_nums(added)));
        self.refresh_scale_nums();
        self.push_default_bindings();
        proof {
            let t = s0.push(added);
            assert forall|p: int| 0 <= p < s0.len() implies #[trigger] with_note_nums(s0[p]) == s0[p] by {
                lemma_with_note_nums_fixed(s0[p]);
            }
            assert(t.map_values(|sv: ScaleView| with_note_nums(sv)) =~= s0.push(with_note_nums(added)));
            lemma_numbered_fits(s0);
            assert forall|p: int| 0 <= p < t.len() implies #[trigger] t[p].reference_note + t[p].notes.len() <= 0x1_0000 by {
                if p < s0.len() {
                    assert(s0[p].reference_note + s0[p].notes.len() <= 0x1_0000);
                }
            }
            lemma_normalized_numbered(t);
        }
    }

    /// Removes the scale at `index`, renumbers the registry, and removes the
    /// entry at `index` from every gut's binding. Out-of-range indices, and
    /// removing the only scale, leave the instrument unchanged.
    pub fn remove_scale_at(&mut self, index: usize)
        requires
            old(self).wf(),
        ensures
            final(self).wf(),
            if index < old(self).scales@.len() && old(self).scales@.len() > 1 {
                &&& final(self).scales_view() == normalized(old(self).scales_view().remove(index as int))
                &&& guts_rebound(old(self).guts@, final(self).guts@)
                &&& final(self).bindings() == old(self).bindings().map_values(|b: Seq<u16>| b.remove(index as int))
                &&& *final(self) == (Qrud { scales: final(self).scales, guts: final(self).guts, ..*old(self) })
            } else {
                *final(self) == *old(self)
            },
    {
        if index < self.scales.len() && self.scales.len() > 1 {
            let ghost s0 = self.scales_view();
            let ghost b0 = self.bindings();
            proof { lemma_numbered_fits(s0); }
            self.scales.remove(index);
            assert(self.scales_view() =~= s0.remove(index as int));
            self.refresh_scale_nums();
            assert forall|g: int| 0 <= g < self.guts@.len() implies index < #[trigger] self.guts@[g].open_notes@.len() by {
                assert(b0[g].len() == s0.len());
            }
            self.remove_bindings_at(index);
            proof {
                let t = s0.remove(index as int);
                assert forall|p: int| 0 <= p < t.len() implies #[trigger] with_note_nums(t[p]) == t[p] by {
                    lemma_with_note_nums_fixed(t[p]);
                }
                assert(t.map_values(|sv: ScaleView| with_note_nums(sv)) =~= t);
                assert forall|p: int| 0 <= p < t.len() implies #[trigger] t[p].reference_note + t[p].notes.len() <= 0x1_0000 by {
                    if p < index {
                        assert(s0[p].reference_note + s0[p].notes.len() <= 0x1_0000);
                    } else {
                        assert(s0[p + 1].reference_note + s0[p + 1].notes.len() <= 0x1_0000);
                    }
                }
                lemma_normalized_numbered(t);
                let s1 = self.scales_view();
                let b1 = self.bindings();
                assert forall|g: int, i: int|
                    0 <= g < b1.len() && 0 <= i < s1.len() && #[trigger] s1[i].notes.len() > 0
                        implies #[trigger] b1[g][i] < s1[i].notes.len() by {
                    if i < index {
                        assert(b1[g][i] == b0[g][i]);
                    } else {
                        assert(b1[g][i] == b0[g][i + 1]);
                    }
                }
            }
        }
    }

    /// Inserts `note` at position `note_idx` of the scale at `scale_idx`
    /// (`note_idx` may be the scale's length, to append), then renumbers
    /// that scale's notes. Bindings stay valid, as the scale only grows.
    /// Out-of-range indices leave the instrument unchanged.
    pub fn add_scale_note_at(&mut self, scale_idx: usize, note: Note, note_idx: usize)
        requires
            old(self).wf(),
            scale_idx < old(self).scales@.len() ==> old(self).scales@[scale_idx as int].reference_note
                + old(self).scales@[scale_idx as int].notes@.len() < 0x1_0000,
        ensures
            final(self).wf(),
            if scale_idx < old(self).scales@.len() && note_idx <= old(self).scales@[scale_idx as int].notes@.len() {
                &&& final(self).scales_view() == normalized(old(self).scales_view().update(
                    scale_idx as int,
                    insert_note(old(self).scales_view()[scale_idx as int], note@, note_idx as int),
                ))
                &&& guts_rebound(old(self).guts@, final(self).guts@)
                &&& final(self).bindings() == old(self).bindings().map_values(
                    |b: Seq<u16>| b.update(
                        scale_idx as int,
                        clamp_binding(
                            b[scale_idx as int],
                            (old(self).scales@[scale_idx as int].notes@.len() + 1) as nat,
                        ),
                    ),
                )
                &&& *final(self) == (Qrud { scales: final(self).scales, guts: final(self).guts, ..*old(self) })
            } else {
                *final(self) == *old(self)
            },
    {
        if scale_idx < self.scales.len() && note_idx <= self.scales[scale_idx].notes.len() {
            let ghost s0 = self.scales_view();
            let ghost b0 = self.bindings();
            let ghost t = s0.update(scale_idx as int, insert_note(s0[scale_idx as int], note@, note_idx as int));
            proof { lemma_numbered_fits(s0); }
            self.scales[scale_idx].notes.insert(note_idx, note);
            assert(self.scales@[scale_idx as int]@ == t[scale_idx as int]) by {
                assert(self.scales@[scale_idx as int]@.notes =~= t[scale_idx as int].notes);
            }
            self.scales[scale_idx].refresh_note_nums();
            self.scales[scale_idx].place_at(scale_idx as u8);
            assert(self.scales@[scale_idx as int]@ == placed_at(with_note_nums(t[scale_idx as int]), scale_idx as int));
            assert(self.scales@[scale_idx as int]@.notes.len() == self.scales@[scale_idx as int].notes@.len());
            assert(s0[scale_idx as int].notes.len() == old(self).scales@[scale_idx as int].notes@.len());
            assert(self.scales@[scale_idx as int].notes@.len() == old(self).scales@[scale_idx as int].notes@.len() + 1);
            let count = self.scales[scale_idx].notes.len();
            assert forall|g: int| 0 <= g < self.guts@.len() implies scale_idx < #[trigger] self.guts@[g].open_notes@.len() by {
                assert(b0[g].len() == s0.len());
            }
            self.clamp_bindings_at(scale_idx, count);
            proof {
                assert forall|p: int| 0 <= p < t.len() implies #[trigger] t[p].reference_note + t[p].notes.len() <= 0x1_0000 by {
                    assert(s0[p].reference_note + s0[p].notes.len() <= 0x1_0000);
                }
                lemma_normalized_numbered(t);
                lemma_normalized_fixed(s0);
                assert forall|p: int| 0 <= p < t.len() implies #[trigger] self.scales_view()[p] == normalized(t)[p] by {
                    if p != scale_idx {
                        assert(normalized(s0)[p] == s0[p]);
                    }
                }
                assert(self.scales_view() =~= normalized(t));
                let s1 = self.scales_view();
                let b1 = self.bindings();
                assert forall|g: int, i: int|
                    0 <= g < b1.len() && 0 <= i < s1.len() && #[trigger] s1[i].notes.len() > 0
                        implies #[trigger] b1[g][i] < s1[i].notes.len() by {
                    if i != scale_idx {
                        assert(b1[g][i] == b0[g][i]);
                    }
                }
            }
        }
    }

    /// Removes the note at position `note_idx` of the scale at `scale_idx`,
    /// renumbers that scale's notes, and clamps every gut's binding entry for
    /// that scale to the last remaining note. Out-of-range indices, and
    /// removing a scale's only note, leave the instrument unchanged.
    pub fn remove_scale_note_at(&mut self, scale_idx: usize, note_idx: usize)
        requires
            old(self).wf(),
        ensures
            final(self).wf(),
            if scale_idx < old(self).scales@.len() && note_idx < old(self).scales@[scale_idx as int].notes@.len()
                && old(self).scales@[scale_idx as int].notes@.len() > 1 {
                &&& final(self).scales_view() == normalized(old(self).scales_view().update(
                    scale_idx as int,
                    remove_note(old(self).scales_view()[scale_idx as int], note_idx as int),
                ))
                &&& guts_rebound(old(self).guts@, final(self).guts@)
                &&& final(self).bindings() == old(self).bindings().map_values(
                    |b: Seq<u16>| b.update(
                        scale_idx as int,
                        clamp_binding(
                            b[scale_idx as int],
                            (old(self).scales@[scale_idx as int].notes@.len() - 1) as nat,
                        ),
                    ),
                )
                &&& *final(self) == (Qrud { scales: final(self).scales, guts: final(self).guts, ..*old(self) })
            } else {
                *final(self) == *old(self)
            },
    {
        if scale_idx < self.scales.len() && note_idx < self.scales[scale_idx].notes.len()
            && self.scales[scale_idx].notes.len() > 1 {
            let ghost s0 = self.scales_view();
            let ghost b0 = self.bindings();
            let ghost t = s0.update(scale_idx as int, remove_note(s0[scale_idx as int], note_idx as int));
            proof { lemma_numbered_fits(s0); }
            self.scales[scale_idx].notes.remove(note_idx);
            assert(self.scales@[scale_idx as int]@ == t[scale_idx as int]) by {
                assert(self.scales@[scale_idx as int]@.notes =~= t[scale_idx as int].notes);
            }
            self.scales[scale_idx].refresh_note_nums();
            assert(s0[scale_idx as int].reference_note + s0[scale_idx as int].notes.len() <= 0x1_0000);
            assert(self.scales@[scale_idx as int]@ == with_note_nums(t[scale_idx as int]));
            assert(self.scales@[scale_idx as int]@.notes.len() == self.scales@[scale_idx as int].notes@.len());
            let remaining = self.scales[scale_idx].notes.len();
            assert forall|g: int| 0 <= g < self.guts@.len() implies scale_idx < #[trigger] self.guts@[g].open_notes@.len() by {
                assert(b0[g].len() == s0.len());
            }
            self.clamp_bindings_at(scale_idx, remaining);
            proof {
                assert forall|p: int| 0 <= p < t.len() implies #[trigger] t[p].reference_note + t[p].notes.len() <= 0x1_0000 by {
                    assert(s0[p].reference_note + s0[p].notes.len() <= 0x1_0000);
                }
                lemma_normalized_numbered(t);
                lemma_normalized_fixed(s0);
                let si = scale_idx as int;
                let r = with_note_nums(t[si]);
                assert(s0[si].scale_num == si);
                assert forall|q: int| 0 <= q < r.notes.len() implies #[trigger] r.notes[q].scale_num == si by {
                    if q < note_idx {
                        assert(r.notes[q].scale_num == s0[si].notes[q].scale_num);
                    } else {
                        assert(r.notes[q].scale_num == s0[si].notes[q + 1].scale_num);
                    }
                }
                lemma_placed_at_fixed(r, si);
                assert forall|p: int| 0 <= p < t.len() implies #[trigger] self.scales_view()[p] == normalized(t)[p] by {
                    if p != si {
                        assert(normalized(s0)[p] == s0[p]);
                    }
                }
                assert(self.scales_view() =~= normalized(t));
                let s1 = self.scales_view();
                let b1 = self.bindings();
                assert forall|g: int, i: int|
                    0 <= g < b1.len() && 0 <= i < s1.len() && #[trigger] s1[i].notes.len() > 0
                        implies #[trigger] b1[g][i] < s1[i].notes.len() by {
                    if i != si {
                        assert(b1[g][i] == b0[g][i]);
                    }
                }
            }
        }
    }
}

} // verus!
