//! Notes, scales and the tuning generator.
//!
//! Frequencies are carried as the bit pattern of an IEEE-754 single-precision
//! number (`f32::to_bits`); this module never computes with them.
use vstd::prelude::*;
use vstd::string::*;
use crate::decimal::{push_decimal, push_signed_decimal, decimal_digits, signed_decimal};

verus! {

/// 440 Hz, as the bit pattern of an `f32`.
pub const STANDARD_TUNING_HZ_BITS: u32 = 0x43DC_0000;

/// Divisions per octave of the standard tuning.
pub const STANDARD_OCTAVE_DIVISIONS: u16 = 12;

/// A single pitch of a scale.
pub struct Note {
    pub name: String,
    /// Position of the owning scale in the registry.
    pub scale_num: u8,
    /// Absolute note number: the scale's reference note plus the position.
    pub note_num: u16,
    /// Frequency in hertz, as an `f32` bit pattern.
    pub frequency: u32,
    pub color: String,
}

/// The mathematical model of a [`Note`].
pub ghost struct NoteView {
    pub name: Seq<char>,
    pub scale_num: u8,
    pub note_num: u16,
    pub frequency: u32,
    pub color: Seq<char>,
}

impl View for Note {
    type V = NoteView;

    open spec fn view(&self) -> NoteView {
        NoteView {
            name: self.name@,
            scale_num: self.scale_num,
            note_num: self.note_num,
            frequency: self.frequency,
            color: self.color@,
        }
    }
}

impl Note {
    pub fn new(name: String, scale_num: u8, note_num: u16, frequency: u32, color: String) -> (r: Note)
        ensures
            r.name == name,
            r.scale_num == scale_num,
            r.note_num == note_num,
            r.frequency == frequency,
            r.color == color,
    {
        Note { name, scale_num, note_num, frequency, color }
    }

    pub fn set_name(&mut self, new_name: String)
        ensures
            *final(self) == (Note { name: new_name, ..*old(self) }),
    {
        self.name = new_name;
    }

    pub fn set_scale_num(&mut self, new_scale_num: u8)
        ensures
            *final(self) == (Note { scale_num: new_scale_num, ..*old(self) }),
    {
        self.scale_num = new_scale_num;
    }

    pub fn set_note_num(&mut self, new_note_num: u16)
        ensures
            *final(self) == (Note { note_num: new_note_num, ..*old(self) }),
    {
        self.note_num = new_note_num;
    }

    pub fn set_frequency(&mut self, new_frequency: u32)
        ensures
            *final(self) == (Note { frequency: new_frequency, ..*old(self) }),
    {
        self.frequency = new_frequency;
    }

    pub fn set_color(&mut self, new_color: String)
        ensures
            *final(self) == (Note { color: new_color, ..*old(self) }),
    {
        self.color = new_color;
    }
}

/// An ordered tuning: a sequence of notes together with the parameters that
/// generated it.
pub struct Scale {
    pub name: String,
    pub description: String,
    /// Position of this scale in the registry.
    pub scale_num: u8,
    pub scale_type: String,
    pub reference_note: u16,
    /// Tuning frequency in hertz, as an `f32` bit pattern.
    pub tuning_hz: u32,
    pub octave_divisions: u16,
    pub note_class_set: Vec<String>,
    pub notes: Vec<Note>,
}

/// The mathematical model of a [`Scale`].
pub ghost struct ScaleView {
    pub name: Seq<char>,
    pub description: Seq<char>,
    pub scale_num: u8,
    pub scale_type: Seq<char>,
    pub reference_note: u16,
    pub tuning_hz: u32,
    pub octave_divisions: u16,
    pub note_class_set: Seq<Seq<char>>,
    pub notes: Seq<NoteView>,
}

impl View for Scale {
    type V = ScaleView;

    open spec fn view(&self) -> ScaleView {
        ScaleView {
            name: self.name@,
            description: self.description@,
            scale_num: self.scale_num,
            scale_type: self.scale_type@,
            reference_note: self.reference_note,
            tuning_hz: self.tuning_hz,
            octave_divisions: self.octave_divisions,
            note_class_set: self.note_class_set@.map_values(|c: String| c@),
            notes: self.notes@.map_values(|n: Note| n@),
        }
    }
}

/// A tuning-system selection. Only equal temperament is generated; the
/// others are recognised selections that are not implemented yet.
pub enum ScaleType {
    EqualTemperament {
        new_reference_note: u16,
        /// Tuning frequency in hertz, as an `f32` bit pattern.
        new_tuning_hz: u32,
        new_octave_divisions: u16,
        new_note_class_set: Vec<String>,
        octave: i8,
        note_amount: u16,
    },
    JustIntonation,
    Pythagorean5Limit,
    Werckmeister,
    Kirnberger,
    Maqam,
    Ndebele,
    Gagaku,
    Pelog,
    Slendro,
    Hijaz,
    ShonaMbira,
    BohlenPierce,
}

/// Why a scale could not be generated.
#[derive(Debug)]
pub enum ScaleError {
    /// Zero divisions per octave, or an empty set of pitch classes.
    InvalidParameters,
    /// A tuning system that has no generator yet.
    NotImplemented,
}

/// Each note numbered from the reference note by its position.
pub open spec fn with_note_nums(s: ScaleView) -> ScaleView {
    ScaleView {
        notes: Seq::new(
            s.notes.len(),
            |q: int| NoteView { note_num: (s.reference_note + q) as u16, ..s.notes[q] },
        ),
        ..s
    }
}

/// `s` standing at position `p` of the registry: the scale and each of its
/// notes carry `p` as their scale number.
pub open spec fn placed_at(s: ScaleView, p: int) -> ScaleView {
    ScaleView {
        scale_num: p as u8,
        notes: Seq::new(s.notes.len(), |q: int| NoteView { scale_num: p as u8, ..s.notes[q] }),
        ..s
    }
}

/// Whether every note of `s` is numbered from the reference note by its
/// position.
pub open spec fn note_nums_consistent(s: ScaleView) -> bool {
    forall|q: int| 0 <= q < s.notes.len() ==> #[trigger] s.notes[q].note_num == s.reference_note + q
}

/// The name of note `i` of an equal-temperament scale: its pitch class,
/// then its octave, which starts at `octave` and grows by one each time the
/// pitch classes wrap around.
pub open spec fn equal_temperament_note_name(classes: Seq<Seq<char>>, octave: int, i: int) -> Seq<char> {
    classes[i % (classes.len() as int)] + signed_decimal(octave + i / (classes.len() as int))
}

pub open spec fn equal_temperament_note(
    reference_note: u16,
    classes: Seq<Seq<char>>,
    octave: int,
    frequencies: Seq<u32>,
    i: int,
) -> NoteView {
    NoteView {
        name: equal_temperament_note_name(classes, octave, i),
        scale_num: 0,
        note_num: (reference_note + i) as u16,
        frequency: frequencies[i],
        color: "#FFFFFF"@,
    }
}

pub open spec fn equal_temperament_name(divisions: u16) -> Seq<char> {
    decimal_digits(divisions as nat) + "-Tone Equal Temperament"@
}

pub open spec fn equal_temperament_description(tuning_hz: u32, divisions: u16) -> Seq<char> {
    if tuning_hz == STANDARD_TUNING_HZ_BITS && divisions == STANDARD_OCTAVE_DIVISIONS {
        "The Standard Tuning"@
    } else {
        decimal_digits(divisions as nat) + "-Tone Equal Temperament Scale"@
    }
}

/// The equal-temperament scale of `note_amount` notes, where note `i` has
/// frequency `frequencies[i]`.
pub open spec fn equal_temperament(
    reference_note: u16,
    tuning_hz: u32,
    divisions: u16,
    classes: Seq<Seq<char>>,
    octave: i8,
    note_amount: u16,
    frequencies: Seq<u32>,
) -> ScaleView {
    ScaleView {
        name: equal_temperament_name(divisions),
        description: equal_temperament_description(tuning_hz, divisions),
        scale_num: 0,
        scale_type: "EqualTemperament"@,
        reference_note,
        tuning_hz,
        octave_divisions: divisions,
        note_class_set: classes,
        notes: Seq::new(
            note_amount as nat,
            |i: int| equal_temperament_note(reference_note, classes, octave as int, frequencies, i),
        ),
    }
}

impl Scale {
    /// Generates a scale from a tuning-system selection. For equal
    /// temperament, `frequencies[i]` is the frequency of note `i`:
    /// `tuning_hz * 2^((i - reference_note) / octave_divisions)`.
    pub fn new(scale_type: ScaleType, frequencies: Vec<u32>) -> (r: Result<Scale, ScaleError>)
        requires
            scale_type matches ScaleType::EqualTemperament { new_reference_note, note_amount, .. }
                ==> frequencies@.len() == note_amount
                && new_reference_note + note_amount <= 0x1_0000,
        ensures
            match scale_type {
                ScaleType::EqualTemperament {
                    new_reference_note,
                    new_tuning_hz,
                    new_octave_divisions,
                    new_note_class_set,
                    octave,
                    note_amount,
                } => if new_octave_divisions == 0 || new_note_class_set@.len() == 0 {
                    r matches Err(ScaleError::InvalidParameters)
                } else {
                    r matches Ok(s) && s@ == equal_temperament(
                        new_reference_note,
                        new_tuning_hz,
                        new_octave_divisions,
                        new_note_class_set@.map_values(|c: String| c@),
                        octave,
                        note_amount,
                        frequencies@,
                    )
                },
                _ => r matches Err(ScaleError::NotImplemented),
            },
    {
        match scale_type {
            ScaleType::EqualTemperament {
                new_reference_note,
                new_tuning_hz,
                new_octave_divisions,
                new_note_class_set,
                octave,
                note_amount,
            } => {
                if new_octave_divisions == 0 || new_note_class_set.len() == 0 {
                    return Err(ScaleError::InvalidParameters);
                }
                let ghost classes = new_note_class_set@.map_values(|c: String| c@);
                let ghost target = equal_temperament(
                    new_reference_note,
                    new_tuning_hz,
                    new_octave_divisions,
                    classes,
                    octave,
                    note_amount,
                    frequencies@,
                );
                let n_classes = new_note_class_set.len();
                let mut notes: Vec<Note> = Vec::new();
                let mut class_idx: usize = 0;
                let mut octave_now: i32 = octave as i32;
                let mut i: u16 = 0;
                while i < note_amount
                    invariant
                        n_classes == new_note_class_set@.len(),
                        n_classes > 0,
                        frequencies@.len() == note_amount,
                        new_reference_note + note_amount <= 0x1_0000,
                        i <= note_amount,
                        notes@.len() == i,
                        class_idx == i as int % n_classes as int,
                        octave_now == octave + i as int / n_classes as int,
                        classes == new_note_class_set@.map_values(|c: String| c@),
                        target == equal_temperament(
                            new_reference_note,
                            new_tuning_hz,
                            new_octave_divisions,
                            classes,
                            octave,
                            note_amount,
                            frequencies@,
                        ),
                        forall|k: int| 0 <= k < i ==> #[trigger] notes@[k]@ == target.notes[k],
                    decreases note_amount - i,
                {
                    let mut name = new_note_class_set[class_idx].clone();
                    push_signed_decimal(&mut name, octave_now);
                    proof { reveal_strlit("#FFFFFF"); }
                    let note = Note {
                        name,
                        scale_num: 0,
                        note_num: new_reference_note + i,
                        frequency: frequencies[i as usize],
                        color: String::from_str("#FFFFFF"),
                    };
                    assert(classes[class_idx as int] == new_note_class_set@[class_idx as int]@);
                    assert(note@ == target.notes[i as int]);
                    notes.push(note);
                    class_idx = class_idx + 1;
                    if class_idx == n_classes {
                        class_idx = 0;
                        octave_now = octave_now + 1;
                    }
                    proof {
                        let j = i as int + 1;
                        vstd::arithmetic::div_mod::lemma_fundamental_div_mod(i as int, n_classes as int);
                        vstd::arithmetic::div_mod::lemma_fundamental_div_mod(j, n_classes as int);
                        vstd::arithmetic::div_mod::lemma_div_pos_is_pos(j, n_classes as int);
                        assert(class_idx == j % n_classes as int && octave_now == octave + j / n_classes as int) by {
                            let d = n_classes as int;
                            let q = i as int / d;
                            if (i as int % d) + 1 == d {
                                assert(j == (q + 1) * d) by (nonlinear_arith)
                                    requires i as int == d * q + (i as int % d), j == i + 1, (i as int % d) + 1 == d;
                                vstd::arithmetic::div_mod::lemma_fundamental_div_mod_converse(
                                    j, n_classes as int, i as int / n_classes as int + 1, 0);
                            } else {
                                vstd::arithmetic::div_mod::lemma_fundamental_div_mod_converse(
                                    j, n_classes as int, i as int / n_classes as int, i as int % n_classes as int + 1);
                            }
                        }
                    }
                    i = i + 1;
                }
                let mut name = String::new();
                push_decimal(&mut name, new_octave_divisions as u32);
                proof { reveal_strlit("-Tone Equal Temperament"); }
                name.append("-Tone Equal Temperament");
                let description = if new_tuning_hz == STANDARD_TUNING_HZ_BITS
                    && new_octave_divisions == STANDARD_OCTAVE_DIVISIONS {
                    proof { reveal_strlit("The Standard Tuning"); }
                    String::from_str("The Standard Tuning")
                } else {
                    let mut d = String::new();
                    push_decimal(&mut d, new_octave_divisions as u32);
                    proof { reveal_strlit("-Tone Equal Temperament Scale"); }
                    d.append("-Tone Equal Temperament Scale");
                    d
                };
                proof { reveal_strlit("EqualTemperament"); }
                let s = Scale {
                    name,
                    description,
                    scale_num: 0,
                    scale_type: String::from_str("EqualTemperament"),
                    reference_note: new_reference_note,
                    tuning_hz: new_tuning_hz,
                    octave_divisions: new_octave_divisions,
                    note_class_set: new_note_class_set,
                    notes,
                };
                assert(s@.notes =~= target.notes);
                assert(s@ == target);
                Ok(s)
            },
            _ => Err(ScaleError::NotImplemented),
        }
    }

    /// Gives the scale and each of its notes the scale number `p`.
    pub(crate) fn place_at(&mut self, p: u8)
        ensures
            final(self)@ == placed_at(old(self)@, p as int),
    {
        self.scale_num = p;
        let n = self.notes.len();
        let mut i: usize = 0;
        while i < n
            invariant
                n == old(self).notes@.len(),
                self.notes@.len() == n,
                i <= n,
                self@ == (ScaleView { scale_num: p, notes: self@.notes, ..old(self)@ }),
                forall|q: int| 0 <= q < i ==> #[trigger] self.notes@[q]@ == placed_at(old(self)@, p as int).notes[q],
                forall|q: int| i <= q < n ==> #[trigger] self.notes@[q] == old(self).notes@[q],
            decreases n - i,
        {
            self.notes[i].scale_num = p;
            i = i + 1;
        }
        assert(self@.notes =~= placed_at(old(self)@, p as int).notes);
    }

    /// Renumbers the notes: each note's number becomes the reference note
    /// plus its position.
    pub fn refresh_note_nums(&mut self)
        requires
            old(self).reference_note + old(self).notes@.len() <= 0x1_0000,
        ensures
            final(self)@ == with_note_nums(old(self)@),
    {
        let n = self.notes.len();
        let mut i: usize = 0;
        while i < n
            invariant
                n == old(self).notes@.len(),
                self.notes@.len() == n,
                self.reference_note + n <= 0x1_0000,
                i <= n,
                self@ == (ScaleView { notes: self@.notes, ..old(self)@ }),
                forall|q: int| 0 <= q < i ==> #[trigger] self.notes@[q]@ == with_note_nums(old(self)@).notes[q],
                forall|q: int| i <= q < n ==> #[trigger] self.notes@[q] == old(self).notes@[q],
            decreases n - i,
        {
            let num = self.reference_note + i as u16;
            self.notes[i].note_num = num;
            i = i + 1;
        }
        assert(self@.notes =~= with_note_nums(old(self)@).notes);
    }
}

} // verus!
