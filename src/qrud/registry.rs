//! The model of the scale registry: how positions number scales and notes,
//! and what each structural change does to the registry.
use vstd::prelude::*;
use super::scale::{NoteView, ScaleView, placed_at, with_note_nums, note_nums_consistent};

verus! {

/// Every scale numbered by its position (notes keep their note numbers).
pub open spec fn renumbered(s: Seq<ScaleView>) -> Seq<ScaleView> {
    Seq::new(s.len(), |p: int| placed_at(s[p], p))
}

/// The registry as it stands once a change has settled: every scale and note
/// numbered by position.
pub open spec fn normalized(s: Seq<ScaleView>) -> Seq<ScaleView> {
    renumbered(s.map_values(|sv: ScaleView| with_note_nums(sv)))
}

/// Whether the scale at `p`, and each of its notes, carries `p` as its scale
/// number.
pub open spec fn scale_nums_consistent(s: Seq<ScaleView>) -> bool {
    forall|p: int| 0 <= p < s.len() ==> {
        &&& #[trigger] s[p].scale_num == p
        &&& forall|q: int| 0 <= q < s[p].notes.len() ==> #[trigger] s[p].notes[q].scale_num == p
    }
}

/// Whether every scale is numbered by its position and every note by the
/// scale's reference note plus its own position.
pub open spec fn scales_numbered(s: Seq<ScaleView>) -> bool {
    &&& scale_nums_consistent(s)
    &&& forall|p: int| 0 <= p < s.len() ==> #[trigger] note_nums_consistent(s[p])
}

/// Whether every binding has one entry per scale.
pub open spec fn bindings_sized(b: Seq<Seq<u16>>, n: nat) -> bool {
    forall|g: int| 0 <= g < b.len() ==> #[trigger] b[g].len() == n
}

/// Whether every binding entry names a note of its scale, where that scale
/// has notes.
pub open spec fn bindings_in_range(b: Seq<Seq<u16>>, s: Seq<ScaleView>) -> bool {
    forall|g: int, i: int|
        0 <= g < b.len() && 0 <= i < s.len() && #[trigger] s[i].notes.len() > 0
            ==> #[trigger] b[g][i] < s[i].notes.len()
}

/// `s` with `note` inserted at position `q`.
pub open spec fn insert_note(s: ScaleView, note: NoteView, q: int) -> ScaleView {
    ScaleView { notes: s.notes.insert(q, note), ..s }
}

/// `s` without its note at position `q`.
pub open spec fn remove_note(s: ScaleView, q: int) -> ScaleView {
    ScaleView { notes: s.notes.remove(q), ..s }
}

/// A binding entry kept within a scale of `n > 0` notes.
pub open spec fn clamp_binding(v: u16, n: nat) -> u16 {
    if v >= n { (n - 1) as u16 } else { v }
}

pub proof fn lemma_with_note_nums_fixed(s: ScaleView)
    requires
        note_nums_consistent(s),
    ensures
        with_note_nums(s) == s,
{
    assert forall|q: int| 0 <= q < s.notes.len() implies with_note_nums(s).notes[q] == s.notes[q] by {
        assert(s.notes[q].note_num == s.reference_note + q);
    }
    assert(with_note_nums(s).notes =~= s.notes);
}

pub proof fn lemma_placed_at_fixed(s: ScaleView, p: int)
    requires
        s.scale_num == p,
        forall|q: int| 0 <= q < s.notes.len() ==> #[trigger] s.notes[q].scale_num == p,
    ensures
        placed_at(s, p) == s,
{
    assert(placed_at(s, p).notes =~= s.notes) by {
        assert forall|q: int| 0 <= q < s.notes.len() implies placed_at(s, p).notes[q] == s.notes[q] by {
            assert(s.notes[q].scale_num == p);
        }
    }
}

/// A registry that is already numbered is its own normal form.
pub proof fn lemma_normalized_fixed(s: Seq<ScaleView>)
    requires
        scales_numbered(s),
    ensures
        normalized(s) == s,
{
    assert forall|p: int| 0 <= p < s.len() implies #[trigger] normalized(s)[p] == s[p] by {
        lemma_with_note_nums_fixed(s[p]);
        assert(s[p].scale_num == p);
        lemma_placed_at_fixed(s[p], p);
    }
    assert(normalized(s) =~= s);
}

/// The normal form of a registry that fits the numbering types is numbered.
pub proof fn lemma_normalized_numbered(s: Seq<ScaleView>)
    requires
        s.len() <= 0x100,
        forall|p: int| 0 <= p < s.len() ==> #[trigger] s[p].reference_note + s[p].notes.len() <= 0x1_0000,
    ensures
        scales_numbered(normalized(s)),
        normalized(s).len() == s.len(),
        forall|p: int| 0 <= p < s.len() ==> #[trigger] normalized(s)[p].notes.len() == s[p].notes.len(),
{
    let t = normalized(s);
    assert forall|p: int| 0 <= p < s.len() implies {
        &&& #[trigger] t[p].scale_num == p
        &&& forall|q: int| 0 <= q < t[p].notes.len() ==> #[trigger] t[p].notes[q].scale_num == p
        &&& note_nums_consistent(t[p])
    } by {
        assert(s[p].reference_note + s[p].notes.len() <= 0x1_0000);
    }
}

/// A numbered registry fits the numbering types.
pub proof fn lemma_numbered_fits(s: Seq<ScaleView>)
    requires
        scales_numbered(s),
    ensures
        s.len() <= 0x100,
        forall|p: int| 0 <= p < s.len() ==> #[trigger] s[p].reference_note + s[p].notes.len() <= 0x1_0000,
{
    if s.len() > 0 {
        assert(s[s.len() - 1].scale_num == s.len() - 1);
    }
    assert forall|p: int| 0 <= p < s.len() implies #[trigger] s[p].reference_note + s[p].notes.len() <= 0x1_0000 by {
        assert(note_nums_consistent(s[p]));
        if s[p].notes.len() > 0 {
            let last = s[p].notes.len() - 1;
            assert(s[p].notes[last].note_num == s[p].reference_note + last);
        }
    }
}

/// Renumbering twice leaves the registry as renumbering once does.
pub proof fn lemma_renumber_idempotent(s: Seq<ScaleView>)
    ensures
        renumbered(renumbered(s)) == renumbered(s),
{
    let r = renumbered(s);
    assert forall|p: int| 0 <= p < s.len() implies #[trigger] renumbered(r)[p] == r[p] by {
        assert(placed_at(r[p], p).notes =~= r[p].notes);
    }
    assert(renumbered(r) =~= r);
}

} // verus!
