//! The laws of the rendering algorithm, stated and proved over the model.
//!
//! Each public proof function here states one guarantee of the emitted
//! fragment for every description, not just for chosen inputs.

use vstd::prelude::*;

use crate::model::{
    attr_part, body_model, call_part, end_anchor, erased, erased_seq, guard_part, group_inner,
    grp, idt, impl_part, is_str, label_entry, lit, note_entry, notes_payload, payload_model, pct,
    rendered_model, span_of, star_index, start_anchor, str_value, suppress_part, trait_part,
    tree_has_dnr, with_label, with_note, DescModel, Delim, Name, PunctCh, SpanPair, Tok, TreeModel,
};
use proc_macro2::Span;

verus! {

/// The erased shape of a sequence is its tokens' shapes, position by
/// position.
pub proof fn lemma_erased_seq_index(s: Seq<TreeModel>)
    ensures
        erased_seq(s).len() == s.len(),
        forall|i: int| 0 <= i < s.len() ==> erased_seq(s)[i] == erased(#[trigger] s[i]),
    decreases s.len(),
{
    if s.len() > 0 {
        lemma_erased_seq_index(s.drop_first());
        assert forall|i: int| 0 <= i < s.len() implies erased_seq(s)[i] == erased(
            #[trigger] s[i],
        ) by {
            if i == 0 {
                assert(erased_seq(s)[0] == erased(s.first()));
            } else {
                assert(erased_seq(s)[i] == erased_seq(s.drop_first())[i - 1]);
                assert(s.drop_first()[i - 1] == s[i]);
            }
        }
    }
}

/// Erasing spans distributes over concatenation.
pub proof fn lemma_erased_seq_add(a: Seq<TreeModel>, b: Seq<TreeModel>)
    ensures
        erased_seq(a + b) == erased_seq(a) + erased_seq(b),
{
    lemma_erased_seq_index(a);
    lemma_erased_seq_index(b);
    lemma_erased_seq_index(a + b);
    assert forall|i: int| 0 <= i < (a + b).len() implies erased_seq(a + b)[i] == (erased_seq(a)
        + erased_seq(b))[i] by {
        assert(erased_seq(a + b)[i] == erased((a + b)[i]));
        if i < a.len() {
            assert((a + b)[i] == a[i]);
            assert(erased_seq(a)[i] == erased(a[i]));
        } else {
            assert((a + b)[i] == b[i - a.len()]);
            assert(erased_seq(b)[i - a.len()] == erased(b[i - a.len()]));
        }
    }
    assert(erased_seq(a + b) =~= erased_seq(a) + erased_seq(b));
}

/// Round-trip law: for every description, the customization payload begins
/// with `message =` followed by a string literal holding exactly the
/// description's message, whatever characters the message contains. Scanning
/// the payload therefore recovers the message unchanged.
pub proof fn lemma_message_recovered(d: DescModel, cs: Span)
    ensures
        payload_model(d, cs).len() >= 3,
        payload_model(d, cs)[0] == idt(Name::Message, cs),
        payload_model(d, cs)[1] == pct(PunctCh::Eq, cs),
        payload_model(d, cs)[2] == lit(d.message, cs),
{
}

/// Last-write-wins law for the label: setting the label twice leaves a
/// description identical to one that only ever saw the second value.
pub proof fn lemma_label_last_write_wins(d: DescModel, a: Seq<char>, b: Seq<char>)
    ensures
        with_label(with_label(d, a), b) == with_label(d, b),
{
    assert(with_label(with_label(d, a), b) =~= with_label(d, b));
}

proof fn lemma_notes_payload_strings(notes: Seq<Seq<char>>, cs: Span)
    ensures
        notes_payload(notes, cs).len() == 4 * notes.len(),
        forall|i: int|
            0 <= i < notes_payload(notes, cs).len() && is_str(
                #[trigger] notes_payload(notes, cs)[i],
            ) ==> notes.contains(str_value(notes_payload(notes, cs)[i])),
    decreases notes.len(),
{
    if notes.len() > 0 {
        let prev = notes.drop_last();
        let e = note_entry(notes.last(), cs);
        lemma_notes_payload_strings(prev, cs);
        assert forall|i: int|
            0 <= i < notes_payload(notes, cs).len() && is_str(
                #[trigger] notes_payload(notes, cs)[i],
            ) implies notes.contains(str_value(notes_payload(notes, cs)[i])) by {
            let t = notes_payload(notes, cs)[i];
            if i < notes_payload(prev, cs).len() {
                assert(t == notes_payload(prev, cs)[i]);
                let v = str_value(t);
                let j = choose|j: int| 0 <= j < prev.len() && prev[j] == v;
                assert(notes[j] == v);
            } else {
                assert(t == e[i - notes_payload(prev, cs).len()]);
                if is_str(t) {
                    assert(t == lit(notes.last(), cs));
                    assert(notes[notes.len() - 1] == notes.last());
                }
            }
        }
    }
}

/// Every string literal in the payload is the message, the currently set
/// label, or one of the notes. In particular, a label value that was
/// overwritten by a later `label` call occurs in no literal of the payload.
pub proof fn lemma_payload_strings(d: DescModel, cs: Span)
    ensures
        forall|i: int|
            0 <= i < payload_model(d, cs).len() && is_str(#[trigger] payload_model(d, cs)[i])
                ==> str_value(payload_model(d, cs)[i]) == d.message || d.label == Some(
                str_value(payload_model(d, cs)[i]),
            ) || d.notes.contains(str_value(payload_model(d, cs)[i])),
{
    lemma_notes_payload_strings(d.notes, cs);
    let head = seq![idt(Name::Message, cs), pct(PunctCh::Eq, cs), lit(d.message, cs)];
    let lab = match d.label {
        Some(l) => label_entry(l, cs),
        None => Seq::<TreeModel>::empty(),
    };
    assert forall|i: int|
        0 <= i < payload_model(d, cs).len() && is_str(#[trigger] payload_model(d, cs)[i])
        implies str_value(payload_model(d, cs)[i]) == d.message || d.label == Some(
        str_value(payload_model(d, cs)[i]),
    ) || d.notes.contains(str_value(payload_model(d, cs)[i])) by {
        let t = payload_model(d, cs)[i];
        if i < 3 {
            assert(t == head[i]);
        } else if i < 3 + lab.len() {
            assert(t == lab[i - 3]);
        } else {
            assert(t == notes_payload(d.notes, cs)[i - 3 - lab.len()]);
        }
    }
}

/// After `label(a)` then `label(b)` the payload carries the entry
/// `label = b`, and the overwritten value `a` appears in no payload literal
/// unless it independently equals `b`, the message, or one of the notes.
pub proof fn lemma_label_overwritten_gone(d: DescModel, a: Seq<char>, b: Seq<char>, cs: Span)
    ensures
        ({
            let p = payload_model(with_label(with_label(d, a), b), cs);
            &&& p[4] == idt(Name::Label, cs)
            &&& p[6] == lit(b, cs)
            &&& forall|i: int|
                0 <= i < p.len() && is_str(#[trigger] p[i]) && str_value(p[i]) == a ==> a == b
                    || a == d.message || d.notes.contains(a)
        }),
{
    let d2 = with_label(with_label(d, a), b);
    lemma_payload_strings(d2, cs);
    let p = payload_model(d2, cs);
    assert(p[4] == label_entry(b, cs)[1]);
    assert(p[6] == label_entry(b, cs)[3]);
}

/// Append-order law: adding the notes `n1` then `n2` extends the payload by
/// exactly the `note = n1` entry followed by the `note = n2` entry; nothing
/// already present is dropped or reordered.
pub proof fn lemma_note_append_order(d: DescModel, n1: Seq<char>, n2: Seq<char>, cs: Span)
    ensures
        payload_model(with_note(with_note(d, n1), n2), cs) == payload_model(d, cs) + note_entry(
            n1,
            cs,
        ) + note_entry(n2, cs),
{
    let ns1 = d.notes.push(n1);
    let ns2 = ns1.push(n2);
    assert(ns2.drop_last() =~= ns1);
    assert(ns1.drop_last() =~= d.notes);
    assert(ns2.last() == n2);
    assert(ns1.last() == n1);
    assert(notes_payload(ns2, cs) == notes_payload(ns1, cs) + note_entry(n2, cs));
    assert(notes_payload(ns1, cs) == notes_payload(d.notes, cs) + note_entry(n1, cs));
    assert(payload_model(with_note(with_note(d, n1), n2), cs) =~= payload_model(d, cs)
        + note_entry(n1, cs) + note_entry(n2, cs));
}

/// The anchor-token law: in the body of the rendered fragment, the token at
/// `star_index` is the `*` punct carrying the resolved start anchor, and the
/// token two places later is the empty group carrying the resolved end
/// anchor. No other mechanism positions the reported span.
pub proof fn lemma_anchor_tokens(d: DescModel, cs: Span, compatibility: bool)
    ensures
        ({
            let b = group_inner(rendered_model(d, cs, compatibility));
            let k = star_index(compatibility);
            &&& b.len() == k + 6
            &&& b[k] == pct(PunctCh::Star, start_anchor(d, cs))
            &&& b[k + 2] == grp(Delim::Paren, Seq::<TreeModel>::empty(), end_anchor(d, cs))
        }),
{
    let start = start_anchor(d, cs);
    let end = end_anchor(d, cs);
    let b = body_model(d, cs, start, end, compatibility);
    assert(attr_part(d, cs).len() == 2);
    assert(trait_part(cs).len() == 3);
    assert(suppress_part(cs).len() == 2);
    assert(impl_part(cs).len() == 13);
    assert(guard_part(cs).len() == 9);
    assert(call_part(cs, start, end).len() == 10);
    let k = star_index(compatibility);
    assert(b[k] == call_part(cs, start, end)[4]);
    assert(b[k + 2] == call_part(cs, start, end)[6]);
}

/// With no span set, both anchor tokens carry the same location: the span of
/// the rendering call site.
pub proof fn lemma_anchors_default_to_call_site(d: DescModel, cs: Span, compatibility: bool)
    requires
        d.span is None,
    ensures
        ({
            let b = group_inner(rendered_model(d, cs, compatibility));
            let k = star_index(compatibility);
            &&& span_of(b[k]) == cs
            &&& span_of(b[k + 2]) == cs
        }),
{
    lemma_anchor_tokens(d, cs, compatibility);
}

/// With the span set to a single location, both anchor tokens carry that
/// location.
pub proof fn lemma_anchors_single_location(
    d: DescModel,
    p: SpanPair,
    cs: Span,
    compatibility: bool,
)
    requires
        d.span == Some(p),
        p.start == p.end,
    ensures
        ({
            let b = group_inner(rendered_model(d, cs, compatibility));
            let k = star_index(compatibility);
            &&& span_of(b[k]) == p.start
            &&& span_of(b[k + 2]) == p.start
        }),
{
    lemma_anchor_tokens(d, cs, compatibility);
}

/// With the span set to a start/end pair, the `*` token carries the start
/// location and the distinct trailing group carries the end location.
pub proof fn lemma_anchors_span_pair(d: DescModel, p: SpanPair, cs: Span, compatibility: bool)
    requires
        d.span == Some(p),
    ensures
        ({
            let b = group_inner(rendered_model(d, cs, compatibility));
            let k = star_index(compatibility);
            &&& span_of(b[k]) == p.start
            &&& span_of(b[k + 2]) == p.end
        }),
{
    lemma_anchor_tokens(d, cs, compatibility);
}

/// No tree of the sequence contains the `do_not_recommend` identifier.
pub open spec fn seq_no_dnr(s: Seq<TreeModel>) -> bool {
    forall|i: int| 0 <= i < s.len() ==> !tree_has_dnr(#[trigger] s[i])
}

proof fn lemma_no_dnr_add(x: Seq<TreeModel>, y: Seq<TreeModel>)
    requires
        seq_no_dnr(x),
        seq_no_dnr(y),
    ensures
        seq_no_dnr(x + y),
{
    assert forall|i: int| 0 <= i < (x + y).len() implies !tree_has_dnr(#[trigger] (x + y)[i]) by {
        if i < x.len() {
            assert((x + y)[i] == x[i]);
        } else {
            assert((x + y)[i] == y[i - x.len()]);
        }
    }
}

proof fn lemma_note_entry_no_dnr(n: Seq<char>, cs: Span)
    ensures
        seq_no_dnr(note_entry(n, cs)),
{
    assert forall|i: int| 0 <= i < note_entry(n, cs).len() implies !tree_has_dnr(
        #[trigger] note_entry(n, cs)[i],
    ) by {
        assert(!tree_has_dnr(pct(PunctCh::Comma, cs)));
        assert(!tree_has_dnr(idt(Name::Note, cs)));
        assert(!tree_has_dnr(pct(PunctCh::Eq, cs)));
        assert(!tree_has_dnr(lit(n, cs)));
    }
}

proof fn lemma_notes_payload_no_dnr(notes: Seq<Seq<char>>, cs: Span)
    ensures
        seq_no_dnr(notes_payload(notes, cs)),
    decreases notes.len(),
{
    if notes.len() > 0 {
        lemma_notes_payload_no_dnr(notes.drop_last(), cs);
        lemma_note_entry_no_dnr(notes.last(), cs);
        lemma_no_dnr_add(notes_payload(notes.drop_last(), cs), note_entry(notes.last(), cs));
    }
}

proof fn lemma_payload_no_dnr(d: DescModel, cs: Span)
    ensures
        seq_no_dnr(payload_model(d, cs)),
{
    lemma_notes_payload_no_dnr(d.notes, cs);
    let head = seq![idt(Name::Message, cs), pct(PunctCh::Eq, cs), lit(d.message, cs)];
    assert(seq_no_dnr(head)) by {
        assert forall|i: int| 0 <= i < head.len() implies !tree_has_dnr(#[trigger] head[i]) by {
            assert(!tree_has_dnr(idt(Name::Message, cs)));
            assert(!tree_has_dnr(pct(PunctCh::Eq, cs)));
            assert(!tree_has_dnr(lit(d.message, cs)));
        }
    }
    match d.label {
        Some(l) => {
            let lab = label_entry(l, cs);
            assert(seq_no_dnr(lab)) by {
                assert forall|i: int| 0 <= i < lab.len() implies !tree_has_dnr(
                    #[trigger] lab[i],
                ) by {
                    assert(!tree_has_dnr(pct(PunctCh::Comma, cs)));
                    assert(!tree_has_dnr(idt(Name::Label, cs)));
                    assert(!tree_has_dnr(pct(PunctCh::Eq, cs)));
                    assert(!tree_has_dnr(lit(l, cs)));
                }
            }
            lemma_no_dnr_add(head, lab);
            lemma_no_dnr_add(head + lab, notes_payload(d.notes, cs));
        },
        None => {
            assert(head + Seq::<TreeModel>::empty() =~= head);
            lemma_no_dnr_add(head + Seq::<TreeModel>::empty(), notes_payload(d.notes, cs));
        },
    }
}

/// Compatibility-mode law, first half: with the compatibility toggle on, the
/// `do_not_recommend` suppression attribute occurs nowhere in the rendered
/// fragment, at any group depth.
pub proof fn lemma_compat_omits_suppression(d: DescModel, cs: Span)
    ensures
        !tree_has_dnr(rendered_model(d, cs, true)),
{
    lemma_payload_no_dnr(d, cs);
    let start = start_anchor(d, cs);
    let end = end_anchor(d, cs);
    let payload = payload_model(d, cs);
    assert(!tree_has_dnr(grp(Delim::Paren, payload, cs)));
    let attr_inner = seq![
        idt(Name::Diagnostic, cs),
        pct(PunctCh::Colon, cs),
        pct(PunctCh::Colon, cs),
        idt(Name::OnUnimplemented, cs),
        grp(Delim::Paren, payload, cs),
    ];
    assert(seq_no_dnr(attr_inner)) by {
        assert forall|i: int| 0 <= i < attr_inner.len() implies !tree_has_dnr(
            #[trigger] attr_inner[i],
        ) by {
            assert(!tree_has_dnr(idt(Name::Diagnostic, cs)));
            assert(!tree_has_dnr(pct(PunctCh::Colon, cs)));
            assert(!tree_has_dnr(idt(Name::OnUnimplemented, cs)));
            assert(!tree_has_dnr(grp(Delim::Paren, payload, cs)));
        }
    }
    assert(seq_no_dnr(attr_part(d, cs))) by {
        assert(!tree_has_dnr(pct(PunctCh::Pound, cs)));
        assert(!tree_has_dnr(grp(Delim::Bracket, attr_inner, cs)));
        assert forall|i: int| 0 <= i < attr_part(d, cs).len() implies !tree_has_dnr(
            #[trigger] attr_part(d, cs)[i],
        ) by {}
    }
    let empty_g = Seq::<TreeModel>::empty();
    assert(seq_no_dnr(trait_part(cs))) by {
        assert(!tree_has_dnr(idt(Name::KwTrait, cs)));
        assert(!tree_has_dnr(idt(Name::HackTrait, cs)));
        assert(!tree_has_dnr(grp(Delim::Brace, empty_g, cs)));
        assert forall|i: int| 0 <= i < trait_part(cs).len() implies !tree_has_dnr(
            #[trigger] trait_part(cs)[i],
        ) by {}
    }
    assert(seq_no_dnr(impl_part(cs))) by {
        assert(!tree_has_dnr(idt(Name::KwImpl, cs)));
        assert(!tree_has_dnr(idt(Name::HackTrait, cs)));
        assert(!tree_has_dnr(idt(Name::KwFor, cs)));
        assert(!tree_has_dnr(pct(PunctCh::Colon, cs)));
        assert(!tree_has_dnr(idt(Name::Core, cs)));
        assert(!tree_has_dnr(idt(Name::Convert, cs)));
        assert(!tree_has_dnr(idt(Name::Infallible, cs)));
        assert(!tree_has_dnr(grp(Delim::Brace, empty_g, cs)));
        assert forall|i: int| 0 <= i < impl_part(cs).len() implies !tree_has_dnr(
            #[trigger] impl_part(cs)[i],
        ) by {}
    }
    assert(seq_no_dnr(guard_part(cs))) by {
        assert(!tree_has_dnr(idt(Name::KwFn, cs)));
        assert(!tree_has_dnr(idt(Name::HackFn, cs)));
        assert(!tree_has_dnr(pct(PunctCh::Lt, cs)));
        assert(!tree_has_dnr(idt(Name::TyParam, cs)));
        assert(!tree_has_dnr(pct(PunctCh::Colon, cs)));
        assert(!tree_has_dnr(idt(Name::HackTrait, cs)));
        assert(!tree_has_dnr(pct(PunctCh::Gt, cs)));
        assert(!tree_has_dnr(grp(Delim::Paren, empty_g, cs)));
        assert(!tree_has_dnr(grp(Delim::Brace, empty_g, cs)));
        assert forall|i: int| 0 <= i < guard_part(cs).len() implies !tree_has_dnr(
            #[trigger] guard_part(cs)[i],
        ) by {}
    }
    assert(seq_no_dnr(call_part(cs, start, end))) by {
        assert(!tree_has_dnr(idt(Name::HackFn, cs)));
        assert(!tree_has_dnr(pct(PunctCh::Colon, cs)));
        assert(!tree_has_dnr(pct(PunctCh::Lt, cs)));
        assert(!tree_has_dnr(pct(PunctCh::Star, start)));
        assert(!tree_has_dnr(idt(Name::KwConst, cs)));
        assert(!tree_has_dnr(grp(Delim::Paren, empty_g, end)));
        assert(!tree_has_dnr(pct(PunctCh::Gt, cs)));
        assert(!tree_has_dnr(grp(Delim::Paren, empty_g, cs)));
        assert(!tree_has_dnr(pct(PunctCh::Semi, cs)));
        assert forall|i: int| 0 <= i < call_part(cs, start, end).len() implies !tree_has_dnr(
            #[trigger] call_part(cs, start, end)[i],
        ) by {}
    }
    lemma_no_dnr_add(attr_part(d, cs), trait_part(cs));
    assert(attr_part(d, cs) + trait_part(cs) + Seq::<TreeModel>::empty() =~= attr_part(d, cs)
        + trait_part(cs));
    lemma_no_dnr_add(attr_part(d, cs) + trait_part(cs) + Seq::<TreeModel>::empty(), impl_part(cs));
    lemma_no_dnr_add(
        attr_part(d, cs) + trait_part(cs) + Seq::<TreeModel>::empty() + impl_part(cs),
        guard_part(cs),
    );
    lemma_no_dnr_add(
        attr_part(d, cs) + trait_part(cs) + Seq::<TreeModel>::empty() + impl_part(cs) + guard_part(
            cs,
        ),
        call_part(cs, start, end),
    );
    assert(seq_no_dnr(body_model(d, cs, start, end, true)));
}

/// Compatibility-mode law, second half: outside compatibility mode the two
/// suppression-attribute tokens stand in the fragment body, directly after
/// the capability-trait declaration.
pub proof fn lemma_full_emits_suppression(d: DescModel, cs: Span)
    ensures
        group_inner(rendered_model(d, cs, false)).subrange(5, 7) == suppress_part(cs),
        tree_has_dnr(rendered_model(d, cs, false)),
{
    let b = group_inner(rendered_model(d, cs, false));
    assert(attr_part(d, cs).len() == 2);
    assert(trait_part(cs).len() == 3);
    assert(b[5] == suppress_part(cs)[0]);
    assert(b[6] == suppress_part(cs)[1]);
    assert(b.subrange(5, 7) =~= suppress_part(cs));
    let sup_inner = group_inner(suppress_part(cs)[1]);
    assert(tree_has_dnr(sup_inner[3]));
    assert(tree_has_dnr(b[6]));
    assert(tree_has_dnr(rendered_model(d, cs, false)));
}

proof fn lemma_erased_empty()
    ensures
        erased_seq(Seq::<TreeModel>::empty()) == Seq::<Tok>::empty(),
{
}

proof fn lemma_notes_payload_shape(notes: Seq<Seq<char>>, cs1: Span, cs2: Span)
    ensures
        erased_seq(notes_payload(notes, cs1)) == erased_seq(notes_payload(notes, cs2)),
    decreases notes.len(),
{
    if notes.len() > 0 {
        lemma_notes_payload_shape(notes.drop_last(), cs1, cs2);
        lemma_erased_seq_add(notes_payload(notes.drop_last(), cs1), note_entry(notes.last(), cs1));
        lemma_erased_seq_add(notes_payload(notes.drop_last(), cs2), note_entry(notes.last(), cs2));
        lemma_erased_seq_index(note_entry(notes.last(), cs1));
        lemma_erased_seq_index(note_entry(notes.last(), cs2));
        assert(erased_seq(note_entry(notes.last(), cs1)) =~= erased_seq(
            note_entry(notes.last(), cs2),
        ));
    }
}

proof fn lemma_payload_shape(d: DescModel, cs1: Span, cs2: Span)
    ensures
        erased_seq(payload_model(d, cs1)) == erased_seq(payload_model(d, cs2)),
{
    lemma_notes_payload_shape(d.notes, cs1, cs2);
    let head1 = seq![idt(Name::Message, cs1), pct(PunctCh::Eq, cs1), lit(d.message, cs1)];
    let head2 = seq![idt(Name::Message, cs2), pct(PunctCh::Eq, cs2), lit(d.message, cs2)];
    let lab1 = match d.label {
        Some(l) => label_entry(l, cs1),
        None => Seq::<TreeModel>::empty(),
    };
    let lab2 = match d.label {
        Some(l) => label_entry(l, cs2),
        None => Seq::<TreeModel>::empty(),
    };
    lemma_erased_seq_index(head1);
    lemma_erased_seq_index(head2);
    lemma_erased_seq_index(lab1);
    lemma_erased_seq_index(lab2);
    assert(erased_seq(head1) =~= erased_seq(head2));
    assert(erased_seq(lab1) =~= erased_seq(lab2));
    lemma_erased_seq_add(head1, lab1);
    lemma_erased_seq_add(head2, lab2);
    lemma_erased_seq_add(head1 + lab1, notes_payload(d.notes, cs1));
    lemma_erased_seq_add(head2 + lab2, notes_payload(d.notes, cs2));
}

/// Idempotence law: rendering one description twice yields two fragments that
/// are structurally identical; only the spans the tokens carry — the anchors
/// and the per-render call-site fallback — can differ between the two runs.
pub proof fn lemma_render_shape_deterministic(
    d: DescModel,
    cs1: Span,
    cs2: Span,
    compatibility: bool,
)
    ensures
        erased(rendered_model(d, cs1, compatibility)) == erased(
            rendered_model(d, cs2, compatibility),
        ),
{
    let s1 = start_anchor(d, cs1);
    let e1 = end_anchor(d, cs1);
    let s2 = start_anchor(d, cs2);
    let e2 = end_anchor(d, cs2);
    lemma_payload_shape(d, cs1, cs2);
    lemma_erased_empty();

    let attr_inner1 = seq![
        idt(Name::Diagnostic, cs1),
        pct(PunctCh::Colon, cs1),
        pct(PunctCh::Colon, cs1),
        idt(Name::OnUnimplemented, cs1),
        grp(Delim::Paren, payload_model(d, cs1), cs1),
    ];
    let attr_inner2 = seq![
        idt(Name::Diagnostic, cs2),
        pct(PunctCh::Colon, cs2),
        pct(PunctCh::Colon, cs2),
        idt(Name::OnUnimplemented, cs2),
        grp(Delim::Paren, payload_model(d, cs2), cs2),
    ];
    lemma_erased_seq_index(attr_inner1);
    lemma_erased_seq_index(attr_inner2);
    assert(erased_seq(attr_inner1) =~= erased_seq(attr_inner2));
    lemma_erased_seq_index(attr_part(d, cs1));
    lemma_erased_seq_index(attr_part(d, cs2));
    assert(erased_seq(attr_part(d, cs1)) =~= erased_seq(attr_part(d, cs2)));

    lemma_erased_seq_index(trait_part(cs1));
    lemma_erased_seq_index(trait_part(cs2));
    assert(erased_seq(trait_part(cs1)) =~= erased_seq(trait_part(cs2)));

    lemma_erased_seq_index(suppress_part(cs1));
    lemma_erased_seq_index(suppress_part(cs2));
    let sup_inner1 = group_inner(suppress_part(cs1)[1]);
    let sup_inner2 = group_inner(suppress_part(cs2)[1]);
    lemma_erased_seq_index(sup_inner1);
    lemma_erased_seq_index(sup_inner2);
    assert(erased_seq(sup_inner1) =~= erased_seq(sup_inner2));
    assert(erased_seq(suppress_part(cs1)) =~= erased_seq(suppress_part(cs2)));

    lemma_erased_seq_index(impl_part(cs1));
    lemma_erased_seq_index(impl_part(cs2));
    assert(erased_seq(impl_part(cs1)) =~= erased_seq(impl_part(cs2)));

    lemma_erased_seq_index(guard_part(cs1));
    lemma_erased_seq_index(guard_part(cs2));
    assert(erased_seq(guard_part(cs1)) =~= erased_seq(guard_part(cs2)));

    lemma_erased_seq_index(call_part(cs1, s1, e1));
    lemma_erased_seq_index(call_part(cs2, s2, e2));
    assert(erased_seq(call_part(cs1, s1, e1)) =~= erased_seq(call_part(cs2, s2, e2)));

    let mid1 = if compatibility {
        Seq::<TreeModel>::empty()
    } else {
        suppress_part(cs1)
    };
    let mid2 = if compatibility {
        Seq::<TreeModel>::empty()
    } else {
        suppress_part(cs2)
    };
    lemma_erased_seq_add(attr_part(d, cs1), trait_part(cs1));
    lemma_erased_seq_add(attr_part(d, cs2), trait_part(cs2));
    lemma_erased_seq_add(attr_part(d, cs1) + trait_part(cs1), mid1);
    lemma_erased_seq_add(attr_part(d, cs2) + trait_part(cs2), mid2);
    lemma_erased_seq_add(attr_part(d, cs1) + trait_part(cs1) + mid1, impl_part(cs1));
    lemma_erased_seq_add(attr_part(d, cs2) + trait_part(cs2) + mid2, impl_part(cs2));
    lemma_erased_seq_add(attr_part(d, cs1) + trait_part(cs1) + mid1 + impl_part(cs1), guard_part(cs1));
    lemma_erased_seq_add(attr_part(d, cs2) + trait_part(cs2) + mid2 + impl_part(cs2), guard_part(cs2));
    lemma_erased_seq_add(
        attr_part(d, cs1) + trait_part(cs1) + mid1 + impl_part(cs1) + guard_part(cs1),
        call_part(cs1, s1, e1),
    );
    lemma_erased_seq_add(
        attr_part(d, cs2) + trait_part(cs2) + mid2 + impl_part(cs2) + guard_part(cs2),
        call_part(cs2, s2, e2),
    );
    assert(erased_seq(body_model(d, cs1, s1, e1, compatibility)) == erased_seq(
        body_model(d, cs2, s2, e2, compatibility),
    ));
}

} // verus!
