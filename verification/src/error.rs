//! The error description and the rendering algorithm.
//!
//! An [`Error`] accumulates a headline message, an optional inline label,
//! ordered notes, and an optional pair of span anchors. Rendering appends one
//! brace-delimited token tree to a caller-supplied stream; the model of that
//! tree is pinned, token by token, by `rendered_model`.

use vstd::prelude::*;

use crate::model::{
    attr_part, body_model, call_part, end_anchor, fresh_desc, guard_part, idt, impl_part,
    grp, label_entry, lit, notes_payload, payload_model, pct, rendered_model, start_anchor,
    suppress_part, trait_part, with_label, with_note, with_span, Delim, DescModel, Name, PunctCh,
    SpanPair, TreeModel,
};
use crate::stream::{
    call_site_span, push_group, push_ident, push_punct, push_str_literal, stream_model, stream_new,
};
use proc_macro2::{Span, TokenStream};

verus! {

/// A structured error description, rendered as a token fragment that makes
/// the host compiler fail with exactly this message.
///
/// The rendered output is valid only in expression position.
#[derive(Debug, Clone)]
#[must_use]
pub struct Error {
    message: String,
    label: Option<String>,
    notes: Vec<String>,
    span: Option<SpanPair>,
}

impl View for Error {
    type V = DescModel;

    closed spec fn view(&self) -> DescModel {
        DescModel {
            message: self.message@,
            label: match self.label {
                Some(l) => Some(l@),
                None => None,
            },
            notes: self.notes.deep_view(),
            span: self.span,
        }
    }
}

impl Error {
    /// Create a new `Error` with the given top-level error message.
    pub fn new(message: String) -> (r: Error)
        ensures
            r@ == fresh_desc(message@),
    {
        let ghost m = message@;
        let r = Error { message, label: None, notes: Vec::new(), span: None };
        proof {
            assert(r@.notes =~= Seq::<Seq<char>>::empty());
            assert(r@ =~= fresh_desc(m));
        }
        r
    }

    /// Set the label shown inline in the broken code.
    ///
    /// If this method is called multiple times, the final call takes
    /// precedence.
    pub fn label(self, label: String) -> (r: Error)
        ensures
            r@ == with_label(self@, label@),
    {
        let ghost d = self@;
        let ghost l = label@;
        let r = Error { label: Some(label), ..self };
        proof {
            assert(r@ =~= with_label(d, l));
        }
        r
    }

    /// Add a note to the error. This method may be called multiple times to
    /// add multiple notes; they are rendered in the order they were added.
    pub fn note(self, note: String) -> (r: Error)
        ensures
            r@ == with_note(self@, note@),
    {
        let ghost d = self@;
        let ghost n = note@;
        let Error { message, label, mut notes, span } = self;
        notes.push(note);
        let r = Error { message, label, notes, span };
        proof {
            assert(r@.notes =~= d.notes.push(n));
            assert(r@ =~= with_note(d, n));
        }
        r
    }

    /// Set the span of the error: a single location, or a start/end pair that
    /// the reported error will encompass.
    ///
    /// If this method is called multiple times, the final call takes
    /// precedence.
    pub fn span(self, span: SpanPair) -> (r: Error)
        ensures
            r@ == with_span(self@, span),
    {
        let ghost d = self@;
        let r = Error { span: Some(span), ..self };
        proof {
            assert(r@ =~= with_span(d, span));
        }
        r
    }

    /// Build the customization payload: `message = "…"`, then `label = "…"`
    /// if a label is set, then one `note = "…"` entry per note in order.
    fn payload_stream(&self, cs: Span) -> (r: TokenStream)
        ensures
            stream_model(r) == payload_model(self@, cs),
    {
        let ghost head = seq![
            idt(Name::Message, cs),
            pct(PunctCh::Eq, cs),
            lit(self@.message, cs),
        ];
        let mut ts = stream_new();
        push_ident(&mut ts, Name::Message, cs);
        push_punct(&mut ts, PunctCh::Eq, cs);
        push_str_literal(&mut ts, self.message.as_str(), cs);
        match &self.label {
            Some(l) => {
                push_punct(&mut ts, PunctCh::Comma, cs);
                push_ident(&mut ts, Name::Label, cs);
                push_punct(&mut ts, PunctCh::Eq, cs);
                push_str_literal(&mut ts, l.as_str(), cs);
                proof {
                    assert(self@.label == Some(l@));
                    assert(stream_model(ts) =~= head + label_entry(l@, cs));
                }
            },
            None => {
                proof {
                    assert(stream_model(ts) =~= head + Seq::<TreeModel>::empty());
                }
            },
        }
        let ghost pre_notes = stream_model(ts);
        proof {
            assert(notes_payload(self@.notes.take(0), cs) == Seq::<TreeModel>::empty());
            assert(stream_model(ts) =~= pre_notes + notes_payload(self@.notes.take(0), cs));
            assert(pre_notes + notes_payload(self@.notes, cs) =~= payload_model(self@, cs));
        }
        let mut i: usize = 0;
        while i < self.notes.len()
            invariant
                i <= self.notes.len(),
                self@.notes.len() == self.notes.len(),
                stream_model(ts) == pre_notes + notes_payload(self@.notes.take(i as int), cs),
                pre_notes + notes_payload(self@.notes, cs) == payload_model(self@, cs),
            decreases self.notes.len() - i,
        {
            let note_i: &String = &self.notes[i];
            proof {
                assert(note_i@ == self@.notes[i as int]);
            }
            push_punct(&mut ts, PunctCh::Comma, cs);
            push_ident(&mut ts, Name::Note, cs);
            push_punct(&mut ts, PunctCh::Eq, cs);
            push_str_literal(&mut ts, note_i.as_str(), cs);
            proof {
                let taken = self@.notes.take(i as int + 1);
                assert(taken.drop_last() =~= self@.notes.take(i as int));
                assert(taken.last() == self@.notes[i as int]);
                assert(stream_model(ts) =~= pre_notes + notes_payload(taken, cs));
            }
            i += 1;
        }
        proof {
            assert(self@.notes.take(self.notes.len() as int) =~= self@.notes);
        }
        ts
    }

    /// Build the body of the fragment: the attributed capability trait, its
    /// sole impl, the guard function, and the anchored ill-typed call.
    #[verifier::rlimit(100)]
    fn body_stream(&self, cs: Span, start: Span, end: Span, compatibility: bool) -> (r:
        TokenStream)
        ensures
            stream_model(r) == body_model(self@, cs, start, end, compatibility),
    {
        let payload = self.payload_stream(cs);
        let mut attr_inner = stream_new();
        push_ident(&mut attr_inner, Name::Diagnostic, cs);
        push_punct(&mut attr_inner, PunctCh::Colon, cs);
        push_punct(&mut attr_inner, PunctCh::Colon, cs);
        push_ident(&mut attr_inner, Name::OnUnimplemented, cs);
        push_group(&mut attr_inner, Delim::Paren, payload, cs);
        proof {
            assert(stream_model(attr_inner) =~= seq![
                idt(Name::Diagnostic, cs),
                pct(PunctCh::Colon, cs),
                pct(PunctCh::Colon, cs),
                idt(Name::OnUnimplemented, cs),
                grp(Delim::Paren, payload_model(self@, cs), cs),
            ]);
        }

        let mut ts = stream_new();
        push_punct(&mut ts, PunctCh::Pound, cs);
        push_group(&mut ts, Delim::Bracket, attr_inner, cs);
        proof {
            assert(stream_model(ts) =~~= attr_part(self@, cs));
        }
        let ghost done_attr = stream_model(ts);

        push_ident(&mut ts, Name::KwTrait, cs);
        push_ident(&mut ts, Name::HackTrait, cs);
        let trait_body = stream_new();
        push_group(&mut ts, Delim::Brace, trait_body, cs);
        proof {
            assert(stream_model(ts) =~= done_attr + trait_part(cs));
        }
        let ghost done_trait = stream_model(ts);

        if !compatibility {
            let mut sup_inner = stream_new();
            push_ident(&mut sup_inner, Name::Diagnostic, cs);
            push_punct(&mut sup_inner, PunctCh::Colon, cs);
            push_punct(&mut sup_inner, PunctCh::Colon, cs);
            push_ident(&mut sup_inner, Name::DoNotRecommend, cs);
            proof {
                assert(stream_model(sup_inner) =~= seq![
                    idt(Name::Diagnostic, cs),
                    pct(PunctCh::Colon, cs),
                    pct(PunctCh::Colon, cs),
                    idt(Name::DoNotRecommend, cs),
                ]);
            }
            push_punct(&mut ts, PunctCh::Pound, cs);
            push_group(&mut ts, Delim::Bracket, sup_inner, cs);
            proof {
                assert(stream_model(ts) =~~= done_trait + suppress_part(cs));
            }
        }
        proof {
            assert(stream_model(ts) =~= done_trait + (if compatibility {
                Seq::<TreeModel>::empty()
            } else {
                suppress_part(cs)
            }));
        }
        let ghost done_suppress = stream_model(ts);

        push_ident(&mut ts, Name::KwImpl, cs);
        push_ident(&mut ts, Name::HackTrait, cs);
        push_ident(&mut ts, Name::KwFor, cs);
        push_punct(&mut ts, PunctCh::Colon, cs);
        push_punct(&mut ts, PunctCh::Colon, cs);
        push_ident(&mut ts, Name::Core, cs);
        push_punct(&mut ts, PunctCh::Colon, cs);
        push_punct(&mut ts, PunctCh::Colon, cs);
        push_ident(&mut ts, Name::Convert, cs);
        push_punct(&mut ts, PunctCh::Colon, cs);
        push_punct(&mut ts, PunctCh::Colon, cs);
        push_ident(&mut ts, Name::Infallible, cs);
        let impl_body = stream_new();
        push_group(&mut ts, Delim::Brace, impl_body, cs);
        proof {
            assert(stream_model(ts) =~= done_suppress + impl_part(cs));
        }
        let ghost done_impl = stream_model(ts);

        push_ident(&mut ts, Name::KwFn, cs);
        push_ident(&mut ts, Name::HackFn, cs);
        push_punct(&mut ts, PunctCh::Lt, cs);
        push_ident(&mut ts, Name::TyParam, cs);
        push_punct(&mut ts, PunctCh::Colon, cs);
        push_ident(&mut ts, Name::HackTrait, cs);
        push_punct(&mut ts, PunctCh::Gt, cs);
        let guard_args = stream_new();
        push_group(&mut ts, Delim::Paren, guard_args, cs);
        let guard_body = stream_new();
        push_group(&mut ts, Delim::Brace, guard_body, cs);
        proof {
            assert(stream_model(ts) =~= done_impl + guard_part(cs));
        }
        let ghost done_guard = stream_model(ts);

        push_ident(&mut ts, Name::HackFn, cs);
        push_punct(&mut ts, PunctCh::Colon, cs);
        push_punct(&mut ts, PunctCh::Colon, cs);
        push_punct(&mut ts, PunctCh::Lt, cs);
        push_punct(&mut ts, PunctCh::Star, start);
        push_ident(&mut ts, Name::KwConst, cs);
        let end_anchor_group = stream_new();
        push_group(&mut ts, Delim::Paren, end_anchor_group, end);
        push_punct(&mut ts, PunctCh::Gt, cs);
        let call_args = stream_new();
        push_group(&mut ts, Delim::Paren, call_args, cs);
        push_punct(&mut ts, PunctCh::Semi, cs);
        proof {
            assert(stream_model(ts) =~= done_guard + call_part(cs, start, end));
            assert(stream_model(ts) =~= body_model(self@, cs, start, end, compatibility));
        }
        ts
    }

    /// Append the rendered fragment to `tokens`, resolving the anchors against
    /// the given call-site span and emitting the suppression attribute unless
    /// `compatibility` asks for the narrower older-compiler syntax.
    pub fn to_tokens_at(&self, tokens: &mut TokenStream, call_site: Span, compatibility: bool)
        ensures
            stream_model(*final(tokens)) == stream_model(*old(tokens)).push(
                rendered_model(self@, call_site, compatibility),
            ),
    {
        let start: Span;
        let end: Span;
        match self.span {
            Some(p) => {
                start = p.start;
                end = p.end;
            },
            None => {
                start = call_site;
                end = call_site;
            },
        }
        proof {
            assert(start == start_anchor(self@, call_site));
            assert(end == end_anchor(self@, call_site));
        }
        let body = self.body_stream(call_site, start, end, compatibility);
        push_group(tokens, Delim::Brace, body, call_site);
    }

    /// Append the error to the provided `TokenStream`, anchored by default to
    /// the call site of the current macro expansion.
    pub fn to_tokens(&self, tokens: &mut TokenStream)
        ensures
            exists|cs: Span|
                stream_model(*final(tokens)) == stream_model(*old(tokens)).push(
                    rendered_model(self@, cs, false),
                ),
    {
        let cs = call_site_span();
        self.to_tokens_at(tokens, cs, false);
    }
}

} // verus!
