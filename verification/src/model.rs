//! The mathematical model of the emitted token fragment.
//!
//! A rendered fragment is a sequence of token trees. Each tree is an
//! identifier, a punctuation character, a string literal, or a delimited
//! group, and carries the source span stamped on it. The spec functions here
//! say, token by token, what the renderer emits for a given description.

use vstd::prelude::*;

use proc_macro2::Span;

verus! {

broadcast use vstd::seq::axiom_seq_index_decreases;

/// The fixed identifiers that the fragment uses. Every variant maps to a
/// string that is a keyword or a legal identifier (see `name_str`).
#[derive(Clone, Copy)]
pub enum Name {
    /// `message`, the headline key of the customization payload.
    Message,
    /// `label`, the inline-label key of the customization payload.
    Label,
    /// `note`, the key of one supplementary line of the payload.
    Note,
    /// `diagnostic`, the namespace of the two attributes.
    Diagnostic,
    /// `on_unimplemented`, the diagnostic-customization attribute.
    OnUnimplemented,
    /// `do_not_recommend`, the suppression attribute.
    DoNotRecommend,
    /// The keyword `trait`.
    KwTrait,
    /// The keyword `impl`.
    KwImpl,
    /// The keyword `for`.
    KwFor,
    /// The keyword `fn`.
    KwFn,
    /// The keyword `const`.
    KwConst,
    /// `core`, first segment of the path to the uninhabited marker type.
    Core,
    /// `convert`, second segment of that path.
    Convert,
    /// `Infallible`, the uninhabited marker type itself.
    Infallible,
    /// `DiagnosticHack`, the throwaway capability trait.
    HackTrait,
    /// `diagnostic_hack`, the guard function constrained to that trait.
    HackFn,
    /// `T`, the guard function's type parameter.
    TyParam,
}

/// The punctuation characters that the fragment uses.
#[derive(Clone, Copy)]
pub enum PunctCh {
    /// `#`
    Pound,
    /// `=`
    Eq,
    /// `,`
    Comma,
    /// `:`
    Colon,
    /// `<`
    Lt,
    /// `>`
    Gt,
    /// `*`
    Star,
    /// `;`
    Semi,
}

/// The delimiters a group can carry.
#[derive(Clone, Copy)]
pub enum Delim {
    Paren,
    Bracket,
    Brace,
}

/// The model of one emitted token tree: its kind, its text, and the span
/// stamped on it.
#[verifier::ext_equal]
pub enum TreeModel {
    Ident { name: Name, span: Span },
    Punct { ch: PunctCh, span: Span },
    Str { value: Seq<char>, span: Span },
    Group { delim: Delim, inner: Seq<TreeModel>, span: Span },
}

/// The two anchor positions of a description: where the reported error span
/// starts and where it ends.
#[derive(Debug, Clone, Copy)]
pub struct SpanPair {
    pub start: Span,
    pub end: Span,
}

impl SpanPair {
    /// A pair whose two anchors are the same single location.
    pub fn single(span: Span) -> (r: SpanPair)
        ensures
            r.start == span,
            r.end == span,
    {
        SpanPair { start: span, end: span }
    }

    /// A pair of distinct start and end anchors.
    pub fn pair(start: Span, end: Span) -> (r: SpanPair)
        ensures
            r.start == start,
            r.end == end,
    {
        SpanPair { start, end }
    }
}

/// The abstract state of an error description.
#[verifier::ext_equal]
pub struct DescModel {
    pub message: Seq<char>,
    pub label: Option<Seq<char>>,
    pub notes: Seq<Seq<char>>,
    pub span: Option<SpanPair>,
}

/// The description right after construction: only the message is set.
pub open spec fn fresh_desc(message: Seq<char>) -> DescModel {
    DescModel { message, label: None, notes: Seq::empty(), span: None }
}

/// Setting the label: the last write wins.
pub open spec fn with_label(d: DescModel, label: Seq<char>) -> DescModel {
    DescModel { label: Some(label), ..d }
}

/// Adding a note: appended after every earlier note.
pub open spec fn with_note(d: DescModel, note: Seq<char>) -> DescModel {
    DescModel { notes: d.notes.push(note), ..d }
}

/// Setting the span anchors: the last write wins.
pub open spec fn with_span(d: DescModel, span: SpanPair) -> DescModel {
    DescModel { span: Some(span), ..d }
}

/// The text of each fixed identifier.
pub open spec fn name_text(n: Name) -> Seq<char> {
    match n {
        Name::Message => "message"@,
        Name::Label => "label"@,
        Name::Note => "note"@,
        Name::Diagnostic => "diagnostic"@,
        Name::OnUnimplemented => "on_unimplemented"@,
        Name::DoNotRecommend => "do_not_recommend"@,
        Name::KwTrait => "trait"@,
        Name::KwImpl => "impl"@,
        Name::KwFor => "for"@,
        Name::KwFn => "fn"@,
        Name::KwConst => "const"@,
        Name::Core => "core"@,
        Name::Convert => "convert"@,
        Name::Infallible => "Infallible"@,
        Name::HackTrait => "DiagnosticHack"@,
        Name::HackFn => "diagnostic_hack"@,
        Name::TyParam => "T"@,
    }
}

/// The character of each punctuation token.
pub open spec fn punct_text(p: PunctCh) -> char {
    match p {
        PunctCh::Pound => '#',
        PunctCh::Eq => '=',
        PunctCh::Comma => ',',
        PunctCh::Colon => ':',
        PunctCh::Lt => '<',
        PunctCh::Gt => '>',
        PunctCh::Star => '*',
        PunctCh::Semi => ';',
    }
}

/// Shorthand for an identifier token.
pub open spec fn idt(n: Name, span: Span) -> TreeModel {
    TreeModel::Ident { name: n, span }
}

/// Shorthand for a punctuation token.
pub open spec fn pct(p: PunctCh, span: Span) -> TreeModel {
    TreeModel::Punct { ch: p, span }
}

/// Shorthand for a string-literal token.
pub open spec fn lit(value: Seq<char>, span: Span) -> TreeModel {
    TreeModel::Str { value, span }
}

/// Shorthand for a delimited group.
pub open spec fn grp(d: Delim, inner: Seq<TreeModel>, span: Span) -> TreeModel {
    TreeModel::Group { delim: d, inner, span }
}

/// The `, label = "…"` entry of the customization payload.
pub open spec fn label_entry(label: Seq<char>, cs: Span) -> Seq<TreeModel> {
    seq![pct(PunctCh::Comma, cs), idt(Name::Label, cs), pct(PunctCh::Eq, cs), lit(label, cs)]
}

/// The `, note = "…"` entry for one note.
pub open spec fn note_entry(note: Seq<char>, cs: Span) -> Seq<TreeModel> {
    seq![pct(PunctCh::Comma, cs), idt(Name::Note, cs), pct(PunctCh::Eq, cs), lit(note, cs)]
}

/// One `note` entry per note, in the order the notes were added.
pub open spec fn notes_payload(notes: Seq<Seq<char>>, cs: Span) -> Seq<TreeModel>
    decreases notes.len(),
{
    if notes.len() == 0 {
        Seq::empty()
    } else {
        notes_payload(notes.drop_last(), cs) + note_entry(notes.last(), cs)
    }
}

/// The whole customization payload: `message = "…"`, then the label entry if a
/// label is set, then one `note` entry per note in order.
pub open spec fn payload_model(d: DescModel, cs: Span) -> Seq<TreeModel> {
    seq![idt(Name::Message, cs), pct(PunctCh::Eq, cs), lit(d.message, cs)]
        + (match d.label {
        Some(l) => label_entry(l, cs),
        None => Seq::empty(),
    }) + notes_payload(d.notes, cs)
}

/// `#[diagnostic::on_unimplemented(<payload>)]`, the attribute that attaches
/// the description to the capability trait.
pub open spec fn attr_part(d: DescModel, cs: Span) -> Seq<TreeModel> {
    seq![
        pct(PunctCh::Pound, cs),
        grp(
            Delim::Bracket,
            seq![
                idt(Name::Diagnostic, cs),
                pct(PunctCh::Colon, cs),
                pct(PunctCh::Colon, cs),
                idt(Name::OnUnimplemented, cs),
                grp(Delim::Paren, payload_model(d, cs), cs),
            ],
            cs,
        ),
    ]
}

/// `trait DiagnosticHack { }`, the zero-member capability declaration.
pub open spec fn trait_part(cs: Span) -> Seq<TreeModel> {
    seq![
        idt(Name::KwTrait, cs),
        idt(Name::HackTrait, cs),
        grp(Delim::Brace, Seq::empty(), cs),
    ]
}

/// `#[diagnostic::do_not_recommend]`, the suppression attribute that hides the
/// host compiler's fallback suggestions. Omitted in compatibility mode.
pub open spec fn suppress_part(cs: Span) -> Seq<TreeModel> {
    seq![
        pct(PunctCh::Pound, cs),
        grp(
            Delim::Bracket,
            seq![
                idt(Name::Diagnostic, cs),
                pct(PunctCh::Colon, cs),
                pct(PunctCh::Colon, cs),
                idt(Name::DoNotRecommend, cs),
            ],
            cs,
        ),
    ]
}

/// `impl DiagnosticHack for ::core::convert::Infallible { }`: the capability
/// is implemented only for the canonical uninhabited marker type.
pub open spec fn impl_part(cs: Span) -> Seq<TreeModel> {
    seq![
        idt(Name::KwImpl, cs),
        idt(Name::HackTrait, cs),
        idt(Name::KwFor, cs),
        pct(PunctCh::Colon, cs),
        pct(PunctCh::Colon, cs),
        idt(Name::Core, cs),
        pct(PunctCh::Colon, cs),
        pct(PunctCh::Colon, cs),
        idt(Name::Convert, cs),
        pct(PunctCh::Colon, cs),
        pct(PunctCh::Colon, cs),
        idt(Name::Infallible, cs),
        grp(Delim::Brace, Seq::empty(), cs),
    ]
}

/// `fn diagnostic_hack<T: DiagnosticHack>() { }`, the guard whose constraint
/// can only be met through the single impl above.
pub open spec fn guard_part(cs: Span) -> Seq<TreeModel> {
    seq![
        idt(Name::KwFn, cs),
        idt(Name::HackFn, cs),
        pct(PunctCh::Lt, cs),
        idt(Name::TyParam, cs),
        pct(PunctCh::Colon, cs),
        idt(Name::HackTrait, cs),
        pct(PunctCh::Gt, cs),
        grp(Delim::Paren, Seq::empty(), cs),
        grp(Delim::Brace, Seq::empty(), cs),
    ]
}

/// `diagnostic_hack::<*const ()>();`, the always-ill-typed call. The `*`
/// punct is the start anchor and the empty parenthesis group after `const`
/// is the end anchor; every other token carries the call-site span.
pub open spec fn call_part(cs: Span, start: Span, end: Span) -> Seq<TreeModel> {
    seq![
        idt(Name::HackFn, cs),
        pct(PunctCh::Colon, cs),
        pct(PunctCh::Colon, cs),
        pct(PunctCh::Lt, cs),
        pct(PunctCh::Star, start),
        idt(Name::KwConst, cs),
        grp(Delim::Paren, Seq::empty(), end),
        pct(PunctCh::Gt, cs),
        grp(Delim::Paren, Seq::empty(), cs),
        pct(PunctCh::Semi, cs),
    ]
}

/// The body of the emitted fragment, before the outer brace group is wrapped
/// around it.
pub open spec fn body_model(
    d: DescModel,
    cs: Span,
    start: Span,
    end: Span,
    compatibility: bool,
) -> Seq<TreeModel> {
    attr_part(d, cs) + trait_part(cs) + (if compatibility {
        Seq::empty()
    } else {
        suppress_part(cs)
    }) + impl_part(cs) + guard_part(cs) + call_part(cs, start, end)
}

/// The resolved start anchor: the span's start, or the call site when no span
/// is set.
pub open spec fn start_anchor(d: DescModel, cs: Span) -> Span {
    match d.span {
        Some(p) => p.start,
        None => cs,
    }
}

/// The resolved end anchor: the span's end, or the call site when no span is
/// set.
pub open spec fn end_anchor(d: DescModel, cs: Span) -> Span {
    match d.span {
        Some(p) => p.end,
        None => cs,
    }
}

/// The one token tree that rendering appends: the whole body wrapped in a
/// brace group, so the fragment is well formed only in expression position.
pub open spec fn rendered_model(d: DescModel, cs: Span, compatibility: bool) -> TreeModel {
    grp(Delim::Brace, body_model(d, cs, start_anchor(d, cs), end_anchor(d, cs), compatibility), cs)
}

/// The span a token tree carries.
pub open spec fn span_of(t: TreeModel) -> Span {
    match t {
        TreeModel::Ident { span, .. } => span,
        TreeModel::Punct { span, .. } => span,
        TreeModel::Str { span, .. } => span,
        TreeModel::Group { span, .. } => span,
    }
}

/// Whether a token tree is a string literal.
pub open spec fn is_str(t: TreeModel) -> bool {
    t is Str
}

/// The string a literal token holds.
pub open spec fn str_value(t: TreeModel) -> Seq<char> {
    match t {
        TreeModel::Str { value, .. } => value,
        _ => Seq::empty(),
    }
}

/// The tokens inside a group.
pub open spec fn group_inner(t: TreeModel) -> Seq<TreeModel> {
    match t {
        TreeModel::Group { inner, .. } => inner,
        _ => Seq::empty(),
    }
}

/// Whether the `do_not_recommend` identifier occurs anywhere in a token tree,
/// at any group depth. The suppression attribute is present in a fragment
/// exactly when this holds of some tree of it.
pub open spec fn tree_has_dnr(t: TreeModel) -> bool
    decreases t,
{
    match t {
        TreeModel::Ident { name, .. } => name is DoNotRecommend,
        TreeModel::Punct { .. } => false,
        TreeModel::Str { .. } => false,
        TreeModel::Group { inner, .. } => exists|i: int|
            0 <= i < inner.len() && tree_has_dnr(#[trigger] inner[i]),
    }
}

/// A token tree with its spans forgotten: the purely structural shape of the
/// output.
#[verifier::ext_equal]
pub enum Tok {
    Ident { name: Name },
    Punct { ch: PunctCh },
    Str { value: Seq<char> },
    Group { delim: Delim, inner: Seq<Tok> },
}

/// Forget the spans of a token tree.
pub open spec fn erased(t: TreeModel) -> Tok
    decreases t,
{
    match t {
        TreeModel::Ident { name, .. } => Tok::Ident { name },
        TreeModel::Punct { ch, .. } => Tok::Punct { ch },
        TreeModel::Str { value, .. } => Tok::Str { value },
        TreeModel::Group { delim, inner, .. } => Tok::Group {
            delim,
            inner: erased_seq(inner),
        },
    }
}

/// Forget the spans of a token sequence.
pub open spec fn erased_seq(s: Seq<TreeModel>) -> Seq<Tok>
    decreases s,
{
    if s.len() == 0 {
        Seq::empty()
    } else {
        seq![erased(s.first())] + erased_seq(s.drop_first())
    }
}

/// The position of the `*` start-anchor token in the fragment body; the end
/// anchor is the empty group two positions later.
pub open spec fn star_index(compatibility: bool) -> int {
    if compatibility {
        31
    } else {
        33
    }
}

} // verus!
