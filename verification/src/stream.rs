//! The trusted boundary to the `proc_macro2` token-stream container.
//!
//! The library never reads a token stream; it only appends tokens to one. Each
//! wrapper below appends one token and says, over the uninterpreted contents
//! function `stream_model`, what the stream then holds. The trusted bodies
//! hold only the outside calls, on plain values; where a token's text comes
//! from the library's own tables (`name_str`, `punct_char`), a verified
//! companion function does that conversion and hands the result in.
//! Everything above this boundary is verified against these contracts.

use vstd::prelude::*;

use crate::model::{Delim, Name, PunctCh, TreeModel, name_text, punct_text};
use proc_macro2::{Span, TokenStream};

verus! {

#[verifier::external_type_specification]
#[verifier::external_body]
pub struct ExSpan(Span);

#[verifier::external_type_specification]
#[verifier::external_body]
pub struct ExTokenStream(TokenStream);

/// The token trees a stream holds, in order. A `proc_macro2::TokenStream` is
/// an ordered container of token trees; this names its contents, and the
/// wrappers below state how each call changes them.
pub uninterp spec fn stream_model(ts: TokenStream) -> Seq<TreeModel>;

/// The text of each fixed identifier, as executable data. Every result is a
/// keyword or a legal identifier.
fn name_str(n: Name) -> (r: &'static str)
    ensures
        r@ == name_text(n),
{
    match n {
        Name::Message => "message",
        Name::Label => "label",
        Name::Note => "note",
        Name::Diagnostic => "diagnostic",
        Name::OnUnimplemented => "on_unimplemented",
        Name::DoNotRecommend => "do_not_recommend",
        Name::KwTrait => "trait",
        Name::KwImpl => "impl",
        Name::KwFor => "for",
        Name::KwFn => "fn",
        Name::KwConst => "const",
        Name::Core => "core",
        Name::Convert => "convert",
        Name::Infallible => "Infallible",
        Name::HackTrait => "DiagnosticHack",
        Name::HackFn => "diagnostic_hack",
        Name::TyParam => "T",
    }
}

/// The character of each punctuation token, as executable data. Every result
/// is one of the punctuation characters the language permits.
fn punct_char(p: PunctCh) -> (r: char)
    ensures
        r == punct_text(p),
{
    match p {
        PunctCh::Pound => '#',
        PunctCh::Eq => '=',
        PunctCh::Comma => ',',
        PunctCh::Colon => ':',
        PunctCh::Lt => '<',
        PunctCh::Gt => '>',
        PunctCh::Star => '*',
        PunctCh::Semi => ';',
    }
}

/// Relies on `proc_macro2::TokenStream::new`: it returns an empty token
/// stream.
#[verifier::external_body]
pub(crate) fn stream_new() -> (r: TokenStream)
    ensures
        stream_model(r) == Seq::<TreeModel>::empty(),
{
    TokenStream::new()
}

/// Relies on `proc_macro2::Span::call_site`: the span of the point where the
/// current macro expansion was invoked. Which handle comes back depends on the
/// expansion context, so nothing is stated of it.
#[verifier::external_body]
pub(crate) fn call_site_span() -> Span {
    Span::call_site()
}

/// Relies on `proc_macro2::Ident::new` and `TokenStream::extend`: appends one
/// identifier token with the given text and span. The caller hands the text
/// in ready-spelt and the `requires` ties it to the model tag. Every
/// `name_text` value is a keyword or a legal identifier, so `Ident::new`
/// cannot panic.
#[verifier::external_body]
fn push_ident_token(ts: &mut TokenStream, n: Name, text: &str, span: Span)
    requires
        text@ == name_text(n),
    ensures
        stream_model(*final(ts)) == stream_model(*old(ts)).push(
            (TreeModel::Ident { name: n, span }),
        ),
{
    ts.extend([proc_macro2::Ident::new(text, span)]);
}

/// Append the identifier token for `n`, spelt by `name_str`.
pub(crate) fn push_ident(ts: &mut TokenStream, n: Name, span: Span)
    ensures
        stream_model(*final(ts)) == stream_model(*old(ts)).push(
            (TreeModel::Ident { name: n, span }),
        ),
{
    let text = name_str(n);
    push_ident_token(ts, n, text, span);
}

/// Relies on `proc_macro2::Punct::new`, `Punct::set_span` and
/// `TokenStream::extend`: appends one punctuation token with the given
/// character, joint spacing, and span. The caller hands the character in
/// ready-made and the `requires` ties it to the model tag. Every `punct_text`
/// value is a punctuation character the language permits, so `Punct::new`
/// cannot panic.
#[verifier::external_body]
fn push_punct_token(ts: &mut TokenStream, p: PunctCh, ch: char, span: Span)
    requires
        ch == punct_text(p),
    ensures
        stream_model(*final(ts)) == stream_model(*old(ts)).push((TreeModel::Punct { ch: p, span })),
{
    let mut tok = proc_macro2::Punct::new(ch, proc_macro2::Spacing::Joint);
    tok.set_span(span);
    ts.extend([tok]);
}

/// Append the punctuation token for `p`, with the character `punct_char`
/// gives it.
pub(crate) fn push_punct(ts: &mut TokenStream, p: PunctCh, span: Span)
    ensures
        stream_model(*final(ts)) == stream_model(*old(ts)).push((TreeModel::Punct { ch: p, span })),
{
    let ch = punct_char(p);
    push_punct_token(ts, p, ch, span);
}

/// Relies on `proc_macro2::Literal::string`, `Literal::set_span` and
/// `TokenStream::extend`: appends one string-literal token whose value is
/// exactly the argument (the callee quotes and escapes it for the lexical
/// grammar, and any string can be so escaped), with the given span.
#[verifier::external_body]
pub(crate) fn push_str_literal(ts: &mut TokenStream, value: &str, span: Span)
    ensures
        stream_model(*final(ts)) == stream_model(*old(ts)).push(
            (TreeModel::Str { value: value@, span }),
        ),
{
    let mut tok = proc_macro2::Literal::string(value);
    tok.set_span(span);
    ts.extend([tok]);
}

/// Relies on `proc_macro2::Group::new`, `Group::set_span` and
/// `TokenStream::extend`: appends one delimited group holding exactly the
/// given stream, with the given delimiter and span.
#[verifier::external_body]
pub(crate) fn push_group(ts: &mut TokenStream, d: Delim, inner: TokenStream, span: Span)
    ensures
        stream_model(*final(ts)) == stream_model(*old(ts)).push(
            (TreeModel::Group { delim: d, inner: stream_model(inner), span }),
        ),
{
    let delim = match d {
        Delim::Paren => proc_macro2::Delimiter::Parenthesis,
        Delim::Bracket => proc_macro2::Delimiter::Bracket,
        Delim::Brace => proc_macro2::Delimiter::Brace,
    };
    let mut tok = proc_macro2::Group::new(delim, inner);
    tok.set_span(span);
    ts.extend([tok]);
}

} // verus!
