use diag_emit::{Error, SpanPair};
use proc_macro2::{Delimiter, Span, TokenStream, TokenTree};

/// Render an error and return the tokens inside the outer brace group.
fn render_body(e: &Error) -> Vec<TokenTree> {
    let mut ts = TokenStream::new();
    e.to_tokens(&mut ts);
    let top: Vec<TokenTree> = ts.into_iter().collect();
    assert_eq!(top.len(), 1);
    match &top[0] {
        TokenTree::Group(g) => {
            assert_eq!(g.delimiter(), Delimiter::Brace);
            g.stream().into_iter().collect()
        }
        other => panic!("expected a brace group, got {}", other),
    }
}

/// Render with an explicit call site and compatibility choice.
fn render_body_at(e: &Error, compatibility: bool) -> Vec<TokenTree> {
    let mut ts = TokenStream::new();
    e.to_tokens_at(&mut ts, Span::call_site(), compatibility);
    let top: Vec<TokenTree> = ts.into_iter().collect();
    assert_eq!(top.len(), 1);
    match &top[0] {
        TokenTree::Group(g) => g.stream().into_iter().collect(),
        other => panic!("expected a brace group, got {}", other),
    }
}

/// The payload tokens inside `#[diagnostic::on_unimplemented(...)]`.
fn payload_of(body: &[TokenTree]) -> Vec<TokenTree> {
    let attr = match &body[1] {
        TokenTree::Group(g) => {
            assert_eq!(g.delimiter(), Delimiter::Bracket);
            g.stream().into_iter().collect::<Vec<_>>()
        }
        other => panic!("expected the attribute group, got {}", other),
    };
    assert_eq!(attr[0].to_string(), "diagnostic");
    assert_eq!(attr[1].to_string(), ":");
    assert_eq!(attr[2].to_string(), ":");
    assert_eq!(attr[3].to_string(), "on_unimplemented");
    match &attr[4] {
        TokenTree::Group(g) => {
            assert_eq!(g.delimiter(), Delimiter::Parenthesis);
            g.stream().into_iter().collect()
        }
        other => panic!("expected the payload group, got {}", other),
    }
}

/// All string literals of the payload, as their source text.
fn payload_literals(payload: &[TokenTree]) -> Vec<String> {
    payload
        .iter()
        .filter_map(|t| match t {
            TokenTree::Literal(l) => Some(l.to_string()),
            _ => None,
        })
        .collect()
}

/// Whether an identifier with the given text occurs anywhere in the trees.
fn contains_ident(tokens: &[TokenTree], text: &str) -> bool {
    tokens.iter().any(|t| match t {
        TokenTree::Ident(i) => i.to_string() == text,
        TokenTree::Group(g) => {
            let inner: Vec<TokenTree> = g.stream().into_iter().collect();
            contains_ident(&inner, text)
        }
        _ => false,
    })
}

/// Undo Rust string-literal escaping: the inverse of what the token layer
/// applies when it embeds a message as a quoted literal.
fn unescape_string_literal(lit: &str) -> String {
    let inner = lit
        .strip_prefix('"')
        .and_then(|s| s.strip_suffix('"'))
        .expect("not a string literal");
    let mut out = String::new();
    let mut chars = inner.chars();
    while let Some(c) = chars.next() {
        if c != '\\' {
            out.push(c);
            continue;
        }
        match chars.next().expect("dangling backslash") {
            '"' => out.push('"'),
            '\\' => out.push('\\'),
            'n' => out.push('\n'),
            'r' => out.push('\r'),
            't' => out.push('\t'),
            '0' => out.push('\0'),
            '\'' => out.push('\''),
            'x' => {
                let hi = chars.next().unwrap();
                let lo = chars.next().unwrap();
                let code = u32::from_str_radix(&format!("{}{}", hi, lo), 16).unwrap();
                out.push(char::from_u32(code).unwrap());
            }
            'u' => {
                assert_eq!(chars.next(), Some('{'));
                let mut hex = String::new();
                loop {
                    let c = chars.next().unwrap();
                    if c == '}' {
                        break;
                    }
                    hex.push(c);
                }
                out.push(char::from_u32(u32::from_str_radix(&hex, 16).unwrap()).unwrap());
            }
            other => panic!("unexpected escape {}", other),
        }
    }
    out
}

#[test]
fn message_round_trips_through_payload() {
    let m = "he said \"hi\\\", then\nleft — π \u{7}";
    let e = Error::new(m.to_string());
    let body = render_body(&e);
    let payload = payload_of(&body);
    assert_eq!(payload[0].to_string(), "message");
    assert_eq!(payload[1].to_string(), "=");
    let lit = match &payload[2] {
        TokenTree::Literal(l) => l.to_string(),
        other => panic!("expected the message literal, got {}", other),
    };
    assert_eq!(unescape_string_literal(&lit), m);
    assert_eq!(payload.len(), 3);
}

#[test]
fn label_and_notes_round_trip_through_payload() {
    let label = "quote \" and slash \\";
    let note = "line one\nline two";
    let e = Error::new("m".to_string())
        .label(label.to_string())
        .note(note.to_string());
    let payload = payload_of(&render_body(&e));
    let lits = payload_literals(&payload);
    assert_eq!(unescape_string_literal(&lits[1]), label);
    assert_eq!(unescape_string_literal(&lits[2]), note);
}

#[test]
fn empty_message_is_rendered() {
    let e = Error::new(String::new());
    let payload = payload_of(&render_body(&e));
    assert_eq!(payload[2].to_string(), "\"\"");
}

#[test]
fn label_last_write_wins() {
    let e = Error::new("m".to_string())
        .label("a".to_string())
        .label("b".to_string());
    let payload = payload_of(&render_body(&e));
    assert_eq!(payload[4].to_string(), "label");
    let lits = payload_literals(&payload);
    assert_eq!(lits, vec!["\"m\"".to_string(), "\"b\"".to_string()]);
    assert!(!lits.contains(&"\"a\"".to_string()));
}

#[test]
fn notes_keep_order_and_duplicates() {
    let e = Error::new("m".to_string())
        .note("n1".to_string())
        .note("n2".to_string())
        .note("n1".to_string());
    let payload = payload_of(&render_body(&e));
    let lits = payload_literals(&payload);
    assert_eq!(
        lits,
        vec![
            "\"m\"".to_string(),
            "\"n1\"".to_string(),
            "\"n2\"".to_string(),
            "\"n1\"".to_string(),
        ]
    );
    assert_eq!(payload[3].to_string(), ",");
    assert_eq!(payload[4].to_string(), "note");
    assert_eq!(payload[8].to_string(), "note");
    assert_eq!(payload[12].to_string(), "note");
}

/// The `*` anchor token and the trailing group anchor of the emitted call.
fn anchors(body: &[TokenTree]) -> (proc_macro2::Punct, proc_macro2::Group) {
    let k = body.len() - 6;
    let star = match &body[k] {
        TokenTree::Punct(p) => {
            assert_eq!(p.as_char(), '*');
            p.clone()
        }
        other => panic!("expected the * anchor, got {}", other),
    };
    let group = match &body[k + 2] {
        TokenTree::Group(g) => {
            assert_eq!(g.delimiter(), Delimiter::Parenthesis);
            assert!(g.stream().is_empty());
            g.clone()
        }
        other => panic!("expected the group anchor, got {}", other),
    };
    (star, group)
}

#[test]
fn anchors_default_to_call_site() {
    let e = Error::new("m".to_string());
    let body = render_body(&e);
    let (star, group) = anchors(&body);
    let cs = Span::call_site();
    assert_eq!(star.span().start(), cs.start());
    assert_eq!(star.span().end(), cs.end());
    assert_eq!(group.span().start(), cs.start());
    assert_eq!(group.span().end(), cs.end());
}

#[test]
fn anchors_carry_single_location() {
    let parsed: TokenStream = "alpha beta".parse().unwrap();
    let toks: Vec<TokenTree> = parsed.into_iter().collect();
    let l = toks[0].span();
    let e = Error::new("m".to_string()).span(SpanPair::single(l));
    let body = render_body(&e);
    let (star, group) = anchors(&body);
    assert_eq!(star.span().start(), l.start());
    assert_eq!(star.span().end(), l.end());
    assert_eq!(group.span().start(), l.start());
    assert_eq!(group.span().end(), l.end());
}

#[test]
fn anchors_carry_start_and_end() {
    let parsed: TokenStream = "alpha beta".parse().unwrap();
    let toks: Vec<TokenTree> = parsed.into_iter().collect();
    let s = toks[0].span();
    let t = toks[1].span();
    assert_ne!(s.start(), t.start());
    let e = Error::new("m".to_string()).span(SpanPair::pair(s, t));
    let body = render_body(&e);
    let (star, group) = anchors(&body);
    assert_eq!(star.span().start(), s.start());
    assert_eq!(star.span().end(), s.end());
    assert_eq!(group.span().start(), t.start());
    assert_eq!(group.span().end(), t.end());
}

#[test]
fn span_last_write_wins() {
    let parsed: TokenStream = "alpha beta".parse().unwrap();
    let toks: Vec<TokenTree> = parsed.into_iter().collect();
    let s = toks[0].span();
    let t = toks[1].span();
    let e = Error::new("m".to_string())
        .span(SpanPair::single(s))
        .span(SpanPair::single(t));
    let body = render_body(&e);
    let (star, group) = anchors(&body);
    assert_eq!(star.span().start(), t.start());
    assert_eq!(group.span().start(), t.start());
}

#[test]
fn compatibility_mode_omits_suppression_attribute() {
    let e = Error::new("m".to_string());
    let compat = render_body_at(&e, true);
    assert!(!contains_ident(&compat, "do_not_recommend"));
    let full = render_body_at(&e, false);
    assert!(contains_ident(&full, "do_not_recommend"));
    assert_eq!(full.len(), compat.len() + 2);
    assert_eq!(full[5].to_string(), "#");
    match &full[6] {
        TokenTree::Group(g) => {
            assert_eq!(g.delimiter(), Delimiter::Bracket);
            let inner: Vec<TokenTree> = g.stream().into_iter().collect();
            assert_eq!(inner.len(), 4);
            assert_eq!(inner[0].to_string(), "diagnostic");
            assert_eq!(inner[3].to_string(), "do_not_recommend");
        }
        other => panic!("expected the suppression attribute group, got {}", other),
    }
}

#[test]
fn rendering_twice_is_identical() {
    let e = Error::new("m".to_string())
        .label("l".to_string())
        .note("n".to_string());
    let mut ts1 = TokenStream::new();
    let mut ts2 = TokenStream::new();
    e.to_tokens(&mut ts1);
    e.to_tokens(&mut ts2);
    assert_eq!(ts1.to_string(), ts2.to_string());
}

#[test]
fn rendering_appends_to_existing_stream() {
    let mut ts: TokenStream = "prefix".parse().unwrap();
    let e = Error::new("m".to_string());
    e.to_tokens(&mut ts);
    e.to_tokens(&mut ts);
    let top: Vec<TokenTree> = ts.into_iter().collect();
    assert_eq!(top.len(), 3);
    assert_eq!(top[0].to_string(), "prefix");
    assert_eq!(top[1].to_string(), top[2].to_string());
}

#[test]
fn full_fragment_scenario() {
    let parsed: TokenStream = "alpha beta".parse().unwrap();
    let toks: Vec<TokenTree> = parsed.into_iter().collect();
    let start_a = toks[0].span();
    let end_b = toks[1].span();
    let e = Error::new("expected a Serializer".to_string())
        .label("this type".to_string())
        .note("implement Serialize for this type".to_string())
        .span(SpanPair::pair(start_a, end_b));
    let body = render_body(&e);
    assert_eq!(body.len(), 39);

    let payload = payload_of(&body);
    let texts: Vec<String> = payload.iter().map(|t| t.to_string()).collect();
    assert_eq!(
        texts,
        vec![
            "message",
            "=",
            "\"expected a Serializer\"",
            ",",
            "label",
            "=",
            "\"this type\"",
            ",",
            "note",
            "=",
            "\"implement Serialize for this type\"",
        ]
    );

    assert_eq!(body[0].to_string(), "#");
    assert_eq!(body[2].to_string(), "trait");
    assert_eq!(body[3].to_string(), "DiagnosticHack");
    assert_eq!(body[5].to_string(), "#");
    assert_eq!(body[7].to_string(), "impl");
    assert_eq!(body[10].to_string(), ":");
    assert_eq!(body[12].to_string(), "core");
    assert_eq!(body[15].to_string(), "convert");
    assert_eq!(body[18].to_string(), "Infallible");
    assert_eq!(body[20].to_string(), "fn");
    assert_eq!(body[21].to_string(), "diagnostic_hack");
    assert_eq!(body[29].to_string(), "diagnostic_hack");
    assert_eq!(body[33].to_string(), "*");
    assert_eq!(body[34].to_string(), "const");
    assert_eq!(body[38].to_string(), ";");

    let (star, group) = anchors(&body);
    assert_eq!(star.span().start(), start_a.start());
    assert_eq!(group.span().start(), end_b.start());
    assert_eq!(group.span().end(), end_b.end());
}
