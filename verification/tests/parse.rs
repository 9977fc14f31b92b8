use proc_macro2::{Delimiter as PmDelimiter, Spacing, TokenStream, TokenTree};
use smlang_macros::state_machine::StateMachine;
use smlang_macros::tokens::{Delimiter, ParseError, Tok};
use smlang_macros::verdicts::Verdicts;
use smlang_macros::transition::{
    AsyncIdent, Event, GuardExpression, InputState, OutputState, StateTransitions,
};

fn convert(stream: TokenStream) -> Vec<Tok> {
    stream
        .into_iter()
        .flat_map(|tree| match tree {
            TokenTree::Ident(i) => vec![Tok::Ident(i.to_string(), i.span())],
            TokenTree::Punct(p) => vec![Tok::Punct(p.as_char(), p.spacing() == Spacing::Joint)],
            TokenTree::Literal(l) => vec![Tok::Literal(l.to_string())],
            TokenTree::Group(g) => {
                let d = match g.delimiter() {
                    PmDelimiter::Parenthesis => Delimiter::Parenthesis,
                    PmDelimiter::Brace => Delimiter::Brace,
                    PmDelimiter::Bracket => Delimiter::Bracket,
                    PmDelimiter::None => return convert(g.stream()),
                };
                vec![Tok::Group(d, convert(g.stream()), g.stream().to_string())]
            }
        })
        .collect()
}

fn toks(src: &str) -> Vec<Tok> {
    convert(src.parse::<TokenStream>().unwrap())
}

fn parse(src: &str) -> Result<StateMachine, ParseError> {
    StateMachine::parse(&toks(src)).0
}

fn err_kind(r: Result<StateMachine, ParseError>) -> String {
    match r {
        Ok(_) => "ok".to_string(),
        Err(ParseError::ExpectedPunct(c)) => format!("punct {}", c),
        Err(ParseError::ExpectedIdent) => "ident".to_string(),
        Err(ParseError::RefusedIdent(m)) => format!("refused {}", m),
        Err(ParseError::ExpectedBool) => "bool".to_string(),
        Err(ParseError::ExpectedBrackets) => "brackets".to_string(),
        Err(ParseError::InvalidAttribute(_)) => "attribute".to_string(),
        Err(ParseError::InvalidType) => "type".to_string(),
        Err(ParseError::UnknownKeyword(k)) => format!("keyword {}", k),
        Err(ParseError::UnexpectedToken) => "unexpected".to_string(),
        Err(ParseError::WildcardWithOthers) => "wildcard others".to_string(),
        Err(ParseError::WildcardStart) => "wildcard start".to_string(),
    }
}

#[test]
fn empty_input_is_an_empty_definition() {
    let sm = parse("").unwrap();
    assert!(sm.transitions.is_empty());
    assert!(sm.name.is_none());
    assert!(sm.states_attr.is_empty());
    assert!(sm.events_attr.is_empty());
    assert!(!sm.entry_exit_async);
}

#[test]
fn new_is_empty() {
    let sm = StateMachine::new();
    assert!(sm.transitions.is_empty());
    assert!(sm.name.is_none());
    assert!(!sm.entry_exit_async);
}

#[test]
fn name_and_transitions() {
    let sm = parse(
        "name: Door, transitions: { *Closed + Open [unlocked] / swing = Opened, Opened + Close = Closed }",
    )
    .unwrap();
    assert_eq!(sm.name.as_ref().map(|n| n.text.as_str()), Some("Door"));
    assert_eq!(sm.transitions.len(), 2);
    let t0 = &sm.transitions[0];
    assert!(t0.in_state.start);
    assert!(!t0.in_state.wildcard);
    assert_eq!(t0.in_state.ident, "Closed");
    assert_eq!(t0.event.ident, "Open");
    match &t0.guard {
        Some(GuardExpression::Guard(g)) => {
            assert_eq!(g.ident, "unlocked");
            assert!(!g.is_async);
        }
        _ => panic!("expected a single guard"),
    }
    let a = t0.action.as_ref().unwrap();
    assert_eq!(a.ident, "swing");
    assert!(!a.is_async);
    assert_eq!(t0.out_state.ident, "Opened");
    let t1 = &sm.transitions[1];
    assert!(!t1.in_state.start);
    assert_eq!(t1.in_state.ident, "Opened");
    assert!(t1.guard.is_none());
    assert!(t1.action.is_none());
    assert_eq!(t1.out_state.ident, "Closed");
}

#[test]
fn several_input_states_give_one_transition_each() {
    let sm = parse("transitions: { A | B | C + Go / act = D }").unwrap();
    let names: Vec<&str> = sm.transitions.iter().map(|t| t.in_state.ident.as_str()).collect();
    assert_eq!(names, vec!["A", "B", "C"]);
    for t in &sm.transitions {
        assert_eq!(t.event.ident, "Go");
        assert_eq!(t.action.as_ref().unwrap().ident, "act");
        assert_eq!(t.out_state.ident, "D");
    }
}

#[test]
fn blocks_accumulate_in_order() {
    let sm = parse("transitions: { A + E = B }, transitions: { B + E = A }").unwrap();
    assert_eq!(sm.transitions.len(), 2);
    assert_eq!(sm.transitions[0].in_state.ident, "A");
    assert_eq!(sm.transitions[1].in_state.ident, "B");
}

#[test]
fn trailing_commas_are_accepted() {
    let a = parse("name: M, transitions: { A + E = B, },").unwrap();
    assert_eq!(a.name.as_ref().map(|n| n.text.as_str()), Some("M"));
    assert_eq!(a.transitions.len(), 1);
}

#[test]
fn a_second_comma_is_refused() {
    assert_eq!(err_kind(parse("name: M,,")), "ident");
    assert_eq!(err_kind(parse("transitions: { A + E = B,, }")), "ident");
}

#[test]
fn data_types_and_async() {
    let sm = parse(
        "transitions: { *Idle(u32) + Load(&'a [u8]) [async ready && !busy || (a && b)] / async load = Busy }",
    )
    .unwrap();
    let t = &sm.transitions[0];
    let d = t.in_state.data_type.as_ref().unwrap();
    assert_eq!(d.text, "u32");
    assert!(!d.is_reference);
    let e = t.event.data_type.as_ref().unwrap();
    assert!(e.is_reference);
    assert!(t.action.as_ref().unwrap().is_async);
    match t.guard.as_ref().unwrap() {
        GuardExpression::Or(l, r) => {
            match &**l {
                GuardExpression::And(x, y) => {
                    match &**x {
                        GuardExpression::Guard(g) => {
                            assert_eq!(g.ident, "ready");
                            assert!(g.is_async);
                        }
                        _ => panic!("expected a guard"),
                    }
                    assert!(matches!(&**y, GuardExpression::Not(_)));
                }
                _ => panic!("expected a conjunction"),
            }
            assert!(matches!(&**r, GuardExpression::Group(_)));
        }
        _ => panic!("expected a disjunction"),
    }
}

#[test]
fn wildcard_input_state() {
    let sm = parse("transitions: { _ + Reset = Idle }").unwrap();
    assert!(sm.transitions[0].in_state.wildcard);
    assert_eq!(err_kind(parse("transitions: { _ | A + Reset = Idle }")), "wildcard others");
    assert_eq!(err_kind(parse("transitions: { *_ + Reset = Idle }")), "wildcard start");
}

#[test]
fn attributes() {
    let sm = parse("states_attr: #[derive(Debug)] #[allow(dead_code)], events_attr: #[derive(Clone)]").unwrap();
    assert_eq!(sm.states_attr.len(), 2);
    assert_eq!(sm.events_attr.len(), 1);
    assert_eq!(err_kind(parse("states_attr: # derive")), "brackets");
    assert_eq!(err_kind(parse("states_attr: #[1 + 2]")), "attribute");
}

#[test]
fn later_attributes_replace_earlier_ones() {
    let sm = parse("states_attr: #[derive(Debug)] #[allow(dead_code)], states_attr: #[derive(Clone)]").unwrap();
    assert_eq!(sm.states_attr.len(), 1);
}

#[test]
fn entry_exit_async_false_keeps_true() {
    assert!(parse("entry_exit_async: true").unwrap().entry_exit_async);
    assert!(!parse("entry_exit_async: false").unwrap().entry_exit_async);
    assert!(parse("entry_exit_async: true, entry_exit_async: false").unwrap().entry_exit_async);
    assert_eq!(err_kind(parse("entry_exit_async: 1")), "bool");
}

#[test]
fn errors() {
    assert_eq!(err_kind(parse("colour: red")), "keyword colour");
    assert_eq!(err_kind(parse("name Door")), "punct :");
    assert_eq!(err_kind(parse("name: fn")), "refused expected identifier, found keyword `fn`");
    assert_eq!(err_kind(parse("name: A B")), "unexpected");
    assert_eq!(err_kind(parse("transitions: { A + E = B C }")), "unexpected");
    assert_eq!(err_kind(parse("transitions: { A E = B }")), "punct +");
    assert_eq!(err_kind(parse("transitions: { A + E B }")), "punct =");
    assert_eq!(err_kind(parse("transitions: { A(1 +) + E = B }")), "type");
    assert_eq!(err_kind(parse("transitions: { A + E [a b] = B }")), "unexpected");
    assert_eq!(err_kind(parse("42")), "ident");
}

#[test]
fn transitions_without_braces_take_nothing() {
    let sm = parse("transitions:, name: N").unwrap();
    assert!(sm.transitions.is_empty());
    assert_eq!(sm.name.as_ref().map(|n| n.text.as_str()), Some("N"));
}

#[test]
fn add_transitions_appends_one_per_input_state() {
    let state = |name: &str, start: bool| InputState {
        start,
        wildcard: false,
        ident: name.to_string(),
        data_type: None,
    };
    let mut sm = StateMachine::new();
    sm.add_transitions(StateTransitions {
        in_states: vec![state("A", true)],
        event: Event { ident: "E".to_string(), data_type: None },
        guard: None,
        action: None,
        out_state: OutputState { ident: "B".to_string() },
    });
    sm.add_transitions(StateTransitions {
        in_states: vec![state("B", false), state("C", false)],
        event: Event { ident: "F".to_string(), data_type: None },
        guard: Some(GuardExpression::Guard(AsyncIdent { ident: "g".to_string(), is_async: false })),
        action: Some(AsyncIdent { ident: "act".to_string(), is_async: true }),
        out_state: OutputState { ident: "A".to_string() },
    });
    assert_eq!(sm.transitions.len(), 3);
    assert_eq!(sm.transitions[0].in_state.ident, "A");
    assert!(sm.transitions[0].in_state.start);
    assert_eq!(sm.transitions[1].in_state.ident, "B");
    assert_eq!(sm.transitions[2].in_state.ident, "C");
    for t in &sm.transitions[1..] {
        assert_eq!(t.event.ident, "F");
        assert!(t.guard.is_some());
        assert!(t.action.as_ref().unwrap().is_async);
        assert_eq!(t.out_state.ident, "A");
    }
    assert!(sm.name.is_none());
}

#[test]
fn verdicts_given_beforehand_decide() {
    let t = toks("name: Door, transitions: { A(T) + E = B }, states_attr: #[x]");
    // As syn decides; the verdicts it gave come back.
    let (r, v) = StateMachine::parse(&t);
    assert_eq!(r.unwrap().name.as_ref().map(|n| n.text.as_str()), Some("Door"));
    assert!(v.idents.iter().any(|(x, b)| x == "Door" && b.is_ok()));
    assert!(v.types.iter().any(|(x, b)| x == "T" && *b == Some(false)));
    assert!(v.metas.iter().any(|(x, b)| x == "x" && *b == Ok(true)));
    // The same verdicts give the same parse.
    assert_eq!(StateMachine::parse_with(&v, &t).unwrap().name.as_ref().map(|n| n.text.as_str()), Some("Door"));
    // No verdicts: nothing is an identifier.
    assert_eq!(err_kind(StateMachine::parse_with(&Verdicts::new(), &t)), "ident");
    let idents = |door: bool| {
        ["name", "Door", "transitions", "A", "E", "B", "states_attr"]
            .iter()
            .map(|x| {
                let verdict = if *x != "Door" || door { Ok(()) } else { Err("not an identifier".to_string()) };
                (x.to_string(), verdict)
            })
            .collect::<Vec<_>>()
    };
    let types = |t: Option<bool>| vec![("T".to_string(), t)];
    let metas = |m: Result<bool, String>| vec![("x".to_string(), m)];
    // `Door` declared no identifier.
    let v = Verdicts { idents: idents(false), metas: metas(Ok(true)), types: types(Some(false)) };
    assert_eq!(err_kind(StateMachine::parse_with(&v, &t)), "refused not an identifier");
    // `T` declared no type.
    let v = Verdicts { idents: idents(true), metas: metas(Ok(true)), types: types(None) };
    assert_eq!(err_kind(StateMachine::parse_with(&v, &t)), "type");
    // `T` declared a reference type.
    let v = Verdicts { idents: idents(true), metas: metas(Ok(true)), types: types(Some(true)) };
    let sm = StateMachine::parse_with(&v, &t).unwrap();
    assert!(sm.transitions[0].in_state.data_type.as_ref().unwrap().is_reference);
    // `x` declared no attribute.
    let v = Verdicts { idents: idents(true), metas: metas(Err("no meta".to_string())), types: types(Some(false)) };
    match StateMachine::parse_with(&v, &t) {
        Err(ParseError::InvalidAttribute(Some(m))) => assert_eq!(m, "no meta"),
        _ => panic!("expected an invalid attribute"),
    }
    // `x` declared an attribute followed by other tokens.
    let v = Verdicts { idents: idents(true), metas: metas(Ok(false)), types: types(Some(false)) };
    assert_eq!(err_kind(StateMachine::parse_with(&v, &t)), "unexpected");
}

#[test]
fn attribute_content_with_extra_tokens() {
    // The attribute parses; the extra tokens make the whole fail at the end.
    assert_eq!(err_kind(parse("states_attr: #[derive(Debug) x]")), "unexpected");
    // A later error is reported first.
    assert_eq!(err_kind(parse("states_attr: #[derive(Debug) x], colour: red")), "keyword colour");
    assert_eq!(err_kind(parse("states_attr: #[1 + 2]")), "attribute");
}

#[test]
fn error_messages() {
    assert_eq!(ParseError::ExpectedPunct(':').message(), "expected `:`");
    assert_eq!(ParseError::ExpectedIdent.message(), "expected identifier");
    assert_eq!(ParseError::UnexpectedToken.message(), "unexpected token");
    assert_eq!(
        ParseError::UnknownKeyword("colour".to_string()).message(),
        "Unknown keyword colour. Support keywords: [\"name\", \"transitions\", \"states_attr\", \"events_attr\", \"entry_exit_async\"\n                                ]"
    );
    match parse("colour: red") {
        Err(e) => assert!(e.message().starts_with("Unknown keyword colour.")),
        Ok(_) => panic!("expected an error"),
    }
}

#[test]
fn syn_messages_are_carried() {
    // A keyword where a key belongs: syn's own words.
    match parse("fn: x") {
        Err(e) => assert_eq!(e.message(), "expected identifier, found keyword `fn`"),
        Ok(_) => panic!("expected an error"),
    }
    // Bracket content that is no attribute's: syn's own words.
    match parse("states_attr: #[1 + 2]") {
        Err(e) => assert_eq!(e.message(), "expected identifier"),
        Ok(_) => panic!("expected an error"),
    }
    assert_eq!(ParseError::RefusedIdent("why".to_string()).message(), "why");
    assert_eq!(ParseError::InvalidAttribute(Some("why".to_string())).message(), "why");
    assert_eq!(ParseError::InvalidAttribute(None).message(), "expected attribute arguments");
}
