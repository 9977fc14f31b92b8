use proc_macro2::Span;
use smlang_macros::codegen::{generate_action, generate_code, ArgForm, Args, ParamDecl, Step};
use smlang_macros::parsed::{
    Attribute, DataDefinitions, DataType, EventEntry, EventMapping, EventMappingTransition,
    Lifetimes, MachineName, NamedData, NamedLifetimes, ParsedStateMachine, StateEntry,
};
use smlang_macros::transition::{AsyncIdent, GuardExpression};

fn s(x: &str) -> String {
    x.to_string()
}

fn guard(name: &str, is_async: bool) -> GuardExpression {
    GuardExpression::Guard(AsyncIdent { ident: s(name), is_async })
}

fn action(name: &str, is_async: bool) -> Option<AsyncIdent> {
    Some(AsyncIdent { ident: s(name), is_async })
}

fn trans(guard: Option<GuardExpression>, action: Option<AsyncIdent>, out: &str) -> EventMappingTransition {
    EventMappingTransition { guard, action, out_state: s(out), internal_transition: false }
}

fn event(state: &str, ev: &str, transitions: Vec<EventMappingTransition>) -> EventEntry {
    EventEntry {
        event: s(ev),
        mapping: EventMapping { in_state: s(state), event: s(ev), transitions },
    }
}

fn no_data() -> DataDefinitions {
    DataDefinitions { data_types: vec![], lifetimes: vec![], all_lifetimes: Lifetimes { names: vec![] } }
}

fn data(name: &str, text: &str, is_reference: bool) -> NamedData {
    NamedData { name: s(name), data: DataType { text: s(text), is_reference } }
}

/// A door: Closed --Open [unlocked && !jammed] / swing--> Opened,
/// Opened --Close / shut--> Closed, Opened --Close [unlocked]--> Opened.
fn door() -> ParsedStateMachine {
    ParsedStateMachine {
        name: Some(MachineName { text: s("Door"), span: Span::call_site() }),
        states_attr: vec![Attribute { meta: s("derive(Debug)") }],
        events_attr: vec![],
        states: vec![s("Opened"), s("Closed")],
        starting_state: s("Closed"),
        state_data: DataDefinitions {
            data_types: vec![data("Opened", "u32", false)],
            lifetimes: vec![],
            all_lifetimes: Lifetimes { names: vec![] },
        },
        events: vec![s("Open"), s("Close")],
        event_data: DataDefinitions {
            data_types: vec![data("Open", "&'a Key", true)],
            lifetimes: vec![NamedLifetimes { name: s("Open"), lifetimes: Lifetimes { names: vec![s("'a")] } }],
            all_lifetimes: Lifetimes { names: vec![s("'a")] },
        },
        states_events_mapping: vec![
            StateEntry {
                state: s("Closed"),
                events: vec![event(
                    "Closed",
                    "Open",
                    vec![trans(
                        Some(GuardExpression::And(
                            Box::new(guard("unlocked", false)),
                            Box::new(GuardExpression::Not(Box::new(guard("jammed", false)))),
                        )),
                        action("swing", false),
                        "Opened",
                    )],
                )],
            },
            StateEntry {
                state: s("Opened"),
                events: vec![event(
                    "Opened",
                    "Close",
                    vec![
                        trans(Some(guard("unlocked", false)), action("stay", false), "Opened"),
                        trans(None, action("shut", false), "Closed"),
                    ],
                )],
            },
        ],
        entry_exit_async: false,
    }
}

#[test]
fn type_names_follow_the_machine_name() {
    let g = generate_code(&door());
    assert_eq!(g.names.states, "DoorStates");
    assert_eq!(g.names.events, "DoorEvents");
    assert_eq!(g.names.machine, "DoorStateMachine");
    assert_eq!(g.names.context, "DoorStateMachineContext");
}

#[test]
fn type_names_without_a_name() {
    let mut sm = door();
    sm.name = None;
    let g = generate_code(&sm);
    assert_eq!(g.names.states, "States");
    assert_eq!(g.names.events, "Events");
    assert_eq!(g.names.machine, "StateMachine");
    assert_eq!(g.names.context, "StateMachineContext");
}

#[test]
fn variants_are_sorted_with_their_data() {
    let g = generate_code(&door());
    let states: Vec<(&str, Option<&str>)> =
        g.state_variants.iter().map(|v| (v.name.as_str(), v.data.as_deref())).collect();
    assert_eq!(states, vec![("Closed", None), ("Opened", Some("u32"))]);
    let events: Vec<(&str, Option<&str>)> =
        g.event_variants.iter().map(|v| (v.name.as_str(), v.data.as_deref())).collect();
    assert_eq!(events, vec![("Close", None), ("Open", Some("&'a Key"))]);
}

#[test]
fn each_guard_is_declared_once_at_first_use() {
    let g = generate_code(&door());
    let names: Vec<&str> = g.guards.iter().map(|d| d.ident.as_str()).collect();
    assert_eq!(names, vec!["unlocked", "jammed"]);
    // First use: in state Closed on event Open, which carries `&'a Key`.
    let first = &g.guards[0];
    assert!(matches!(&first.state_param, ParamDecl::Absent));
    assert!(matches!(&first.event_param, ParamDecl::Plain(t) if t == "&'a Key"));
    assert_eq!(first.lifetimes, vec![s("'a")]);
}

#[test]
fn each_action_is_declared_once() {
    let g = generate_code(&door());
    let names: Vec<&str> = g.actions.iter().map(|d| d.ident.as_str()).collect();
    assert_eq!(names, vec!["swing", "stay", "shut"]);
    // swing leads from Closed to Opened, which carries u32: it returns it.
    assert_eq!(g.actions[0].result_data.as_deref(), Some("u32"));
    assert!(matches!(&g.actions[0].event_param, ParamDecl::Plain(t) if t == "&'a Key"));
    // stay leads from Opened back to Opened: it returns nothing.
    assert_eq!(g.actions[1].result_data, None);
    assert!(matches!(&g.actions[1].state_param, ParamDecl::Exclusive(t) if t == "u32"));
    // shut leads to Closed, which carries nothing.
    assert_eq!(g.actions[2].result_data, None);
}

#[test]
fn internal_transitions_return_nothing() {
    let mut sm = door();
    sm.states_events_mapping[0].events[0].mapping.transitions[0].internal_transition = true;
    let g = generate_code(&sm);
    assert_eq!(g.actions[0].result_data, None);
}

#[test]
fn hooks_in_snake_case() {
    let g = generate_code(&door());
    let hooks: Vec<(&str, &str)> = g.hooks.iter().map(|h| (h.entry.as_str(), h.exit.as_str())).collect();
    assert_eq!(hooks, vec![("on_entry_closed", "on_exit_closed"), ("on_entry_opened", "on_exit_opened")]);
}

#[test]
fn hook_names_of_camel_case_states() {
    let mut sm = door();
    sm.states_events_mapping[0].state = s("DoorIsClosed");
    let g = generate_code(&sm);
    assert_eq!(g.hooks[0].entry, "on_entry_door_is_closed");
    assert_eq!(g.arms[0].events[0].blocks[0].exit_hook, "on_exit_door_is_closed");
}

#[test]
fn dispatch_keeps_the_written_order() {
    let g = generate_code(&door());
    assert_eq!(g.arms.len(), 2);
    assert_eq!(g.arms[0].state, "Closed");
    assert!(!g.arms[0].binds_data);
    assert_eq!(g.arms[1].state, "Opened");
    assert!(g.arms[1].binds_data);
    let close = &g.arms[1].events[0];
    assert_eq!(close.event, "Close");
    assert!(!close.binds_data);
    assert_eq!(close.blocks.len(), 2);
    assert_eq!(close.blocks[0].out_state, "Opened");
    assert!(close.blocks[0].guard.is_some());
    assert_eq!(close.blocks[1].out_state, "Closed");
    assert!(close.blocks[1].guard.is_none());
}

#[test]
fn self_transitions_skip_hooks() {
    let g = generate_code(&door());
    let close = &g.arms[1].events[0];
    assert!(close.blocks[0].same_state);
    assert!(!close.blocks[1].same_state);
    assert_eq!(close.blocks[1].exit_hook, "on_exit_opened");
    assert_eq!(close.blocks[1].entry_hook, "on_entry_closed");
    assert!(!close.blocks[1].out_binds_data);
    assert!(g.arms[0].events[0].blocks[0].out_binds_data);
}

#[test]
fn call_arguments() {
    let g = generate_code(&door());
    // Closed on Open: event data is a reference, passed as bound.
    let b = &g.arms[0].events[0].blocks[0];
    let ga = b.guard.as_ref().unwrap().args;
    assert!(ga == Args { state: ArgForm::Absent, event: ArgForm::Plain });
    let aa = b.action.as_ref().unwrap().args;
    assert!(aa == Args { state: ArgForm::Absent, event: ArgForm::Plain });
    // Opened on Close: state data u32, borrowed for the guard.
    let b = &g.arms[1].events[0].blocks[0];
    assert!(b.guard.as_ref().unwrap().args == Args { state: ArgForm::Borrowed, event: ArgForm::Absent });
    assert!(b.action.as_ref().unwrap().args == Args { state: ArgForm::Plain, event: ArgForm::Absent });
}

#[test]
fn starting_state_and_lifetimes() {
    let g = generate_code(&door());
    assert_eq!(g.starting_state, "Closed");
    assert_eq!(g.starting_data, None);
    assert!(g.state_lifetimes.is_empty());
    assert_eq!(g.event_lifetimes, vec![s("'a")]);
    assert_eq!(g.event_only_lifetimes, vec![s("'a")]);
    assert_eq!(g.states_attr.len(), 1);
    assert_eq!(g.states_attr[0].meta, "derive(Debug)");
}

#[test]
fn async_only_when_something_awaits() {
    let g = generate_code(&door());
    assert!(!g.is_async);
    let mut sm = door();
    sm.entry_exit_async = true;
    assert!(generate_code(&sm).is_async);
    let mut sm = door();
    sm.states_events_mapping[1].events[0].mapping.transitions[1].action = action("shut", true);
    assert!(generate_code(&sm).is_async);
    let mut sm = door();
    sm.states_events_mapping[1].events[0].mapping.transitions[0].guard = Some(guard("unlocked", true));
    assert!(generate_code(&sm).is_async);
}

#[test]
fn generate_action_cases() {
    let args = Args { state: ArgForm::Plain, event: ArgForm::Absent };
    let (a, call) = generate_action(&action("go", true), args);
    assert!(a);
    let call = call.unwrap();
    assert_eq!(call.ident, "go");
    assert!(call.awaits);
    assert!(call.args == args);
    let (a, call) = generate_action(&None, args);
    assert!(!a);
    assert!(call.is_none());
}

#[test]
fn empty_machine() {
    let sm = ParsedStateMachine {
        name: None,
        states_attr: vec![],
        events_attr: vec![],
        states: vec![s("Only")],
        starting_state: s("Only"),
        state_data: no_data(),
        events: vec![],
        event_data: no_data(),
        states_events_mapping: vec![],
        entry_exit_async: false,
    };
    let g = generate_code(&sm);
    assert!(g.guards.is_empty());
    assert!(g.actions.is_empty());
    assert!(g.arms.is_empty());
    assert!(!g.is_async);
    assert_eq!(g.state_variants.len(), 1);
}

#[test]
fn arguments_are_separated_when_both_are_passed() {
    assert!(Args { state: ArgForm::Plain, event: ArgForm::Borrowed }.both());
    assert!(!Args { state: ArgForm::Absent, event: ArgForm::Borrowed }.both());
    assert!(!Args { state: ArgForm::Plain, event: ArgForm::Absent }.both());
    assert!(!Args { state: ArgForm::Absent, event: ArgForm::Absent }.both());
}

#[test]
fn type_names_stand_at_the_name() {
    let g = generate_code(&door());
    assert!(g.names.span.is_some());
    let mut sm = door();
    sm.name = None;
    assert!(generate_code(&sm).names.span.is_none());
}

#[test]
fn raw_machine_names_stay_raw() {
    let mut sm = door();
    sm.name = Some(MachineName { text: s("r#Foo"), span: Span::call_site() });
    assert_eq!(generate_code(&sm).names.states, "r#FooStates");
}

#[test]
fn steps_of_a_transition() {
    let g = generate_code(&door());
    // Closed --Open / swing--> Opened: exit, action, callback, change, entry, return.
    let b = &g.arms[0].events[0].blocks[0];
    let kinds: Vec<String> = b
        .steps
        .iter()
        .map(|st| match st {
            Step::ExitHook(h) => format!("exit {}", h),
            Step::Action(c) => format!("action {}", c.ident),
            Step::Callback => "callback".to_string(),
            Step::ChangeState => "change".to_string(),
            Step::EntryHook(h) => format!("entry {}", h),
            Step::Return => "return".to_string(),
        })
        .collect();
    assert_eq!(
        kinds,
        vec!["exit on_exit_closed", "action swing", "callback", "change", "entry on_entry_opened", "return"]
    );
    // Opened --Close [unlocked] / stay--> Opened: action, return.
    let b = &g.arms[1].events[0].blocks[0];
    assert_eq!(b.steps.len(), 2);
    assert!(matches!(&b.steps[0], Step::Action(c) if c.ident == "stay"));
    assert!(matches!(&b.steps[1], Step::Return));
}

#[test]
fn variants_of_distinct_states_are_distinct() {
    let g = generate_code(&door());
    assert_ne!(g.state_variants[0].name, g.state_variants[1].name);
}
