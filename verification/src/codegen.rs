//! Plans the code of a state machine: the names of its types, the variants of
//! its state and event enums, the guards and actions that its context trait
//! declares, and the dispatch of `process_event`.

use vstd::prelude::*;
use vstd::string::StringExecFns;
use crate::outside::{snake_case, sorted_names, sort_names, to_snake_case};
use crate::parsed::{
    contains_name, keys_distinct, names_distinct, copy_attributes, copy_strings, data_of, find_data, find_lifetimes, has_name,
    lifetimes_extend, lifetimes_minus, lifetimes_of, Attribute, DataType, EventEntry,
    EventMappingTransition, Lifetimes, NamedData, ParsedStateMachine, StateEntry,
};
use crate::transition::{guard_leaves, visit_guards, AsyncIdent, GuardExpression};

verus! {

// ---------------------------------------------------------------------------
// Names
// ---------------------------------------------------------------------------

/// The machine's name, or nothing where it has none.
pub open spec fn name_prefix(sm: ParsedStateMachine) -> Seq<char> {
    match sm.name {
        Some(n) => n.text@,
        None => Seq::empty(),
    }
}

/// `prefix` followed by `suffix`.
pub fn join(prefix: &String, suffix: &str) -> (r: String)
    ensures
        r@ == prefix@ + suffix@,
{
    let mut r = prefix.clone();
    r.append(suffix);
    r
}

/// The names of the four generated types: states, events, the machine and
/// its context trait, and where they stand: at the machine's name where it
/// has one, else (none here) where the macro is called.
pub struct TypeNames {
    pub states: String,
    pub events: String,
    pub machine: String,
    pub context: String,
    pub span: Option<proc_macro2::Span>,
}

/// Where the machine's name stands, if it has one.
pub open spec fn name_span(sm: ParsedStateMachine) -> Option<proc_macro2::Span> {
    match sm.name {
        Some(n) => Some(n.span),
        None => None,
    }
}

/// Names the generated types after the machine: `{name}States`,
/// `{name}Events`, `{name}StateMachine` and `{name}StateMachineContext`,
/// placed at the machine's name. (A raw name `r#Foo` gives `r#FooStates`,
/// which names the same identifier as `FooStates`.)
pub fn type_names(sm: &ParsedStateMachine) -> (r: TypeNames)
    ensures
        r.span == name_span(*sm),
        r.states@ == name_prefix(*sm) + "States"@,
        r.events@ == name_prefix(*sm) + "Events"@,
        r.machine@ == name_prefix(*sm) + "StateMachine"@,
        r.context@ == name_prefix(*sm) + "StateMachineContext"@,
{
    let (base, span) = match &sm.name {
        Some(n) => (n.text.clone(), Some(n.span)),
        None => (String::new(), None),
    };
    TypeNames {
        states: join(&base, "States"),
        events: join(&base, "Events"),
        machine: join(&base, "StateMachine"),
        context: join(&base, "StateMachineContext"),
        span,
    }
}

// ---------------------------------------------------------------------------
// Enum variants
// ---------------------------------------------------------------------------

/// A variant of the generated state or event enum, with the source text of
/// the data it carries.
pub struct Variant {
    pub name: String,
    pub data: Option<String>,
}

/// The source text of an optional data type.
pub open spec fn data_text(d: Option<DataType>) -> Option<String> {
    match d {
        Some(t) => Some(t.text),
        None => None,
    }
}

/// The names of a list of variants.
pub open spec fn variant_names(v: Seq<Variant>) -> Seq<String> {
    v.map_values(|x: Variant| x.name)
}

/// Whether `v` lists each of `names` once, in the order of `str`, each with
/// the data type that `defs` gives it.
pub open spec fn variants_of(v: Seq<Variant>, names: Seq<String>, defs: Seq<NamedData>) -> bool {
    &&& variant_names(v).to_multiset() == names.to_multiset()
    &&& sorted_names(variant_names(v))
    &&& forall|n: int| 0 <= n < v.len() ==> (#[trigger] v[n]).data == data_text(data_of(defs, v[n].name@))
}

/// The variants of an enum over `names`: sorted by name, each with its data.
pub fn variants(names: &Vec<String>, defs: &Vec<NamedData>) -> (r: Vec<Variant>)
    ensures
        variants_of(r@, names@, defs@),
{
    let mut sorted = copy_strings(names);
    sort_names(&mut sorted);
    let mut r: Vec<Variant> = Vec::new();
    for i in 0..sorted.len()
        invariant
            r@.len() == i,
            forall|n: int| 0 <= n < r@.len() ==> (#[trigger] r@[n]).name == sorted@[n],
            forall|n: int| 0 <= n < r@.len() ==> (#[trigger] r@[n]).data == data_text(data_of(defs@, r@[n].name@)),
    {
        let data = match find_data(defs, &sorted[i]) {
            Some(d) => Some(d.text.clone()),
            None => None,
        };
        r.push(Variant { name: sorted[i].clone(), data });
    }
    assert(variant_names(r@) =~= sorted@);
    r
}

// ---------------------------------------------------------------------------
// Entry and exit hooks
// ---------------------------------------------------------------------------

/// The names of the entry and exit hooks of a state.
pub struct Hook {
    pub state: String,
    pub entry: String,
    pub exit: String,
}

/// Whether every state that the dispatch names, and every state that a
/// transition leads to, is written in ASCII.
pub open spec fn ascii_state_names(sm: ParsedStateMachine) -> bool {
    forall|i: int| 0 <= i < sm.states_events_mapping@.len() ==> {
        let e = #[trigger] sm.states_events_mapping@[i];
        &&& vstd::utf8::is_ascii_chars(e.state@)
        &&& forall|j: int, k: int|
            0 <= j < e.events@.len() && 0 <= k < e.events@[j].mapping.transitions@.len()
                ==> vstd::utf8::is_ascii_chars(
                (#[trigger] e.events@[j].mapping.transitions@[k]).out_state@,
            )
    }
}

/// The name of the hook called on entry to the state named `s`.
pub open spec fn entry_hook_name(s: Seq<char>) -> Seq<char> {
    "on_entry_"@ + snake_case(s)
}

/// The name of the hook called on exit from the state named `s`.
pub open spec fn exit_hook_name(s: Seq<char>) -> Seq<char> {
    "on_exit_"@ + snake_case(s)
}

/// `on_entry_{state}`, the state in snake case.
pub fn entry_hook(state: &String) -> (r: String)
    requires
        vstd::utf8::is_ascii_chars(state@),
    ensures
        r@ == entry_hook_name(state@),
{
    let snake = to_snake_case(state.as_str());
    let mut r = "on_entry_".to_string();
    r.append(snake.as_str());
    r
}

/// `on_exit_{state}`, the state in snake case.
pub fn exit_hook(state: &String) -> (r: String)
    requires
        vstd::utf8::is_ascii_chars(state@),
    ensures
        r@ == exit_hook_name(state@),
{
    let snake = to_snake_case(state.as_str());
    let mut r = "on_exit_".to_string();
    r.append(snake.as_str());
    r
}

/// One pair of hooks for each state that the dispatch names, in its order.
pub fn hooks(sm: &ParsedStateMachine) -> (r: Vec<Hook>)
    requires
        ascii_state_names(*sm),
    ensures
        r@.len() == sm.states_events_mapping@.len(),
        forall|i: int| 0 <= i < r@.len() ==> {
            &&& (#[trigger] r@[i]).state == sm.states_events_mapping@[i].state
            &&& r@[i].entry@ == entry_hook_name(sm.states_events_mapping@[i].state@)
            &&& r@[i].exit@ == exit_hook_name(sm.states_events_mapping@[i].state@)
        },
{
    let m = &sm.states_events_mapping;
    let mut r: Vec<Hook> = Vec::new();
    for i in 0..m.len()
        invariant
            m == &sm.states_events_mapping,
            ascii_state_names(*sm),
            r@.len() == i,
            forall|n: int| 0 <= n < r@.len() ==> {
                &&& (#[trigger] r@[n]).state == m@[n].state
                &&& r@[n].entry@ == entry_hook_name(m@[n].state@)
                &&& r@[n].exit@ == exit_hook_name(m@[n].state@)
            },
    {
        assert(vstd::utf8::is_ascii_chars(m@[i as int].state@));
        let state = &m[i].state;
        r.push(Hook { state: state.clone(), entry: entry_hook(state), exit: exit_hook(state) });
    }
    r
}

// ---------------------------------------------------------------------------
// Positions of the transitions
// ---------------------------------------------------------------------------

/// The positions `(i, j, k)` of the transitions of the first `j` events of
/// state entry `i`, event by event.
pub open spec fn event_positions(m: Seq<StateEntry>, i: int, j: int) -> Seq<(usize, usize, usize)>
    decreases j,
{
    if j <= 0 {
        Seq::empty()
    } else {
        event_positions(m, i, j - 1) + Seq::new(
            m[i].events@[j - 1].mapping.transitions@.len(),
            |k: int| (i as usize, (j - 1) as usize, k as usize),
        )
    }
}

/// The positions of the transitions of the first `i` state entries.
pub open spec fn positions_upto(m: Seq<StateEntry>, i: int) -> Seq<(usize, usize, usize)>
    decreases i,
{
    if i <= 0 {
        Seq::empty()
    } else {
        positions_upto(m, i - 1) + event_positions(m, i - 1, m[i - 1].events@.len() as int)
    }
}

/// The positions of all transitions, in the order of the dispatch: state by
/// state, event by event, transition by transition.
pub open spec fn positions(m: Seq<StateEntry>) -> Seq<(usize, usize, usize)> {
    positions_upto(m, m.len() as int)
}

/// Whether `p` names a transition of `m`.
pub open spec fn valid_position(m: Seq<StateEntry>, p: (usize, usize, usize)) -> bool {
    &&& p.0 < m.len()
    &&& p.1 < m[p.0 as int].events@.len()
    &&& p.2 < m[p.0 as int].events@[p.1 as int].mapping.transitions@.len()
}

/// The state entry at position `p`.
pub open spec fn state_at(m: Seq<StateEntry>, p: (usize, usize, usize)) -> StateEntry {
    m[p.0 as int]
}

/// The event entry at position `p`.
pub open spec fn event_at(m: Seq<StateEntry>, p: (usize, usize, usize)) -> EventEntry {
    m[p.0 as int].events@[p.1 as int]
}

/// The transition at position `p`.
pub open spec fn transition_at(m: Seq<StateEntry>, p: (usize, usize, usize)) -> EventMappingTransition {
    m[p.0 as int].events@[p.1 as int].mapping.transitions@[p.2 as int]
}

/// Lists the positions of all transitions.
pub fn transition_positions(m: &Vec<StateEntry>) -> (r: Vec<(usize, usize, usize)>)
    ensures
        r@ == positions(m@),
        forall|n: int| 0 <= n < r@.len() ==> valid_position(m@, #[trigger] r@[n]),
{
    let mut r: Vec<(usize, usize, usize)> = Vec::new();
    for i in 0..m.len()
        invariant
            r@ == positions_upto(m@, i as int),
            forall|n: int| 0 <= n < r@.len() ==> valid_position(m@, #[trigger] r@[n]),
    {
        let evs = &m[i].events;
        for j in 0..evs.len()
            invariant
                0 <= i < m@.len(),
                evs == &m@[i as int].events,
                r@ == positions_upto(m@, i as int) + event_positions(m@, i as int, j as int),
                forall|n: int| 0 <= n < r@.len() ==> valid_position(m@, #[trigger] r@[n]),
        {
            let ts = &evs[j].mapping.transitions;
            let ghost base = r@;
            for k in 0..ts.len()
                invariant
                    0 <= i < m@.len(),
                    0 <= j < evs@.len(),
                    evs == &m@[i as int].events,
                    ts == &evs@[j as int].mapping.transitions,
                    r@ == base + Seq::new(k as nat, |q: int| (i, j, q as usize)),
                    forall|n: int| 0 <= n < r@.len() ==> valid_position(m@, #[trigger] r@[n]),
            {
                r.push((i, j, k));
                assert(r@ =~= base + Seq::new((k + 1) as nat, |q: int| (i, j, q as usize)));
            }
            assert(event_positions(m@, i as int, j + 1) =~= event_positions(m@, i as int, j as int)
                + Seq::new(ts@.len(), |q: int| (i, j, q as usize)));
            assert(r@ =~= positions_upto(m@, i as int) + event_positions(m@, i as int, j + 1));
        }
        assert(r@ =~= positions_upto(m@, i + 1));
    }
    r
}

/// A position of a transition: state entry, event entry, transition.
pub type Position = (usize, usize, usize);

// ---------------------------------------------------------------------------
// Declarations of guards and actions
// ---------------------------------------------------------------------------

/// The lifetimes a transition's guards and actions are generic over: those of
/// its input state's data, then of its output state's, then of its event's,
/// each once.
pub open spec fn transition_lifetimes(sm: ParsedStateMachine, p: Position) -> Seq<String> {
    let m = sm.states_events_mapping@;
    let in_l = lifetimes_of(sm.state_data.lifetimes@, event_at(m, p).mapping.in_state@);
    let out_l = lifetimes_of(sm.state_data.lifetimes@, transition_at(m, p).out_state@);
    let ev_l = lifetimes_of(sm.event_data.lifetimes@, event_at(m, p).event@);
    lifetimes_extend(lifetimes_extend(lifetimes_extend(Seq::empty(), in_l), out_l), ev_l)
}

/// Computes `transition_lifetimes`.
pub fn transition_lifetimes_of(sm: &ParsedStateMachine, p: Position) -> (r: Lifetimes)
    requires
        valid_position(sm.states_events_mapping@, p),
    ensures
        r.names@ == transition_lifetimes(*sm, p),
{
    let em = &sm.states_events_mapping[p.0].events[p.1].mapping;
    let t = &em.transitions[p.2];
    let in_l = find_lifetimes(&sm.state_data.lifetimes, &em.in_state);
    let out_l = find_lifetimes(&sm.state_data.lifetimes, &t.out_state);
    let ev_l = find_lifetimes(
        &sm.event_data.lifetimes,
        &sm.states_events_mapping[p.0].events[p.1].event,
    );
    let mut all = Lifetimes::new();
    all.extend(&in_l);
    all.extend(&out_l);
    all.extend(&ev_l);
    all
}

/// How a declared function takes the data of a state or an event.
pub enum ParamDecl {
    /// It takes none.
    Absent,
    /// It takes the type as written (a reference type, or data by value).
    Plain(String),
    /// It takes a shared reference to the type.
    Shared(String),
    /// It takes an exclusive reference to the type.
    Exclusive(String),
}

/// A guard takes a reference type as written, other data by shared reference.
pub open spec fn guard_param(d: Option<DataType>) -> ParamDecl {
    match d {
        Some(t) => if t.is_reference {
            ParamDecl::Plain(t.text)
        } else {
            ParamDecl::Shared(t.text)
        },
        None => ParamDecl::Absent,
    }
}

/// An action takes state data of a reference type as written, other state
/// data by exclusive reference.
pub open spec fn action_state_param(d: Option<DataType>) -> ParamDecl {
    match d {
        Some(t) => if t.is_reference {
            ParamDecl::Plain(t.text)
        } else {
            ParamDecl::Exclusive(t.text)
        },
        None => ParamDecl::Absent,
    }
}

/// An action takes event data by value.
pub open spec fn action_event_param(d: Option<DataType>) -> ParamDecl {
    match d {
        Some(t) => ParamDecl::Plain(t.text),
        None => ParamDecl::Absent,
    }
}

/// Computes `guard_param`.
pub fn guard_param_of(d: Option<&DataType>) -> (r: ParamDecl)
    ensures
        r == guard_param(match d { Some(t) => Some(*t), None => None }),
        d matches Some(t) ==> r == (if t.is_reference {
            ParamDecl::Plain(t.text)
        } else {
            ParamDecl::Shared(t.text)
        }),
        d is None ==> r == ParamDecl::Absent,
{
    match d {
        Some(t) => if t.is_reference {
            ParamDecl::Plain(t.text.clone())
        } else {
            ParamDecl::Shared(t.text.clone())
        },
        None => ParamDecl::Absent,
    }
}

/// Computes `action_state_param`.
pub fn action_state_param_of(d: Option<&DataType>) -> (r: ParamDecl)
    ensures
        r == action_state_param(match d { Some(t) => Some(*t), None => None }),
{
    match d {
        Some(t) => if t.is_reference {
            ParamDecl::Plain(t.text.clone())
        } else {
            ParamDecl::Exclusive(t.text.clone())
        },
        None => ParamDecl::Absent,
    }
}

/// Computes `action_event_param`.
pub fn action_event_param_of(d: Option<&DataType>) -> (r: ParamDecl)
    ensures
        r == action_event_param(match d { Some(t) => Some(*t), None => None }),
{
    match d {
        Some(t) => ParamDecl::Plain(t.text.clone()),
        None => ParamDecl::Absent,
    }
}

/// A candidate declaration: where a guard or an action occurs, and which.
pub type Candidate = (Position, AsyncIdent);

/// The guards of the transition at `p`, each with `p`.
pub open spec fn guard_candidates_at(m: Seq<StateEntry>, p: Position) -> Seq<Candidate> {
    match transition_at(m, p).guard {
        Some(g) => guard_leaves(g).map_values(|l: AsyncIdent| (p, l)),
        None => Seq::empty(),
    }
}

/// The action of the transition at `p`, if it has one, with `p`.
pub open spec fn action_candidates_at(m: Seq<StateEntry>, p: Position) -> Seq<Candidate> {
    match transition_at(m, p).action {
        Some(a) => seq![(p, a)],
        None => Seq::empty(),
    }
}

/// The guards of the transitions at `ps`, in order.
pub open spec fn guard_candidates(m: Seq<StateEntry>, ps: Seq<Position>) -> Seq<Candidate>
    decreases ps.len(),
{
    if ps.len() == 0 {
        Seq::empty()
    } else {
        guard_candidates(m, ps.drop_last()) + guard_candidates_at(m, ps.last())
    }
}

/// The actions of the transitions at `ps`, in order.
pub open spec fn action_candidates(m: Seq<StateEntry>, ps: Seq<Position>) -> Seq<Candidate>
    decreases ps.len(),
{
    if ps.len() == 0 {
        Seq::empty()
    } else {
        action_candidates(m, ps.drop_last()) + action_candidates_at(m, ps.last())
    }
}

/// Whether some candidate of `c` names `x`.
pub open spec fn names_ident(c: Seq<Candidate>, x: Seq<char>) -> bool {
    exists|i: int| 0 <= i < c.len() && (#[trigger] c[i]).1.ident@ == x
}

/// The first candidate of each name, in the order of first occurrence.
pub open spec fn first_of_each(c: Seq<Candidate>) -> Seq<Candidate>
    decreases c.len(),
{
    if c.len() == 0 {
        Seq::empty()
    } else {
        let d = first_of_each(c.drop_last());
        if names_ident(d, c.last().1.ident@) {
            d
        } else {
            d.push(c.last())
        }
    }
}

/// The declaration of a guard of the context trait.
pub struct GuardDecl {
    pub ident: String,
    pub is_async: bool,
    pub lifetimes: Vec<String>,
    pub state_param: ParamDecl,
    pub event_param: ParamDecl,
}

/// The declaration of an action of the context trait.
pub struct ActionDecl {
    pub ident: String,
    pub is_async: bool,
    pub lifetimes: Vec<String>,
    pub state_param: ParamDecl,
    pub event_param: ParamDecl,
    /// The data of the state the action leads to, where it returns it.
    pub result_data: Option<String>,
}

/// Whether `d` declares the guard of candidate `c`: by its name, whether it
/// is awaited, the lifetimes of its transition, and the data of the state and
/// the event it is checked on.
pub open spec fn guard_decl_of(sm: ParsedStateMachine, d: GuardDecl, c: Candidate) -> bool {
    let m = sm.states_events_mapping@;
    &&& d.ident == c.1.ident
    &&& d.is_async == c.1.is_async
    &&& d.lifetimes@ == transition_lifetimes(sm, c.0)
    &&& d.state_param == guard_param(data_of(sm.state_data.data_types@, state_at(m, c.0).state@))
    &&& d.event_param == guard_param(data_of(sm.event_data.data_types@, event_at(m, c.0).event@))
}

/// What an action returns: the data of the state it leads to, unless it has
/// none, the transition is internal, or it leads back to its own state.
pub open spec fn action_returns(sm: ParsedStateMachine, p: Position) -> Option<String> {
    let m = sm.states_events_mapping@;
    let t = transition_at(m, p);
    match data_of(sm.state_data.data_types@, t.out_state@) {
        Some(out) => if t.internal_transition || event_at(m, p).mapping.in_state@ == t.out_state@ {
            None
        } else {
            Some(out.text)
        },
        None => None,
    }
}

/// Whether `d` declares the action of candidate `c`.
pub open spec fn action_decl_of(sm: ParsedStateMachine, d: ActionDecl, c: Candidate) -> bool {
    let m = sm.states_events_mapping@;
    &&& d.ident == c.1.ident
    &&& d.is_async == c.1.is_async
    &&& d.lifetimes@ == transition_lifetimes(sm, c.0)
    &&& d.state_param == action_state_param(
        data_of(sm.state_data.data_types@, state_at(m, c.0).state@),
    )
    &&& d.event_param == action_event_param(
        data_of(sm.event_data.data_types@, event_at(m, c.0).event@),
    )
    &&& d.result_data == action_returns(sm, c.0)
}

/// The guards that the context trait declares: each guard of the machine
/// once, where it first occurs.
pub open spec fn declared_guards(sm: ParsedStateMachine) -> Seq<Candidate> {
    first_of_each(
        guard_candidates(sm.states_events_mapping@, positions(sm.states_events_mapping@)),
    )
}

/// The actions that the context trait declares: each action of the machine
/// once, where it first occurs.
pub open spec fn declared_actions(sm: ParsedStateMachine) -> Seq<Candidate> {
    first_of_each(
        action_candidates(sm.states_events_mapping@, positions(sm.states_events_mapping@)),
    )
}

/// Extends `first_of_each` by one candidate.
proof fn lemma_first_of_each_push(c: Seq<Candidate>, x: Candidate)
    ensures
        first_of_each(c.push(x)) == if names_ident(first_of_each(c), x.1.ident@) {
            first_of_each(c)
        } else {
            first_of_each(c).push(x)
        },
{
    assert(c.push(x).drop_last() =~= c);
}

/// Declares each guard of the machine once, at its first occurrence.
pub fn guard_declarations(sm: &ParsedStateMachine, ps: &Vec<Position>) -> (r: Vec<GuardDecl>)
    requires
        ps@ == positions(sm.states_events_mapping@),
        forall|n: int| 0 <= n < ps@.len() ==> valid_position(sm.states_events_mapping@, #[trigger] ps@[n]),
    ensures
        r@.len() == declared_guards(*sm).len(),
        forall|n: int| 0 <= n < r@.len() ==> guard_decl_of(*sm, #[trigger] r@[n], declared_guards(*sm)[n]),
{
    let ghost m = sm.states_events_mapping@;
    let mut r: Vec<GuardDecl> = Vec::new();
    let mut names: Vec<String> = Vec::new();
    let ghost mut cands: Seq<Candidate> = Seq::empty();
    for n in 0..ps.len()
        invariant
            m == sm.states_events_mapping@,
            forall|q: int| 0 <= q < ps@.len() ==> valid_position(m, #[trigger] ps@[q]),
            cands == guard_candidates(m, ps@.take(n as int)),
            r@.len() == first_of_each(cands).len(),
            names@.len() == r@.len(),
            forall|q: int| 0 <= q < r@.len() ==> (#[trigger] names@[q]) == first_of_each(cands)[q].1.ident,
            forall|q: int| 0 <= q < r@.len() ==> guard_decl_of(*sm, #[trigger] r@[q], first_of_each(cands)[q]),
    {
        let p = ps[n];
        assert(valid_position(m, ps@[n as int]));
        let entry = &sm.states_events_mapping[p.0];
        let ev = &entry.events[p.1];
        let t = &ev.mapping.transitions[p.2];
        let ghost before = cands;
        match &t.guard {
            Some(g) => {
                let mut leaves: Vec<AsyncIdent> = Vec::new();
                visit_guards(g, &mut leaves);
                assert(leaves@ =~= guard_leaves(*g));
                for q in 0..leaves.len()
                    invariant
                        m == sm.states_events_mapping@,
                        valid_position(m, p),
                        p == ps@[n as int],
                        entry == &m[p.0 as int],
                        ev == &entry.events@[p.1 as int],
                        leaves@ == guard_leaves(*g),
                        transition_at(m, p).guard == Some(*g),
                        cands == before + guard_candidates_at(m, p).take(q as int),
                        r@.len() == first_of_each(cands).len(),
                        names@.len() == r@.len(),
                        forall|q: int| 0 <= q < r@.len() ==> (#[trigger] names@[q]) == first_of_each(cands)[q].1.ident,
                        forall|q: int| 0 <= q < r@.len() ==> guard_decl_of(*sm, #[trigger] r@[q], first_of_each(cands)[q]),
                {
                    let leaf = &leaves[q];
                    let ghost x: Candidate = (p, *leaf);
                    proof {
                        lemma_first_of_each_push(cands, x);
                        assert(guard_candidates_at(m, p).take(q + 1) =~= guard_candidates_at(m, p).take(q as int).push(x));
                        if names_ident(first_of_each(cands), leaf.ident@) {
                            let w = choose|w: int| 0 <= w < first_of_each(cands).len() && (#[trigger] first_of_each(cands)[w]).1.ident@ == leaf.ident@;
                            assert(names@[w]@ == leaf.ident@);
                        }
                        if has_name(names@, leaf.ident@) {
                            let w = choose|w: int| 0 <= w < names@.len() && (#[trigger] names@[w])@ == leaf.ident@;
                            assert(first_of_each(cands)[w].1.ident@ == leaf.ident@);
                        }
                    }
                    if !contains_name(&names, &leaf.ident) {
                        let lifetimes = transition_lifetimes_of(sm, p);
                        let state_param = guard_param_of(find_data(&sm.state_data.data_types, &entry.state));
                        let event_param = guard_param_of(find_data(&sm.event_data.data_types, &ev.event));
                        names.push(leaf.ident.clone());
                        r.push(GuardDecl {
                            ident: leaf.ident.clone(),
                            is_async: leaf.is_async,
                            lifetimes: lifetimes.names,
                            state_param,
                            event_param,
                        });
                    }
                    proof {
                        cands = cands.push(x);
                    }
                }
                assert(guard_candidates_at(m, p).take(leaves@.len() as int) =~= guard_candidates_at(m, p));
            },
            None => {
                assert(guard_candidates_at(m, p) =~= Seq::<Candidate>::empty());
                assert(cands =~= before + guard_candidates_at(m, p));
            },
        }
        assert(ps@.take(n + 1).drop_last() =~= ps@.take(n as int));
        assert(cands == guard_candidates(m, ps@.take(n + 1)));
    }
    assert(ps@.take(ps@.len() as int) =~= ps@);
    r
}

/// Declares each action of the machine once, at its first occurrence.
pub fn action_declarations(sm: &ParsedStateMachine, ps: &Vec<Position>) -> (r: Vec<ActionDecl>)
    requires
        ps@ == positions(sm.states_events_mapping@),
        forall|n: int| 0 <= n < ps@.len() ==> valid_position(sm.states_events_mapping@, #[trigger] ps@[n]),
    ensures
        r@.len() == declared_actions(*sm).len(),
        forall|n: int| 0 <= n < r@.len() ==> action_decl_of(*sm, #[trigger] r@[n], declared_actions(*sm)[n]),
{
    let ghost m = sm.states_events_mapping@;
    let mut r: Vec<ActionDecl> = Vec::new();
    let mut names: Vec<String> = Vec::new();
    let ghost mut cands: Seq<Candidate> = Seq::empty();
    for n in 0..ps.len()
        invariant
            m == sm.states_events_mapping@,
            forall|q: int| 0 <= q < ps@.len() ==> valid_position(m, #[trigger] ps@[q]),
            cands == action_candidates(m, ps@.take(n as int)),
            r@.len() == first_of_each(cands).len(),
            names@.len() == r@.len(),
            forall|q: int| 0 <= q < r@.len() ==> (#[trigger] names@[q]) == first_of_each(cands)[q].1.ident,
            forall|q: int| 0 <= q < r@.len() ==> action_decl_of(*sm, #[trigger] r@[q], first_of_each(cands)[q]),
    {
        let p = ps[n];
        assert(valid_position(m, ps@[n as int]));
        let entry = &sm.states_events_mapping[p.0];
        let ev = &entry.events[p.1];
        let t = &ev.mapping.transitions[p.2];
        let ghost before = cands;
        match &t.action {
            Some(a) => {
                let ghost x: Candidate = (p, *a);
                proof {
                    lemma_first_of_each_push(cands, x);
                    if names_ident(first_of_each(cands), a.ident@) {
                        let w = choose|w: int| 0 <= w < first_of_each(cands).len() && (#[trigger] first_of_each(cands)[w]).1.ident@ == a.ident@;
                        assert(names@[w]@ == a.ident@);
                    }
                    if has_name(names@, a.ident@) {
                        let w = choose|w: int| 0 <= w < names@.len() && (#[trigger] names@[w])@ == a.ident@;
                        assert(first_of_each(cands)[w].1.ident@ == a.ident@);
                    }
                }
                if !contains_name(&names, &a.ident) {
                    let lifetimes = transition_lifetimes_of(sm, p);
                    let state_param = action_state_param_of(find_data(&sm.state_data.data_types, &entry.state));
                    let event_param = action_event_param_of(find_data(&sm.event_data.data_types, &ev.event));
                    let result_data = match find_data(&sm.state_data.data_types, &t.out_state) {
                        Some(out) => if t.internal_transition || ev.mapping.in_state == t.out_state {
                            None
                        } else {
                            Some(out.text.clone())
                        },
                        None => None,
                    };
                    names.push(a.ident.clone());
                    r.push(ActionDecl {
                        ident: a.ident.clone(),
                        is_async: a.is_async,
                        lifetimes: lifetimes.names,
                        state_param,
                        event_param,
                        result_data,
                    });
                }
                proof {
                    cands = cands.push(x);
                }
                assert(cands =~= before + action_candidates_at(m, p));
            },
            None => {
                assert(cands =~= before + action_candidates_at(m, p));
            },
        }
        assert(ps@.take(n + 1).drop_last() =~= ps@.take(n as int));
        assert(cands == action_candidates(m, ps@.take(n + 1)));
    }
    assert(ps@.take(ps@.len() as int) =~= ps@);
    r
}

// ---------------------------------------------------------------------------
// Whether `process_event` is async
// ---------------------------------------------------------------------------

/// Whether some candidate of `c` is awaited.
pub open spec fn some_awaited(c: Seq<Candidate>) -> bool {
    exists|i: int| 0 <= i < c.len() && (#[trigger] c[i]).1.is_async
}

/// Whether `process_event` is async: where the entry and exit hooks are, or
/// some guard or some action of a transition is.
pub open spec fn machine_is_async(sm: ParsedStateMachine) -> bool {
    let m = sm.states_events_mapping@;
    ||| sm.entry_exit_async
    ||| some_awaited(guard_candidates(m, positions(m)))
    ||| some_awaited(action_candidates(m, positions(m)))
}

/// Whether a guard expression has a guard that is awaited.
pub open spec fn guard_awaits(g: GuardExpression) -> bool {
    exists|q: int| 0 <= q < guard_leaves(g).len() && (#[trigger] guard_leaves(g)[q]).is_async
}

/// Whether the transition at `p` awaits something: its action, or a guard of
/// its guard expression.
pub open spec fn transition_awaits(m: Seq<StateEntry>, p: Position) -> bool {
    let t = transition_at(m, p);
    ||| t.action matches Some(a) && a.is_async
    ||| t.guard matches Some(g) && guard_awaits(g)
}

/// Whether some transition at a position that `pick` admits awaits
/// something.
pub open spec fn some_transition_awaits(m: Seq<StateEntry>, pick: spec_fn(Position) -> bool) -> bool {
    exists|p: Position| valid_position(m, p) && pick(p) && #[trigger] transition_awaits(m, p)
}

/// Decides `guard_awaits`.
pub fn awaits_guard(g: &GuardExpression) -> (r: bool)
    ensures
        r == guard_awaits(*g),
{
    let mut leaves: Vec<AsyncIdent> = Vec::new();
    visit_guards(g, &mut leaves);
    assert(leaves@ =~= guard_leaves(*g));
    for q in 0..leaves.len()
        invariant
            leaves@ == guard_leaves(*g),
            forall|w: int| 0 <= w < q ==> !(#[trigger] guard_leaves(*g)[w]).is_async,
    {
        if leaves[q].is_async {
            return true;
        }
    }
    false
}

// ---------------------------------------------------------------------------
// The dispatch of `process_event`
// ---------------------------------------------------------------------------

/// How a call passes the data of the current state or of the event.
#[derive(Clone, Copy, PartialEq, Eq, Structural)]
pub enum ArgForm {
    /// It passes none.
    Absent,
    /// It passes the binding itself.
    Plain,
    /// It passes a reference to the binding.
    Borrowed,
}

/// The data a call passes: the current state's, then the event's.
#[derive(Clone, Copy, PartialEq, Eq, Structural)]
pub struct Args {
    pub state: ArgForm,
    pub event: ArgForm,
}

impl Args {
    /// Whether the call passes both the state's data and the event's, which
    /// a comma then separates.
    pub fn both(&self) -> (r: bool)
        ensures
            r == (self.state != ArgForm::Absent && self.event != ArgForm::Absent),
    {
        self.state != ArgForm::Absent && self.event != ArgForm::Absent
    }
}

/// A guard gets data of a reference type as bound, other data by reference.
pub open spec fn guard_arg(d: Option<DataType>) -> ArgForm {
    match d {
        Some(t) => if t.is_reference {
            ArgForm::Plain
        } else {
            ArgForm::Borrowed
        },
        None => ArgForm::Absent,
    }
}

/// An action gets data as bound.
pub open spec fn action_arg(d: Option<DataType>) -> ArgForm {
    match d {
        Some(_) => ArgForm::Plain,
        None => ArgForm::Absent,
    }
}

/// A call of an action from `process_event`.
pub struct ActionCall {
    pub ident: String,
    pub awaits: bool,
    pub args: Args,
}

impl ActionCall {
    /// A copy of this call.
    pub fn copy(&self) -> (r: ActionCall)
        ensures
            r == *self,
    {
        ActionCall { ident: self.ident.clone(), awaits: self.awaits, args: self.args }
    }
}

/// The call of an optional action with the given arguments.
pub open spec fn action_call(a: Option<AsyncIdent>, args: Args) -> Option<ActionCall> {
    match a {
        Some(a) => Some(ActionCall { ident: a.ident, awaits: a.is_async, args }),
        None => None,
    }
}

/// Plans the call of a transition's action: whether it is awaited, and the
/// call, where the transition has an action.
pub fn generate_action(action: &Option<AsyncIdent>, args: Args) -> (r: (bool, Option<ActionCall>))
    ensures
        r.0 == (action matches Some(a) && a.is_async),
        r.1 == action_call(*action, args),
{
    match action {
        Some(a) => (a.is_async, Some(ActionCall { ident: a.ident.clone(), awaits: a.is_async, args })),
        None => (false, None),
    }
}

/// The evaluation of a guard expression from `process_event`.
pub struct GuardCall {
    pub expr: GuardExpression,
    pub args: Args,
}

/// A step that `process_event` takes once a transition's guard has passed.
pub enum Step {
    /// Call the exit hook of the current state.
    ExitHook(String),
    /// Call the action, keeping what it returns as the output state's data.
    Action(ActionCall),
    /// Tell the context of the move, old state and new.
    Callback,
    /// Make the output state the current one.
    ChangeState,
    /// Call the entry hook of the output state.
    EntryHook(String),
    /// Return the current state.
    Return,
}

/// The code of one transition in `process_event`: check the guard, if any;
/// where it passes, take the steps.
pub struct TransitionBlock {
    pub guard: Option<GuardCall>,
    pub action: Option<ActionCall>,
    pub out_state: String,
    pub out_binds_data: bool,
    pub same_state: bool,
    pub exit_hook: String,
    pub entry_hook: String,
    pub steps: Vec<Step>,
}

/// The step of an optional action.
pub open spec fn action_steps(a: Option<ActionCall>) -> Seq<Step> {
    match a {
        Some(c) => seq![Step::Action(c)],
        None => Seq::empty(),
    }
}

/// The steps of a transition whose guard passed. A transition that stays in
/// its state calls its action, if any, and returns: no hook is called and
/// the state does not change. Any other first calls the exit hook of the
/// state it leaves, then the action, then tells the context of the move,
/// changes the state, calls the entry hook of the state it enters, and
/// returns.
pub open spec fn planned_steps(b: TransitionBlock) -> Seq<Step> {
    if b.same_state {
        action_steps(b.action).push(Step::Return)
    } else {
        seq![Step::ExitHook(b.exit_hook)] + action_steps(b.action) + seq![
            Step::Callback,
            Step::ChangeState,
            Step::EntryHook(b.entry_hook),
            Step::Return,
        ]
    }
}

/// The arm of `process_event` for one event in one state: its transitions
/// are tried in the order written; the first whose guard passes is taken.
pub struct EventArm {
    pub event: String,
    pub binds_data: bool,
    pub blocks: Vec<TransitionBlock>,
}

/// The arm of `process_event` for one state.
pub struct StateArm {
    pub state: String,
    pub binds_data: bool,
    pub events: Vec<EventArm>,
}

/// Whether `b` is the code of the transition at `p`.
pub open spec fn block_of(sm: ParsedStateMachine, b: TransitionBlock, p: Position) -> bool {
    let m = sm.states_events_mapping@;
    let key = state_at(m, p).state;
    let ev = event_at(m, p);
    let t = transition_at(m, p);
    let sd = data_of(sm.state_data.data_types@, key@);
    let ed = data_of(sm.event_data.data_types@, ev.event@);
    &&& b.guard == match t.guard {
        Some(g) => Some(GuardCall { expr: g, args: Args { state: guard_arg(sd), event: guard_arg(ed) } }),
        None => None,
    }
    &&& b.action == action_call(t.action, Args { state: action_arg(sd), event: action_arg(ed) })
    &&& b.out_state == t.out_state
    &&& b.out_binds_data == data_of(sm.state_data.data_types@, t.out_state@) is Some
    &&& b.same_state == (key@ == t.out_state@)
    &&& b.exit_hook@ == exit_hook_name(key@)
    &&& b.entry_hook@ == entry_hook_name(t.out_state@)
    &&& b.steps@ == planned_steps(b)
}

/// Whether `a` is the arm of event entry `j` of state entry `i`.
pub open spec fn event_arm_of(sm: ParsedStateMachine, a: EventArm, i: int, j: int) -> bool {
    let ev = sm.states_events_mapping@[i].events@[j];
    &&& a.event == ev.mapping.event
    &&& a.binds_data == data_of(sm.event_data.data_types@, ev.event@) is Some
    &&& a.blocks@.len() == ev.mapping.transitions@.len()
    &&& forall|k: int| 0 <= k < a.blocks@.len()
        ==> block_of(sm, #[trigger] a.blocks@[k], (i as usize, j as usize, k as usize))
}

/// Whether `a` is the arm of state entry `i`.
pub open spec fn state_arm_of(sm: ParsedStateMachine, a: StateArm, i: int) -> bool {
    let e = sm.states_events_mapping@[i];
    &&& a.state == e.state
    &&& a.binds_data == data_of(sm.state_data.data_types@, e.state@) is Some
    &&& a.events@.len() == e.events@.len()
    &&& forall|j: int| 0 <= j < a.events@.len() ==> event_arm_of(sm, #[trigger] a.events@[j], i, j)
}

/// Computes `guard_arg`.
fn guard_arg_of(d: Option<&DataType>) -> (r: ArgForm)
    ensures
        r == guard_arg(match d { Some(t) => Some(*t), None => None }),
{
    match d {
        Some(t) => if t.is_reference {
            ArgForm::Plain
        } else {
            ArgForm::Borrowed
        },
        None => ArgForm::Absent,
    }
}

/// Computes `action_arg`.
fn action_arg_of(d: Option<&DataType>) -> (r: ArgForm)
    ensures
        r == action_arg(match d { Some(t) => Some(*t), None => None }),
{
    match d {
        Some(_) => ArgForm::Plain,
        None => ArgForm::Absent,
    }
}

/// Plans the code of the transition at `p`, and tells whether it awaits
/// something.
pub fn transition_block(sm: &ParsedStateMachine, p: Position) -> (r: (bool, TransitionBlock))
    requires
        valid_position(sm.states_events_mapping@, p),
        ascii_state_names(*sm),
    ensures
        r.0 == transition_awaits(sm.states_events_mapping@, p),
        block_of(*sm, r.1, p),
        sm.states_events_mapping@[p.0 as int].state@
            != sm.states_events_mapping@[p.0 as int].events@[p.1 as int].mapping.transitions@[p.2 as int].out_state@
            ==> {
            let s = r.1.steps@;
            let n = s.len();
            &&& n >= 5
            &&& s[n - 4] == Step::Callback
            &&& s[n - 3] == Step::ChangeState
            &&& s[n - 2] == Step::EntryHook(r.1.entry_hook)
            &&& s[n - 1] == Step::Return
        },
{
    let entry = &sm.states_events_mapping[p.0];
    let ev = &entry.events[p.1];
    let t = &ev.mapping.transitions[p.2];
    assert(vstd::utf8::is_ascii_chars(entry.state@));
    assert(vstd::utf8::is_ascii_chars(t.out_state@));
    let sd = find_data(&sm.state_data.data_types, &entry.state);
    let ed = find_data(&sm.event_data.data_types, &ev.event);
    let (guard_async, guard) = match &t.guard {
        Some(g) => (
            awaits_guard(g),
            Some(GuardCall { expr: g.copy(), args: Args { state: guard_arg_of(sd), event: guard_arg_of(ed) } }),
        ),
        None => (false, None),
    };
    let (action_async, action) = generate_action(&t.action, Args { state: action_arg_of(sd), event: action_arg_of(ed) });
    let out_binds_data = find_data(&sm.state_data.data_types, &t.out_state).is_some();
    let same_state = entry.state == t.out_state;
    let exit = exit_hook(&entry.state);
    let entry_name = entry_hook(&t.out_state);
    let mut steps: Vec<Step> = Vec::new();
    if !same_state {
        steps.push(Step::ExitHook(exit.clone()));
    }
    match &action {
        Some(c) => steps.push(Step::Action(c.copy())),
        None => {},
    }
    if !same_state {
        steps.push(Step::Callback);
        steps.push(Step::ChangeState);
        steps.push(Step::EntryHook(entry_name.clone()));
    }
    steps.push(Step::Return);
    let b = TransitionBlock {
        guard,
        action,
        out_state: t.out_state.clone(),
        out_binds_data,
        same_state,
        exit_hook: exit,
        entry_hook: entry_name,
        steps,
    };
    assert(b.steps@ =~= planned_steps(b));
    proof {
        crate::codegen_laws::law_leaving_transition_changes_state(*sm, b, p);
    }
    (guard_async || action_async, b)
}

/// Plans the arm of event entry `j` of state entry `i`, and tells whether
/// one of its transitions awaits something.
pub fn event_arm(sm: &ParsedStateMachine, i: usize, j: usize) -> (r: (bool, EventArm))
    requires
        i < sm.states_events_mapping@.len(),
        j < sm.states_events_mapping@[i as int].events@.len(),
        ascii_state_names(*sm),
    ensures
        r.0 == some_transition_awaits(sm.states_events_mapping@, |p: Position| p.0 == i && p.1 == j),
        event_arm_of(*sm, r.1, i as int, j as int),
        r.1.binds_data == (data_of(
            sm.event_data.data_types@,
            sm.states_events_mapping@[i as int].events@[j as int].event@,
        ) is Some),
{
    let ghost m = sm.states_events_mapping@;
    let ev = &sm.states_events_mapping[i].events[j];
    let mut blocks: Vec<TransitionBlock> = Vec::new();
    let mut any = false;
    for k in 0..ev.mapping.transitions.len()
        invariant
            m == sm.states_events_mapping@,
            i < m.len(),
            j < m[i as int].events@.len(),
            ev == &m[i as int].events@[j as int],
            ascii_state_names(*sm),
            blocks@.len() == k,
            forall|q: int| 0 <= q < blocks@.len()
                ==> block_of(*sm, #[trigger] blocks@[q], (i, j, q as usize)),
            any == some_transition_awaits(m, |p: Position| p.0 == i && p.1 == j && p.2 < k),
    {
        let (awaits, block) = transition_block(sm, (i, j, k));
        blocks.push(block);
        proof {
            let before = |p: Position| p.0 == i && p.1 == j && p.2 < k;
            let after = |p: Position| p.0 == i && p.1 == j && p.2 < k + 1;
            if some_transition_awaits(m, after) {
                let w = choose|w: Position| valid_position(m, w) && after(w) && #[trigger] transition_awaits(m, w);
                if w.2 < k {
                    assert(before(w));
                }
            }
            if awaits {
                assert(after((i, j, k)));
            }
            if any {
                let w = choose|w: Position| valid_position(m, w) && before(w) && #[trigger] transition_awaits(m, w);
                assert(after(w));
            }
        }
        any = any || awaits;
    }
    proof {
        let all = |p: Position| p.0 == i && p.1 == j;
        let upto = |p: Position| p.0 == i && p.1 == j && p.2 < ev.mapping.transitions@.len();
        if some_transition_awaits(m, all) {
            let w = choose|w: Position| valid_position(m, w) && all(w) && #[trigger] transition_awaits(m, w);
            assert(upto(w));
        }
        if some_transition_awaits(m, upto) {
            let w = choose|w: Position| valid_position(m, w) && upto(w) && #[trigger] transition_awaits(m, w);
            assert(all(w));
        }
    }
    (
        any,
        EventArm {
            event: ev.mapping.event.clone(),
            binds_data: find_data(&sm.event_data.data_types, &ev.event).is_some(),
            blocks,
        },
    )
}

/// Plans the arm of state entry `i`, and tells whether one of its
/// transitions awaits something.
pub fn state_arm(sm: &ParsedStateMachine, i: usize) -> (r: (bool, StateArm))
    requires
        i < sm.states_events_mapping@.len(),
        ascii_state_names(*sm),
    ensures
        r.0 == some_transition_awaits(sm.states_events_mapping@, |p: Position| p.0 == i),
        state_arm_of(*sm, r.1, i as int),
{
    let ghost m = sm.states_events_mapping@;
    let entry = &sm.states_events_mapping[i];
    let mut events: Vec<EventArm> = Vec::new();
    let mut any = false;
    for j in 0..entry.events.len()
        invariant
            m == sm.states_events_mapping@,
            i < m.len(),
            entry == &m[i as int],
            ascii_state_names(*sm),
            events@.len() == j,
            forall|q: int| 0 <= q < events@.len() ==> event_arm_of(*sm, #[trigger] events@[q], i as int, q),
            any == some_transition_awaits(m, |p: Position| p.0 == i && p.1 < j),
    {
        let (awaits, arm) = event_arm(sm, i, j);
        events.push(arm);
        proof {
            let before = |p: Position| p.0 == i && p.1 < j;
            let here = |p: Position| p.0 == i && p.1 == j;
            let after = |p: Position| p.0 == i && p.1 < j + 1;
            if some_transition_awaits(m, after) {
                let w = choose|w: Position| valid_position(m, w) && after(w) && #[trigger] transition_awaits(m, w);
                if w.1 < j {
                    assert(before(w));
                } else {
                    assert(here(w));
                }
            }
            if awaits {
                let w = choose|w: Position| valid_position(m, w) && here(w) && #[trigger] transition_awaits(m, w);
                assert(after(w));
            }
            if any {
                let w = choose|w: Position| valid_position(m, w) && before(w) && #[trigger] transition_awaits(m, w);
                assert(after(w));
            }
        }
        any = any || awaits;
    }
    proof {
        let all = |p: Position| p.0 == i;
        let upto = |p: Position| p.0 == i && p.1 < entry.events@.len();
        if some_transition_awaits(m, all) {
            let w = choose|w: Position| valid_position(m, w) && all(w) && #[trigger] transition_awaits(m, w);
            assert(upto(w));
        }
        if some_transition_awaits(m, upto) {
            let w = choose|w: Position| valid_position(m, w) && upto(w) && #[trigger] transition_awaits(m, w);
            assert(all(w));
        }
    }
    (
        any,
        StateArm {
            state: entry.state.clone(),
            binds_data: find_data(&sm.state_data.data_types, &entry.state).is_some(),
            events,
        },
    )
}

/// Plans the arms of `process_event`, one per state entry, in order, and
/// tells whether some transition awaits something.
pub fn dispatch_arms(sm: &ParsedStateMachine) -> (r: (bool, Vec<StateArm>))
    requires
        ascii_state_names(*sm),
    ensures
        r.0 == some_transition_awaits(sm.states_events_mapping@, |p: Position| true),
        r.1@.len() == sm.states_events_mapping@.len(),
        forall|i: int| 0 <= i < r.1@.len() ==> state_arm_of(*sm, #[trigger] r.1@[i], i),
{
    let ghost m = sm.states_events_mapping@;
    let mut arms: Vec<StateArm> = Vec::new();
    let mut any = false;
    for i in 0..sm.states_events_mapping.len()
        invariant
            m == sm.states_events_mapping@,
            ascii_state_names(*sm),
            arms@.len() == i,
            forall|q: int| 0 <= q < arms@.len() ==> state_arm_of(*sm, #[trigger] arms@[q], q),
            any == some_transition_awaits(m, |p: Position| p.0 < i),
    {
        let (awaits, arm) = state_arm(sm, i);
        arms.push(arm);
        proof {
            let before = |p: Position| p.0 < i;
            let here = |p: Position| p.0 == i;
            let after = |p: Position| p.0 < i + 1;
            if some_transition_awaits(m, after) {
                let w = choose|w: Position| valid_position(m, w) && after(w) && #[trigger] transition_awaits(m, w);
                if w.0 < i {
                    assert(before(w));
                } else {
                    assert(here(w));
                }
            }
            if awaits {
                let w = choose|w: Position| valid_position(m, w) && here(w) && #[trigger] transition_awaits(m, w);
                assert(after(w));
            }
            if any {
                let w = choose|w: Position| valid_position(m, w) && before(w) && #[trigger] transition_awaits(m, w);
                assert(after(w));
            }
        }
        any = any || awaits;
    }
    proof {
        let all = |p: Position| true;
        let upto = |p: Position| p.0 < m.len();
        if some_transition_awaits(m, all) {
            let w = choose|w: Position| valid_position(m, w) && all(w) && #[trigger] transition_awaits(m, w);
            assert(upto(w));
        }
        if some_transition_awaits(m, upto) {
            let w = choose|w: Position| valid_position(m, w) && upto(w) && #[trigger] transition_awaits(m, w);
            assert(all(w));
        }
    }
    (any, arms)
}

// ---------------------------------------------------------------------------
// The whole plan
// ---------------------------------------------------------------------------

/// The plan of the code generated for a state machine.
pub struct GeneratedCode {
    pub names: TypeNames,
    pub state_variants: Vec<Variant>,
    pub event_variants: Vec<Variant>,
    pub guards: Vec<GuardDecl>,
    pub actions: Vec<ActionDecl>,
    pub hooks: Vec<Hook>,
    pub entry_exit_async: bool,
    pub arms: Vec<StateArm>,
    pub starting_state: String,
    pub starting_data: Option<String>,
    pub state_lifetimes: Vec<String>,
    pub event_lifetimes: Vec<String>,
    /// The lifetimes of the events that the states do not have.
    pub event_only_lifetimes: Vec<String>,
    pub is_async: bool,
    pub states_attr: Vec<Attribute>,
    pub events_attr: Vec<Attribute>,
}

/// Whether each state that the dispatch names is a state of the machine.
pub open spec fn mapped_states_known(sm: ParsedStateMachine) -> bool {
    forall|i: int| 0 <= i < sm.states_events_mapping@.len()
        ==> has_name(sm.states@, (#[trigger] sm.states_events_mapping@[i]).state@)
}

/// Whether `g` is the plan of the code for `sm`.
pub open spec fn generated_for(sm: ParsedStateMachine, g: GeneratedCode) -> bool {
    let m = sm.states_events_mapping@;
    &&& g.names.states@ == name_prefix(sm) + "States"@
    &&& g.names.events@ == name_prefix(sm) + "Events"@
    &&& g.names.machine@ == name_prefix(sm) + "StateMachine"@
    &&& g.names.context@ == name_prefix(sm) + "StateMachineContext"@
    &&& g.names.span == name_span(sm)
    &&& variants_of(g.state_variants@, sm.states@, sm.state_data.data_types@)
    &&& variants_of(g.event_variants@, sm.events@, sm.event_data.data_types@)
    &&& g.guards@.len() == declared_guards(sm).len()
    &&& forall|n: int| 0 <= n < g.guards@.len() ==> guard_decl_of(sm, #[trigger] g.guards@[n], declared_guards(sm)[n])
    &&& g.actions@.len() == declared_actions(sm).len()
    &&& forall|n: int| 0 <= n < g.actions@.len() ==> action_decl_of(sm, #[trigger] g.actions@[n], declared_actions(sm)[n])
    &&& g.hooks@.len() == m.len()
    &&& forall|i: int| 0 <= i < g.hooks@.len() ==> {
        &&& (#[trigger] g.hooks@[i]).state == m[i].state
        &&& g.hooks@[i].entry@ == entry_hook_name(m[i].state@)
        &&& g.hooks@[i].exit@ == exit_hook_name(m[i].state@)
    }
    &&& g.entry_exit_async == sm.entry_exit_async
    &&& g.arms@.len() == m.len()
    &&& forall|i: int| 0 <= i < g.arms@.len() ==> state_arm_of(sm, #[trigger] g.arms@[i], i)
    &&& g.starting_state == sm.starting_state
    &&& g.starting_data == data_text(data_of(sm.state_data.data_types@, sm.starting_state@))
    &&& g.state_lifetimes@ == sm.state_data.all_lifetimes.names@
    &&& g.event_lifetimes@ == sm.event_data.all_lifetimes.names@
    &&& g.event_only_lifetimes@ == lifetimes_minus(
        sm.event_data.all_lifetimes.names@,
        sm.state_data.all_lifetimes.names@,
    )
    &&& g.is_async == machine_is_async(sm)
    &&& g.states_attr@ == sm.states_attr@
    &&& g.events_attr@ == sm.events_attr@
}

/// Plans the code of the state machine `sm`.
pub fn generate_code(sm: &ParsedStateMachine) -> (r: GeneratedCode)
    requires
        keys_distinct(*sm),
        mapped_states_known(*sm),
        ascii_state_names(*sm),
    ensures
        generated_for(*sm, r),
        names_distinct(variant_names(r.state_variants@)),
        names_distinct(variant_names(r.event_variants@)),
        r.starting_data == data_text(data_of(sm.state_data.data_types@, sm.starting_state@)),
        forall|k: int| 0 <= k < r.event_only_lifetimes@.len() ==> {
            &&& has_name(sm.event_data.all_lifetimes.names@, (#[trigger] r.event_only_lifetimes@[k])@)
            &&& !has_name(sm.state_data.all_lifetimes.names@, r.event_only_lifetimes@[k]@)
        },
        forall|k: int|
            0 <= k < sm.event_data.all_lifetimes.names@.len()
                && !has_name(sm.state_data.all_lifetimes.names@, (#[trigger] sm.event_data.all_lifetimes.names@[k])@)
                ==> has_name(r.event_only_lifetimes@, sm.event_data.all_lifetimes.names@[k]@),
{
    let names = type_names(sm);
    let state_variants = variants(&sm.states, &sm.state_data.data_types);
    let event_variants = variants(&sm.events, &sm.event_data.data_types);
    let ps = transition_positions(&sm.states_events_mapping);
    let guards = guard_declarations(sm, &ps);
    let actions = action_declarations(sm, &ps);
    let hooks = hooks(sm);
    let (awaits, arms) = dispatch_arms(sm);
    let is_async = sm.entry_exit_async || awaits;
    proof {
        crate::codegen_laws::law_async_exactly_when_awaiting(*sm);
        crate::codegen_laws::law_variants_distinct(state_variants@, sm.states@, sm.state_data.data_types@);
        crate::codegen_laws::law_variants_distinct(event_variants@, sm.events@, sm.event_data.data_types@);
    }
    let starting_data = match find_data(&sm.state_data.data_types, &sm.starting_state) {
        Some(d) => Some(d.text.clone()),
        None => None,
    };
    let event_only = sm.event_data.all_lifetimes.minus(&sm.state_data.all_lifetimes);
    let g = GeneratedCode {
        names,
        state_variants,
        event_variants,
        guards,
        actions,
        hooks,
        entry_exit_async: sm.entry_exit_async,
        arms,
        starting_state: sm.starting_state.clone(),
        starting_data,
        state_lifetimes: copy_strings(&sm.state_data.all_lifetimes.names),
        event_lifetimes: copy_strings(&sm.event_data.all_lifetimes.names),
        event_only_lifetimes: event_only.names,
        is_async,
        states_attr: copy_attributes(&sm.states_attr),
        events_attr: copy_attributes(&sm.events_attr),
    };
    proof {
        crate::codegen_laws::law_constructor_takes_starting_data(*sm, g);
        crate::codegen_laws::law_event_only_lifetimes(*sm, g);
    }
    g
}

} // verus!
