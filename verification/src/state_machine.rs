//! The definition of a state machine as written: its transitions, its name,
//! the attributes of its enums, and whether its hooks are async.

use vstd::prelude::*;
use crate::verdicts::{covers, extends, meta_of, no_verdicts, Verdicts, VerdictsView};
use crate::parsed::{Attribute, MachineName};
use crate::tokens::{
    group_at, is_group, is_punct, is_word, punct_at, reads, word_at, Delimiter, ParseError, Tok,
};
use crate::transition::{
    parse_ident, parse_ident_spec, parse_transitions, parse_transitions_spec, StateTransition,
    StateTransitions, StateTransitionsView,
};

verus! {

/// A state machine definition as written.
pub struct StateMachine {
    pub transitions: Vec<StateTransition>,
    pub name: Option<MachineName>,
    pub states_attr: Vec<Attribute>,
    pub events_attr: Vec<Attribute>,
    pub entry_exit_async: bool,
}

/// A state machine definition, its lists as sequences.
pub struct StateMachineView {
    pub transitions: Seq<StateTransition>,
    pub name: Option<MachineName>,
    pub states_attr: Seq<Attribute>,
    pub events_attr: Seq<Attribute>,
    pub entry_exit_async: bool,
}

impl View for StateMachine {
    type V = StateMachineView;

    open spec fn view(&self) -> StateMachineView {
        StateMachineView {
            transitions: self.transitions@,
            name: self.name,
            states_attr: self.states_attr@,
            events_attr: self.events_attr@,
            entry_exit_async: self.entry_exit_async,
        }
    }
}

/// The empty definition.
pub open spec fn empty_definition() -> StateMachineView {
    StateMachineView {
        transitions: Seq::empty(),
        name: None,
        states_attr: Seq::empty(),
        events_attr: Seq::empty(),
        entry_exit_async: false,
    }
}

/// The transitions of a line of the `transitions` block: one for each of its
/// input states, in order, each with the line's event, guard, action and
/// output state.
pub open spec fn expand(ts: StateTransitionsView) -> Seq<StateTransition> {
    ts.in_states.map_values(
        |s| StateTransition {
            in_state: s,
            event: ts.event,
            guard: ts.guard,
            action: ts.action,
            out_state: ts.out_state,
        },
    )
}

impl StateMachine {
    /// An empty definition: no transitions, no name, no attributes, and
    /// hooks that are not async.
    pub fn new() -> (r: StateMachine)
        ensures
            r@ == empty_definition(),
    {
        StateMachine {
            transitions: Vec::new(),
            name: None,
            states_attr: Vec::new(),
            events_attr: Vec::new(),
            entry_exit_async: false,
        }
    }

    /// Adds the transitions of a line of the `transitions` block, one for
    /// each of its input states, after those already there.
    pub fn add_transitions(&mut self, transitions: StateTransitions)
        ensures
            final(self)@ == (StateMachineView {
                transitions: old(self)@.transitions + expand(transitions@),
                ..old(self)@
            }),
    {
        let ghost start = self.transitions@;
        for i in 0..transitions.in_states.len()
            invariant
                self.transitions@ == start + expand(transitions@).take(i as int),
                self.name == old(self).name,
                self.states_attr == old(self).states_attr,
                self.events_attr == old(self).events_attr,
                self.entry_exit_async == old(self).entry_exit_async,
                start == old(self).transitions@,
        {
            let transition = StateTransition {
                in_state: transitions.in_states[i].copy(),
                event: transitions.event.copy(),
                guard: match &transitions.guard {
                    Some(g) => Some(g.copy()),
                    None => None,
                },
                action: match &transitions.action {
                    Some(a) => Some(a.copy()),
                    None => None,
                },
                out_state: transitions.out_state.copy(),
            };
            self.transitions.push(transition);
            assert(expand(transitions@).take(i + 1) =~= expand(transitions@).take(i as int).push(transition));
        }
        assert(expand(transitions@).take(transitions.in_states@.len() as int) =~= expand(transitions@));
    }
}

// ---------------------------------------------------------------------------
// Parsing a definition
// ---------------------------------------------------------------------------

/// Outer attributes at `p`: `('#' '[' meta ']')*`. The result tells, with
/// the attributes, whether tokens were left after an attribute's content
/// within its brackets; parsing goes on after them.
pub open spec fn parse_attrs_spec(k: VerdictsView, t: Seq<Tok>, p: int) -> Result<(Seq<Attribute>, bool, int), ParseError>
    decreases t.len() - p,
{
    if 0 <= p && is_punct(t, p, '#') {
        if is_group(t, p + 1, Delimiter::Bracket) {
            let s = t[p + 1]->Group_2;
            match meta_of(k, s@) {
                Ok(whole) => match parse_attrs_spec(k, t, p + 2) {
                    Ok((rest, left, q)) => Ok((seq![Attribute { meta: s }] + rest, left || !whole, q)),
                    Err(e) => Err(e),
                },
                Err(e) => Err(e),
            }
        } else {
            Err(ParseError::ExpectedBrackets)
        }
    } else {
        Ok((Seq::empty(), false, p))
    }
}

/// Parses outer attributes at `p`.
pub fn parse_attrs(v: &Verdicts, t: &Vec<Tok>, p: usize) -> (r: Result<(Vec<Attribute>, bool, usize), ParseError>)
    ensures
        match r {
            Ok((a, left, q)) => parse_attrs_spec(v@, t@, p as int)
                == Ok::<(Seq<Attribute>, bool, int), ParseError>((a@, left, q as int)),
            Err(e) => parse_attrs_spec(v@, t@, p as int) == Err::<(Seq<Attribute>, bool, int), ParseError>(e),
        },
    decreases t@.len() - p,
{
    let len = t.len();
    if punct_at(t, p, '#') {
        if group_at(t, p + 1, Delimiter::Bracket) {
            let s = match &t[p + 1] {
                Tok::Group(_, _, s) => s.clone(),
                _ => String::new(),
            };
            match v.meta(&s) {
                Ok(whole) => match parse_attrs(v, t, p + 2) {
                    Ok((mut rest, left, q)) => {
                        let ghost tail = rest@;
                        let a = Attribute { meta: s };
                        rest.insert(0, a);
                        assert(rest@ =~= seq![a] + tail);
                        Ok((rest, left || !whole, q))
                    },
                    Err(e) => Err(e),
                },
                Err(e) => Err(e),
            }
        } else {
            Err(ParseError::ExpectedBrackets)
        }
    } else {
        Ok((Vec::new(), false, p))
    }
}

/// The content of a `transitions` block from `p`, its transitions added to
/// `acc`: lines separated by commas. A line followed by anything but a comma
/// ends the block; the result then tells that tokens were left.
pub open spec fn parse_block_spec(k: VerdictsView, c: Seq<Tok>, p: int, acc: Seq<StateTransition>) -> Result<(Seq<StateTransition>, bool), ParseError>
    decreases c.len() - p,
{
    if p >= c.len() || p < 0 {
        Ok((acc, false))
    } else {
        match parse_transitions_spec(k, c, p) {
            Err(e) => Err(e),
            Ok((ts, q)) => {
                let acc2 = acc + expand(ts);
                if q >= c.len() {
                    Ok((acc2, false))
                } else if is_punct(c, q, ',') && q >= p {
                    parse_block_spec(k, c, q + 1, acc2)
                } else {
                    Ok((acc2, true))
                }
            },
        }
    }
}

/// One `key: value` entry of the definition at `p`, applied to `sm`; the
/// result tells whether a `transitions` block left tokens.
pub open spec fn parse_entry_spec(k: VerdictsView, t: Seq<Tok>, p: int, sm: StateMachineView) -> Result<(StateMachineView, bool, int), ParseError> {
    match parse_ident_spec(k, t, p) {
        Err(e) => Err(e),
        Ok((key, q)) => if !(key@ == "transitions"@ || key@ == "name"@ || key@ == "states_attr"@
            || key@ == "events_attr"@ || key@ == "entry_exit_async"@) {
            Err(ParseError::UnknownKeyword(key))
        } else if !is_punct(t, q, ':') {
            Err(ParseError::ExpectedPunct(':'))
        } else if key@ == "transitions"@ {
            if is_group(t, q + 1, Delimiter::Brace) {
                match parse_block_spec(k, t[q + 1]->Group_1@, 0, sm.transitions) {
                    Err(e) => Err(e),
                    Ok((ts, left)) => Ok((StateMachineView { transitions: ts, ..sm }, left, q + 2)),
                }
            } else {
                Ok((sm, false, q + 1))
            }
        } else if key@ == "name"@ {
            match parse_ident_spec(k, t, q + 1) {
                Err(e) => Err(e),
                Ok((n, r)) => Ok((
                    StateMachineView { name: Some(MachineName { text: n, span: t[q + 1]->Ident_1 }), ..sm },
                    false,
                    r,
                )),
            }
        } else if key@ == "states_attr"@ {
            match parse_attrs_spec(k, t, q + 1) {
                Err(e) => Err(e),
                Ok((a, left, r)) => Ok((StateMachineView { states_attr: a, ..sm }, left, r)),
            }
        } else if key@ == "events_attr"@ {
            match parse_attrs_spec(k, t, q + 1) {
                Err(e) => Err(e),
                Ok((a, left, r)) => Ok((StateMachineView { events_attr: a, ..sm }, left, r)),
            }
        } else if is_word(t, q + 1, "true"@) {
            Ok((StateMachineView { entry_exit_async: true, ..sm }, false, q + 2))
        } else if is_word(t, q + 1, "false"@) {
            Ok((sm, false, q + 2))
        } else {
            Err(ParseError::ExpectedBool)
        },
    }
}

/// The entries of the definition from `p`, applied to `sm`; `left` tells
/// whether tokens were left in a block so far. The result holds the
/// definition, whether tokens were left in a block, and where the entries end.
pub open spec fn parse_entries_spec(k: VerdictsView, t: Seq<Tok>, p: int, sm: StateMachineView, left: bool) -> Result<(StateMachineView, bool, int), ParseError>
    decreases t.len() - p,
{
    if p >= t.len() || p < 0 {
        Ok((sm, left, p))
    } else {
        match parse_entry_spec(k, t, p, sm) {
            Err(e) => Err(e),
            Ok((sm2, left2, q)) => {
                let l = left || left2;
                if q >= t.len() {
                    Ok((sm2, l, q))
                } else if is_punct(t, q, ',') && q >= p {
                    parse_entries_spec(k, t, q + 1, sm2, l)
                } else {
                    Ok((sm2, l, q))
                }
            },
        }
    }
}

/// A definition: `key: value` entries separated by commas, where the keys
/// are `transitions`, `name`, `states_attr`, `events_attr` and
/// `entry_exit_async`. All tokens must be used, those of a `transitions`
/// block too.
pub open spec fn parse_spec(k: VerdictsView, t: Seq<Tok>) -> Result<StateMachineView, ParseError> {
    match parse_entries_spec(k, t, 0, empty_definition(), false) {
        Err(e) => Err(e),
        Ok((sm, left, q)) => if left || q < t.len() {
            Err(ParseError::UnexpectedToken)
        } else {
            Ok(sm)
        },
    }
}

/// Parses the content `c` of a `transitions` block, adding its transitions
/// to `sm`; tells whether tokens were left.
pub fn parse_block(v: &Verdicts, c: &Vec<Tok>, sm: &mut StateMachine) -> (r: Result<bool, ParseError>)
    ensures
        match r {
            Ok(left) => {
                &&& parse_block_spec(v@, c@, 0, old(sm)@.transitions) == Ok::<(Seq<StateTransition>, bool), ParseError>(
                    (final(sm)@.transitions, left),
                )
                &&& final(sm)@ == (StateMachineView { transitions: final(sm)@.transitions, ..old(sm)@ })
            },
            Err(e) => parse_block_spec(v@, c@, 0, old(sm)@.transitions) == Err::<(Seq<StateTransition>, bool), ParseError>(e),
        },
{
    let len = c.len();
    let mut p: usize = 0;
    loop
        invariant
            p <= c@.len(),
            len == c@.len(),
            parse_block_spec(v@, c@, 0, old(sm)@.transitions) == parse_block_spec(v@, c@, p as int, sm@.transitions),
            sm@ == (StateMachineView { transitions: sm@.transitions, ..old(sm)@ }),
        decreases c@.len() - p,
    {
        if p >= len {
            return Ok(false);
        }
        let (ts, q) = match parse_transitions(v, c, p) {
            Ok(x) => x,
            Err(e) => return Err(e),
        };
        sm.add_transitions(ts);
        if q >= len {
            return Ok(false);
        }
        if punct_at(c, q, ',') && q >= p {
            p = q + 1;
        } else {
            return Ok(true);
        }
    }
}

/// Parses one entry at `p`, applying it to `sm`.
pub fn parse_entry(v: &Verdicts, t: &Vec<Tok>, p: usize, sm: &mut StateMachine) -> (r: Result<(bool, usize), ParseError>)
    requires
        p < t@.len(),
    ensures
        match r {
            Ok((left, q)) => parse_entry_spec(v@, t@, p as int, old(sm)@)
                == Ok::<(StateMachineView, bool, int), ParseError>((final(sm)@, left, q as int)),
            Err(e) => parse_entry_spec(v@, t@, p as int, old(sm)@) == Err::<(StateMachineView, bool, int), ParseError>(e),
        },
{
    let len = t.len();
    let (key, q) = match parse_ident(v, t, p) {
        Ok(x) => x,
        Err(e) => return Err(e),
    };
    let is_transitions = reads(&key, "transitions");
    let is_name = reads(&key, "name");
    let is_states_attr = reads(&key, "states_attr");
    let is_events_attr = reads(&key, "events_attr");
    let is_entry_exit_async = reads(&key, "entry_exit_async");
    if !(is_transitions || is_name || is_states_attr || is_events_attr || is_entry_exit_async) {
        return Err(ParseError::UnknownKeyword(key));
    }
    if !punct_at(t, q, ':') {
        return Err(ParseError::ExpectedPunct(':'));
    }
    if is_transitions {
        if group_at(t, q + 1, Delimiter::Brace) {
            match &t[q + 1] {
                Tok::Group(_, c, _) => {
                    return match parse_block(v, c, sm) {
                        Ok(left) => Ok((left, q + 2)),
                        Err(e) => Err(e),
                    };
                },
                _ => {
                    return Err(ParseError::UnexpectedToken);
                },
            }
        } else {
            return Ok((false, q + 1));
        }
    } else if is_name {
        match parse_ident(v, t, q + 1) {
            Ok((n, r)) => match &t[q + 1] {
                Tok::Ident(_, span) => {
                    sm.name = Some(MachineName { text: n, span: *span });
                    Ok((false, r))
                },
                _ => Err(ParseError::ExpectedIdent),
            },
            Err(e) => Err(e),
        }
    } else if is_states_attr {
        match parse_attrs(v, t, q + 1) {
            Ok((a, left, r)) => {
                sm.states_attr = a;
                Ok((left, r))
            },
            Err(e) => Err(e),
        }
    } else if is_events_attr {
        match parse_attrs(v, t, q + 1) {
            Ok((a, left, r)) => {
                sm.events_attr = a;
                Ok((left, r))
            },
            Err(e) => Err(e),
        }
    } else if word_at(t, q + 1, "true") {
        sm.entry_exit_async = true;
        Ok((false, q + 2))
    } else if word_at(t, q + 1, "false") {
        Ok((false, q + 2))
    } else {
        Err(ParseError::ExpectedBool)
    }
}

impl StateMachine {
    /// Parses a definition from its tokens. Syn is asked first what each of
    /// their texts is (an identifier, an attribute's content, a type), and
    /// every such text gets a verdict; the definition parses as those
    /// verdicts, which come back with the result, say.
    pub fn parse(t: &Vec<Tok>) -> (r: (Result<StateMachine, ParseError>, Verdicts))
        ensures
            covers(r.1@, t@),
            extends(r.1@, no_verdicts()),
            match r.0 {
                Ok(sm) => parse_spec(r.1@, t@) == Ok::<StateMachineView, ParseError>(sm@),
                Err(e) => parse_spec(r.1@, t@) == Err::<StateMachineView, ParseError>(e),
            },
    {
        let mut v = Verdicts::new();
        v.ask_syn(t);
        let r = StateMachine::parse_with(&v, t);
        (r, v)
    }

    /// Parses a definition from its tokens as the verdicts `v` say what is an
    /// identifier, an attribute's content and a type; a text without a
    /// verdict is none of these.
    pub fn parse_with(v: &Verdicts, t: &Vec<Tok>) -> (r: Result<StateMachine, ParseError>)
        ensures
            match r {
                Ok(sm) => parse_spec(v@, t@) == Ok::<StateMachineView, ParseError>(sm@),
                Err(e) => parse_spec(v@, t@) == Err::<StateMachineView, ParseError>(e),
            },
    {
        let len = t.len();
        let mut sm = StateMachine::new();
        let mut left = false;
        let mut p: usize = 0;
        let mut end: usize = 0;
        loop
            invariant_except_break
                parse_entries_spec(v@, t@, 0, empty_definition(), false) == parse_entries_spec(v@, t@, p as int, sm@, left),
            invariant
                p <= t@.len(),
                len == t@.len(),
            ensures
                parse_entries_spec(v@, t@, 0, empty_definition(), false)
                    == Ok::<(StateMachineView, bool, int), ParseError>((sm@, left, end as int)),
            decreases t@.len() - p,
        {
            if p >= len {
                end = p;
                break;
            }
            let (left2, q) = match parse_entry(v, t, p, &mut sm) {
                Ok(x) => x,
                Err(e) => return Err(e),
            };
            left = left || left2;
            if q >= len {
                end = q;
                break;
            }
            if punct_at(t, q, ',') && q >= p {
                p = q + 1;
            } else {
                end = q;
                break;
            }
        }
        if left || end < len {
            Err(ParseError::UnexpectedToken)
        } else {
            Ok(sm)
        }
    }
}

} // verus!
