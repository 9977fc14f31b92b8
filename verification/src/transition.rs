//! The pieces of a transition: guards, actions, input and output states.

use vstd::prelude::*;
use crate::verdicts::{ident_ok, ident_refusal, type_of, Verdicts, VerdictsView};
use crate::parsed::DataType;
use crate::tokens::{
    is_joint_punct, is_punct, is_word, joint_punct_at, punct_at, word_at, Delimiter, ParseError,
    Tok,
};

verus! {

/// An identifier of a guard or an action, with whether it is awaited.
pub struct AsyncIdent {
    pub ident: String,
    pub is_async: bool,
}

impl AsyncIdent {
    /// A copy of this identifier.
    pub fn copy(&self) -> (r: AsyncIdent)
        ensures
            r == *self,
    {
        AsyncIdent { ident: self.ident.clone(), is_async: self.is_async }
    }
}

/// A boolean expression over guards: `[a && !b || (c && d)]`.
pub enum GuardExpression {
    Guard(AsyncIdent),
    Not(Box<GuardExpression>),
    Group(Box<GuardExpression>),
    And(Box<GuardExpression>, Box<GuardExpression>),
    Or(Box<GuardExpression>, Box<GuardExpression>),
}

/// The guards of an expression, left to right, each as often as it occurs.
pub open spec fn guard_leaves(e: GuardExpression) -> Seq<AsyncIdent>
    decreases e,
{
    match e {
        GuardExpression::Guard(g) => seq![g],
        GuardExpression::Not(inner) => guard_leaves(*inner),
        GuardExpression::Group(inner) => guard_leaves(*inner),
        GuardExpression::And(l, r) => guard_leaves(*l) + guard_leaves(*r),
        GuardExpression::Or(l, r) => guard_leaves(*l) + guard_leaves(*r),
    }
}

impl GuardExpression {
    /// A copy of this expression.
    pub fn copy(&self) -> (r: GuardExpression)
        ensures
            r == *self,
        decreases self,
    {
        match self {
            GuardExpression::Guard(g) => GuardExpression::Guard(g.copy()),
            GuardExpression::Not(inner) => GuardExpression::Not(Box::new((**inner).copy())),
            GuardExpression::Group(inner) => GuardExpression::Group(Box::new((**inner).copy())),
            GuardExpression::And(l, r) => GuardExpression::And(
                Box::new((**l).copy()),
                Box::new((**r).copy()),
            ),
            GuardExpression::Or(l, r) => GuardExpression::Or(
                Box::new((**l).copy()),
                Box::new((**r).copy()),
            ),
        }
    }
}

/// Appends the guards of `e`, left to right, to `out`.
pub fn visit_guards(e: &GuardExpression, out: &mut Vec<AsyncIdent>)
    ensures
        final(out)@ == old(out)@ + guard_leaves(*e),
    decreases e,
{
    match e {
        GuardExpression::Guard(g) => {
            out.push(g.copy());
        },
        GuardExpression::Not(inner) => {
            visit_guards(&**inner, out);
        },
        GuardExpression::Group(inner) => {
            visit_guards(&**inner, out);
        },
        GuardExpression::And(l, r) => {
            visit_guards(&**l, out);
            visit_guards(&**r, out);
        },
        GuardExpression::Or(l, r) => {
            visit_guards(&**l, out);
            visit_guards(&**r, out);
        },
    }
}

// ---------------------------------------------------------------------------
// Parsing a transition
// ---------------------------------------------------------------------------

/// Whether an executable parse result `r` is the spec result `s`.
pub open spec fn same_result<T>(r: Result<(T, usize), ParseError>, s: Result<(T, int), ParseError>) -> bool {
    match r {
        Ok((v, q)) => s == Ok::<(T, int), ParseError>((v, q as int)),
        Err(e) => s == Err::<(T, int), ParseError>(e),
    }
}

/// An identifier at `p`.
pub open spec fn parse_ident_spec(k: VerdictsView, t: Seq<Tok>, p: int) -> Result<(String, int), ParseError> {
    if 0 <= p < t.len() && t[p] is Ident {
        let s = t[p]->Ident_0;
        if ident_ok(k, s@) {
            Ok((s, p + 1))
        } else {
            Err(ident_refusal(k, s@))
        }
    } else {
        Err(ParseError::ExpectedIdent)
    }
}

/// Parses an identifier at `p`.
pub fn parse_ident(v: &Verdicts, t: &Vec<Tok>, p: usize) -> (r: Result<(String, usize), ParseError>)
    ensures
        same_result(r, parse_ident_spec(v@, t@, p as int)),
{
    if p < t.len() {
        match &t[p] {
            Tok::Ident(s, _) => {
                return match v.ident(s) {
                    Ok(()) => Ok((s.clone(), p + 1)),
                    Err(e) => Err(e),
                };
            },
            _ => {},
        }
    }
    Err(ParseError::ExpectedIdent)
}

/// An optional data type in parentheses at `p`.
pub open spec fn parse_data_spec(k: VerdictsView, t: Seq<Tok>, p: int) -> Result<(Option<DataType>, int), ParseError> {
    if 0 <= p < t.len() && (t[p] matches Tok::Group(d, _, _) && d == Delimiter::Parenthesis) {
        let s = t[p]->Group_2;
        match type_of(k, s@) {
            Some(r) => Ok((Some(DataType { text: s, is_reference: r }), p + 1)),
            None => Err(ParseError::InvalidType),
        }
    } else {
        Ok((None, p))
    }
}

/// Parses an optional data type in parentheses at `p`.
pub fn parse_data(v: &Verdicts, t: &Vec<Tok>, p: usize) -> (r: Result<(Option<DataType>, usize), ParseError>)
    ensures
        same_result(r, parse_data_spec(v@, t@, p as int)),
{
    if p < t.len() {
        match &t[p] {
            Tok::Group(Delimiter::Parenthesis, _, s) => {
                return match v.type_kind(s) {
                    Some(r) => Ok((Some(DataType { text: s.clone(), is_reference: r }), p + 1)),
                    None => Err(ParseError::InvalidType),
                };
            },
            _ => {},
        }
    }
    Ok((None, p))
}

/// A state a transition leaves: `*` marks the starting state, `_` stands for
/// every state; a state may name the type of its data in parentheses.
pub struct InputState {
    pub start: bool,
    pub wildcard: bool,
    pub ident: String,
    pub data_type: Option<DataType>,
}

/// The event of a transition, with the type of its data.
pub struct Event {
    pub ident: String,
    pub data_type: Option<DataType>,
}

/// The state a transition leads to.
pub struct OutputState {
    pub ident: String,
}

impl InputState {
    /// A copy of this state.
    pub fn copy(&self) -> (r: InputState)
        ensures
            r == *self,
    {
        InputState {
            start: self.start,
            wildcard: self.wildcard,
            ident: self.ident.clone(),
            data_type: match &self.data_type {
                Some(d) => Some(d.copy()),
                None => None,
            },
        }
    }
}

impl Event {
    /// A copy of this event.
    pub fn copy(&self) -> (r: Event)
        ensures
            r == *self,
    {
        Event {
            ident: self.ident.clone(),
            data_type: match &self.data_type {
                Some(d) => Some(d.copy()),
                None => None,
            },
        }
    }
}

impl OutputState {
    /// A copy of this state.
    pub fn copy(&self) -> (r: OutputState)
        ensures
            r == *self,
    {
        OutputState { ident: self.ident.clone() }
    }
}

/// An input state at `p`: `['*'] ('_' | ident [ '(' type ')' ])`.
pub open spec fn parse_input_state_spec(k: VerdictsView, t: Seq<Tok>, p: int) -> Result<(InputState, int), ParseError> {
    let start = is_punct(t, p, '*');
    let q = if start { p + 1 } else { p };
    if is_word(t, q, "_"@) {
        if start {
            Err(ParseError::WildcardStart)
        } else {
            Ok((InputState { start: false, wildcard: true, ident: t[q]->Ident_0, data_type: None }, q + 1))
        }
    } else {
        match parse_ident_spec(k, t, q) {
            Ok((ident, r)) => match parse_data_spec(k, t, r) {
                Ok((data_type, s)) => Ok((InputState { start, wildcard: false, ident, data_type }, s)),
                Err(e) => Err(e),
            },
            Err(e) => Err(e),
        }
    }
}

/// Parses an input state at `p`.
pub fn parse_input_state(v: &Verdicts, t: &Vec<Tok>, p: usize) -> (r: Result<(InputState, usize), ParseError>)
    requires
        p <= t@.len(),
    ensures
        same_result(r, parse_input_state_spec(v@, t@, p as int)),
{
    let len = t.len();
    let start = punct_at(t, p, '*');
    let q = if start { p + 1 } else { p };
    if word_at(t, q, "_") {
        if start {
            return Err(ParseError::WildcardStart);
        }
        let ident = match &t[q] {
            Tok::Ident(s, _) => s.clone(),
            _ => String::new(),
        };
        return Ok((InputState { start: false, wildcard: true, ident, data_type: None }, q + 1));
    }
    match parse_ident(v, t, q) {
        Ok((ident, r)) => match parse_data(v, t, r) {
            Ok((data_type, s)) => Ok((InputState { start, wildcard: false, ident, data_type }, s)),
            Err(e) => Err(e),
        },
        Err(e) => Err(e),
    }
}

/// The input states at `p`, separated by `|`.
pub open spec fn parse_input_states_spec(k: VerdictsView, t: Seq<Tok>, p: int) -> Result<(Seq<InputState>, int), ParseError>
    decreases t.len() - p,
{
    match parse_input_state_spec(k, t, p) {
        Ok((s, q)) => if q > p && is_punct(t, q, '|') {
            match parse_input_states_spec(k, t, q + 1) {
                Ok((rest, r)) => Ok((seq![s] + rest, r)),
                Err(e) => Err(e),
            }
        } else {
            Ok((seq![s], q))
        },
        Err(e) => Err(e),
    }
}

/// Whether an executable list result `r` is the spec result `s`.
pub open spec fn same_list_result<T>(
    r: Result<(Vec<T>, usize), ParseError>,
    s: Result<(Seq<T>, int), ParseError>,
) -> bool {
    match r {
        Ok((v, q)) => s == Ok::<(Seq<T>, int), ParseError>((v@, q as int)),
        Err(e) => s == Err::<(Seq<T>, int), ParseError>(e),
    }
}

/// Parses the input states at `p`.
pub fn parse_input_states(v: &Verdicts, t: &Vec<Tok>, p: usize) -> (r: Result<(Vec<InputState>, usize), ParseError>)
    requires
        p <= t@.len(),
    ensures
        same_list_result(r, parse_input_states_spec(v@, t@, p as int)),
    decreases t@.len() - p,
{
    let len = t.len();
    match parse_input_state(v, t, p) {
        Ok((s, q)) => {
            if q > p && punct_at(t, q, '|') {
                match parse_input_states(v, t, q + 1) {
                    Ok((mut rest, r)) => {
                        let ghost tail = rest@;
                        rest.insert(0, s);
                        assert(rest@ =~= seq![s] + tail);
                        Ok((rest, r))
                    },
                    Err(e) => Err(e),
                }
            } else {
                let mut v: Vec<InputState> = Vec::new();
                v.push(s);
                assert(v@ =~= seq![s]);
                Ok((v, q))
            }
        },
        Err(e) => Err(e),
    }
}

// Guard expressions: `||` binds less than `&&`, which binds less than `!`;
// both are left associative; parentheses group.

/// A guard expression at `p`: `and ('||' and)*`.
pub open spec fn parse_or_spec(k: VerdictsView, t: Seq<Tok>, p: int) -> Result<(GuardExpression, int), ParseError>
    decreases t, t.len() - p, 5int,
{
    match parse_and_spec(k, t, p) {
        Ok((l, q)) => if p < q <= t.len() {
            parse_or_rest_spec(k, t, l, q)
        } else {
            Err(ParseError::ExpectedIdent)
        },
        Err(e) => Err(e),
    }
}

/// The rest of a guard expression after `lhs`, which ends before `p`.
pub open spec fn parse_or_rest_spec(k: VerdictsView, t: Seq<Tok>, lhs: GuardExpression, p: int) -> Result<(GuardExpression, int), ParseError>
    decreases t, t.len() - p, 4int,
{
    if 0 <= p && is_joint_punct(t, p, '|') && is_punct(t, p + 1, '|') {
        match parse_and_spec(k, t, p + 2) {
            Ok((r, q)) => if p < q <= t.len() {
                parse_or_rest_spec(k, t, GuardExpression::Or(Box::new(lhs), Box::new(r)), q)
            } else {
                Err(ParseError::ExpectedIdent)
            },
            Err(e) => Err(e),
        }
    } else {
        Ok((lhs, p))
    }
}

/// A conjunction at `p`: `not ('&&' not)*`.
pub open spec fn parse_and_spec(k: VerdictsView, t: Seq<Tok>, p: int) -> Result<(GuardExpression, int), ParseError>
    decreases t, t.len() - p, 3int,
{
    match parse_not_spec(k, t, p) {
        Ok((l, q)) => if p < q <= t.len() {
            parse_and_rest_spec(k, t, l, q)
        } else {
            Err(ParseError::ExpectedIdent)
        },
        Err(e) => Err(e),
    }
}

/// The rest of a conjunction after `lhs`, which ends before `p`.
pub open spec fn parse_and_rest_spec(k: VerdictsView, t: Seq<Tok>, lhs: GuardExpression, p: int) -> Result<(GuardExpression, int), ParseError>
    decreases t, t.len() - p, 2int,
{
    if 0 <= p && is_joint_punct(t, p, '&') && is_punct(t, p + 1, '&') {
        match parse_not_spec(k, t, p + 2) {
            Ok((r, q)) => if p < q <= t.len() {
                parse_and_rest_spec(k, t, GuardExpression::And(Box::new(lhs), Box::new(r)), q)
            } else {
                Err(ParseError::ExpectedIdent)
            },
            Err(e) => Err(e),
        }
    } else {
        Ok((lhs, p))
    }
}

/// A negation or an atom at `p`: `'!' not | atom`.
pub open spec fn parse_not_spec(k: VerdictsView, t: Seq<Tok>, p: int) -> Result<(GuardExpression, int), ParseError>
    decreases t, t.len() - p, 1int,
{
    if 0 <= p && is_punct(t, p, '!') {
        match parse_not_spec(k, t, p + 1) {
            Ok((e, q)) => Ok((GuardExpression::Not(Box::new(e)), q)),
            Err(e) => Err(e),
        }
    } else {
        parse_atom_spec(k, t, p)
    }
}

/// An atom at `p`: a parenthesized guard expression, or a guard
/// `['async'] ident`.
pub open spec fn parse_atom_spec(k: VerdictsView, t: Seq<Tok>, p: int) -> Result<(GuardExpression, int), ParseError>
    decreases t, t.len() - p, 0int,
{
    if 0 <= p < t.len() && (t[p] matches Tok::Group(d, _, _) && d == Delimiter::Parenthesis) {
        let inner = t[p]->Group_1@;
        proof {
            assert(decreases_to!(t => inner));
        }
        match parse_or_spec(k, inner, 0) {
            Ok((e, q)) => if q == inner.len() {
                Ok((GuardExpression::Group(Box::new(e)), p + 1))
            } else {
                Err(ParseError::UnexpectedToken)
            },
            Err(e) => Err(e),
        }
    } else {
        let is_async = is_word(t, p, "async"@);
        let q = if is_async { p + 1 } else { p };
        match parse_ident_spec(k, t, q) {
            Ok((ident, r)) => Ok((GuardExpression::Guard(AsyncIdent { ident, is_async }), r)),
            Err(e) => Err(e),
        }
    }
}

/// Parses a guard expression at `p`.
pub fn parse_or(v: &Verdicts, t: &Vec<Tok>, p: usize) -> (r: Result<(GuardExpression, usize), ParseError>)
    requires
        p <= t@.len(),
    ensures
        same_result(r, parse_or_spec(v@, t@, p as int)),
    decreases t@, t@.len() - p, 5int,
{
    match parse_and(v, t, p) {
        Ok((l, q)) => if p < q && q <= t.len() {
            parse_or_rest(v, t, l, q)
        } else {
            Err(ParseError::ExpectedIdent)
        },
        Err(e) => Err(e),
    }
}

/// Parses the rest of a guard expression after `lhs`.
pub fn parse_or_rest(v: &Verdicts, t: &Vec<Tok>, lhs: GuardExpression, p: usize) -> (r: Result<(GuardExpression, usize), ParseError>)
    requires
        p <= t@.len(),
    ensures
        same_result(r, parse_or_rest_spec(v@, t@, lhs, p as int)),
    decreases t@, t@.len() - p, 4int,
{
    let len = t.len();
    if joint_punct_at(t, p, '|') && punct_at(t, p + 1, '|') {
        match parse_and(v, t, p + 2) {
            Ok((r, q)) => if p < q && q <= t.len() {
                parse_or_rest(v, t, GuardExpression::Or(Box::new(lhs), Box::new(r)), q)
            } else {
                Err(ParseError::ExpectedIdent)
            },
            Err(e) => Err(e),
        }
    } else {
        Ok((lhs, p))
    }
}

/// Parses a conjunction at `p`.
pub fn parse_and(v: &Verdicts, t: &Vec<Tok>, p: usize) -> (r: Result<(GuardExpression, usize), ParseError>)
    requires
        p <= t@.len(),
    ensures
        same_result(r, parse_and_spec(v@, t@, p as int)),
    decreases t@, t@.len() - p, 3int,
{
    match parse_not(v, t, p) {
        Ok((l, q)) => if p < q && q <= t.len() {
            parse_and_rest(v, t, l, q)
        } else {
            Err(ParseError::ExpectedIdent)
        },
        Err(e) => Err(e),
    }
}

/// Parses the rest of a conjunction after `lhs`.
pub fn parse_and_rest(v: &Verdicts, t: &Vec<Tok>, lhs: GuardExpression, p: usize) -> (r: Result<(GuardExpression, usize), ParseError>)
    requires
        p <= t@.len(),
    ensures
        same_result(r, parse_and_rest_spec(v@, t@, lhs, p as int)),
    decreases t@, t@.len() - p, 2int,
{
    let len = t.len();
    if joint_punct_at(t, p, '&') && punct_at(t, p + 1, '&') {
        match parse_not(v, t, p + 2) {
            Ok((r, q)) => if p < q && q <= t.len() {
                parse_and_rest(v, t, GuardExpression::And(Box::new(lhs), Box::new(r)), q)
            } else {
                Err(ParseError::ExpectedIdent)
            },
            Err(e) => Err(e),
        }
    } else {
        Ok((lhs, p))
    }
}

/// Parses a negation or an atom at `p`.
pub fn parse_not(v: &Verdicts, t: &Vec<Tok>, p: usize) -> (r: Result<(GuardExpression, usize), ParseError>)
    requires
        p <= t@.len(),
    ensures
        same_result(r, parse_not_spec(v@, t@, p as int)),
    decreases t@, t@.len() - p, 1int,
{
    let len = t.len();
    if punct_at(t, p, '!') {
        match parse_not(v, t, p + 1) {
            Ok((e, q)) => Ok((GuardExpression::Not(Box::new(e)), q)),
            Err(e) => Err(e),
        }
    } else {
        parse_atom(v, t, p)
    }
}

/// Parses an atom at `p`.
pub fn parse_atom(v: &Verdicts, t: &Vec<Tok>, p: usize) -> (r: Result<(GuardExpression, usize), ParseError>)
    requires
        p <= t@.len(),
    ensures
        same_result(r, parse_atom_spec(v@, t@, p as int)),
    decreases t@, t@.len() - p, 0int,
{
    let len = t.len();
    if p < t.len() {
        match &t[p] {
            Tok::Group(Delimiter::Parenthesis, inner, _) => {
                assert(decreases_to!(t@ => inner@));
                return match parse_or(v, inner, 0) {
                    Ok((e, q)) => if q == inner.len() {
                        Ok((GuardExpression::Group(Box::new(e)), p + 1))
                    } else {
                        Err(ParseError::UnexpectedToken)
                    },
                    Err(e) => Err(e),
                };
            },
            _ => {},
        }
    }
    let is_async = word_at(t, p, "async");
    let q = if is_async { p + 1 } else { p };
    match parse_ident(v, t, q) {
        Ok((ident, r)) => Ok((GuardExpression::Guard(AsyncIdent { ident, is_async }), r)),
        Err(e) => Err(e),
    }
}

/// An optional guard at `p`: a guard expression in brackets, which it must
/// fill.
pub open spec fn parse_guard_spec(k: VerdictsView, t: Seq<Tok>, p: int) -> Result<(Option<GuardExpression>, int), ParseError> {
    if 0 <= p < t.len() && (t[p] matches Tok::Group(d, _, _) && d == Delimiter::Bracket) {
        let inner = t[p]->Group_1@;
        match parse_or_spec(k, inner, 0) {
            Ok((e, q)) => if q == inner.len() {
                Ok((Some(e), p + 1))
            } else {
                Err(ParseError::UnexpectedToken)
            },
            Err(e) => Err(e),
        }
    } else {
        Ok((None, p))
    }
}

/// Parses an optional guard at `p`.
pub fn parse_guard(v: &Verdicts, t: &Vec<Tok>, p: usize) -> (r: Result<(Option<GuardExpression>, usize), ParseError>)
    ensures
        same_result(r, parse_guard_spec(v@, t@, p as int)),
{
    if p < t.len() {
        match &t[p] {
            Tok::Group(Delimiter::Bracket, inner, _) => {
                return match parse_or(v, inner, 0) {
                    Ok((e, q)) => if q == inner.len() {
                        Ok((Some(e), p + 1))
                    } else {
                        Err(ParseError::UnexpectedToken)
                    },
                    Err(e) => Err(e),
                };
            },
            _ => {},
        }
    }
    Ok((None, p))
}

/// An optional action at `p`: `'/' ['async'] ident`.
pub open spec fn parse_action_spec(k: VerdictsView, t: Seq<Tok>, p: int) -> Result<(Option<AsyncIdent>, int), ParseError> {
    if is_punct(t, p, '/') {
        let is_async = is_word(t, p + 1, "async"@);
        let q = if is_async { p + 2 } else { p + 1 };
        match parse_ident_spec(k, t, q) {
            Ok((ident, r)) => Ok((Some(AsyncIdent { ident, is_async }), r)),
            Err(e) => Err(e),
        }
    } else {
        Ok((None, p))
    }
}

/// Parses an optional action at `p`.
pub fn parse_action(v: &Verdicts, t: &Vec<Tok>, p: usize) -> (r: Result<(Option<AsyncIdent>, usize), ParseError>)
    ensures
        same_result(r, parse_action_spec(v@, t@, p as int)),
{
    let len = t.len();
    if punct_at(t, p, '/') {
        let is_async = word_at(t, p + 1, "async");
        let q = if is_async { p + 2 } else { p + 1 };
        match parse_ident(v, t, q) {
            Ok((ident, r)) => Ok((Some(AsyncIdent { ident, is_async }), r)),
            Err(e) => Err(e),
        }
    } else {
        Ok((None, p))
    }
}

/// A line of the `transitions` block: one or more input states, an event, an
/// optional guard, an optional action and an output state.
pub struct StateTransitions {
    pub in_states: Vec<InputState>,
    pub event: Event,
    pub guard: Option<GuardExpression>,
    pub action: Option<AsyncIdent>,
    pub out_state: OutputState,
}

/// A line of the `transitions` block, its input states as a sequence.
pub struct StateTransitionsView {
    pub in_states: Seq<InputState>,
    pub event: Event,
    pub guard: Option<GuardExpression>,
    pub action: Option<AsyncIdent>,
    pub out_state: OutputState,
}

impl View for StateTransitions {
    type V = StateTransitionsView;

    open spec fn view(&self) -> StateTransitionsView {
        StateTransitionsView {
            in_states: self.in_states@,
            event: self.event,
            guard: self.guard,
            action: self.action,
            out_state: self.out_state,
        }
    }
}

/// Whether some of the input states is the wildcard.
pub open spec fn has_wildcard(s: Seq<InputState>) -> bool {
    exists|i: int| 0 <= i < s.len() && (#[trigger] s[i]).wildcard
}

/// A line of the `transitions` block at `p`:
/// `in_state ('|' in_state)* '+' event ['(' type ')'] ['[' guard ']']
/// ['/' ['async'] action] '=' out_state`.
/// The wildcard stands alone.
pub open spec fn parse_transitions_spec(k: VerdictsView, t: Seq<Tok>, p: int) -> Result<(StateTransitionsView, int), ParseError> {
    match parse_input_states_spec(k, t, p) {
        Err(e) => Err(e),
        Ok((in_states, q1)) => if in_states.len() > 1 && has_wildcard(in_states) {
            Err(ParseError::WildcardWithOthers)
        } else if !is_punct(t, q1, '+') {
            Err(ParseError::ExpectedPunct('+'))
        } else {
            match parse_ident_spec(k, t, q1 + 1) {
                Err(e) => Err(e),
                Ok((ev, q2)) => match parse_data_spec(k, t, q2) {
                    Err(e) => Err(e),
                    Ok((data_type, q3)) => match parse_guard_spec(k, t, q3) {
                        Err(e) => Err(e),
                        Ok((guard, q4)) => match parse_action_spec(k, t, q4) {
                            Err(e) => Err(e),
                            Ok((action, q5)) => if !is_punct(t, q5, '=') {
                                Err(ParseError::ExpectedPunct('='))
                            } else {
                                match parse_ident_spec(k, t, q5 + 1) {
                                    Err(e) => Err(e),
                                    Ok((out, q6)) => Ok((
                                        StateTransitionsView {
                                            in_states,
                                            event: Event { ident: ev, data_type },
                                            guard,
                                            action,
                                            out_state: OutputState { ident: out },
                                        },
                                        q6,
                                    )),
                                }
                            },
                        },
                    },
                },
            }
        },
    }
}

/// Whether an executable result `r` is the spec result `s`.
pub open spec fn same_transitions_result(
    r: Result<(StateTransitions, usize), ParseError>,
    s: Result<(StateTransitionsView, int), ParseError>,
) -> bool {
    match r {
        Ok((v, q)) => s == Ok::<(StateTransitionsView, int), ParseError>((v@, q as int)),
        Err(e) => s == Err::<(StateTransitionsView, int), ParseError>(e),
    }
}

/// Decides `has_wildcard`.
fn any_wildcard(s: &Vec<InputState>) -> (r: bool)
    ensures
        r == has_wildcard(s@),
{
    for i in 0..s.len()
        invariant
            forall|j: int| 0 <= j < i ==> !(#[trigger] s@[j]).wildcard,
    {
        if s[i].wildcard {
            return true;
        }
    }
    false
}

/// Parses a line of the `transitions` block at `p`.
pub fn parse_transitions(v: &Verdicts, t: &Vec<Tok>, p: usize) -> (r: Result<(StateTransitions, usize), ParseError>)
    requires
        p <= t@.len(),
    ensures
        same_transitions_result(r, parse_transitions_spec(v@, t@, p as int)),
{
    let len = t.len();
    let (in_states, q1) = match parse_input_states(v, t, p) {
        Ok(x) => x,
        Err(e) => return Err(e),
    };
    if in_states.len() > 1 && any_wildcard(&in_states) {
        return Err(ParseError::WildcardWithOthers);
    }
    if !punct_at(t, q1, '+') {
        return Err(ParseError::ExpectedPunct('+'));
    }
    let (ev, q2) = match parse_ident(v, t, q1 + 1) {
        Ok(x) => x,
        Err(e) => return Err(e),
    };
    let (data_type, q3) = match parse_data(v, t, q2) {
        Ok(x) => x,
        Err(e) => return Err(e),
    };
    let (guard, q4) = match parse_guard(v, t, q3) {
        Ok(x) => x,
        Err(e) => return Err(e),
    };
    let (action, q5) = match parse_action(v, t, q4) {
        Ok(x) => x,
        Err(e) => return Err(e),
    };
    if !punct_at(t, q5, '=') {
        return Err(ParseError::ExpectedPunct('='));
    }
    let (out, q6) = match parse_ident(v, t, q5 + 1) {
        Ok(x) => x,
        Err(e) => return Err(e),
    };
    Ok((
        StateTransitions {
            in_states,
            event: Event { ident: ev, data_type },
            guard,
            action,
            out_state: OutputState { ident: out },
        },
        q6,
    ))
}

/// One transition: a line of the `transitions` block for one of its input
/// states.
pub struct StateTransition {
    pub in_state: InputState,
    pub event: Event,
    pub guard: Option<GuardExpression>,
    pub action: Option<AsyncIdent>,
    pub out_state: OutputState,
}

} // verus!
