//! What holds of every parse: a definition, and a `transitions` block, may
//! end with a comma.

use vstd::prelude::*;
use crate::state_machine::{
    empty_definition, expand, parse_attrs_spec, parse_block_spec, parse_entries_spec,
    parse_entry_spec, parse_spec, StateMachineView,
};
use crate::verdicts::VerdictsView;
use crate::tokens::{is_group, is_punct, is_word, Delimiter, ParseError, Tok};
use crate::transition::{
    parse_action_spec, parse_data_spec, parse_guard_spec, parse_ident_spec,
    parse_input_state_spec, parse_input_states_spec, parse_transitions_spec, StateTransition,
};

verus! {

/// Whether `c` is a comma.
pub open spec fn is_comma(c: Tok) -> bool {
    c matches Tok::Punct(x, _) && x == ','
}

/// Token lookups up to the end of `t` read the same in `t` followed by a
/// comma, except that the comma is there to be seen.
proof fn lemma_lookups(k: VerdictsView, t: Seq<Tok>, c: Tok, i: int)
    requires
        is_comma(c),
        0 <= i <= t.len(),
    ensures
        forall|d: Delimiter| is_group(t.push(c), i, d) == is_group(t, i, d),
        forall|w: Seq<char>| is_word(t.push(c), i, w) == is_word(t, i, w),
        forall|x: char| x != ',' ==> is_punct(t.push(c), i, x) == is_punct(t, i, x),
        parse_ident_spec(k, t.push(c), i) == parse_ident_spec(k, t, i),
{
    if i < t.len() {
        assert(t.push(c)[i] == t[i]);
    } else {
        assert(t.push(c)[i] == c);
    }
}

/// Attributes parse the same with a comma after the end.
proof fn lemma_attrs(k: VerdictsView, t: Seq<Tok>, c: Tok, p: int)
    requires
        is_comma(c),
        0 <= p <= t.len(),
    ensures
        parse_attrs_spec(k, t.push(c), p) == parse_attrs_spec(k, t, p),
    decreases t.len() - p,
{
    lemma_lookups(k, t, c, p);
    if p < t.len() {
        lemma_lookups(k, t, c, p + 1);
        if is_punct(t, p, '#') && is_group(t, p + 1, Delimiter::Bracket) {
            assert(t.push(c)[p + 1] == t[p + 1]);
            lemma_attrs(k, t, c, p + 2);
        }
    }
}

/// An entry parses the same with a comma after the end.
proof fn lemma_entry(k: VerdictsView, t: Seq<Tok>, c: Tok, p: int, sm: StateMachineView)
    requires
        is_comma(c),
        0 <= p < t.len(),
    ensures
        parse_entry_spec(k, t.push(c), p, sm) == parse_entry_spec(k, t, p, sm),
{
    lemma_lookups(k, t, c, p);
    if let Ok((key, q)) = parse_ident_spec(k, t, p) {
        assert(q == p + 1);
        lemma_lookups(k, t, c, q);
        if q < t.len() {
            lemma_lookups(k, t, c, q + 1);
            if is_group(t, q + 1, Delimiter::Brace) {
                assert(t.push(c)[q + 1] == t[q + 1]);
            }
            lemma_attrs(k, t, c, q + 1);
        }
    }
}

/// Entries that parse to the end of `t` parse, with a comma after the end,
/// to the same definition, to the end.
proof fn lemma_entries(k: VerdictsView, t: Seq<Tok>, c: Tok, p: int, sm: StateMachineView, left: bool)
    requires
        is_comma(c),
        0 <= p < t.len(),
        !is_comma(t.last()),
        parse_entries_spec(k, t, p, sm, left) matches Ok((_, _, q)) && q >= t.len(),
    ensures
        ({
            let a = parse_entries_spec(k, t.push(c), p, sm, left);
            let b = parse_entries_spec(k, t, p, sm, left);
            &&& a is Ok
            &&& a->Ok_0.2 >= t.len() + 1
            &&& a->Ok_0.0 == b->Ok_0.0
            &&& a->Ok_0.1 == b->Ok_0.1
        }),
    decreases t.len() - p,
{
    lemma_entry(k, t, c, p, sm);
    let tc = t.push(c);
    if let Ok((sm2, left2, q)) = parse_entry_spec(k, t, p, sm) {
        let l = left || left2;
        if q >= t.len() {
            if q == t.len() {
                assert(tc[q] == c);
                assert(is_punct(tc, q, ','));
                assert(parse_entries_spec(k, tc, q + 1, sm2, l) == Ok::<(StateMachineView, bool, int), crate::tokens::ParseError>((sm2, l, q + 1)));
            }
        } else {
            assert(tc[q] == t[q]);
            if is_punct(t, q, ',') && q >= p {
                if q + 1 == t.len() {
                    assert(t.last() == t[q]);
                }
                lemma_entries(k, t, c, q + 1, sm2, l);
            }
        }
    }
}

/// A definition may end with one comma: where it parses and does not
/// already end with a comma, it parses to the same with a comma added.
pub proof fn law_trailing_comma(k: VerdictsView, t: Seq<Tok>, c: Tok)
    requires
        is_comma(c),
        t.len() > 0,
        !is_comma(t.last()),
        parse_spec(k, t) is Ok,
    ensures
        parse_spec(k, t.push(c)) == parse_spec(k, t),
{
    lemma_entries(k, t, c, 0, empty_definition(), false);
}

/// The pieces of a transition parse the same with a comma after the end.
proof fn lemma_pieces(k: VerdictsView, t: Seq<Tok>, c: Tok, p: int)
    requires
        is_comma(c),
        0 <= p <= t.len(),
    ensures
        parse_data_spec(k, t.push(c), p) == parse_data_spec(k, t, p),
        parse_input_state_spec(k, t.push(c), p) == parse_input_state_spec(k, t, p),
        parse_guard_spec(k, t.push(c), p) == parse_guard_spec(k, t, p),
        parse_action_spec(k, t.push(c), p) == parse_action_spec(k, t, p),
{
    let tc = t.push(c);
    lemma_lookups(k, t, c, p);
    if p < t.len() {
        assert(tc[p] == t[p]);
        lemma_lookups(k, t, c, p + 1);
        if p + 1 < t.len() {
            assert(tc[p + 1] == t[p + 1]);
            lemma_lookups(k, t, c, p + 2);
            if p + 2 < t.len() {
                assert(tc[p + 2] == t[p + 2]);
            }
        }
    }
    // The data after the state's name.
    if is_punct(t, p, '*') {
        if p + 1 <= t.len() {
            if let Ok((_, r)) = parse_ident_spec(k, t, p + 1) {
                lemma_lookups(k, t, c, r);
                if r < t.len() {
                    assert(tc[r] == t[r]);
                }
            }
        }
    } else {
        if let Ok((_, r)) = parse_ident_spec(k, t, p) {
            lemma_lookups(k, t, c, r);
            if r < t.len() {
                assert(tc[r] == t[r]);
            }
        }
    }
}

/// Input states parse the same with a comma after the end.
proof fn lemma_input_states(k: VerdictsView, t: Seq<Tok>, c: Tok, p: int)
    requires
        is_comma(c),
        0 <= p <= t.len(),
    ensures
        parse_input_states_spec(k, t.push(c), p) == parse_input_states_spec(k, t, p),
    decreases t.len() - p,
{
    lemma_pieces(k, t, c, p);
    if let Ok((_, q)) = parse_input_state_spec(k, t, p) {
        if q > p && q <= t.len() {
            lemma_lookups(k, t, c, q);
            if is_punct(t, q, '|') {
                lemma_input_states(k, t, c, q + 1);
            }
        }
    }
}

/// Positions that parsing returns stay within the tokens.
proof fn lemma_bounds(k: VerdictsView, t: Seq<Tok>, p: int)
    requires
        0 <= p <= t.len(),
    ensures
        parse_input_state_spec(k, t, p) matches Ok((_, q)) ==> p < q <= t.len(),
        parse_data_spec(k, t, p) matches Ok((_, q)) ==> p <= q <= t.len(),
        parse_guard_spec(k, t, p) matches Ok((_, q)) ==> p <= q <= t.len(),
        parse_action_spec(k, t, p) matches Ok((_, q)) ==> p <= q <= t.len(),
        parse_ident_spec(k, t, p) matches Ok((_, q)) ==> q == p + 1 && q <= t.len(),
{
    if is_punct(t, p, '*') {
        if let Ok((_, r)) = parse_ident_spec(k, t, p + 1) {
            assert(r <= t.len());
        }
    } else {
        if let Ok((_, r)) = parse_ident_spec(k, t, p) {
            assert(r <= t.len());
        }
    }
}

/// Input states end within the tokens.
proof fn lemma_input_states_bounds(k: VerdictsView, t: Seq<Tok>, p: int)
    requires
        0 <= p <= t.len(),
    ensures
        parse_input_states_spec(k, t, p) matches Ok((_, q)) ==> p < q <= t.len(),
    decreases t.len() - p,
{
    lemma_bounds(k, t, p);
    if let Ok((_, q)) = parse_input_state_spec(k, t, p) {
        if q > p && is_punct(t, q, '|') {
            lemma_input_states_bounds(k, t, q + 1);
        }
    }
}

/// A line of a `transitions` block parses the same with a comma after the
/// end, and ends within the tokens.
proof fn lemma_transitions(k: VerdictsView, t: Seq<Tok>, c: Tok, p: int)
    requires
        is_comma(c),
        0 <= p <= t.len(),
    ensures
        parse_transitions_spec(k, t.push(c), p) == parse_transitions_spec(k, t, p),
        parse_transitions_spec(k, t, p) matches Ok((_, q)) ==> p < q <= t.len(),
{
    lemma_input_states(k, t, c, p);
    lemma_input_states_bounds(k, t, p);
    if let Ok((ins, q1)) = parse_input_states_spec(k, t, p) {
        lemma_lookups(k, t, c, q1);
        if is_punct(t, q1, '+') {
            lemma_lookups(k, t, c, q1 + 1);
            lemma_bounds(k, t, q1 + 1);
            if let Ok((_, q2)) = parse_ident_spec(k, t, q1 + 1) {
                lemma_pieces(k, t, c, q2);
                lemma_bounds(k, t, q2);
                if let Ok((_, q3)) = parse_data_spec(k, t, q2) {
                    lemma_pieces(k, t, c, q3);
                    lemma_bounds(k, t, q3);
                    if let Ok((_, q4)) = parse_guard_spec(k, t, q3) {
                        lemma_pieces(k, t, c, q4);
                        lemma_bounds(k, t, q4);
                        if let Ok((_, q5)) = parse_action_spec(k, t, q4) {
                            lemma_lookups(k, t, c, q5);
                            if is_punct(t, q5, '=') {
                                lemma_lookups(k, t, c, q5 + 1);
                                lemma_bounds(k, t, q5 + 1);
                            }
                        }
                    }
                }
            }
        }
    }
}

/// Lines of a block that parse to its end, with nothing left, parse the same
/// with a comma after the end.
proof fn lemma_block(k: VerdictsView, t: Seq<Tok>, c: Tok, p: int, acc: Seq<StateTransition>)
    requires
        is_comma(c),
        0 <= p < t.len(),
        !is_comma(t.last()),
        parse_block_spec(k, t, p, acc) matches Ok((_, left)) && !left,
    ensures
        parse_block_spec(k, t.push(c), p, acc) == parse_block_spec(k, t, p, acc),
    decreases t.len() - p,
{
    let tc = t.push(c);
    lemma_transitions(k, t, c, p);
    if let Ok((ts, q)) = parse_transitions_spec(k, t, p) {
        let acc2 = acc + expand(ts);
        if q >= t.len() {
            assert(q == t.len());
            assert(tc[q] == c);
            assert(parse_block_spec(k, tc, q + 1, acc2) == Ok::<(Seq<StateTransition>, bool), ParseError>((acc2, false)));
        } else {
            assert(tc[q] == t[q]);
            if is_punct(t, q, ',') && q >= p {
                if q + 1 == t.len() {
                    assert(t.last() == t[q]);
                }
                lemma_block(k, t, c, q + 1, acc2);
            }
        }
    }
}

/// A `transitions` block may end with one comma: where its content parses,
/// to its end, and does not already end with a comma, it parses to the same
/// with a comma added.
pub proof fn law_block_trailing_comma(k: VerdictsView, t: Seq<Tok>, c: Tok, acc: Seq<StateTransition>)
    requires
        is_comma(c),
        t.len() > 0,
        !is_comma(t.last()),
        parse_block_spec(k, t, 0, acc) matches Ok((_, left)) && !left,
    ensures
        parse_block_spec(k, t.push(c), 0, acc) == parse_block_spec(k, t, 0, acc),
{
    lemma_block(k, t, c, 0, acc);
}

} // verus!
