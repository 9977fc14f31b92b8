//! What holds of every plan: each guard and each action is declared once, at
//! its first use, every transition's guards and action are declared, every
//! transition has its place in the dispatch, and `process_event` is async
//! exactly where something it calls is. Also: guards take data in the form
//! the dispatch passes it, event arms bind the event's data where it has
//! some, the constructor takes the starting state's data, `process_event`
//! declares only the events' own lifetimes, and a transition to another
//! state changes the state.

use vstd::prelude::*;
use crate::codegen::{
    variant_names, variants_of, Variant, action_candidates, action_candidates_at, declared_actions, declared_guards, event_positions,
    first_of_each, guard_awaits, guard_candidates, transition_awaits, guard_candidates_at, machine_is_async, names_ident,
    positions, positions_upto, some_awaited, transition_at, valid_position, Candidate, Position,
};
use crate::codegen::{
    block_of, data_text, event_at, generated_for, guard_decl_of, state_at, ArgForm, GeneratedCode,
    GuardDecl, ParamDecl, Step, TransitionBlock,
};
use crate::parsed::{data_of, has_name, names_distinct, NamedData, ParsedStateMachine, StateEntry};
use crate::transition::guard_leaves;

verus! {

/// Whether the candidate at `q` is the first of its name in `c`.
pub open spec fn first_use(c: Seq<Candidate>, q: int) -> bool {
    &&& 0 <= q < c.len()
    &&& forall|r: int| 0 <= r < q ==> (#[trigger] c[r]).1.ident@ != c[q].1.ident@
}

/// `first_of_each` keeps names apart, keeps every name, and keeps of each
/// name its first candidate.
proof fn lemma_first_of_each(c: Seq<Candidate>)
    ensures
        forall|i: int, j: int|
            0 <= i < j < first_of_each(c).len()
                ==> (#[trigger] first_of_each(c)[i]).1.ident@ != (#[trigger] first_of_each(c)[j]).1.ident@,
        forall|q: int| 0 <= q < c.len() ==> names_ident(first_of_each(c), (#[trigger] c[q]).1.ident@),
        forall|n: int|
            0 <= n < first_of_each(c).len() ==> exists|q: int|
                first_use(c, q) && c[q] == #[trigger] first_of_each(c)[n],
    decreases c.len(),
{
    if c.len() > 0 {
        let d = c.drop_last();
        let x = c.last();
        lemma_first_of_each(d);
        let f = first_of_each(d);
        assert forall|n: int| 0 <= n < f.len() implies exists|q: int|
            first_use(c, q) && c[q] == #[trigger] f[n] by {
            let q = choose|q: int| first_use(d, q) && d[q] == f[n];
            assert(c[q] == d[q]);
            assert forall|r: int| 0 <= r < q implies (#[trigger] c[r]).1.ident@ != c[q].1.ident@ by {
                assert(c[r] == d[r]);
            }
            assert(first_use(c, q));
        }
        assert forall|q: int| 0 <= q < d.len() implies names_ident(f, (#[trigger] c[q]).1.ident@) by {
            assert(c[q] == d[q]);
            assert(names_ident(f, d[q].1.ident@));
        }
        if names_ident(f, x.1.ident@) {
            assert(first_of_each(c) == f);
        } else {
            let g = f.push(x);
            assert(first_of_each(c) == g);
            assert forall|i: int, j: int|
                0 <= i < j < g.len() implies (#[trigger] g[i]).1.ident@ != (#[trigger] g[j]).1.ident@ by {
                if j == f.len() {
                    assert(g[i] == f[i]);
                    if f[i].1.ident@ == x.1.ident@ {
                        assert(names_ident(f, x.1.ident@));
                    }
                } else {
                    assert(g[i] == f[i] && g[j] == f[j]);
                }
            }
            assert(names_ident(g, x.1.ident@)) by {
                assert(g[f.len() as int] == x);
            }
            assert forall|q: int| 0 <= q < c.len() implies names_ident(g, (#[trigger] c[q]).1.ident@) by {
                if q < d.len() {
                    assert(c[q] == d[q]);
                    assert(names_ident(f, d[q].1.ident@));
                    let w = choose|w: int| 0 <= w < f.len() && (#[trigger] f[w]).1.ident@ == d[q].1.ident@;
                    assert(g[w] == f[w]);
                } else {
                    assert(c[q] == x);
                }
            }
            assert forall|n: int| 0 <= n < g.len() implies exists|q: int|
                first_use(c, q) && c[q] == #[trigger] g[n] by {
                if n < f.len() {
                    assert(g[n] == f[n]);
                } else {
                    let q = c.len() - 1;
                    assert(c[q] == x);
                    assert forall|r: int| 0 <= r < q implies (#[trigger] c[r]).1.ident@ != c[q].1.ident@ by {
                        assert(c[r] == d[r]);
                        if d[r].1.ident@ == x.1.ident@ {
                            assert(names_ident(f, d[r].1.ident@));
                        }
                    }
                    assert(first_use(c, q));
                }
            }
        }
    }
}

/// Every candidate of the transitions at `ps` comes from one of them: a guard
/// of its guard expression, or its action.
proof fn lemma_candidates_from(m: Seq<StateEntry>, ps: Seq<Position>)
    ensures
        forall|n: int| 0 <= n < guard_candidates(m, ps).len() ==> {
            let x = #[trigger] guard_candidates(m, ps)[n];
            &&& ps.contains(x.0)
            &&& transition_at(m, x.0).guard matches Some(g) && guard_leaves(g).contains(x.1)
        },
        forall|n: int| 0 <= n < action_candidates(m, ps).len() ==> {
            let x = #[trigger] action_candidates(m, ps)[n];
            &&& ps.contains(x.0)
            &&& transition_at(m, x.0).action == Some(x.1)
        },
    decreases ps.len(),
{
    if ps.len() > 0 {
        let d = ps.drop_last();
        let p = ps.last();
        lemma_candidates_from(m, d);
        let gd = guard_candidates(m, d);
        let ad = action_candidates(m, d);
        assert forall|n: int| 0 <= n < guard_candidates(m, ps).len() implies {
            let x = #[trigger] guard_candidates(m, ps)[n];
            &&& ps.contains(x.0)
            &&& transition_at(m, x.0).guard matches Some(g) && guard_leaves(g).contains(x.1)
        } by {
            let x = guard_candidates(m, ps)[n];
            if n < gd.len() {
                assert(x == gd[n]);
                let w = choose|w: int| 0 <= w < d.len() && d[w] == x.0;
                assert(ps[w] == d[w]);
            } else {
                assert(x == guard_candidates_at(m, p)[n - gd.len()]);
                assert(ps[ps.len() - 1] == p);
                let g = transition_at(m, p).guard->0;
                assert(guard_leaves(g)[n - gd.len()] == x.1);
            }
        }
        assert forall|n: int| 0 <= n < action_candidates(m, ps).len() implies {
            let x = #[trigger] action_candidates(m, ps)[n];
            &&& ps.contains(x.0)
            &&& transition_at(m, x.0).action == Some(x.1)
        } by {
            let x = action_candidates(m, ps)[n];
            if n < ad.len() {
                assert(x == ad[n]);
                let w = choose|w: int| 0 <= w < d.len() && d[w] == x.0;
                assert(ps[w] == d[w]);
            } else {
                assert(x == action_candidates_at(m, p)[n - ad.len()]);
                assert(ps[ps.len() - 1] == p);
            }
        }
    }
}

/// The candidates of the transitions at `ps` include every guard and every
/// action of each of them.
proof fn lemma_candidates_cover(m: Seq<StateEntry>, ps: Seq<Position>, w: int)
    requires
        0 <= w < ps.len(),
    ensures
        forall|q: int| 0 <= q < guard_candidates_at(m, ps[w]).len()
            ==> guard_candidates(m, ps).contains(#[trigger] guard_candidates_at(m, ps[w])[q]),
        forall|q: int| 0 <= q < action_candidates_at(m, ps[w]).len()
            ==> action_candidates(m, ps).contains(#[trigger] action_candidates_at(m, ps[w])[q]),
    decreases ps.len(),
{
    let d = ps.drop_last();
    let gd = guard_candidates(m, d);
    let ad = action_candidates(m, d);
    if w < ps.len() - 1 {
        lemma_candidates_cover(m, d, w);
        assert(d[w] == ps[w]);
        assert forall|q: int| 0 <= q < guard_candidates_at(m, ps[w]).len()
            implies guard_candidates(m, ps).contains(#[trigger] guard_candidates_at(m, ps[w])[q]) by {
            let y = guard_candidates_at(m, ps[w])[q];
            let v = choose|v: int| 0 <= v < gd.len() && gd[v] == y;
            assert(guard_candidates(m, ps)[v] == y);
        }
        assert forall|q: int| 0 <= q < action_candidates_at(m, ps[w]).len()
            implies action_candidates(m, ps).contains(#[trigger] action_candidates_at(m, ps[w])[q]) by {
            let y = action_candidates_at(m, ps[w])[q];
            let v = choose|v: int| 0 <= v < ad.len() && ad[v] == y;
            assert(action_candidates(m, ps)[v] == y);
        }
    } else {
        assert(ps.last() == ps[w]);
        assert forall|q: int| 0 <= q < guard_candidates_at(m, ps[w]).len()
            implies guard_candidates(m, ps).contains(#[trigger] guard_candidates_at(m, ps[w])[q]) by {
            assert(guard_candidates(m, ps)[gd.len() + q] == guard_candidates_at(m, ps[w])[q]);
        }
        assert forall|q: int| 0 <= q < action_candidates_at(m, ps[w]).len()
            implies action_candidates(m, ps).contains(#[trigger] action_candidates_at(m, ps[w])[q]) by {
            assert(action_candidates(m, ps)[ad.len() + q] == action_candidates_at(m, ps[w])[q]);
        }
    }
}

/// Whether every count of `m` fits in a `usize`, as those of vectors do.
pub open spec fn counts_fit(m: Seq<StateEntry>) -> bool {
    &&& m.len() <= usize::MAX
    &&& forall|i: int| 0 <= i < m.len() ==> {
        &&& (#[trigger] m[i]).events@.len() <= usize::MAX
        &&& forall|j: int| 0 <= j < m[i].events@.len()
            ==> (#[trigger] m[i].events@[j]).mapping.transitions@.len() <= usize::MAX
    }
}

/// The counts of a definition fit in a `usize`.
proof fn lemma_counts_fit(sm: ParsedStateMachine)
    ensures
        counts_fit(sm.states_events_mapping@),
{
    let m = sm.states_events_mapping@;
    assert forall|i: int| 0 <= i < m.len() implies {
        &&& (#[trigger] m[i]).events@.len() <= usize::MAX
        &&& forall|j: int| 0 <= j < m[i].events@.len()
            ==> (#[trigger] m[i].events@[j]).mapping.transitions@.len() <= usize::MAX
    } by {
        assert forall|j: int| 0 <= j < m[i].events@.len()
            implies (#[trigger] m[i].events@[j]).mapping.transitions@.len() <= usize::MAX by {
            assert(m[i].events@[j].mapping.transitions.len() == m[i].events@[j].mapping.transitions@.len());
        }
        assert(m[i].events.len() == m[i].events@.len());
    }
    assert(sm.states_events_mapping.len() == m.len());
}

/// The positions of the transitions of state entry `i` name exactly its
/// transitions.
proof fn lemma_event_positions(m: Seq<StateEntry>, i: int, j: int)
    requires
        counts_fit(m),
        0 <= i < m.len(),
        0 <= j <= m[i].events@.len(),
    ensures
        forall|p: Position| #[trigger] event_positions(m, i, j).contains(p) <==> {
            &&& valid_position(m, p)
            &&& p.0 == i
            &&& p.1 < j
        },
    decreases j,
{
    if j > 0 {
        lemma_event_positions(m, i, j - 1);
        let prev = event_positions(m, i, j - 1);
        let n = m[i].events@[j - 1].mapping.transitions@.len();
        let tail = Seq::new(n, |k: int| (i as usize, (j - 1) as usize, k as usize));
        assert forall|p: Position| #[trigger] event_positions(m, i, j).contains(p) <==> {
            &&& valid_position(m, p)
            &&& p.0 == i
            &&& p.1 < j
        } by {
            if event_positions(m, i, j).contains(p) {
                let w = choose|w: int| 0 <= w < event_positions(m, i, j).len() && event_positions(m, i, j)[w] == p;
                if w < prev.len() {
                    assert(prev[w] == p);
                    assert(prev.contains(p));
                } else {
                    assert(tail[w - prev.len()] == p);
                    assert(valid_position(m, p));
                }
            }
            if valid_position(m, p) && p.0 == i && p.1 < j {
                if p.1 < j - 1 {
                    assert(prev.contains(p));
                    let w = choose|w: int| 0 <= w < prev.len() && prev[w] == p;
                    assert(event_positions(m, i, j)[w] == p);
                } else {
                    assert(tail[p.2 as int] == p);
                    assert(event_positions(m, i, j)[prev.len() + p.2] == p);
                }
            }
        }
    }
}

/// The positions of the first `i` state entries name exactly their
/// transitions.
proof fn lemma_positions_upto(m: Seq<StateEntry>, i: int)
    requires
        counts_fit(m),
        0 <= i <= m.len(),
    ensures
        forall|p: Position| #[trigger] positions_upto(m, i).contains(p) <==> valid_position(m, p) && p.0 < i,
    decreases i,
{
    if i > 0 {
        lemma_positions_upto(m, i - 1);
        lemma_event_positions(m, i - 1, m[i - 1].events@.len() as int);
        let prev = positions_upto(m, i - 1);
        let tail = event_positions(m, i - 1, m[i - 1].events@.len() as int);
        assert forall|p: Position| #[trigger] positions_upto(m, i).contains(p) <==> valid_position(m, p) && p.0 < i by {
            if positions_upto(m, i).contains(p) {
                let w = choose|w: int| 0 <= w < positions_upto(m, i).len() && positions_upto(m, i)[w] == p;
                if w < prev.len() {
                    assert(prev[w] == p);
                    assert(prev.contains(p));
                } else {
                    assert(tail[w - prev.len()] == p);
                    assert(tail.contains(p));
                }
            }
            if valid_position(m, p) && p.0 < i {
                if p.0 < i - 1 {
                    assert(prev.contains(p));
                    let w = choose|w: int| 0 <= w < prev.len() && prev[w] == p;
                    assert(positions_upto(m, i)[w] == p);
                } else {
                    assert(tail.contains(p));
                    let w = choose|w: int| 0 <= w < tail.len() && tail[w] == p;
                    assert(positions_upto(m, i)[prev.len() + w] == p);
                }
            }
        }
    }
}

/// The dispatch visits every transition: `positions` lists exactly the
/// positions of the transitions of the definition.
pub proof fn law_positions_are_the_transitions(sm: ParsedStateMachine, p: Position)
    ensures
        positions(sm.states_events_mapping@).contains(p) <==> valid_position(sm.states_events_mapping@, p),
{
    lemma_counts_fit(sm);
    lemma_positions_upto(sm.states_events_mapping@, sm.states_events_mapping@.len() as int);
}

/// The context trait declares each guard once: no two guard declarations
/// share a name.
pub proof fn law_guards_declared_once(sm: ParsedStateMachine, i: int, j: int)
    requires
        0 <= i < j < declared_guards(sm).len(),
    ensures
        declared_guards(sm)[i].1.ident@ != declared_guards(sm)[j].1.ident@,
{
    let m = sm.states_events_mapping@;
    lemma_first_of_each(guard_candidates(m, positions(m)));
}

/// The context trait declares each action once: no two action declarations
/// share a name.
pub proof fn law_actions_declared_once(sm: ParsedStateMachine, i: int, j: int)
    requires
        0 <= i < j < declared_actions(sm).len(),
    ensures
        declared_actions(sm)[i].1.ident@ != declared_actions(sm)[j].1.ident@,
{
    let m = sm.states_events_mapping@;
    lemma_first_of_each(action_candidates(m, positions(m)));
}

/// Every guard of every transition is declared: where the transition at `p`
/// has a guard expression, each guard in it has a declaration of its name.
pub proof fn law_every_guard_declared(sm: ParsedStateMachine, p: Position, q: int)
    requires
        valid_position(sm.states_events_mapping@, p),
        transition_at(sm.states_events_mapping@, p).guard is Some,
        0 <= q < guard_leaves(transition_at(sm.states_events_mapping@, p).guard->0).len(),
    ensures
        exists|n: int|
            0 <= n < declared_guards(sm).len() && (#[trigger] declared_guards(sm)[n]).1.ident@
                == guard_leaves(transition_at(sm.states_events_mapping@, p).guard->0)[q].ident@,
{
    let m = sm.states_events_mapping@;
    let ps = positions(m);
    law_positions_are_the_transitions(sm, p);
    let w = choose|w: int| 0 <= w < ps.len() && ps[w] == p;
    lemma_candidates_cover(m, ps, w);
    let c = guard_candidates(m, ps);
    let y = guard_candidates_at(m, p)[q];
    assert(c.contains(y));
    let v = choose|v: int| 0 <= v < c.len() && c[v] == y;
    lemma_first_of_each(c);
    assert(names_ident(first_of_each(c), c[v].1.ident@));
    let i = choose|i: int| 0 <= i < first_of_each(c).len() && (#[trigger] first_of_each(c)[i]).1.ident@ == c[v].1.ident@;
    assert(declared_guards(sm)[i] == first_of_each(c)[i]);
}

/// Every action is declared: where the transition at `p` has an action, it
/// has a declaration of its name.
pub proof fn law_every_action_declared(sm: ParsedStateMachine, p: Position)
    requires
        valid_position(sm.states_events_mapping@, p),
        transition_at(sm.states_events_mapping@, p).action is Some,
    ensures
        exists|n: int|
            0 <= n < declared_actions(sm).len() && (#[trigger] declared_actions(sm)[n]).1.ident@
                == transition_at(sm.states_events_mapping@, p).action->0.ident@,
{
    let m = sm.states_events_mapping@;
    let ps = positions(m);
    law_positions_are_the_transitions(sm, p);
    let w = choose|w: int| 0 <= w < ps.len() && ps[w] == p;
    lemma_candidates_cover(m, ps, w);
    let c = action_candidates(m, ps);
    let y = action_candidates_at(m, p)[0];
    assert(c.contains(y));
    let v = choose|v: int| 0 <= v < c.len() && c[v] == y;
    lemma_first_of_each(c);
    assert(names_ident(first_of_each(c), c[v].1.ident@));
    let i = choose|i: int| 0 <= i < first_of_each(c).len() && (#[trigger] first_of_each(c)[i]).1.ident@ == c[v].1.ident@;
    assert(declared_actions(sm)[i] == first_of_each(c)[i]);
}

/// A guard is declared where it is first used: declaration `n` is a guard of
/// a transition, and no transition before it in the dispatch uses a guard of
/// that name.
pub proof fn law_guard_declared_at_first_use(sm: ParsedStateMachine, n: int)
    requires
        0 <= n < declared_guards(sm).len(),
    ensures
        exists|q: int|
            first_use(guard_candidates(sm.states_events_mapping@, positions(sm.states_events_mapping@)), q)
                && guard_candidates(sm.states_events_mapping@, positions(sm.states_events_mapping@))[q]
                == declared_guards(sm)[n],
{
    let m = sm.states_events_mapping@;
    lemma_first_of_each(guard_candidates(m, positions(m)));
    assert(declared_guards(sm)[n] == first_of_each(guard_candidates(m, positions(m)))[n]);
}

/// An action is declared where it is first used.
pub proof fn law_action_declared_at_first_use(sm: ParsedStateMachine, n: int)
    requires
        0 <= n < declared_actions(sm).len(),
    ensures
        exists|q: int|
            first_use(action_candidates(sm.states_events_mapping@, positions(sm.states_events_mapping@)), q)
                && action_candidates(sm.states_events_mapping@, positions(sm.states_events_mapping@))[q]
                == declared_actions(sm)[n],
{
    let m = sm.states_events_mapping@;
    lemma_first_of_each(action_candidates(m, positions(m)));
    assert(declared_actions(sm)[n] == first_of_each(action_candidates(m, positions(m)))[n]);
}

/// `process_event` is async exactly where the entry and exit hooks are async
/// or some transition awaits its action or one of its guards.
pub proof fn law_async_exactly_when_awaiting(sm: ParsedStateMachine)
    ensures
        machine_is_async(sm) <==> sm.entry_exit_async || exists|p: Position|
            valid_position(sm.states_events_mapping@, p) && #[trigger] transition_awaits(
                sm.states_events_mapping@,
                p,
            ),
{
    let m = sm.states_events_mapping@;
    let ps = positions(m);
    let gc = guard_candidates(m, ps);
    let ac = action_candidates(m, ps);
    lemma_candidates_from(m, ps);
    if some_awaited(gc) {
        let v = choose|v: int| 0 <= v < gc.len() && (#[trigger] gc[v]).1.is_async;
        let x = gc[v];
        law_positions_are_the_transitions(sm, x.0);
        let g = transition_at(m, x.0).guard->0;
        let q = choose|q: int| 0 <= q < guard_leaves(g).len() && guard_leaves(g)[q] == x.1;
        assert(guard_leaves(g)[q].is_async);
        assert(transition_awaits(m, x.0));
    }
    if some_awaited(ac) {
        let v = choose|v: int| 0 <= v < ac.len() && (#[trigger] ac[v]).1.is_async;
        let x = ac[v];
        law_positions_are_the_transitions(sm, x.0);
        assert(transition_awaits(m, x.0));
    }
    if exists|p: Position| valid_position(m, p) && #[trigger] transition_awaits(m, p) {
        let p = choose|p: Position| valid_position(m, p) && #[trigger] transition_awaits(m, p);
        law_positions_are_the_transitions(sm, p);
        let w = choose|w: int| 0 <= w < ps.len() && ps[w] == p;
        lemma_candidates_cover(m, ps, w);
        let t = transition_at(m, p);
        if t.action matches Some(a) && a.is_async {
            let y = action_candidates_at(m, p)[0];
            assert(ac.contains(y));
            let v = choose|v: int| 0 <= v < ac.len() && ac[v] == y;
            assert(ac[v].1.is_async);
        } else {
            let g = t.guard->0;
            let q = choose|q: int| 0 <= q < guard_leaves(g).len() && (#[trigger] guard_leaves(g)[q]).is_async;
            let y = guard_candidates_at(m, p)[q];
            assert(gc.contains(y));
            let v = choose|v: int| 0 <= v < gc.len() && gc[v] == y;
            assert(gc[v].1.is_async);
        }
    }
}

/// Each state, and each event, is one variant of its enum: where the names
/// are distinct, so are the variants'.
pub proof fn law_variants_distinct(v: Seq<Variant>, names: Seq<String>, defs: Seq<NamedData>)
    requires
        variants_of(v, names, defs),
        names_distinct(names),
    ensures
        names_distinct(variant_names(v)),
{
    broadcast use vstd::seq_lib::group_to_multiset_ensures;
    let vn = variant_names(v);
    assert(names.no_duplicates()) by {
        assert forall|i: int, j: int| 0 <= i < names.len() && 0 <= j < names.len() && i != j
            implies names[i] != names[j] by {
            if i < j {
                assert(names[i]@ != names[j]@);
            } else {
                assert(names[j]@ != names[i]@);
            }
        }
    }
    names.lemma_multiset_has_no_duplicates();
    vn.lemma_multiset_has_no_duplicates_conv();
    assert forall|i: int, j: int| 0 <= i < j < vn.len() implies (#[trigger] vn[i])@ != (#[trigger] vn[j])@ by {
        assert(vn.contains(vn[i]));
        assert(vn.contains(vn[j]));
        assert(names.to_multiset().count(vn[i]) > 0);
        assert(names.to_multiset().count(vn[j]) > 0);
        assert(names.contains(vn[i]));
        assert(names.contains(vn[j]));
        let k = choose|k: int| 0 <= k < names.len() && names[k] == vn[i];
        let l = choose|l: int| 0 <= l < names.len() && names[l] == vn[j];
        assert(vn[i] != vn[j]);
        if vn[i]@ == vn[j]@ {
            if k < l {
                assert(names[k]@ != names[l]@);
            } else {
                assert(names[l]@ != names[k]@);
            }
        }
    }
}


/// Whether a parameter declared as `p` takes what a call passes as `a`: the
/// binding itself for a parameter of the type as written, a reference to the
/// binding for a parameter of a shared reference type, nothing for none.
pub open spec fn param_takes(p: ParamDecl, a: ArgForm) -> bool {
    match p {
        ParamDecl::Absent => a == ArgForm::Absent,
        ParamDecl::Plain(_) => a == ArgForm::Plain,
        ParamDecl::Shared(_) => a == ArgForm::Borrowed,
        ParamDecl::Exclusive(_) => false,
    }
}

/// The arm of an event in `process_event` binds the event's data exactly
/// when the event data definitions give that event a data type, and so
/// exactly when the event's variant carries data.
pub proof fn law_event_arm_binds_event_data(sm: ParsedStateMachine, g: GeneratedCode, i: int, j: int)
    requires
        generated_for(sm, g),
        0 <= i < g.arms@.len(),
        0 <= j < g.arms@[i].events@.len(),
    ensures
        g.arms@[i].events@[j].binds_data == (data_of(
            sm.event_data.data_types@,
            sm.states_events_mapping@[i].events@[j].event@,
        ) is Some),
        forall|k: int|
            0 <= k < g.event_variants@.len()
                && (#[trigger] g.event_variants@[k]).name@ == sm.states_events_mapping@[i].events@[j].event@
                ==> (g.arms@[i].events@[j].binds_data == g.event_variants@[k].data is Some),
{
    assert(crate::codegen::state_arm_of(sm, g.arms@[i], i));
    assert(crate::codegen::event_arm_of(sm, g.arms@[i].events@[j], i, j));
}

/// A guard's declaration takes the data of the state and of the event in
/// the form the dispatch passes them: data of a type that is not a
/// reference by shared reference, a reference type as written.
pub proof fn law_guard_takes_what_dispatch_passes(sm: ParsedStateMachine, d: GuardDecl, c: Candidate, b: TransitionBlock)
    requires
        guard_decl_of(sm, d, c),
        block_of(sm, b, c.0),
    ensures
        b.guard matches Some(gc) ==> param_takes(d.state_param, gc.args.state)
            && param_takes(d.event_param, gc.args.event),
        data_of(sm.state_data.data_types@, state_at(sm.states_events_mapping@, c.0).state@) matches Some(t)
            ==> d.state_param == (if t.is_reference { ParamDecl::Plain(t.text) } else { ParamDecl::Shared(t.text) }),
        data_of(sm.event_data.data_types@, event_at(sm.states_events_mapping@, c.0).event@) matches Some(t)
            ==> d.event_param == (if t.is_reference { ParamDecl::Plain(t.text) } else { ParamDecl::Shared(t.text) }),
{
}

/// The constructor takes the data of the starting state: the type that the
/// state data definitions give it, which is the data of its variant.
pub proof fn law_constructor_takes_starting_data(sm: ParsedStateMachine, g: GeneratedCode)
    requires
        generated_for(sm, g),
    ensures
        g.starting_data == data_text(data_of(sm.state_data.data_types@, sm.starting_state@)),
        forall|k: int|
            0 <= k < g.state_variants@.len() && (#[trigger] g.state_variants@[k]).name@ == sm.starting_state@
                ==> g.state_variants@[k].data == g.starting_data,
{
}

/// The lifetimes `process_event` declares itself are the lifetimes of the
/// events that are not lifetimes of the states: none of them is a state
/// lifetime, and every event lifetime that is not a state lifetime is one.
pub proof fn law_event_only_lifetimes(sm: ParsedStateMachine, g: GeneratedCode)
    requires
        generated_for(sm, g),
    ensures
        forall|k: int| 0 <= k < g.event_only_lifetimes@.len() ==> {
            &&& has_name(sm.event_data.all_lifetimes.names@, (#[trigger] g.event_only_lifetimes@[k])@)
            &&& !has_name(sm.state_data.all_lifetimes.names@, g.event_only_lifetimes@[k]@)
        },
        forall|k: int|
            0 <= k < sm.event_data.all_lifetimes.names@.len()
                && !has_name(sm.state_data.all_lifetimes.names@, (#[trigger] sm.event_data.all_lifetimes.names@[k])@)
                ==> has_name(g.event_only_lifetimes@, sm.event_data.all_lifetimes.names@[k]@),
{
    let ev = sm.event_data.all_lifetimes.names@;
    let st = sm.state_data.all_lifetimes.names@;
    let pred = |x: String| !has_name(st, x@);
    let eo = g.event_only_lifetimes@;
    assert(eo == ev.filter(pred));
    assert forall|k: int| 0 <= k < eo.len() implies {
        &&& has_name(ev, (#[trigger] eo[k])@)
        &&& !has_name(st, eo[k]@)
    } by {
        ev.lemma_filter_pred(pred, k);
        ev.lemma_filter_contains_rev(pred, eo[k]);
        let w = choose|w: int| 0 <= w < ev.len() && ev[w] == eo[k];
        assert(ev[w]@ == eo[k]@);
    }
    assert forall|k: int| 0 <= k < ev.len() && !has_name(st, (#[trigger] ev[k])@) implies has_name(eo, ev[k]@) by {
        assert(pred(ev[k]));
        ev.lemma_filter_contains(pred, k);
        let w = choose|w: int| 0 <= w < eo.len() && eo[w] == ev[k];
        assert(eo[w]@ == ev[k]@);
    }
}

/// A transition that leads to another state changes the current state:
/// after telling the context of the move and before calling the entry hook
/// of the state it enters, whether or not it has an action. A transition
/// that leads back to its own state never changes it.
pub proof fn law_leaving_transition_changes_state(sm: ParsedStateMachine, b: TransitionBlock, p: Position)
    requires
        block_of(sm, b, p),
    ensures
        state_at(sm.states_events_mapping@, p).state@ != transition_at(sm.states_events_mapping@, p).out_state@ ==> {
            let s = b.steps@;
            let n = s.len();
            &&& n >= 5
            &&& s[0] == Step::ExitHook(b.exit_hook)
            &&& s[n - 4] == Step::Callback
            &&& s[n - 3] == Step::ChangeState
            &&& s[n - 2] == Step::EntryHook(b.entry_hook)
            &&& s[n - 1] == Step::Return
        },
        state_at(sm.states_events_mapping@, p).state@ == transition_at(sm.states_events_mapping@, p).out_state@
            ==> forall|k: int| 0 <= k < b.steps@.len() ==> !((#[trigger] b.steps@[k]) is ChangeState),
{
    let s = b.steps@;
    if b.same_state {
        assert forall|k: int| 0 <= k < s.len() implies !((#[trigger] s[k]) is ChangeState) by {
            if k < s.len() - 1 {
                assert(s[k] == crate::codegen::action_steps(b.action)[k]);
            }
        }
    }
}

} // verus!
