//! The checked form of a state machine definition, which code generation reads:
//! its states and events, the data they carry, and per state and event the
//! transitions in the order they were written.

use vstd::prelude::*;
use crate::transition::{AsyncIdent, GuardExpression};

verus! {

/// The source text of a type, and whether it is a reference type (`&T`).
pub struct DataType {
    pub text: String,
    pub is_reference: bool,
}

impl DataType {
    /// A copy of this type.
    pub fn copy(&self) -> (r: DataType)
        ensures
            r == *self,
    {
        DataType { text: self.text.clone(), is_reference: self.is_reference }
    }
}

/// An outer attribute `#[...]`, as the source text between the brackets.
pub struct Attribute {
    pub meta: String,
}

impl Attribute {
    /// A copy of this attribute.
    pub fn copy(&self) -> (r: Attribute)
        ensures
            r == *self,
    {
        Attribute { meta: self.meta.clone() }
    }
}

/// Copies a list of attributes.
pub fn copy_attributes(v: &Vec<Attribute>) -> (r: Vec<Attribute>)
    ensures
        r@ == v@,
{
    let mut r: Vec<Attribute> = Vec::new();
    for i in 0..v.len()
        invariant
            r@ == v@.take(i as int),
    {
        r.push(v[i].copy());
        assert(r@ =~= v@.take(i + 1));
    }
    assert(v@.take(v.len() as int) =~= v@);
    r
}

/// Copies a list of strings.
pub fn copy_strings(v: &Vec<String>) -> (r: Vec<String>)
    ensures
        r@ == v@,
{
    let mut r: Vec<String> = Vec::new();
    for i in 0..v.len()
        invariant
            r@ == v@.take(i as int),
    {
        r.push(v[i].clone());
        assert(r@ =~= v@.take(i + 1));
    }
    assert(v@.take(v.len() as int) =~= v@);
    r
}

/// Whether some string of `s` reads `x`.
pub open spec fn has_name(s: Seq<String>, x: Seq<char>) -> bool {
    exists|i: int| 0 <= i < s.len() && (#[trigger] s[i])@ == x
}

/// Whether the strings of `s` read pairwise differently.
pub open spec fn names_distinct(s: Seq<String>) -> bool {
    forall|i: int, j: int| 0 <= i < j < s.len() ==> (#[trigger] s[i])@ != (#[trigger] s[j])@
}

/// Whether `s` holds `x` by its text.
pub fn contains_name(s: &Vec<String>, x: &String) -> (r: bool)
    ensures
        r == has_name(s@, x@),
{
    for i in 0..s.len()
        invariant
            forall|j: int| 0 <= j < i ==> (#[trigger] s@[j])@ != x@,
    {
        if s[i] == *x {
            return true;
        }
    }
    false
}

/// A set of lifetime names that keeps the order in which they came.
pub struct Lifetimes {
    pub names: Vec<String>,
}

/// `s` with `x` added at its end, unless `s` already holds it.
pub open spec fn lifetimes_insert(s: Seq<String>, x: String) -> Seq<String> {
    if has_name(s, x@) {
        s
    } else {
        s.push(x)
    }
}

/// `s` with each of `o`, in turn, added by `lifetimes_insert`.
pub open spec fn lifetimes_extend(s: Seq<String>, o: Seq<String>) -> Seq<String>
    decreases o.len(),
{
    if o.len() == 0 {
        s
    } else {
        lifetimes_insert(lifetimes_extend(s, o.drop_last()), o.last())
    }
}

/// The names of `s` that `o` does not hold, in the order of `s`.
pub open spec fn lifetimes_minus(s: Seq<String>, o: Seq<String>) -> Seq<String> {
    s.filter(|x: String| !has_name(o, x@))
}

impl Lifetimes {
    /// An empty set.
    pub fn new() -> (r: Lifetimes)
        ensures
            r.names@ == Seq::<String>::empty(),
    {
        Lifetimes { names: Vec::new() }
    }

    /// Adds `x` at the end, unless it is there already.
    pub fn insert(&mut self, x: &String)
        ensures
            final(self).names@ == lifetimes_insert(old(self).names@, *x),
    {
        if !contains_name(&self.names, x) {
            self.names.push(x.clone());
        }
    }

    /// Adds each name of `other`, in order.
    pub fn extend(&mut self, other: &Lifetimes)
        ensures
            final(self).names@ == lifetimes_extend(old(self).names@, other.names@),
    {
        let ghost start = self.names@;
        for i in 0..other.names.len()
            invariant
                self.names@ == lifetimes_extend(start, other.names@.take(i as int)),
        {
            self.insert(&other.names[i]);
            assert(other.names@.take(i + 1).drop_last() =~= other.names@.take(i as int));
        }
        assert(other.names@.take(other.names.len() as int) =~= other.names@);
    }

    /// The names of `self` that `other` does not hold.
    pub fn minus(&self, other: &Lifetimes) -> (r: Lifetimes)
        ensures
            r.names@ == lifetimes_minus(self.names@, other.names@),
    {
        let mut out: Vec<String> = Vec::new();
        for i in 0..self.names.len()
            invariant
                out@ == lifetimes_minus(self.names@.take(i as int), other.names@),
        {
            let ghost pre = self.names@.take(i as int);
            assert(self.names@.take(i + 1) =~= pre.push(self.names@[i as int]));
            reveal_with_fuel(Seq::filter, 1);
            assert(self.names@.take(i + 1).drop_last() =~= pre);
            if !contains_name(&other.names, &self.names[i]) {
                out.push(self.names[i].clone());
            }
        }
        assert(self.names@.take(self.names.len() as int) =~= self.names@);
        Lifetimes { names: out }
    }

    /// A copy of this set.
    pub fn copy(&self) -> (r: Lifetimes)
        ensures
            r.names@ == self.names@,
    {
        Lifetimes { names: copy_strings(&self.names) }
    }
}

/// A data type under a state's or an event's name.
pub struct NamedData {
    pub name: String,
    pub data: DataType,
}

/// The lifetimes that a state's or an event's data type uses.
pub struct NamedLifetimes {
    pub name: String,
    pub lifetimes: Lifetimes,
}

/// What the data types of the states, or of the events, are.
pub struct DataDefinitions {
    pub data_types: Vec<NamedData>,
    pub lifetimes: Vec<NamedLifetimes>,
    pub all_lifetimes: Lifetimes,
}

/// The data type under the first entry of `s` named `k`.
pub open spec fn data_of(s: Seq<NamedData>, k: Seq<char>) -> Option<DataType>
    decreases s.len(),
{
    if s.len() == 0 {
        None
    } else if s[0].name@ == k {
        Some(s[0].data)
    } else {
        data_of(s.drop_first(), k)
    }
}

/// The lifetimes under the first entry of `s` named `k`; none where there is
/// no such entry.
pub open spec fn lifetimes_of(s: Seq<NamedLifetimes>, k: Seq<char>) -> Seq<String>
    decreases s.len(),
{
    if s.len() == 0 {
        Seq::empty()
    } else if s[0].name@ == k {
        s[0].lifetimes.names@
    } else {
        lifetimes_of(s.drop_first(), k)
    }
}

/// Looks up the data type named `k`.
pub fn find_data<'a>(s: &'a Vec<NamedData>, k: &String) -> (r: Option<&'a DataType>)
    ensures
        match r {
            Some(d) => data_of(s@, k@) == Some(*d),
            None => data_of(s@, k@) is None,
        },
{
    assert(s@.skip(0) =~= s@);
    for i in 0..s.len()
        invariant
            data_of(s@, k@) == data_of(s@.skip(i as int), k@),
    {
        assert(s@.skip(i as int).drop_first() =~= s@.skip(i + 1));
        if s[i].name == *k {
            return Some(&s[i].data);
        }
    }
    None
}

/// Looks up the lifetimes under the name `k`, as a set of its own.
pub fn find_lifetimes(s: &Vec<NamedLifetimes>, k: &String) -> (r: Lifetimes)
    ensures
        r.names@ == lifetimes_of(s@, k@),
{
    assert(s@.skip(0) =~= s@);
    for i in 0..s.len()
        invariant
            lifetimes_of(s@, k@) == lifetimes_of(s@.skip(i as int), k@),
    {
        assert(s@.skip(i as int).drop_first() =~= s@.skip(i + 1));
        if s[i].name == *k {
            return s[i].lifetimes.copy();
        }
    }
    Lifetimes::new()
}

/// One transition of a state on an event.
pub struct EventMappingTransition {
    pub guard: Option<GuardExpression>,
    pub action: Option<AsyncIdent>,
    pub out_state: String,
    pub internal_transition: bool,
}

/// The transitions of one state on one event, in the order written.
pub struct EventMapping {
    pub in_state: String,
    pub event: String,
    pub transitions: Vec<EventMappingTransition>,
}

/// An event's name and the transitions it triggers.
pub struct EventEntry {
    pub event: String,
    pub mapping: EventMapping,
}

/// A state's name and the events it handles.
pub struct StateEntry {
    pub state: String,
    pub events: Vec<EventEntry>,
}

/// The name of a machine, and where it stands in the source.
pub struct MachineName {
    pub text: String,
    pub span: proc_macro2::Span,
}

/// A checked state machine definition.
pub struct ParsedStateMachine {
    pub name: Option<MachineName>,
    pub states_attr: Vec<Attribute>,
    pub events_attr: Vec<Attribute>,
    pub states: Vec<String>,
    pub starting_state: String,
    pub state_data: DataDefinitions,
    pub events: Vec<String>,
    pub event_data: DataDefinitions,
    pub states_events_mapping: Vec<StateEntry>,
    pub entry_exit_async: bool,
}

/// Whether no two entries of `s` share a name.
pub open spec fn data_names_distinct(s: Seq<NamedData>) -> bool {
    forall|i: int, j: int| 0 <= i < j < s.len() ==> (#[trigger] s[i]).name@ != (#[trigger] s[j]).name@
}

/// Whether no two entries of `s` share a name.
pub open spec fn lifetime_names_distinct(s: Seq<NamedLifetimes>) -> bool {
    forall|i: int, j: int| 0 <= i < j < s.len() ==> (#[trigger] s[i]).name@ != (#[trigger] s[j]).name@
}

/// Whether no two of the definitions share a name.
pub open spec fn definitions_distinct(d: DataDefinitions) -> bool {
    &&& data_names_distinct(d.data_types@)
    &&& lifetime_names_distinct(d.lifetimes@)
    &&& names_distinct(d.all_lifetimes.names@)
}

/// Whether the lists of a definition hold each key once, as the maps of a
/// checked definition do: states, events, the states of the dispatch, the
/// events of each of its states, and the names of the data types and
/// lifetimes.
pub open spec fn keys_distinct(sm: ParsedStateMachine) -> bool {
    let m = sm.states_events_mapping@;
    &&& names_distinct(sm.states@)
    &&& names_distinct(sm.events@)
    &&& definitions_distinct(sm.state_data)
    &&& definitions_distinct(sm.event_data)
    &&& forall|i: int, j: int| 0 <= i < j < m.len() ==> (#[trigger] m[i]).state@ != (#[trigger] m[j]).state@
    &&& forall|i: int| 0 <= i < m.len() ==> {
        let evs = (#[trigger] m[i]).events@;
        forall|a: int, b: int| 0 <= a < b < evs.len() ==> (#[trigger] evs[a]).event@ != (#[trigger] evs[b]).event@
    }
}

} // verus!
