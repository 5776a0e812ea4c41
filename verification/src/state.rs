//! States: the stages that a ticket passes through.

use vstd::prelude::*;

verus! {

/// What tells one state from all others: the adapter it belongs to and its name.
#[derive(PartialEq, Clone, Eq, Hash)]
pub struct StateIdentifier {
    pub adapter: String,
    pub name: String,
}

impl Default for StateIdentifier {
    fn default() -> (r: Self)
        ensures
            r.adapter@ == Seq::<char>::empty(),
            r.name@ == Seq::<char>::empty(),
    {
        StateIdentifier { adapter: String::new(), name: String::new() }
    }
}

impl StateIdentifier {
    /// The identifier of the state with the given name in the given adapter.
    pub fn new(adapter: &String, name: &String) -> (r: Self)
        ensures
            r.adapter@ == adapter@,
            r.name@ == name@,
    {
        StateIdentifier { adapter: adapter.clone(), name: name.clone() }
    }
}

/// A stage of tickets, with its place in the order of the stages.
#[derive(PartialEq, Clone)]
pub struct State {
    pub identifier: StateIdentifier,
    pub description: String,
    pub sorting_order: i64,
}

impl Default for State {
    fn default() -> (r: Self)
        ensures
            r.identifier.adapter@ == Seq::<char>::empty(),
            r.identifier.name@ == Seq::<char>::empty(),
            r.description@ == Seq::<char>::empty(),
            r.sorting_order == 0,
    {
        State { identifier: StateIdentifier::default(), description: String::new(), sorting_order: 0 }
    }
}

impl State {
    /// The state with the given name.
    pub fn with_name(self, name: String) -> (r: State)
        ensures
            r == (State { identifier: StateIdentifier { name, ..self.identifier }, ..self }),
    {
        let mut state = self;
        state.identifier.name = name;
        state
    }

    /// The state at the given place in the order of the stages.
    pub fn with_order(self, sorting_order: i64) -> (r: State)
        ensures
            r == (State { sorting_order, ..self }),
    {
        let mut state = self;
        state.sorting_order = sorting_order;
        state
    }

    /// The state with the given description.
    pub fn with_description(self, description: String) -> (r: State)
        ensures
            r == (State { description, ..self }),
    {
        let mut state = self;
        state.description = description;
        state
    }

    /// The state as one of the adapter with the given name.
    pub fn with_adapter_name(self, adapter: String) -> (r: State)
        ensures
            r == (State { identifier: StateIdentifier { adapter, ..self.identifier }, ..self }),
    {
        let mut state = self;
        state.identifier.adapter = adapter;
        state
    }
}

} // verus!
