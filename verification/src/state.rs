//! The states that a workflow moves through.
use crate::context::{AsyncContext, Context};
use vstd::prelude::*;

verus! {

/// One state of a workflow. `V` is the type of the values that the state
/// records in a [`Context`] for middleware.
pub trait State<V> {
    /// Whether [`State::name`] and [`State::record_context`] follow
    /// [`State::state_name`] and [`State::recorded_context`]; by default
    /// they are not specified.
    open spec fn obeys_state_spec() -> bool {
        false
    }

    /// The state's name.
    open spec fn state_name(&self) -> Seq<char> {
        arbitrary()
    }

    /// The values, by key, that the state records for middleware.
    open spec fn recorded_context(&self) -> Map<Seq<char>, V> {
        arbitrary()
    }

    /// The state's name, as middleware reports it.
    fn name(&self) -> (r: String)
        ensures
            Self::obeys_state_spec() ==> r@ == self.state_name(),
    ;

    /// Records what middleware should know about this state: each value
    /// that it records replaces what `ctx` held under that key.
    fn record_context(&self, ctx: &mut Context<V>)
        ensures
            Self::obeys_state_spec() ==> final(ctx)@ == old(ctx)@.union_prefer_right(
                self.recorded_context(),
            ),
    ;
}

/// One state of a workflow whose context may cross threads.
pub trait AsyncState<V: Send + Sync> {
    /// The state's name, as middleware reports it.
    fn name(&self) -> String;

    /// Records what middleware should know about this state; by default
    /// nothing.
    fn record_context(&self, ctx: &mut AsyncContext<V>) {
    }
}

} // verus!
