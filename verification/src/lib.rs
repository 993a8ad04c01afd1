//! A one-shot timer scheduler: callers ask to be notified once after a delay,
//! and a single worker keeps the pending deadlines in a min-heap and fires
//! each completion signal when its deadline has passed.
//!
//! - `event`: a request, the pending event it becomes, and the completion
//!   signal that both carry.
//! - `heap`: the priority queue of pending events, an earliest deadline first.
//! - `model`: the worker's rules, over the pending events as a multiset.
//! - `worker`: the worker itself, one pass at a time: accept what was
//!   requested, fire what is due, say how long to rest.
//! - `clock`: the worker's millisecond clock.
//! - `laws`: what follows for every schedule and every moment.

pub mod clock;
pub mod event;
pub mod heap;
pub mod laws;
pub mod model;
pub mod worker;
