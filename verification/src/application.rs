use vstd::prelude::*;

verus! {

/// The host-provided update/view loop: `new` builds the initial state,
/// `update` consumes one message's tokens, `view` pushes the
/// authoritative widget tree back into the screen, and `run` drives
/// the frame cycle until the application decides to exit.
pub trait Application {
    fn new() -> Self where Self: core::marker::Sized;

    fn update(&mut self, msg: Vec<String>);

    fn view(&mut self);

    fn run(&mut self);
}

} // verus!
