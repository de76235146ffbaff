use vstd::prelude::*;
use vstd::string::StringExecFns;

use crate::command::Command;
use crate::error::Error;
use crate::world::{World, WorldModel};

verus! {

/// A fault double whose admission and apply steps both always fail; used
/// to exercise a queue's error propagation.
#[derive(Clone, Copy, Debug)]
pub struct PanicCommand {}

impl PanicCommand {
    pub fn new() -> (r: Self) {
        Self {}
    }
}

/// A fault double that is admitted but always fails to apply; used to
/// exercise a queue's mid-batch abort.
#[derive(Clone, Copy, Debug)]
pub struct ConsumePanicCommand {}

impl ConsumePanicCommand {
    pub fn new() -> (r: Self) {
        Self {}
    }
}

pub open spec fn panic_render_spec() -> Seq<char> {
    "{ \"type\": \"panic\" }"@
}

pub open spec fn consume_panic_render_spec() -> Seq<char> {
    "{ \"type\": \"consume_panic\" }"@
}

impl Command for PanicCommand {
    open spec fn valid(&self, w: WorldModel) -> bool {
        true
    }

    open spec fn init_ens(
        &self,
        pre: WorldModel,
        post: WorldModel,
        post_self: Self,
        r: Result<(), Error>,
    ) -> bool {
        post == pre && r == Err::<(), Error>(Error::Fault)
    }

    open spec fn consume_ens(
        &self,
        pre: WorldModel,
        post: WorldModel,
        post_self: Self,
        r: Result<bool, Error>,
    ) -> bool {
        post == pre && r == Err::<bool, Error>(Error::Fault)
    }

    open spec fn render_spec(&self, w: WorldModel) -> Seq<char> {
        panic_render_spec()
    }

    fn initialize(&mut self, world: &mut World) -> (r: Result<(), Error>) {
        Err(Error::Fault)
    }

    fn consume(&mut self, world: &mut World) -> (r: Result<bool, Error>) {
        Err(Error::Fault)
    }

    fn render(&self, world: &World) -> (r: Result<String, Error>) {
        Ok(String::from_str("{ \"type\": \"panic\" }"))
    }
}

impl Command for ConsumePanicCommand {
    open spec fn valid(&self, w: WorldModel) -> bool {
        true
    }

    open spec fn init_ens(
        &self,
        pre: WorldModel,
        post: WorldModel,
        post_self: Self,
        r: Result<(), Error>,
    ) -> bool {
        post == pre && r == Ok::<(), Error>(())
    }

    open spec fn consume_ens(
        &self,
        pre: WorldModel,
        post: WorldModel,
        post_self: Self,
        r: Result<bool, Error>,
    ) -> bool {
        post == pre && r == Err::<bool, Error>(Error::Fault)
    }

    open spec fn render_spec(&self, w: WorldModel) -> Seq<char> {
        consume_panic_render_spec()
    }

    fn initialize(&mut self, world: &mut World) -> (r: Result<(), Error>) {
        Ok(())
    }

    fn consume(&mut self, world: &mut World) -> (r: Result<bool, Error>) {
        Err(Error::Fault)
    }

    fn render(&self, world: &World) -> (r: Result<String, Error>) {
        Ok(String::from_str("{ \"type\": \"consume_panic\" }"))
    }
}

} // verus!
