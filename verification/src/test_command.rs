use vstd::prelude::*;
use vstd::string::StringExecFns;

use crate::command::Command;
use crate::error::Error;
use crate::world::{World, WorldModel};

verus! {

/// What a test double observed of its own lifecycle.
#[derive(Clone, Copy, Debug, PartialEq, Eq, Structural)]
pub struct TestCommandStatus {
    pub consumed: bool,
    pub initialized: bool,
}

/// A one-shot command that only records that its lifecycle steps ran.
#[derive(Clone, Copy, Debug)]
pub struct TestCommand {
    pub data: TestCommandStatus,
}

impl TestCommand {
    pub fn new() -> (r: Self)
        ensures
            r.data == (TestCommandStatus { consumed: false, initialized: false }),
    {
        Self { data: TestCommandStatus { consumed: false, initialized: false } }
    }
}

pub open spec fn test_init_step(c: TestCommand) -> TestCommand {
    TestCommand { data: TestCommandStatus { initialized: true, ..c.data } }
}

pub open spec fn test_consume_step(c: TestCommand) -> TestCommand {
    TestCommand { data: TestCommandStatus { consumed: true, ..c.data } }
}

pub open spec fn test_render_spec() -> Seq<char> {
    "{ \"type\": \"test\" }"@
}

pub open spec fn test_next_render_spec() -> Seq<char> {
    "{ \"type\": \"testnext\" }"@
}

impl Command for TestCommand {
    open spec fn valid(&self, w: WorldModel) -> bool {
        true
    }

    open spec fn init_ens(
        &self,
        pre: WorldModel,
        post: WorldModel,
        post_self: Self,
        r: Result<(), Error>,
    ) -> bool {
        post == pre && post_self == test_init_step(*self) && r == Ok::<(), Error>(())
    }

    open spec fn consume_ens(
        &self,
        pre: WorldModel,
        post: WorldModel,
        post_self: Self,
        r: Result<bool, Error>,
    ) -> bool {
        post == pre && post_self == test_consume_step(*self) && r == Ok::<bool, Error>(false)
    }

    open spec fn render_spec(&self, w: WorldModel) -> Seq<char> {
        test_render_spec()
    }

    fn initialize(&mut self, world: &mut World) -> (r: Result<(), Error>) {
        self.data.initialized = true;
        Ok(())
    }

    fn consume(&mut self, world: &mut World) -> (r: Result<bool, Error>) {
        self.data.consumed = true;
        Ok(false)
    }

    fn render(&self, world: &World) -> (r: Result<String, Error>) {
        Ok(String::from_str("{ \"type\": \"test\" }"))
    }
}

/// A command that declares itself unfinished on every tick, to exercise a
/// queue's multi-tick retention.
#[derive(Clone, Copy, Debug)]
pub struct TestNextCommand {}

impl TestNextCommand {
    pub fn new() -> (r: Self) {
        Self {}
    }
}

impl Command for TestNextCommand {
    open spec fn valid(&self, w: WorldModel) -> bool {
        true
    }

    open spec fn init_ens(
        &self,
        pre: WorldModel,
        post: WorldModel,
        post_self: Self,
        r: Result<(), Error>,
    ) -> bool {
        post == pre && r == Ok::<(), Error>(())
    }

    open spec fn consume_ens(
        &self,
        pre: WorldModel,
        post: WorldModel,
        post_self: Self,
        r: Result<bool, Error>,
    ) -> bool {
        post == pre && r == Ok::<bool, Error>(true)
    }

    open spec fn render_spec(&self, w: WorldModel) -> Seq<char> {
        test_next_render_spec()
    }

    fn initialize(&mut self, world: &mut World) -> (r: Result<(), Error>) {
        Ok(())
    }

    fn consume(&mut self, world: &mut World) -> (r: Result<bool, Error>) {
        Ok(true)
    }

    fn render(&self, world: &World) -> (r: Result<String, Error>) {
        Ok(String::from_str("{ \"type\": \"testnext\" }"))
    }
}

} // verus!
