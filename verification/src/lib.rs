//! A warehouse floor simulation core: lockable entities on a 3-D grid,
//! per-entity item ledgers, a world-level occupancy ledger, and a two-phase
//! (validate/reserve, then apply) command engine with a batch queue that
//! retains multi-tick commands.

pub mod command;
pub mod command_queue;
pub mod error;
pub mod parallel_queue;
pub mod fmt;
pub mod laws;
pub mod move_command;
pub mod panic_command;
pub mod pick_command;
pub mod test_command;
pub mod transfer_command;
pub mod location;
pub mod object;
pub mod one_bot;
pub mod one_runner;
pub mod util;
pub mod storage;
pub mod world;

pub use error::Error;
pub use location::Location;
pub use storage::Storage;
pub use storage::Item;
pub use storage::ItemSet;
pub use object::{Object, IntoAny, ObjectModel, AnyObject, Bot, Shelf, Site, TestObject};
pub use world::{World, WorldModel};
pub use command::{Command, AnyCommand};
pub use command_queue::CommandQueue;
pub use parallel_queue::ParallelCommandQueue;
pub use move_command::BotMoveCommand;
pub use transfer_command::{TransferCommand, BotTransferToCommand, BotTransferFromCommand};
pub use pick_command::{PickCommand, SitePickCommand, SitePutCommand};
pub use test_command::{TestCommand, TestNextCommand, TestCommandStatus};
pub use panic_command::{PanicCommand, ConsumePanicCommand};
pub use one_bot::one_bot;
pub use one_runner::OneRunner;
pub use util::{move_location, map_as_object};
