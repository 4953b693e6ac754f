//! The grid: coordinates, footprints, droplets and the shared grid state.

pub mod activation;
pub mod droplet;
pub mod gridview;
pub mod location;
pub mod parse;
pub mod snapshot;
pub mod topology;

pub use self::droplet::{Droplet, DropletId, DropletInfo, ProcessId, MINIMUM_SEPARATION};
pub use self::gridview::{Failure, GridState, GridView};
pub use self::location::{Location, Rectangle};
pub use self::parse::LocationParseError;
pub use self::snapshot::Snapshot;
pub use self::topology::Grid;
