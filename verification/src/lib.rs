//! A sandbox lifecycle tracker that records declared resources without
//! allocating any.

pub mod clock;
pub mod data;
pub mod error;
pub mod keyed;
pub mod laws;
pub mod numeral;
pub mod registry;
pub mod resource;
pub mod sandbox;
pub mod sandboxer;
pub mod version;

pub use data::{ContainerData, JsonSpec, SandboxData};
pub use error::Error;
pub use registry::Registry;
pub use resource::{CpuAmount, ResourceInfo};
pub use sandbox::{
    ContainerOption, ResourceSlotContainer, ResourceSlotSandbox, SandboxOption, SandboxStatus,
};
pub use sandboxer::ResourceSlotSandboxer;
