pub mod arm_error;
pub mod bytes;
pub mod flash_device;
pub mod model;
pub mod segment;

pub use arm_error::ArmError;
pub use flash_device::{FlashDevice, FlashDeviceModel, SectorInfo};
pub use model::ArmFlashStub;
pub use segment::Segment;
