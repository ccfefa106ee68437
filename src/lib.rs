//! Hardware-monitoring layer of a switch chassis: discovers fan and
//! temperature channels in hwmon directories, classifies the directories,
//! builds sensor instances, and tracks their health with a shared fault count.

pub mod units;
pub mod channel;
pub mod fan;
pub mod thermal;
pub mod chassis;
pub mod platform;

pub use chassis::MlnxChassis;
pub use fan::{FanDirection, FanDrawer, FanStatus, FaultCounter, LedColor, MlnxFan};
pub use platform::detect_platform;
pub use thermal::{MlnxThermal, TemperatureStatus};
