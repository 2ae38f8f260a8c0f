//! PCI configuration space: reading it, decoding it, and enumerating the
//! functions behind the host bridge.

pub mod bar;
pub mod config;
pub mod device;
pub mod find;
pub mod laws;
pub mod port;
pub mod scan;
pub mod table;
pub mod trail;

pub use device::ClassCode;
pub use device::Device;
pub use device::Error;
pub use device::PciDevices;
pub use device::PciDevicesIter;
pub use device::MAX_DEVICES;
pub use config::is_single_function_device;
pub use config::read_bus_numbers;
pub use config::read_class_code;
pub use config::read_header_type;
pub use config::read_vendor_id;
pub use config::ConfigPort;
pub use config::Entry;
pub use config::PciConfig;
pub use port::PortFn;
pub use config::Readings;
pub use config::Space;
pub use config::INVALID_VENDOR_ID;
pub use table::ConfigTable;
pub use scan::scan_all_bus;
pub use bar::read_bar;
pub use find::find_by_class;
pub use find::find_xhc;
pub use find::switch_echi_to_xhci;
