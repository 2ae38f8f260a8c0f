//! The xHCI host controller: its registers, the memory it is given, and the
//! handshake that takes it from power-on to configured.

pub mod alloc_laws;
pub mod bringup_laws;
pub mod context;
pub mod controller;
pub mod machine;
pub mod registers;
pub mod simple_alloc;
pub mod simulation;

pub use simple_alloc::Books;
pub use simple_alloc::Pool;
pub use simple_alloc::Region;
pub use simple_alloc::SimpleAlloc;
pub use context::DeviceContext;
pub use context::EndpointContext;
pub use context::SlotContext;
pub use registers::CapabilityRegisters;
pub use registers::ConfigRegister;
pub use registers::Doorbell;
pub use registers::HccParams1;
pub use registers::HscParam1;
pub use registers::HscParam2;
pub use registers::OperationalRegisters;
pub use registers::UsbCmd;
pub use registers::UsbSts;
pub use controller::Controller;
