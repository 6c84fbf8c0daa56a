//! Plan-level USB gadget composition for the Linux ConfigFS interface.
//!
//! A gadget is described in memory (identity, functions, configurations)
//! and turned into an ordered list of filesystem operations that, applied
//! at the ConfigFS mount root, materialize the gadget tree and bind it to
//! a USB device controller.  The planning, validation and state machine
//! are verified; an unverified shell applies the operations with `std::fs`.

pub mod errors;
pub mod fmt;
pub mod fs_model;
pub mod fsop;
pub mod function;
pub mod config;
pub mod gadget;
pub mod laws;
pub mod state;

pub use config::UsbGadgetConfig;
pub use errors::FsFailure;
pub use errors::StateError;
pub use fsop::FsOp;
pub use fsop::FsPath;
pub use function::ECMFunction;
pub use function::FunctionKey;
pub use function::HIDFunction;
pub use function::RNDISFunction;
pub use function::UsbGadgetFunction;
pub use gadget::LANGID_EN_US;
pub use gadget::UsbGadget;
pub use state::UsbGadgetState;
