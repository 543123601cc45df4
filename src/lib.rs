//! Bootstrap and native-extension layer for an embedded scripting interpreter.
//!
//! The interpreter itself is an outside service. This library holds the parts
//! with design content: the description of a natively implemented class and its
//! validation (`class_spec`), and the start-up protocol of a hosted interpreter
//! as a state machine that the host drives (`boot`).

pub mod boot;
pub mod class_spec;

pub use boot::{Action, Boot, BootError, Event, Stage};
pub use class_spec::{init, Arity, ClassSpec, Demo, ExtensionError, NativeMethod};
