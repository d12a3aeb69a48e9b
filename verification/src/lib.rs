//! The engine of a container shim that runs WebAssembly applications packaged
//! as OCI images: layer classification and precompilation, application
//! assembly from image layers, trigger selection and supervision, and the
//! exit status of a run.

pub mod address;
pub mod app;
pub mod compiler;
pub mod decimal;
pub mod driver;
pub mod engine;
pub mod layer;
pub mod media;
pub mod source;
pub mod supervisor;
pub mod text;
pub mod trigger;
pub mod variables;
