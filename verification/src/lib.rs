//! virtual-core: the logic of the `virtual.` VM manager — data model,
//! machine profiles, engine command lines (QEMU, RetroArch), QMP messages,
//! CD-image analysis and engine detection, each as a verified function.
pub mod model;
pub mod text;
pub mod paths;
pub mod argv;
pub mod detect;
pub mod settings;
pub mod probe;
pub mod libretro;
pub mod profile;
pub mod builtin;
pub mod image;
pub mod cue;
pub mod qmp;
pub mod session;
pub mod machines;
pub mod launch;
pub mod stopping;
pub mod laws;
