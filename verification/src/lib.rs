//! Building native OS packages from any project: manifest resolution, name and version
//! validation, template rendering and planning, and the `.deb`, `.rpm` and `.pkg.tar.zst`
//! backends that consume a plan.

pub mod chars;
pub mod strings;
pub mod strmap;
pub mod textmap;
pub mod digits;
pub mod error;
pub mod text;
pub mod architecture;
pub mod name;
pub mod version;
pub mod destination;
pub mod timestamp;
pub mod units;
pub mod plan;
pub mod distance;
pub mod npm;
pub mod resolve;
pub mod templates;
pub mod template;
pub mod catalogue;
pub mod survey;
pub mod collect;
pub mod build;
pub mod dependencies;
pub mod codec;
pub mod tarwalk;
pub mod tarball;
pub mod container;
pub mod packing;
pub mod payload;
pub mod deb;
pub mod rpm;
pub mod arch;
pub mod format;
pub mod report;
pub mod cli;
pub mod introspect;
pub mod run;
