//! The data that runs and templates are made of.

pub mod assets;
pub mod blueprints;
pub mod runs;
pub mod templates;
pub mod users;

pub use assets::AssetPack;
pub use blueprints::Blueprint;
pub use runs::{CompositorRun, CompositorRunStatus, RunEvent};
pub use templates::{
    AliasEntry, BlendMode, Degrees, Layer, Opacity, Scale, Template, Transform, FULL_TURN, UNIT,
};
pub use users::{NewUser, UpdateUser, User};
