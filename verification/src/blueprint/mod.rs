//! The rendering engine.

pub mod bindings;
pub mod compositor;
pub mod image_cache;
pub mod imaging;
pub mod locator;
pub mod orchestrator;
pub mod product;
pub mod raster;
pub mod resolver;

pub use bindings::{iter_alias_binds, Alias, Binding, BindingEnumerator};
pub use compositor::{prepare_layer, CompositeError, Rotation};
pub use image_cache::{load_image, CacheError};
pub use locator::Locator;
pub use orchestrator::{expand_aliases, needed_packs, Run, RunError};
pub use raster::Raster;
pub use resolver::{expand_ref, expand_refs, Catalog, CatalogPack, PackListing, ReferenceError};
