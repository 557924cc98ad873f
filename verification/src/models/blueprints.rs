//! Blueprints: templates that belong together.

use vstd::prelude::*;

use crate::models::templates::Template;

verus! {

/// A named list of templates.
#[derive(Debug)]
pub struct Blueprint {
    pub id: String,
    pub name: String,
    pub author: String,
    pub templates: Vec<Template>,
}

} // verus!
