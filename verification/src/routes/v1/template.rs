//! Submitting templates.

use vstd::prelude::*;
use vstd::std_specs::convert::FromSpecImpl;

use crate::models::blueprints::Blueprint;
use crate::models::templates::{AliasEntry, Layer, Template};

verus! {

/// The answer to a submission: the run that was made for it.
#[derive(Debug, Clone)]
pub struct TemplateRun {
    pub run_id: String,
}

/// A template as it is submitted.
#[derive(Debug)]
pub struct TemplateRequest {
    pub aliases: Vec<AliasEntry>,
    pub canvas_size: (u32, u32),
    pub layers: Vec<Layer>,
}

/// A list of templates as it is submitted.
#[derive(Debug)]
pub struct BlueprintRequest {
    pub templates: Vec<TemplateRequest>,
}

impl From<TemplateRequest> for Template {
    /// The template that was submitted.
    fn from(value: TemplateRequest) -> (template: Template) {
        Template { aliases: value.aliases, canvas_size: value.canvas_size, layers: value.layers }
    }
}

impl FromSpecImpl<TemplateRequest> for Template {
    open spec fn obeys_from_spec() -> bool {
        true
    }

    open spec fn from_spec(value: TemplateRequest) -> Template {
        Template { aliases: value.aliases, canvas_size: value.canvas_size, layers: value.layers }
    }
}

impl BlueprintRequest {
    /// The templates that were submitted, in their order.
    pub fn into_templates(self) -> (templates: Vec<Template>)
        ensures
            templates@.len() == self.templates@.len(),
            forall|i: int|
                0 <= i < templates@.len() ==> {
                    &&& (#[trigger] templates@[i]).aliases == self.templates@[i].aliases
                    &&& templates@[i].layers == self.templates@[i].layers
                    &&& templates@[i].canvas_size == self.templates@[i].canvas_size
                },
    {
        let mut requests = self.templates;
        let ghost given = requests@;
        let mut reversed: Vec<Template> = Vec::new();
        while requests.len() > 0
            invariant
                requests@.len() + reversed@.len() == given.len(),
                requests@ == given.subrange(0, requests@.len() as int),
                forall|i: int|
                    0 <= i < reversed@.len() ==> {
                        &&& (#[trigger] reversed@[i]).aliases == given[given.len() - 1 - i].aliases
                        &&& reversed@[i].layers == given[given.len() - 1 - i].layers
                        &&& reversed@[i].canvas_size == given[given.len() - 1 - i].canvas_size
                    },
            decreases requests@.len(),
        {
            let request = requests.pop().unwrap();
            reversed.push(Template::from(request));
        }
        let mut templates: Vec<Template> = Vec::new();
        while reversed.len() > 0
            invariant
                reversed@.len() + templates@.len() == given.len(),
                forall|i: int|
                    0 <= i < reversed@.len() ==> {
                        &&& (#[trigger] reversed@[i]).aliases == given[given.len() - 1 - i].aliases
                        &&& reversed@[i].layers == given[given.len() - 1 - i].layers
                        &&& reversed@[i].canvas_size == given[given.len() - 1 - i].canvas_size
                    },
                forall|i: int|
                    0 <= i < templates@.len() ==> {
                        &&& (#[trigger] templates@[i]).aliases == given[i].aliases
                        &&& templates@[i].layers == given[i].layers
                        &&& templates@[i].canvas_size == given[i].canvas_size
                    },
            decreases reversed@.len(),
        {
            let template = reversed.pop().unwrap();
            templates.push(template);
        }
        templates
    }

    /// The blueprint that was submitted, with its templates in their order.
    /// It has no name yet, and the store will give it its identifier.
    pub fn into_blueprint(self, author: String) -> (blueprint: Blueprint)
        ensures
            blueprint.author == author,
            blueprint.id@ == Seq::<char>::empty(),
            blueprint.name@ == Seq::<char>::empty(),
            blueprint.templates@.len() == self.templates@.len(),
            forall|i: int|
                0 <= i < blueprint.templates@.len() ==> {
                    &&& (#[trigger] blueprint.templates@[i]).aliases == self.templates@[i].aliases
                    &&& blueprint.templates@[i].layers == self.templates@[i].layers
                    &&& blueprint.templates@[i].canvas_size == self.templates@[i].canvas_size
                },
    {
        Blueprint {
            id: String::new(),
            name: String::new(),
            author,
            templates: self.into_templates(),
        }
    }
}

} // verus!
