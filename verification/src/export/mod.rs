//! The exchange document.

use vstd::prelude::*;
use vstd::string::*;

pub mod ifc;

verus! {

/// Who wrote the document, with what, and for which project and site.
#[derive(Debug)]
pub struct ProjectMetadata {
    pub author: String,
    pub application_name: String,
    pub application_version: String,
    pub project_name: String,
    pub site_name: String,
    pub site_description: String,
}

/// The metadata as contracts see it: the text of each field.
pub struct MetadataView {
    pub author: Seq<char>,
    pub application_name: Seq<char>,
    pub application_version: Seq<char>,
    pub project_name: Seq<char>,
    pub site_name: Seq<char>,
    pub site_description: Seq<char>,
}

impl View for ProjectMetadata {
    type V = MetadataView;

    open spec fn view(&self) -> MetadataView {
        MetadataView {
            author: self.author@,
            application_name: self.application_name@,
            application_version: self.application_version@,
            project_name: self.project_name@,
            site_name: self.site_name@,
            site_description: self.site_description@,
        }
    }
}

/// What a document says of its origin where nothing was given.
pub open spec fn default_metadata() -> MetadataView {
    MetadataView {
        author: "Default Author"@,
        application_name: "Default Application"@,
        application_version: "1.0.0"@,
        project_name: "Default Project"@,
        site_name: "Site"@,
        site_description: "Generated terrain model"@,
    }
}

/// The metadata that a writer made with `given` goes by.
pub open spec fn metadata_or_default(given: Option<ProjectMetadata>) -> MetadataView {
    match given {
        Some(metadata) => metadata@,
        None => default_metadata(),
    }
}

impl Default for ProjectMetadata {
    fn default() -> (metadata: ProjectMetadata)
        ensures
            metadata@ == default_metadata(),
    {
        ProjectMetadata {
            author: String::from_str("Default Author"),
            application_name: String::from_str("Default Application"),
            application_version: String::from_str("1.0.0"),
            project_name: String::from_str("Default Project"),
            site_description: String::from_str("Generated terrain model"),
            site_name: String::from_str("Site"),
        }
    }
}

} // verus!
