//! Builds an in-memory tree of a site's source directory, classifying files
//! as pages or resources and honouring cascading `.warpignore` rules.

pub mod lemmas;
pub mod loader;
pub mod paths;
pub mod rules;
