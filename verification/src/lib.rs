//! Build-time resolution of hierarchical, project-scoped configuration
//! values: locating the manifest of a named component, searching upward
//! through ancestor manifests for `package.metadata.settings.<ns>.<key>`,
//! and encoding the resolved value as a literal for generated code.

pub mod encode;
pub mod locator;
pub mod manifest;
pub mod render;
pub mod resolver;
pub mod text;
pub mod value;

pub use encode::EncodedLiteral;
pub use manifest::Segment;
pub use resolver::ResolveError;
pub use value::Kind;
pub use value::ManifestValue;
pub use value::TableEntry;
