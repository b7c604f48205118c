//! Resource-representation core of a SCIM-style identity-provisioning
//! protocol: a wire-format value model, the schema-validated conversion
//! pipeline between generic entries and typed resources (User, Group),
//! and a small filter-expression grammar.

pub mod attr;
pub mod attrmap;
pub mod canon;
pub mod entry;
pub mod error;
pub mod extract;
pub mod filter;
pub mod group;
pub mod json;
pub mod strutil;
pub mod user;
pub mod wire;

pub use attr::ScimAttr;
pub use attr::ScimComplexAttr;
pub use attr::ScimSimpleAttr;
pub use attrmap::AttrMap;
pub use entry::ScimEntry;
pub use entry::ScimMeta;
pub use error::ScimError;
pub use filter::AttrPath;
pub use filter::FilterError;
pub use filter::ScimFilter;
pub use group::Group;
pub use group::Member;
pub use json::entry_from_json_text;
pub use json::entry_to_json_text;
pub use user::MultiValueAttr;
pub use user::User;
pub use wire::WireValue;
