pub mod community;
pub mod engine;
pub mod ident;
pub mod node;
pub mod rel;
pub mod roles;
pub mod store;

pub use community::{Group, GroupRoles, Namespaces, Post, PostRoles, User};
pub use engine::RBAC;
pub use node::{
    NamespaceRole, NamespaceToString, NamespaceToStringAndRole, Node, RoleHierarchy, ToNode,
};
pub use rel::{EntityRelationship, RoleRelationship};
pub use roles::RoleSet;
pub use store::{EdgeLabel, RBACError};
