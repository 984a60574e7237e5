use vstd::prelude::*;

verus! {

use crate::ident::{concat_str, is_valid_identifier, valid_identifier};
use crate::roles::{RoleSet, RoleSetView};
use crate::store::RBACError;

/// A namespace value renders to a canonical label, e.g. "Post" or, scoped
/// to an object, "Post_1".
pub trait NamespaceToString {
    /// The label the value renders to.
    spec fn str_spec(&self) -> Seq<char>;

    fn to_string(&self) -> (r: String)
        ensures
            r@ == self.str_spec(),
    ;
}

/// A namespace value may declare a role hierarchy.
pub trait NamespaceRole {
    /// The declared role hierarchy, if any.
    spec fn roles_spec(&self) -> Option<RoleSetView>;

    fn get_roles(&self) -> (r: Option<RoleSet>)
        ensures
            match r {
                Some(rs) => self.roles_spec() == Some(rs@) && rs@.wf(),
                None => self.roles_spec() is None,
            },
    ;
}

pub trait NamespaceToStringAndRole: NamespaceToString + NamespaceRole {

}

/// The canonical identity of an entity or a scoped role: a namespace label,
/// the role hierarchy that namespace declares, and the value's own id. The
/// components are joined as given: an id is expected not to contain the
/// separator itself, else two distinct nodes can share a canonical string.
pub struct Node {
    pub namespace_label: String,
    pub roles: Option<RoleSet>,
    pub id: String,
}

pub struct NodeView {
    pub namespace_label: Seq<char>,
    pub roles: Option<RoleSetView>,
    pub id: Seq<char>,
}

impl View for Node {
    type V = NodeView;

    open spec fn view(&self) -> NodeView {
        NodeView {
            namespace_label: self.namespace_label@,
            roles: match self.roles {
                Some(rs) => Some(rs@),
                None => None,
            },
            id: self.id@,
        }
    }
}

impl NodeView {
    /// The canonical string: namespace label and id, joined by the
    /// separator.
    pub open spec fn canon(self) -> Seq<char> {
        self.namespace_label + seq!['_'] + self.id
    }

    pub open spec fn wf(self) -> bool {
        match self.roles {
            Some(rs) => rs.wf(),
            None => true,
        }
    }
}

impl Node {
    pub open spec fn canon(&self) -> Seq<char> {
        self@.canon()
    }

    pub open spec fn wf(&self) -> bool {
        self@.wf()
    }

    pub fn new<N: NamespaceToStringAndRole>(namespace: &N, id: String) -> (r: Node)
        ensures
            r@.namespace_label == namespace.str_spec(),
            r@.roles == namespace.roles_spec(),
            r@.id == id@,
            r.wf(),
    {
        Node { namespace_label: namespace.to_string(), roles: namespace.get_roles(), id }
    }

    /// The canonical string of the node.
    pub fn to_string(&self) -> (r: String)
        ensures
            r@ == self.canon(),
    {
        let r = concat_str(concat_str(self.namespace_label.as_str(), "_").as_str(), self.id.as_str());
        proof {
            reveal_strlit("_");
            assert(r@ =~= self.canon());
        }
        r
    }

    /// The canonical string checked against the store's identifier rules.
    pub fn to_identifier(&self) -> (r: Result<String, RBACError>)
        ensures
            match r {
                Ok(s) => s@ == self.canon() && valid_identifier(self.canon()),
                Err(e) => e == RBACError::InvalidIdentifier && !valid_identifier(self.canon()),
            },
    {
        let s = self.to_string();
        if is_valid_identifier(s.as_str()) {
            Ok(s)
        } else {
            Err(RBACError::InvalidIdentifier)
        }
    }
}

pub open spec fn opt_view(o: Option<String>) -> Option<Seq<char>> {
    match o {
        Some(s) => Some(s@),
        None => None,
    }
}

/// A value that converts to a Node, given the id of the object that scopes
/// it (absent for entities, the governing object's id for roles).
pub trait ToNode {
    /// The node the value converts to.
    spec fn node_spec(&self, parent_id: Option<Seq<char>>) -> NodeView;

    fn to_node(&self, parent_id: Option<String>) -> (r: Node)
        ensures
            r@ == self.node_spec(opt_view(parent_id)),
            r.wf(),
    ;
}

/// The node of role i of the set, scoped to the object with id oid; built
/// during hierarchy expansion, where only its canonical string matters.
pub fn role_node(rs: &RoleSet, i: usize, oid: &String) -> (r: Node)
    requires
        i < rs@.names.len(),
    ensures
        r.canon() == crate::roles::role_canon(rs@, oid@, i as int),
        r.wf(),
{
    let label = concat_str(concat_str(rs.ns_name.as_str(), "_").as_str(), oid.as_str());
    let r = Node { namespace_label: label, roles: None, id: rs.names[i].clone() };
    proof {
        reveal_strlit("_");
        assert(rs@.names[i as int] == rs.names@[i as int]@);
        assert(r.canon() =~= crate::roles::role_canon(rs@, oid@, i as int));
    }
    r
}

/// A role variant of a declared role hierarchy.
pub trait RoleHierarchy: ToNode {
    /// The role set the variant belongs to.
    spec fn role_set_spec() -> RoleSetView;

    fn role_set(&self) -> (r: RoleSet)
        ensures
            r@ == Self::role_set_spec(),
            r.wf(),
    ;
}

} // verus!
