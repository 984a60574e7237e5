use vstd::prelude::*;

verus! {

use crate::node::{Node, ToNode};

/// "subject holds role over object"; the role is scoped to the object.
pub struct EntityRelationship {
    pub subject: Node,
    pub role: Node,
    pub object: Node,
}

impl EntityRelationship {
    pub open spec fn wf(&self) -> bool {
        self.subject.wf() && self.role.wf() && self.object.wf()
    }

    pub fn new<S: ToNode, R: ToNode, O: ToNode>(subject: &S, role: &R, object: &O) -> (r:
        EntityRelationship)
        ensures
            r.subject@ == subject.node_spec(None),
            r.role@ == role.node_spec(Some(object.node_spec(None).id)),
            r.object@ == object.node_spec(None),
            r.wf(),
    {
        let object = object.to_node(None);
        let role = role.to_node(Some(object.id.clone()));
        EntityRelationship { subject: subject.to_node(None), role, object }
    }

    pub fn new_from_node(subject: Node, role: Node, object: Node) -> (r: EntityRelationship)
        ensures
            r.subject == subject,
            r.role == role,
            r.object == object,
    {
        EntityRelationship { subject, role, object }
    }
}

/// "parent role subsumes child role", both scoped to the same object.
pub struct RoleRelationship {
    pub parent: Node,
    pub child: Node,
}

impl RoleRelationship {
    pub fn new<P: ToNode, C: ToNode>(parent: &P, child: &C) -> (r: RoleRelationship)
        ensures
            r.parent@ == parent.node_spec(None),
            r.child@ == child.node_spec(None),
            r.parent.wf(),
            r.child.wf(),
    {
        RoleRelationship { parent: parent.to_node(None), child: child.to_node(None) }
    }

    pub fn new_from_node(parent: Node, child: Node) -> (r: RoleRelationship)
        ensures
            r.parent == parent,
            r.child == child,
    {
        RoleRelationship { parent, child }
    }
}

} // verus!
