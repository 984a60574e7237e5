use vstd::prelude::*;

verus! {

use crate::ident::{concat_str, dec_int, i32_to_string};
use crate::node::{
    NamespaceRole, NamespaceToString, NamespaceToStringAndRole, Node, NodeView, RoleHierarchy,
    ToNode, opt_view,
};
use crate::roles::{RoleSet, RoleSetView};

/// The entity categories of a small community: users, posts and groups.
/// A value optionally carries the id of the object a role is scoped to.
pub enum Namespaces {
    User(Option<String>),
    Post(Option<String>),
    Group(Option<String>),
}

/// The roles a post declares: writers subsume viewers.
pub enum PostRoles {
    Writer,
    Viewer,
}

/// The roles a group declares: admins subsume members.
pub enum GroupRoles {
    Admin,
    Member,
}

/// The role hierarchy a post declares.
pub open spec fn post_roles_view() -> RoleSetView {
    RoleSetView {
        ns_name: "Post"@,
        names: seq!["Writer"@, "Viewer"@],
        parents: seq![None, Some(0int)],
        default_index: 1,
    }
}

/// The role hierarchy a group declares.
pub open spec fn group_roles_view() -> RoleSetView {
    RoleSetView {
        ns_name: "Group"@,
        names: seq!["Admin"@, "Member"@],
        parents: seq![None, Some(0int)],
        default_index: 1,
    }
}

impl NamespaceToString for Namespaces {
    open spec fn str_spec(&self) -> Seq<char> {
        match self {
            Namespaces::User(None) => "User"@,
            Namespaces::User(Some(id)) => "User"@ + seq!['_'] + id@,
            Namespaces::Post(None) => "Post"@,
            Namespaces::Post(Some(id)) => "Post"@ + seq!['_'] + id@,
            Namespaces::Group(None) => "Group"@,
            Namespaces::Group(Some(id)) => "Group"@ + seq!['_'] + id@,
        }
    }

    fn to_string(&self) -> (r: String) {
        proof {
            reveal_strlit("User");
            reveal_strlit("User_");
            reveal_strlit("Post");
            reveal_strlit("Post_");
            reveal_strlit("Group");
            reveal_strlit("Group_");
            reveal_strlit("_");
        }
        match self {
            Namespaces::User(None) => "User".to_owned(),
            Namespaces::User(Some(id)) => {
                let r = concat_str("User_", id.as_str());
                proof {
                    assert(r@ =~= self.str_spec());
                }
                r
            },
            Namespaces::Post(None) => "Post".to_owned(),
            Namespaces::Post(Some(id)) => {
                let r = concat_str("Post_", id.as_str());
                proof {
                    assert(r@ =~= self.str_spec());
                }
                r
            },
            Namespaces::Group(None) => "Group".to_owned(),
            Namespaces::Group(Some(id)) => {
                let r = concat_str("Group_", id.as_str());
                proof {
                    assert(r@ =~= self.str_spec());
                }
                r
            },
        }
    }
}

impl NamespaceRole for Namespaces {
    open spec fn roles_spec(&self) -> Option<RoleSetView> {
        match self {
            Namespaces::User(_) => None,
            Namespaces::Post(_) => Some(post_roles_view()),
            Namespaces::Group(_) => Some(group_roles_view()),
        }
    }

    fn get_roles(&self) -> (r: Option<RoleSet>) {
        match self {
            Namespaces::User(_) => None,
            Namespaces::Post(_) => Some(PostRoles::Viewer.role_set()),
            Namespaces::Group(_) => Some(GroupRoles::Member.role_set()),
        }
    }
}

impl NamespaceToStringAndRole for Namespaces {

}

impl ToNode for PostRoles {
    open spec fn node_spec(&self, parent_id: Option<Seq<char>>) -> NodeView {
        NodeView {
            namespace_label: match parent_id {
                Some(p) => "Post"@ + seq!['_'] + p,
                None => "Post"@,
            },
            roles: Some(post_roles_view()),
            id: match self {
                PostRoles::Writer => "Writer"@,
                PostRoles::Viewer => "Viewer"@,
            },
        }
    }

    fn to_node(&self, parent_id: Option<String>) -> (r: Node) {
        let id = match self {
            PostRoles::Writer => "Writer".to_owned(),
            PostRoles::Viewer => "Viewer".to_owned(),
        };
        let ghost p = opt_view(parent_id);
        let r = Node::new(&Namespaces::Post(parent_id), id);
        proof {
            assert(r@ =~= self.node_spec(p));
        }
        r
    }
}

impl RoleHierarchy for PostRoles {
    open spec fn role_set_spec() -> RoleSetView {
        post_roles_view()
    }

    fn role_set(&self) -> (r: RoleSet) {
        let names = vec!["Writer".to_owned(), "Viewer".to_owned()];
        let parents: Vec<Option<usize>> = vec![None, Some(0)];
        let r = RoleSet { ns_name: "Post".to_owned(), names, parents, default_index: 1 };
        proof {
            reveal_strlit("Post");
            reveal_strlit("Writer");
            reveal_strlit("Viewer");
            assert(r@.names =~= Self::role_set_spec().names);
            assert(r@.parents =~= Self::role_set_spec().parents);
            assert(r@ =~= Self::role_set_spec());
            assert("Writer"@[0] != "Viewer"@[0]);
            assert(r@.wf());
        }
        r
    }
}

impl ToNode for GroupRoles {
    open spec fn node_spec(&self, parent_id: Option<Seq<char>>) -> NodeView {
        NodeView {
            namespace_label: match parent_id {
                Some(p) => "Group"@ + seq!['_'] + p,
                None => "Group"@,
            },
            roles: Some(group_roles_view()),
            id: match self {
                GroupRoles::Admin => "Admin"@,
                GroupRoles::Member => "Member"@,
            },
        }
    }

    fn to_node(&self, parent_id: Option<String>) -> (r: Node) {
        let id = match self {
            GroupRoles::Admin => "Admin".to_owned(),
            GroupRoles::Member => "Member".to_owned(),
        };
        let ghost p = opt_view(parent_id);
        let r = Node::new(&Namespaces::Group(parent_id), id);
        proof {
            assert(r@ =~= self.node_spec(p));
        }
        r
    }
}

impl RoleHierarchy for GroupRoles {
    open spec fn role_set_spec() -> RoleSetView {
        group_roles_view()
    }

    fn role_set(&self) -> (r: RoleSet) {
        let names = vec!["Admin".to_owned(), "Member".to_owned()];
        let parents: Vec<Option<usize>> = vec![None, Some(0)];
        let r = RoleSet { ns_name: "Group".to_owned(), names, parents, default_index: 1 };
        proof {
            reveal_strlit("Group");
            reveal_strlit("Admin");
            reveal_strlit("Member");
            assert(r@.names =~= Self::role_set_spec().names);
            assert(r@.parents =~= Self::role_set_spec().parents);
            assert(r@ =~= Self::role_set_spec());
            assert("Admin"@[0] != "Member"@[0]);
            assert(r@.wf());
        }
        r
    }
}

/// A registered user.
pub struct User {
    pub id: i32,
    pub nickname: String,
}

/// A post, authored by a user or a group.
pub struct Post {
    pub id: i32,
    pub author_id: i32,
    pub title: String,
}

/// A group of users.
pub struct Group {
    pub id: i32,
    pub name: String,
}

impl ToNode for User {
    open spec fn node_spec(&self, parent_id: Option<Seq<char>>) -> NodeView {
        NodeView {
            namespace_label: match parent_id {
                Some(p) => "User"@ + seq!['_'] + p,
                None => "User"@,
            },
            roles: None,
            id: dec_int(self.id as int),
        }
    }

    fn to_node(&self, parent_id: Option<String>) -> (r: Node) {
        let ghost p = opt_view(parent_id);
        let r = Node::new(&Namespaces::User(parent_id), i32_to_string(self.id));
        proof {
            assert(r@ =~= self.node_spec(p));
        }
        r
    }
}

impl ToNode for Post {
    open spec fn node_spec(&self, parent_id: Option<Seq<char>>) -> NodeView {
        NodeView {
            namespace_label: match parent_id {
                Some(p) => "Post"@ + seq!['_'] + p,
                None => "Post"@,
            },
            roles: Some(post_roles_view()),
            id: dec_int(self.id as int),
        }
    }

    fn to_node(&self, parent_id: Option<String>) -> (r: Node) {
        let ghost p = opt_view(parent_id);
        let r = Node::new(&Namespaces::Post(parent_id), i32_to_string(self.id));
        proof {
            assert(r@ =~= self.node_spec(p));
        }
        r
    }
}

impl ToNode for Group {
    open spec fn node_spec(&self, parent_id: Option<Seq<char>>) -> NodeView {
        NodeView {
            namespace_label: match parent_id {
                Some(p) => "Group"@ + seq!['_'] + p,
                None => "Group"@,
            },
            roles: Some(group_roles_view()),
            id: dec_int(self.id as int),
        }
    }

    fn to_node(&self, parent_id: Option<String>) -> (r: Node) {
        let ghost p = opt_view(parent_id);
        let r = Node::new(&Namespaces::Group(parent_id), i32_to_string(self.id));
        proof {
            assert(r@ =~= self.node_spec(p));
        }
        r
    }
}

} // verus!
