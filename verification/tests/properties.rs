use rbac::{
    EntityRelationship, Namespaces, Node, Post, PostRoles, RBAC, RBACError, RoleRelationship,
    RoleSet, ToNode, User,
};

fn count_label(edges: &[(String, String, String)], want: &str) -> usize {
    let mut n = 0;
    for (_, label, _) in edges {
        if label == want {
            n += 1;
        }
    }
    n
}

fn triple(src: &str, label: &str, dst: &str) -> (String, String, String) {
    (src.to_string(), label.to_string(), dst.to_string())
}

#[test]
fn idempotent_upsert() {
    let mut server = RBAC::new();
    let alice = User { id: 1, nickname: "Alice".to_string() };
    let node = alice.to_node(None);

    let first = server.get_or_create_vertex(&node).unwrap();
    assert_eq!(first, false);
    let second = server.get_or_create_vertex(&node).unwrap();
    assert_eq!(second, true);

    let vertices = server.get_all_vertices().unwrap();
    assert_eq!(vertices.len(), 1);
    assert_eq!(vertices[0], "User_1");
}

#[test]
fn one_time_expansion() {
    let mut server = RBAC::new();
    let alice = User { id: 1, nickname: "Alice".to_string() };
    let bob = User { id: 2, nickname: "Bob".to_string() };
    let post = Post { id: 1, author_id: 1, title: "Hello, World!".to_string() };

    // first relationship touching the post: the hierarchy expands once
    let r = EntityRelationship::new(&alice, &PostRoles::Writer, &post);
    server.add_relationship(&r).unwrap();

    let mut edges = server.get_all_edges().unwrap();
    edges.sort();
    // one declared parent-child pair, two declared roles, one assignment
    assert_eq!(
        edges,
        vec![
            triple("Post_1_Viewer", "role_to_entity", "Post_1"),
            triple("Post_1_Writer", "inherits", "Post_1_Viewer"),
            triple("Post_1_Writer", "role_to_entity", "Post_1"),
            triple("User_1", "entity_to_role", "Post_1_Writer"),
        ]
    );

    // the subject, the post, and its two scoped roles
    let mut vertices = server.get_all_vertices().unwrap();
    vertices.sort();
    assert_eq!(vertices, vec!["Post_1", "Post_1_Viewer", "Post_1_Writer", "User_1"]);

    // a later relationship on the same post adds no hierarchy edges
    let r2 = EntityRelationship::new(&bob, &PostRoles::Viewer, &post);
    server.add_relationship(&r2).unwrap();

    let edges = server.get_all_edges().unwrap();
    assert_eq!(count_label(&edges, "inherits"), 1);
    assert_eq!(count_label(&edges, "role_to_entity"), 2);
    assert_eq!(count_label(&edges, "entity_to_role"), 2);
    assert_eq!(edges.len(), 5);
    assert!(edges.contains(&triple("User_2", "entity_to_role", "Post_1_Viewer")));
}

#[test]
fn unknown_node_is_an_error() {
    let server = RBAC::new();
    let alice = User { id: 1, nickname: "Alice".to_string() };
    let post = Post { id: 1, author_id: 1, title: "Hello, World!".to_string() };

    let q = EntityRelationship::new(&alice, &PostRoles::Viewer, &post);
    let result = server.allowed(&q);
    assert!(matches!(result, Err(RBACError::VertexNotFound)));
}

#[test]
fn negative_answer_is_not_an_error() {
    let mut server = RBAC::new();
    let alice = User { id: 1, nickname: "Alice".to_string() };
    let charlie = User { id: 3, nickname: "Charlie".to_string() };
    let post_by_alice = Post { id: 1, author_id: 1, title: "Hello, World!".to_string() };
    let post_by_charlie = Post { id: 2, author_id: 3, title: "Hello, World!".to_string() };

    let r = EntityRelationship::new(&alice, &PostRoles::Writer, &post_by_alice);
    server.add_relationship(&r).unwrap();
    let r = EntityRelationship::new(&charlie, &PostRoles::Writer, &post_by_charlie);
    server.add_relationship(&r).unwrap();

    // all three vertices exist, but charlie has no path to alice's post
    let q = EntityRelationship::new(&charlie, &PostRoles::Viewer, &post_by_alice);
    let result = server.allowed(&q);
    assert_eq!(result, Ok(false));
}

#[test]
fn bulk_clear_forgets_everything() {
    let mut server = RBAC::new();
    let alice = User { id: 1, nickname: "Alice".to_string() };
    let post = Post { id: 1, author_id: 1, title: "Hello, World!".to_string() };

    let r = EntityRelationship::new(&alice, &PostRoles::Writer, &post);
    server.add_relationship(&r).unwrap();
    assert_eq!(server.allowed(&r).unwrap(), true);

    server.clear(true).unwrap();
    assert!(matches!(server.allowed(&r), Err(RBACError::VertexNotFound)));
    assert_eq!(server.get_all_vertices().unwrap().len(), 0);
    assert_eq!(server.get_all_edges().unwrap().len(), 0);

    // a clear that is not confirmed leaves the store alone
    let r = EntityRelationship::new(&alice, &PostRoles::Writer, &post);
    server.add_relationship(&r).unwrap();
    server.clear(false).unwrap();
    assert_eq!(server.allowed(&r).unwrap(), true);
}

#[test]
fn canonical_strings() {
    let alice = User { id: 1, nickname: "Alice".to_string() };
    assert_eq!(alice.to_node(None).to_string(), "User_1");

    let neg = User { id: -5, nickname: "Negative".to_string() };
    assert_eq!(neg.to_node(None).to_string(), "User_-5");

    let wide = User { id: 1234567890, nickname: "Wide".to_string() };
    assert_eq!(wide.to_node(None).to_string(), "User_1234567890");

    let lowest = User { id: i32::MIN, nickname: "Lowest".to_string() };
    assert_eq!(lowest.to_node(None).to_string(), "User_-2147483648");

    let writer = PostRoles::Writer.to_node(Some("1".to_string()));
    assert_eq!(writer.to_string(), "Post_1_Writer");
    assert_eq!(writer.to_identifier().unwrap(), "Post_1_Writer");
}

#[test]
fn invalid_identifier_is_rejected() {
    let node = Node::new(&Namespaces::User(None), "bad id".to_string());
    assert_eq!(node.to_string(), "User_bad id");
    assert!(matches!(node.to_identifier(), Err(RBACError::InvalidIdentifier)));

    let mut server = RBAC::new();
    let result = server.get_or_create_vertex(&node);
    assert!(matches!(result, Err(RBACError::InvalidIdentifier)));
    assert_eq!(server.get_all_vertices().unwrap().len(), 0);
}

#[test]
fn unicode_alphanumeric_ids_are_accepted() {
    // the store's identifier rule admits any alphanumeric character
    let id = '\u{e9}'.to_string();
    let node = Node::new(&Namespaces::User(None), id);
    let ident = node.to_identifier().unwrap();
    assert_eq!(ident, node.to_string());

    let mut server = RBAC::new();
    assert_eq!(server.get_or_create_vertex(&node).unwrap(), false);
    assert_eq!(server.get_or_create_vertex(&node).unwrap(), true);
    assert_eq!(server.get_all_vertices().unwrap().len(), 1);
}

#[test]
fn role_set_validity_is_checked_eagerly() {
    // a parent declared after its child is refused
    let invalid = RoleSet::new(
        "Post".to_string(),
        vec!["Writer".to_string(), "Viewer".to_string()],
        vec![Some(1), None],
        1,
    );
    assert!(invalid.is_none());

    // a duplicated variant name is refused
    let invalid = RoleSet::new(
        "Post".to_string(),
        vec!["Writer".to_string(), "Writer".to_string()],
        vec![None, Some(0)],
        0,
    );
    assert!(invalid.is_none());

    // a missing default variant is refused
    let invalid = RoleSet::new(
        "Post".to_string(),
        vec!["Writer".to_string()],
        vec![None],
        1,
    );
    assert!(invalid.is_none());

    let valid = RoleSet::new(
        "Post".to_string(),
        vec!["Writer".to_string(), "Viewer".to_string()],
        vec![None, Some(0)],
        1,
    );
    assert!(valid.is_some());
}

#[test]
fn role_relationship_adds_an_inherits_edge() {
    let mut server = RBAC::new();
    let parent = PostRoles::Writer.to_node(Some("9".to_string()));
    let child = PostRoles::Viewer.to_node(Some("9".to_string()));
    let rr = RoleRelationship::new_from_node(parent, child);

    assert_eq!(server.add_role_relationship(&rr).unwrap(), true);
    let edges = server.get_all_edges().unwrap();
    assert_eq!(edges.len(), 1);
    assert_eq!(edges[0], triple("Post_9_Writer", "inherits", "Post_9_Viewer"));
    assert_eq!(server.get_all_vertices().unwrap().len(), 2);

    // the edge set keeps one copy of the pair
    let parent = PostRoles::Writer.to_node(Some("9".to_string()));
    let child = PostRoles::Viewer.to_node(Some("9".to_string()));
    let rr = RoleRelationship::new_from_node(parent, child);
    assert_eq!(server.add_role_relationship(&rr).unwrap(), true);
    assert_eq!(server.get_all_edges().unwrap().len(), 1);
}

#[test]
fn self_authored_post_grants_both_roles() {
    // scenario: an author holds Writer and, through the hierarchy, Viewer
    let mut server = RBAC::new();
    let alice = User { id: 1, nickname: "Alice".to_string() };
    let post = Post { id: 1, author_id: 1, title: "Hello, World!".to_string() };

    let writer = EntityRelationship::new(&alice, &PostRoles::Writer, &post);
    server.add_relationship(&writer).unwrap();

    let viewer = EntityRelationship::new(&alice, &PostRoles::Viewer, &post);
    assert_eq!(server.allowed(&writer).unwrap(), true);
    assert_eq!(server.allowed(&viewer).unwrap(), true);
}
