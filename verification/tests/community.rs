use rbac::{EntityRelationship, Group, GroupRoles, Post, PostRoles, User, RBAC};

#[test]
fn community_basic() {
    let mut server = RBAC::new();
    server.clear(true).unwrap();

    let alice = User { id: 1, nickname: "Alice".to_string() };
    let post_by_alice = Post { id: 1, author_id: 1, title: "Hello, World!".to_string() };

    let r = EntityRelationship::new(&alice, &PostRoles::Writer, &post_by_alice);

    server.add_relationship(&r).unwrap();
    let allowed = server.allowed(&r).unwrap();

    assert_eq!(allowed, true);
}

#[test]
fn community_role_inherits() {
    let mut server = RBAC::new();
    server.clear(true).unwrap();

    let alice = User { id: 1, nickname: "Alice".to_string() };
    let bob = User { id: 2, nickname: "Bob".to_string() };
    let charlie = User { id: 3, nickname: "Charlie".to_string() };
    let post_by_alice = Post { id: 1, author_id: 1, title: "Hello, World!".to_string() };
    let post_by_charlie = Post { id: 2, author_id: 3, title: "Hello, World!".to_string() };
    let group_foo = Group { id: 1, name: "Foo".to_string() };
    let post_by_foo = Post { id: 3, author_id: 1, title: "Hello, World!".to_string() };

    // alice is a writer
    let r = EntityRelationship::new(&alice, &PostRoles::Writer, &post_by_alice);
    server.add_relationship(&r).unwrap();

    // role inherits automatically
    let test = EntityRelationship::new(&alice, &PostRoles::Viewer, &post_by_alice);
    let result = server.allowed(&test);
    // alice is a writer and it means also a viewer.
    assert_eq!(result.unwrap(), true);

    let r = EntityRelationship::new(&bob, &PostRoles::Viewer, &post_by_alice);
    server.add_relationship(&r).unwrap();

    let test = EntityRelationship::new(&charlie, &PostRoles::Viewer, &post_by_alice);
    let result = server.allowed(&test);
    // charlie is not a node yet... so it should return an error
    assert_eq!(result.is_err(), true);

    // charlie writes a post
    let r = EntityRelationship::new(&charlie, &PostRoles::Writer, &post_by_charlie);
    server.add_relationship(&r).unwrap();

    // now charlie is a node
    let result = server.allowed(&test);
    assert_eq!(result.is_ok(), true);
    // but can't view alice's post
    assert_eq!(result.unwrap(), false);

    // charlie and bob join the group foo
    let r = EntityRelationship::new(&bob, &GroupRoles::Member, &group_foo);
    server.add_relationship(&r).unwrap();

    let r = EntityRelationship::new(&charlie, &GroupRoles::Member, &group_foo);
    server.add_relationship(&r).unwrap();

    // group foo writes a post
    let r = EntityRelationship::new(&group_foo, &PostRoles::Writer, &post_by_foo);
    server.add_relationship(&r).unwrap();

    // charlie can view the post by foo
    let test = EntityRelationship::new(&charlie, &PostRoles::Viewer, &post_by_foo);
    let result = server.allowed(&test);

    assert_eq!(result.unwrap(), true);
}
