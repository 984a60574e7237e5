use vstd::prelude::*;

verus! {

use vstd::set_lib::lemma_len_subset;
use crate::ident::{is_valid_identifier, valid_identifier};
use crate::node::Node;
use crate::rel::{EntityRelationship, RoleRelationship};
use crate::node::role_node;
use crate::roles::{
    RoleSetView, hier_edges, hier_upto, lemma_expansion_finite, lemma_hier_upto_members,
    lemma_memb_upto_members, lemma_rverts_upto_members, memb_edges, memb_upto, role_canon,
    role_verts, rverts_upto,
};
use crate::store::{
    EdgeLabel, EdgeRec, RBACError, Store, entity_indexed, has_edge, store_all_edges,
    store_all_vertices, store_count_entity, store_create_edge, store_create_entity,
    store_delete_all_edges, store_delete_all_vertices, store_edges, store_new,
    store_outbound_targets, store_verts,
};

/// The relationship-based access-control engine: one exclusively owned
/// handle to the graph store.
pub struct RBAC {
    pub db: Store,
}

/// A sequence of Strings holds x.
pub open spec fn seq_has(vs: Seq<String>, x: Seq<char>) -> bool {
    exists|i: int| 0 <= i < vs.len() && vs[i]@ == x
}

/// p is a path along stored edges, none of which lands on `avoid`.
pub open spec fn path_ok(es: Set<EdgeRec>, avoid: Seq<char>, p: Seq<Seq<char>>) -> bool {
    forall|k: int|
        0 <= k < p.len() - 1 ==> has_edge(es, #[trigger] p[k], p[k + 1]) && p[k + 1] != avoid
}

/// `to` is reachable from `from` along stored edges, never stepping onto
/// `avoid`. The start vertex itself may equal `avoid`.
pub open spec fn reaches(
    es: Set<EdgeRec>,
    from: Seq<char>,
    avoid: Seq<char>,
    to: Seq<char>,
) -> bool {
    exists|p: Seq<Seq<char>>|
        p.len() > 0 && p[0] == from && p.last() == to && path_ok(es, avoid, p)
}

/// The authorization success condition: the role vertex is reachable from
/// the subject without stepping onto the object, and an edge leads from the
/// role straight to the object.
pub open spec fn spec_allowed(
    es: Set<EdgeRec>,
    s: Seq<char>,
    rc: Seq<char>,
    o: Seq<char>,
) -> bool {
    reaches(es, s, o, rc) && has_edge(es, rc, o)
}

/// Every vertex reaches itself.
pub proof fn lemma_reach_refl(es: Set<EdgeRec>, avoid: Seq<char>, x: Seq<char>)
    ensures
        reaches(es, x, avoid, x),
{
    let p = seq![x];
    assert(p.len() > 0 && p[0] == x && p.last() == x && path_ok(es, avoid, p));
}

/// Reachability extends along one more edge.
pub proof fn lemma_reach_step(
    es: Set<EdgeRec>,
    from: Seq<char>,
    avoid: Seq<char>,
    x: Seq<char>,
    y: Seq<char>,
)
    requires
        reaches(es, from, avoid, x),
        has_edge(es, x, y),
        y != avoid,
    ensures
        reaches(es, from, avoid, y),
{
    let p = choose|p: Seq<Seq<char>>|
        p.len() > 0 && p[0] == from && p.last() == x && path_ok(es, avoid, p);
    let q = p.push(y);
    assert forall|k: int| 0 <= k < q.len() - 1 implies has_edge(es, #[trigger] q[k], q[k + 1])
        && q[k + 1] != avoid by {
        if k < p.len() - 1 {
            assert(q[k] == p[k] && q[k + 1] == p[k + 1]);
            assert(has_edge(es, p[k], p[k + 1]) && p[k + 1] != avoid);
        } else {
            assert(q[k] == p.last() && q[k + 1] == y);
        }
    }
    assert(q.len() > 0 && q[0] == from && q.last() == y && path_ok(es, avoid, q));
}

proof fn lemma_closed_path(
    es: Set<EdgeRec>,
    avoid: Seq<char>,
    vset: Set<Seq<char>>,
    p: Seq<Seq<char>>,
    k: int,
)
    requires
        0 <= k < p.len(),
        vset.contains(p[0]),
        path_ok(es, avoid, p),
        forall|a: Seq<char>, l: EdgeLabel, b: Seq<char>|
            vset.contains(a) && #[trigger] es.contains((a, l, b)) && b != avoid
                ==> vset.contains(b),
    ensures
        vset.contains(p[k]),
    decreases k,
{
    if k > 0 {
        lemma_closed_path(es, avoid, vset, p, k - 1);
        assert(has_edge(es, p[k - 1], p[k]) && p[k] != avoid);
        let l = choose|l: EdgeLabel| #[trigger] es.contains((p[k - 1], l, p[k]));
        assert(es.contains((p[k - 1], l, p[k])));
    }
}

/// A set that contains the start vertex and is closed under edges that do
/// not land on `avoid` contains everything reachable.
pub proof fn lemma_closed_reaches(
    es: Set<EdgeRec>,
    avoid: Seq<char>,
    vset: Set<Seq<char>>,
    from: Seq<char>,
    to: Seq<char>,
)
    requires
        vset.contains(from),
        reaches(es, from, avoid, to),
        forall|a: Seq<char>, l: EdgeLabel, b: Seq<char>|
            vset.contains(a) && #[trigger] es.contains((a, l, b)) && b != avoid
                ==> vset.contains(b),
    ensures
        vset.contains(to),
{
    let p = choose|p: Seq<Seq<char>>|
        p.len() > 0 && p[0] == from && p.last() == to && path_ok(es, avoid, p);
    lemma_closed_path(es, avoid, vset, p, p.len() - 1);
}

/// A sequence of distinct strings drawn from a finite set is no longer than
/// the set.
proof fn lemma_distinct_within(vs: Seq<String>, s: Set<Seq<char>>)
    requires
        forall|i: int, j: int| 0 <= i < j < vs.len() ==> #[trigger] vs[i]@ != #[trigger] vs[j]@,
        forall|i: int| 0 <= i < vs.len() ==> s.contains(#[trigger] vs[i]@),
        s.finite(),
    ensures
        vs.len() <= s.len(),
{
    let m = vs.map_values(|x: String| x@);
    assert(m.no_duplicates()) by {
        assert forall|i: int, j: int| 0 <= i < m.len() && 0 <= j < m.len() && i != j implies m[i]
            != m[j] by {
            if i < j {
                assert(vs[i]@ != vs[j]@);
            } else {
                assert(vs[j]@ != vs[i]@);
            }
        }
    }
    m.unique_seq_to_set();
    assert(m.to_set().subset_of(s)) by {
        assert forall|x: Seq<char>| #[trigger] m.to_set().contains(x) implies s.contains(x) by {
            let i = choose|i: int| 0 <= i < m.len() && m[i] == x;
            assert(s.contains(vs[i]@));
        }
    }
    lemma_len_subset(m.to_set(), s);
}

/// Growing a list keeps everything it already held.
proof fn lemma_seq_has_grow(pre: Seq<String>, post: Seq<String>)
    requires
        pre.is_prefix_of(post),
    ensures
        forall|c: Seq<char>| seq_has(pre, c) ==> seq_has(post, c),
{
    assert forall|c: Seq<char>| seq_has(pre, c) implies seq_has(post, c) by {
        let i = choose|i: int| 0 <= i < pre.len() && pre[i]@ == c;
        assert(post[i] == pre[i]);
        assert(post[i]@ == c);
    }
}

/// Searches the list for a string with the given view.
fn vec_contains_str(vs: &Vec<String>, x: &String) -> (r: bool)
    ensures
        r == seq_has(vs@, x@),
{
    let n = vs.len();
    let mut i: usize = 0;
    while i < n
        invariant
            n == vs@.len(),
            i <= n,
            forall|k: int| 0 <= k < i ==> vs@[k]@ != x@,
        decreases n - i,
    {
        if vs[i] == *x {
            return true;
        }
        i += 1;
    }
    false
}

impl RBAC {
    /// The canonical strings of the vertices the store holds.
    pub open spec fn verts(self) -> Set<Seq<char>> {
        store_verts(self.db)
    }

    /// The edges the store holds, as canonical-string triples.
    pub open spec fn edges(self) -> Set<EdgeRec> {
        store_edges(self.db)
    }

    /// The engine's store invariant: the "entity" property is indexed, the
    /// contents are finite, and every edge joins existing vertices.
    pub open spec fn inv(self) -> bool {
        &&& entity_indexed(self.db)
        &&& self.verts().finite()
        &&& self.edges().finite()
        &&& forall|e: EdgeRec|
            #[trigger] self.edges().contains(e) ==> self.verts().contains(e.0)
                && self.verts().contains(e.2)
    }

    /// A fresh engine over an empty in-memory store; the graph lives for
    /// the engine's lifetime and nothing is persisted to disk.
    pub fn new() -> (r: RBAC)
        ensures
            r.inv(),
            r.verts() == Set::<Seq<char>>::empty(),
            r.edges() == Set::<EdgeRec>::empty(),
    {
        RBAC { db: store_new() }
    }

    /// Every vertex's canonical string, one entry per vertex.
    pub fn get_all_vertices(&self) -> (r: Result<Vec<String>, RBACError>)
        requires
            self.inv(),
        ensures
            match r {
                Ok(vs) => vs@.len() == self.verts().len() && forall|c: Seq<char>|
                    #[trigger] self.verts().contains(c) <==> exists|i: int|
                        0 <= i < vs@.len() && vs@[i]@ == c,
                Err(e) => false,
            },
    {
        Ok(store_all_vertices(&self.db))
    }

    /// Every stored edge as a (source, label, target) canonical-string
    /// triple, one entry per edge.
    pub fn get_all_edges(&self) -> (r: Result<Vec<(String, String, String)>, RBACError>)
        requires
            self.inv(),
        ensures
            match r {
                Ok(es) => es@.len() == self.edges().len() && forall|t: EdgeRec|
                    #[trigger] self.edges().contains(t) <==> exists|i: int|
                        0 <= i < es@.len() && es@[i].0@ == t.0 && es@[i].1@ == t.1.str_spec()
                            && es@[i].2@ == t.2,
                Err(e) => false,
            },
    {
        Ok(store_all_edges(&self.db))
    }

    /// Empties the store when `really` is set; the only non-additive
    /// operation the engine performs.
    pub fn clear(&mut self, really: bool) -> (r: Result<(), RBACError>)
        requires
            old(self).inv(),
        ensures
            final(self).inv(),
            r is Ok,
            really ==> final(self).verts() == Set::<Seq<char>>::empty() && final(self).edges()
                == Set::<EdgeRec>::empty(),
            !really ==> *final(self) == *old(self),
    {
        if really {
            store_delete_all_vertices(&mut self.db);
            store_delete_all_edges(&mut self.db);
        }
        Ok(())
    }

    /// Looks the node's vertex up by canonical string and creates it when
    /// absent; returns whether it already existed. At most one vertex ever
    /// carries a given canonical string, so a repeat call reports "existed"
    /// and changes nothing.
    pub fn get_or_create_vertex(&mut self, node: &Node) -> (r: Result<bool, RBACError>)
        requires
            old(self).inv(),
        ensures
            final(self).inv(),
            final(self).edges() == old(self).edges(),
            old(self).verts().contains(node.canon()) ==> r is Ok,
            !valid_identifier(node.canon()) && !old(self).verts().contains(node.canon())
                ==> r == Err::<bool, RBACError>(RBACError::InvalidIdentifier),
            match r {
                Ok(existed) => {
                    &&& existed == old(self).verts().contains(node.canon())
                    &&& final(self).verts() =~= old(self).verts().insert(node.canon())
                },
                Err(e) => {
                    &&& final(self).verts() == old(self).verts()
                    &&& e != RBACError::VertexNotFound
                    &&& e != RBACError::VertexDuplication
                    &&& (e == RBACError::InvalidIdentifier <==> !valid_identifier(node.canon())
                        && !old(self).verts().contains(node.canon()))
                },
            },
    {
        let s = node.to_string();
        let n = store_count_entity(&self.db, s.as_str());
        if n == 0 {
            if !is_valid_identifier(s.as_str()) {
                return Err(RBACError::InvalidIdentifier);
            }
            match store_create_entity(&mut self.db, s.as_str()) {
                Ok(()) => Ok(false),
                Err(e) => Err(e),
            }
        } else if n == 1 {
            Ok(true)
        } else {
            Err(RBACError::VertexDuplication)
        }
    }

    /// Resolves the node's vertex; VertexNotFound when no ingestion ever
    /// created it.
    fn get_vertex(&self, node: &Node) -> (r: Result<(), RBACError>)
        requires
            self.inv(),
        ensures
            match r {
                Ok(()) => self.verts().contains(node.canon()),
                Err(e) => e == RBACError::VertexNotFound && !self.verts().contains(node.canon()),
            },
    {
        let s = node.to_string();
        let n = store_count_entity(&self.db, s.as_str());
        if n == 0 {
            Err(RBACError::VertexNotFound)
        } else if n == 1 {
            Ok(())
        } else {
            Err(RBACError::VertexDuplication)
        }
    }

    /// Ensures both role vertices exist and records one `inherits` edge from
    /// parent to child. The store keeps edges as a set, so re-recording an
    /// existing pair changes nothing. When both vertices already exist only
    /// infallible operations run, so the call succeeds.
    pub fn add_role_relationship(&mut self, relationship: &RoleRelationship) -> (r: Result<
        bool,
        RBACError,
    >)
        requires
            old(self).inv(),
        ensures
            final(self).inv(),
            old(self).verts().subset_of(final(self).verts()),
            old(self).edges().subset_of(final(self).edges()),
            old(self).verts().contains(relationship.parent.canon()) && old(self).verts().contains(
                relationship.child.canon(),
            ) ==> r is Ok,
            !valid_identifier(relationship.parent.canon()) && !old(self).verts().contains(
                relationship.parent.canon(),
            ) ==> r == Err::<bool, RBACError>(RBACError::InvalidIdentifier),
            old(self).verts().contains(relationship.parent.canon()) && !valid_identifier(
                relationship.child.canon(),
            ) && !old(self).verts().contains(relationship.child.canon()) ==> r == Err::<
                bool,
                RBACError,
            >(RBACError::InvalidIdentifier),
            match r {
                Ok(b) => {
                    &&& b
                    &&& final(self).verts() =~= old(self).verts().insert(
                        relationship.parent.canon(),
                    ).insert(relationship.child.canon())
                    &&& final(self).edges() =~= old(self).edges().insert(
                        (relationship.parent.canon(), EdgeLabel::Inherits,
                        relationship.child.canon()),
                    )
                },
                Err(e) => {
                    &&& final(self).edges() == old(self).edges()
                    &&& final(self).verts().subset_of(
                        old(self).verts().insert(relationship.parent.canon()).insert(
                            relationship.child.canon(),
                        ),
                    )
                    &&& e != RBACError::VertexNotFound
                    &&& e != RBACError::VertexDuplication
                    &&& (e == RBACError::InvalidIdentifier ==> !valid_identifier(
                        relationship.parent.canon(),
                    ) || !valid_identifier(relationship.child.canon()))
                },
            },
    {
        match self.get_or_create_vertex(&relationship.parent) {
            Ok(_) => (),
            Err(e) => return Err(e),
        }
        match self.get_or_create_vertex(&relationship.child) {
            Ok(_) => (),
            Err(e) => return Err(e),
        }
        let p = relationship.parent.to_string();
        let c = relationship.child.to_string();
        store_create_edge(&mut self.db, p.as_str(), EdgeLabel::Inherits, c.as_str());
        Ok(true)
    }

    /// Ensures the subject, role and object vertices exist; when this very
    /// call created the object's vertex and the object's namespace declares
    /// a role hierarchy, expands that hierarchy for the object — one
    /// `inherits` edge per declared parent-child pair and one
    /// `role_to_entity` edge per declared role, all scoped to the object —
    /// and finally records one `entity_to_role` edge from subject to role.
    /// A failure propagates at once; writes already made stay in place.
    /// When all three vertices already exist, only infallible operations
    /// run, so the call succeeds.
    #[verifier::loop_isolation(false)]
    pub fn add_relationship(&mut self, relationship: &EntityRelationship) -> (r: Result<
        bool,
        RBACError,
    >)
        requires
            old(self).inv(),
            relationship.wf(),
        ensures
            final(self).inv(),
            old(self).verts().subset_of(final(self).verts()),
            old(self).edges().subset_of(final(self).edges()),
            old(self).verts().contains(relationship.subject.canon()) && old(self).verts().contains(
                relationship.role.canon(),
            ) && old(self).verts().contains(relationship.object.canon()) ==> r is Ok,
            !valid_identifier(relationship.subject.canon()) && !old(self).verts().contains(
                relationship.subject.canon(),
            ) ==> r == Err::<bool, RBACError>(RBACError::InvalidIdentifier),
            old(self).verts().contains(relationship.subject.canon()) && !valid_identifier(
                relationship.role.canon(),
            ) && !old(self).verts().contains(relationship.role.canon()) ==> r == Err::<
                bool,
                RBACError,
            >(RBACError::InvalidIdentifier),
            old(self).verts().contains(relationship.subject.canon()) && old(self).verts().contains(
                relationship.role.canon(),
            ) && !valid_identifier(relationship.object.canon()) && !old(self).verts().contains(
                relationship.object.canon(),
            ) ==> r == Err::<bool, RBACError>(RBACError::InvalidIdentifier),
            match r {
                Ok(b) => b && ({
                    let s = relationship.subject.canon();
                    let rc = relationship.role.canon();
                    let o = relationship.object.canon();
                    let base_v = old(self).verts().insert(s).insert(rc);
                    if !base_v.contains(o) && relationship.object@.roles is Some {
                        let rs = relationship.object@.roles->0;
                        let oid = relationship.object@.id;
                        &&& final(self).verts() =~= base_v.insert(o).union(role_verts(rs, oid))
                        &&& final(self).edges() =~= old(self).edges().union(
                            hier_edges(rs, oid),
                        ).union(memb_edges(rs, oid, o)).insert((s, EdgeLabel::EntityToRole, rc))
                    } else {
                        &&& final(self).verts() =~= base_v.insert(o)
                        &&& final(self).edges() =~= old(self).edges().insert(
                            (s, EdgeLabel::EntityToRole, rc),
                        )
                    }
                }),
                Err(e) => {
                    &&& e != RBACError::VertexNotFound
                    &&& e != RBACError::VertexDuplication
                    &&& (e == RBACError::InvalidIdentifier ==> !valid_identifier(
                        relationship.subject.canon(),
                    ) || !valid_identifier(relationship.role.canon()) || !valid_identifier(
                        relationship.object.canon(),
                    ) || (relationship.object@.roles is Some && exists|c: Seq<char>|
                        #[trigger] role_verts(
                            relationship.object@.roles->0,
                            relationship.object@.id,
                        ).contains(c) && !valid_identifier(c)))
                },
            },
    {
        let ghost s = relationship.subject.canon();
        let ghost rc = relationship.role.canon();
        let ghost o = relationship.object.canon();
        match self.get_or_create_vertex(&relationship.subject) {
            Ok(_) => (),
            Err(e) => return Err(e),
        }
        match self.get_or_create_vertex(&relationship.role) {
            Ok(_) => (),
            Err(e) => return Err(e),
        }
        let object_existed = match self.get_or_create_vertex(&relationship.object) {
            Ok(b) => b,
            Err(e) => return Err(e),
        };
        let ghost base_v = old(self).verts().insert(s).insert(rc);
        let ghost v0 = base_v.insert(o);
        let ghost e0 = old(self).edges();
        proof {
            assert(self.edges() == e0);
            assert(self.verts() =~= v0);
            assert(old(self).verts().subset_of(self.verts()));
            assert(object_existed == base_v.contains(o));
        }
        if !object_existed {
            if let Some(roles) = &relationship.object.roles {
                let ghost rsv = relationship.object@.roles->0;
                let oid = relationship.object.id.clone();
                let obj_s = relationship.object.to_string();
                let n = roles.names.len();
                proof {
                    assert(rsv == roles@);
                    assert(rsv.wf());
                    lemma_expansion_finite(rsv, oid@, obj_s@, n as int);
                }
                let mut i: usize = 0;
                while i < n
                    invariant
                        self.inv(),
                        old(self).verts().subset_of(self.verts()),
                        old(self).edges().subset_of(self.edges()),
                        n == roles@.names.len(),
                        roles@ == rsv,
                        rsv.wf(),
                        oid@ == relationship.object@.id,
                        obj_s@ == o,
                        i <= n,
                        self.edges() =~= e0.union(hier_upto(rsv, oid@, i as int)),
                        v0.subset_of(self.verts()),
                        self.verts().subset_of(v0.union(role_verts(rsv, oid@))),
                    decreases n - i,
                {
                    proof {
                        lemma_expansion_finite(rsv, oid@, obj_s@, i as int);
                        lemma_expansion_finite(rsv, oid@, obj_s@, i + 1 as int);
                    }
                    match roles.parents[i] {
                        Some(j) => {
                            proof {
                                assert(roles@.parents[i as int] == Some(j as int));
                            }
                            let parent_node = role_node(roles, j, &oid);
                            let child_node = role_node(roles, i, &oid);
                            let rr = RoleRelationship::new_from_node(parent_node, child_node);
                            match self.add_role_relationship(&rr) {
                                Ok(_) => (),
                                Err(e) => {
                                    proof {
                                        lemma_rverts_upto_members(rsv, oid@, n as int);
                                        if e == RBACError::InvalidIdentifier {
                                            if !valid_identifier(role_canon(rsv, oid@, j as int)) {
                                                assert(role_verts(rsv, oid@).contains(
                                                    role_canon(rsv, oid@, j as int),
                                                ));
                                            } else {
                                                assert(role_verts(rsv, oid@).contains(
                                                    role_canon(rsv, oid@, i as int),
                                                ));
                                            }
                                        }
                                    }
                                    return Err(e);
                                },
                            }
                            proof {
                                lemma_rverts_upto_members(rsv, oid@, n as int);
                                assert(role_verts(rsv, oid@).contains(role_canon(rsv, oid@, j as int)));
                                assert(role_verts(rsv, oid@).contains(role_canon(rsv, oid@, i as int)));
                            }
                        },
                        None => {
                            proof {
                                assert(roles@.parents[i as int] is None);
                            }
                        },
                    }
                    proof {
                        assert(self.edges() =~= e0.union(hier_upto(rsv, oid@, i + 1 as int)));
                    }
                    i += 1;
                }
                let ghost vh = self.verts();
                let mut k: usize = 0;
                while k < n
                    invariant
                        self.inv(),
                        old(self).verts().subset_of(self.verts()),
                        old(self).edges().subset_of(self.edges()),
                        n == roles@.names.len(),
                        roles@ == rsv,
                        rsv.wf(),
                        oid@ == relationship.object@.id,
                        obj_s@ == o,
                        k <= n,
                        self.edges() =~= e0.union(hier_edges(rsv, oid@)).union(
                            memb_upto(rsv, oid@, o, k as int),
                        ),
                        self.verts() =~= vh.union(rverts_upto(rsv, oid@, k as int)),
                        v0.subset_of(vh),
                        vh.subset_of(v0.union(role_verts(rsv, oid@))),
                    decreases n - k,
                {
                    proof {
                        lemma_expansion_finite(rsv, oid@, o, k as int);
                        lemma_expansion_finite(rsv, oid@, o, k + 1 as int);
                    }
                    let rnode = role_node(roles, k, &oid);
                    match self.get_or_create_vertex(&rnode) {
                        Ok(_) => (),
                        Err(e) => {
                            proof {
                                lemma_rverts_upto_members(rsv, oid@, n as int);
                                if e == RBACError::InvalidIdentifier {
                                    assert(role_verts(rsv, oid@).contains(
                                        role_canon(rsv, oid@, k as int),
                                    ));
                                }
                            }
                            return Err(e);
                        },
                    }
                    let rns = rnode.to_string();
                    proof {
                        assert(self.verts().contains(rnode.canon()));
                        assert(v0.contains(o));
                        assert(vh.contains(o));
                        assert(vh.union(rverts_upto(rsv, oid@, k as int)).contains(o));
                        assert(self.verts().contains(o));
                    }
                    store_create_edge(
                        &mut self.db,
                        rns.as_str(),
                        EdgeLabel::RoleToEntity,
                        obj_s.as_str(),
                    );
                    proof {
                        assert(self.verts() =~= vh.union(rverts_upto(rsv, oid@, k + 1 as int)));
                        assert(self.edges() =~= e0.union(hier_edges(rsv, oid@)).union(
                            memb_upto(rsv, oid@, o, k + 1 as int),
                        ));
                    }
                    k += 1;
                }
                proof {
                    lemma_rverts_upto_members(rsv, oid@, n as int);
                    assert(self.verts() =~= v0.union(role_verts(rsv, oid@)));
                }
            }
        }
        let ss = relationship.subject.to_string();
        let rss = relationship.role.to_string();
        proof {
            assert(base_v.contains(s) && base_v.contains(rc));
            assert(self.verts().contains(s) && self.verts().contains(rc));
        }
        store_create_edge(&mut self.db, ss.as_str(), EdgeLabel::EntityToRole, rss.as_str());
        Ok(true)
    }

    /// Decides whether the subject holds the role over the object: resolves
    /// the three vertices (VertexNotFound if any of them was never part of a
    /// relationship) and searches breadth-first along outgoing edges from
    /// the subject, never expanding the object; the search succeeds exactly
    /// when it dequeues the role vertex and finds its edge onto the object.
    /// A negative answer is Ok(false), not an error. The answer is exact as
    /// long as the store holds fewer edges than the outbound query's limit;
    /// a positive answer is sound in any case.
    #[verifier::loop_isolation(false)]
    pub fn allowed(&self, target: &EntityRelationship) -> (r: Result<bool, RBACError>)
        requires
            self.inv(),
        ensures
            ({
                let s = target.subject.canon();
                let rc = target.role.canon();
                let o = target.object.canon();
                match r {
                    Ok(b) => {
                        &&& self.verts().contains(s)
                        &&& self.verts().contains(rc)
                        &&& self.verts().contains(o)
                        &&& (b ==> spec_allowed(self.edges(), s, rc, o))
                        &&& (self.edges().len() < 0x1_0000_0000 ==> b == spec_allowed(
                            self.edges(),
                            s,
                            rc,
                            o,
                        ))
                    },
                    Err(e) => {
                        &&& e == RBACError::VertexNotFound
                        &&& !(self.verts().contains(s) && self.verts().contains(rc)
                            && self.verts().contains(o))
                    },
                }
            }),
    {
        match self.get_vertex(&target.subject) {
            Ok(()) => (),
            Err(e) => return Err(e),
        }
        match self.get_vertex(&target.role) {
            Ok(()) => (),
            Err(e) => return Err(e),
        }
        match self.get_vertex(&target.object) {
            Ok(()) => (),
            Err(e) => return Err(e),
        }
        let s_str = target.subject.to_string();
        let r_str = target.role.to_string();
        let o_str = target.object.to_string();
        let ghost es = self.edges();
        let ghost s = target.subject.canon();
        let ghost rc = target.role.canon();
        let ghost o = target.object.canon();
        let mut list: Vec<String> = Vec::new();
        list.push(s_str);
        proof {
            lemma_reach_refl(es, o, s);
            lemma_distinct_within(list@, self.verts());
        }
        let mut head: usize = 0;
        while head < list.len()
            invariant
                self.inv(),
                es == self.edges(),
                s == target.subject.canon(),
                rc == target.role.canon(),
                o == target.object.canon(),
                r_str@ == rc,
                o_str@ == o,
                self.verts().contains(s),
                self.verts().contains(rc),
                self.verts().contains(o),
                1 <= list@.len(),
                list@[0]@ == s,
                head <= list@.len(),
                list@.len() <= self.verts().len(),
                forall|x: int, y: int|
                    0 <= x < y < list@.len() ==> #[trigger] list@[x]@ != #[trigger] list@[y]@,
                forall|x: int|
                    0 <= x < list@.len() ==> self.verts().contains(#[trigger] list@[x]@) && reaches(
                        es,
                        s,
                        o,
                        list@[x]@,
                    ),
                es.len() < 0x1_0000_0000 ==> forall|x: int, l: EdgeLabel, d: Seq<char>|
                    0 <= x < head && #[trigger] es.contains((list@[x]@, l, d)) && d != o
                        ==> seq_has(list@, d),
                es.len() < 0x1_0000_0000 ==> forall|x: int|
                    0 <= x < head ==> !(#[trigger] list@[x]@ == rc && has_edge(es, rc, o)),
            decreases self.verts().len() - head,
        {
            let cur = list[head].clone();
            let ghost curv = cur@;
            proof {
                assert(curv == list@[head as int]@);
            }
            head += 1;
            let ts = store_outbound_targets(&self.db, cur.as_str());
            let mut j: usize = 0;
            while j < ts.len()
                invariant
                    self.inv(),
                    es == self.edges(),
                    r_str@ == rc,
                    o_str@ == o,
                    cur@ == curv,
                    self.verts().contains(s),
                    self.verts().contains(rc),
                    self.verts().contains(o),
                    1 <= list@.len(),
                    list@[0]@ == s,
                    1 <= head <= list@.len(),
                    list@.len() <= self.verts().len(),
                    curv == list@[head - 1]@,
                    j <= ts@.len(),
                    forall|x: int|
                        0 <= x < ts@.len() ==> has_edge(es, curv, #[trigger] ts@[x]@),
                    es.len() < 0x1_0000_0000 ==> forall|l: EdgeLabel, d: Seq<char>|
                        #[trigger] es.contains((curv, l, d)) ==> exists|x: int|
                            0 <= x < ts@.len() && ts@[x]@ == d,
                    forall|x: int, y: int|
                        0 <= x < y < list@.len() ==> #[trigger] list@[x]@ != #[trigger] list@[y]@,
                    forall|x: int|
                        0 <= x < list@.len() ==> self.verts().contains(#[trigger] list@[x]@)
                            && reaches(es, s, o, list@[x]@),
                    es.len() < 0x1_0000_0000 ==> forall|x: int, l: EdgeLabel, d: Seq<char>|
                        0 <= x < head - 1 && #[trigger] es.contains((list@[x]@, l, d)) && d != o
                            ==> seq_has(list@, d),
                    es.len() < 0x1_0000_0000 ==> forall|x: int|
                        0 <= x < head - 1 ==> !(#[trigger] list@[x]@ == rc && has_edge(es, rc, o)),
                    forall|x: int| 0 <= x < j ==> ts@[x]@ == o || seq_has(list@, #[trigger] ts@[x]@),
                    forall|x: int| 0 <= x < j ==> !(#[trigger] ts@[x]@ == o && curv == rc),
                decreases ts@.len() - j,
            {
                if ts[j] == o_str {
                    proof {
                        assert(ts@[j as int]@ == o);
                    }
                    if cur == r_str {
                        proof {
                            assert(curv == rc);
                            assert(has_edge(es, curv, ts@[j as int]@));
                            assert(has_edge(es, rc, o));
                            assert(reaches(es, s, o, curv));
                            assert(spec_allowed(es, s, rc, o));
                        }
                        return Ok(true);
                    }
                } else {
                    if !vec_contains_str(&list, &ts[j]) {
                        proof {
                            let l = choose|l: EdgeLabel| es.contains((curv, l, ts@[j as int]@));
                            assert(es.contains((curv, l, ts@[j as int]@)));
                            assert(self.verts().contains(ts@[j as int]@));
                            lemma_reach_step(es, s, o, curv, ts@[j as int]@);
                        }
                        let ghost pre = list@;
                        let t = ts[j].clone();
                        list.push(t);
                        proof {
                            assert(list@[list@.len() - 1]@ == ts@[j as int]@);
                            assert(seq_has(list@, ts@[j as int]@));
                            assert(pre.is_prefix_of(list@));
                            lemma_seq_has_grow(pre, list@);
                            lemma_distinct_within(list@, self.verts());
                        }
                    }
                }
                j += 1;
            }
            proof {
                if es.len() < 0x1_0000_0000 {
                    assert forall|l: EdgeLabel, d: Seq<char>|
                        #[trigger] es.contains((curv, l, d)) && d != o implies seq_has(list@, d) by {
                        let x = choose|x: int| 0 <= x < ts@.len() && ts@[x]@ == d;
                        assert(ts@[x]@ == o || seq_has(list@, ts@[x]@));
                    }
                    if curv == rc && has_edge(es, rc, o) {
                        let l = choose|l: EdgeLabel| es.contains((rc, l, o));
                        assert(es.contains((curv, l, o)));
                        let x = choose|x: int| 0 <= x < ts@.len() && ts@[x]@ == o;
                        assert(!(ts@[x]@ == o && curv == rc));
                        assert(false);
                    }
                }
            }
        }
        proof {
            if es.len() < 0x1_0000_0000 && spec_allowed(es, s, rc, o) {
                let m = list@.map_values(|x: String| x@);
                let vset = m.to_set();
                assert(vset.contains(s)) by {
                    assert(m[0] == list@[0]@);
                    assert(m[0] == s);
                }
                assert forall|a: Seq<char>, l: EdgeLabel, b: Seq<char>|
                    vset.contains(a) && #[trigger] es.contains((a, l, b)) && b != o
                        implies vset.contains(b) by {
                    let x = choose|x: int| 0 <= x < m.len() && m[x] == a;
                    assert(list@[x]@ == a);
                    assert(seq_has(list@, b));
                    let y = choose|y: int| 0 <= y < list@.len() && list@[y]@ == b;
                    assert(m[y] == b);
                }
                lemma_closed_reaches(es, o, vset, s, rc);
                let x = choose|x: int| 0 <= x < m.len() && m[x] == rc;
                assert(list@[x]@ == rc);
                assert(!(list@[x]@ == rc && has_edge(es, rc, o)));
                assert(false);
            }
        }
        Ok(false)
    }
}

/// Idempotent upsert: once a canonical string has its vertex, inserting it
/// again leaves the vertex set unchanged — with `get_or_create_vertex`'s
/// contract, a repeat call on the same node reports "existed" and never
/// yields a second vertex.
pub proof fn lemma_upsert_idempotent(vs: Set<Seq<char>>, c: Seq<char>)
    ensures
        vs.insert(c).contains(c),
        vs.insert(c).insert(c) =~= vs.insert(c),
{
}

/// One-time expansion: the hierarchy edges written when an object is first
/// created are exactly one `inherits` edge per declared parent-child pair
/// and one `role_to_entity` edge per declared role, scoped to that object.
/// Over the edge set `add_relationship` leaves behind on a first touch
/// (base edges, expansion edges and the one assignment edge), each label's
/// edges are the base's plus exactly the expansion of that label — so a
/// later call on the same object, which per the same contract adds only an
/// `entity_to_role` edge, adds no hierarchy or membership edge.
pub proof fn lemma_one_time_expansion(
    rs: RoleSetView,
    oid: Seq<char>,
    obj: Seq<char>,
    base: Set<EdgeRec>,
    s: Seq<char>,
    rc: Seq<char>,
)
    ensures
        forall|e: EdgeRec|
            #[trigger] hier_edges(rs, oid).contains(e) <==> exists|i: int|
                0 <= i < rs.names.len() && (#[trigger] rs.parents[i]) is Some && e == (
                    role_canon(rs, oid, rs.parents[i]->0),
                    EdgeLabel::Inherits,
                    role_canon(rs, oid, i),
                ),
        forall|e: EdgeRec|
            #[trigger] memb_edges(rs, oid, obj).contains(e) <==> exists|i: int|
                0 <= i < rs.names.len() && e == (
                    role_canon(rs, oid, i),
                    EdgeLabel::RoleToEntity,
                    obj,
                ),
        forall|e: EdgeRec|
            e.1 == EdgeLabel::Inherits ==> (#[trigger] base.union(hier_edges(rs, oid)).union(
                memb_edges(rs, oid, obj),
            ).insert((s, EdgeLabel::EntityToRole, rc)).contains(e) <==> base.contains(e)
                || hier_edges(rs, oid).contains(e)),
        forall|e: EdgeRec|
            e.1 == EdgeLabel::RoleToEntity ==> (#[trigger] base.union(hier_edges(rs, oid)).union(
                memb_edges(rs, oid, obj),
            ).insert((s, EdgeLabel::EntityToRole, rc)).contains(e) <==> base.contains(e)
                || memb_edges(rs, oid, obj).contains(e)),
        forall|e: EdgeRec|
            e.1 == EdgeLabel::EntityToRole ==> (#[trigger] base.union(hier_edges(rs, oid)).union(
                memb_edges(rs, oid, obj),
            ).insert((s, EdgeLabel::EntityToRole, rc)).contains(e) <==> base.contains(e) || e == (
                s,
                EdgeLabel::EntityToRole,
                rc,
            )),
{
    lemma_hier_upto_members(rs, oid, rs.names.len() as int);
    lemma_memb_upto_members(rs, oid, obj, rs.names.len() as int);
    let after = base.union(hier_edges(rs, oid)).union(memb_edges(rs, oid, obj)).insert(
        (s, EdgeLabel::EntityToRole, rc),
    );
    assert forall|e: EdgeRec| #[trigger] hier_edges(rs, oid).contains(e) implies e.1
        == EdgeLabel::Inherits by {
        let i = choose|i: int|
            0 <= i < rs.names.len() && (#[trigger] rs.parents[i]) is Some && e == (
                role_canon(rs, oid, rs.parents[i]->0),
                EdgeLabel::Inherits,
                role_canon(rs, oid, i),
            );
    }
    assert forall|e: EdgeRec| #[trigger] memb_edges(rs, oid, obj).contains(e) implies e.1
        == EdgeLabel::RoleToEntity by {
        let i = choose|i: int|
            0 <= i < rs.names.len() && e == (role_canon(rs, oid, i), EdgeLabel::RoleToEntity, obj);
    }
    assert forall|e: EdgeRec| e.1 != EdgeLabel::EntityToRole implies (after.contains(e)
        <==> base.contains(e) || hier_edges(rs, oid).contains(e) || memb_edges(
        rs,
        oid,
        obj,
    ).contains(e)) by {}
}

/// Bulk clear: per `clear`'s contract a full reset leaves no vertices, so by
/// `allowed`'s contract every query on the cleared store returns
/// VertexNotFound.
pub proof fn lemma_cleared_store_holds_nothing(c: Seq<char>)
    ensures
        !Set::<Seq<char>>::empty().contains(c),
{
}

} // verus!
