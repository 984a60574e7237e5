use vstd::prelude::*;

verus! {

use crate::ident::valid_identifier;
use indradb::util::{extract_edges, extract_vertices};
use indradb::{AllEdgeQuery, QueryExt, SpecificVertexQuery};

// The engine keeps its graph in an indradb in-memory database. Verus sees
// that database as an opaque collection; the spec functions below name what
// it holds, and the `external_body` wrappers around the store calls state,
// over those names, what each call does. Every vertex the engine creates
// carries its canonical string twice: as its type identifier and as the
// value of the indexed "entity" property, so a vertex is identified by its
// canonical string throughout.

/// The engine's handle to the in-memory graph database. Verus treats the
/// struct as opaque; the spec functions below name its contents.
#[verifier::external_body]
pub struct Store {
    db: indradb::Database<indradb::MemoryDatastore>,
}

/// The label an edge carries in the store.
#[derive(Clone, Copy, Debug, PartialEq, Eq, Structural)]
pub enum EdgeLabel {
    /// A hierarchy edge from a parent role to one of its child roles.
    Inherits,
    /// A membership edge from a scoped role to the object it governs.
    RoleToEntity,
    /// An assignment edge from a subject to a scoped role.
    EntityToRole,
}

/// How an engine operation fails.
#[derive(Clone, Copy, Debug, PartialEq, Eq, Structural)]
pub enum RBACError {
    /// An underlying store operation failed.
    StoreError,
    /// A query referenced a node with no corresponding vertex.
    VertexNotFound,
    /// More than one vertex shares a canonical string.
    VertexDuplication,
    /// A canonical string fails the store's identifier rules.
    InvalidIdentifier,
}

impl EdgeLabel {
    /// The identifier string the store records for this label.
    pub open spec fn str_spec(self) -> Seq<char> {
        match self {
            EdgeLabel::Inherits => "inherits"@,
            EdgeLabel::RoleToEntity => "role_to_entity"@,
            EdgeLabel::EntityToRole => "entity_to_role"@,
        }
    }

    pub fn as_str(self) -> (r: &'static str)
        ensures
            r@ == self.str_spec(),
    {
        match self {
            EdgeLabel::Inherits => "inherits",
            EdgeLabel::RoleToEntity => "role_to_entity",
            EdgeLabel::EntityToRole => "entity_to_role",
        }
    }
}

/// One stored edge: source canonical string, label, target canonical string.
pub type EdgeRec = (Seq<char>, EdgeLabel, Seq<char>);

/// The canonical strings of the vertices the store holds.
pub uninterp spec fn store_verts(db: Store) -> Set<Seq<char>>;

/// The edges the store holds, as canonical-string triples. The store keeps
/// edges in a set: re-creating an existing triple changes nothing.
pub uninterp spec fn store_edges(db: Store) -> Set<EdgeRec>;

/// Whether the "entity" property is indexed, which property-value queries
/// require.
pub uninterp spec fn entity_indexed(db: Store) -> bool;

/// There is an edge from a to b, whatever its label.
pub open spec fn has_edge(es: Set<EdgeRec>, a: Seq<char>, b: Seq<char>) -> bool {
    exists|l: EdgeLabel| es.contains((a, l, b))
}

/// Relies on indradb::MemoryDatastore::new_db and Database::index_property:
/// a fresh, empty in-memory store with the "entity" property indexed.
#[verifier::external_body]
pub(crate) fn store_new() -> (db: Store)
    ensures
        store_verts(db) == Set::<Seq<char>>::empty(),
        store_edges(db) == Set::<EdgeRec>::empty(),
        entity_indexed(db),
{
    let db = indradb::MemoryDatastore::new_db();
    db.index_property(indradb::Identifier::new("entity").unwrap()).unwrap();
    Store { db }
}

/// Relies on Database::get with a VertexWithPropertyValueQuery on the indexed
/// "entity" property: the number of vertices whose property equals s — at
/// most one, since vertices are only ever created for strings that have none
/// (see store_create_entity).
#[verifier::external_body]
pub(crate) fn store_count_entity(db: &Store, s: &str) -> (n: usize)
    requires
        entity_indexed(*db),
    ensures
        n == if store_verts(*db).contains(s@) {
            1int
        } else {
            0int
        },
{
    let q = indradb::VertexWithPropertyValueQuery::new(
        indradb::Identifier::new("entity").unwrap(),
        indradb::Json::new(serde_json::Value::String(s.to_string())),
    );
    extract_vertices(db.db.get(q).unwrap()).unwrap().len()
}

/// Relies on indradb::Vertex::new (which draws a fresh UUID),
/// Database::create_vertex and Database::set_properties: creates one vertex
/// whose type identifier and "entity" property both hold s. The required
/// valid_identifier is Identifier::new's own acceptance, so the conversion
/// cannot fail. Fails only if the drawn UUID is already taken, in which
/// case nothing was written.
#[verifier::external_body]
pub(crate) fn store_create_entity(db: &mut Store, s: &str) -> (r: Result<(), RBACError>)
    requires
        entity_indexed(*old(db)),
        valid_identifier(s@),
        !store_verts(*old(db)).contains(s@),
    ensures
        entity_indexed(*final(db)),
        store_edges(*final(db)) == store_edges(*old(db)),
        match r {
            Ok(()) => store_verts(*final(db)) == store_verts(*old(db)).insert(s@),
            Err(e) => store_verts(*final(db)) == store_verts(*old(db)) && e
                == RBACError::StoreError,
        },
{
    let v = indradb::Vertex::new(indradb::Identifier::new(s.to_string()).unwrap());
    if !db.db.create_vertex(&v).unwrap() {
        return Err(RBACError::StoreError);
    }
    db.db.set_properties(
        SpecificVertexQuery::single(v.id),
        indradb::Identifier::new("entity").unwrap(),
        &indradb::Json::new(serde_json::Value::String(s.to_string())),
    ).unwrap();
    Ok(())
}

/// Relies on Database::get with a VertexWithPropertyValueQuery (to resolve
/// each endpoint's vertex id) and Database::create_edge, which adds the edge
/// to a BTreeSet — set semantics — and succeeds because both endpoints exist.
#[verifier::external_body]
pub(crate) fn store_create_edge(
    db: &mut Store,
    src: &str,
    label: EdgeLabel,
    dst: &str,
)
    requires
        entity_indexed(*old(db)),
        store_verts(*old(db)).contains(src@),
        store_verts(*old(db)).contains(dst@),
    ensures
        entity_indexed(*final(db)),
        store_verts(*final(db)) == store_verts(*old(db)),
        store_edges(*final(db)) == store_edges(*old(db)).insert((src@, label, dst@)),
{
    let eid = indradb::Identifier::new("entity").unwrap();
    let sq = indradb::VertexWithPropertyValueQuery::new(
        eid,
        indradb::Json::new(serde_json::Value::String(src.to_string())),
    );
    let sid = extract_vertices(db.db.get(sq).unwrap()).unwrap()[0].id;
    let dq = indradb::VertexWithPropertyValueQuery::new(
        eid,
        indradb::Json::new(serde_json::Value::String(dst.to_string())),
    );
    let did = extract_vertices(db.db.get(dq).unwrap()).unwrap()[0].id;
    let t = indradb::Identifier::new(label.as_str()).unwrap();
    db.db.create_edge(&indradb::Edge::new(sid, t, did)).unwrap();
}

/// Relies on Database::get with a VertexWithPropertyValueQuery piped outbound
/// (the vertex's outgoing edges, in key order) and then inbound (each edge's
/// target vertex, whose type identifier is its canonical string). Every
/// listed string is the target of an outgoing edge of s; the listing is
/// complete as long as the store holds fewer edges than the query's limit.
#[verifier::external_body]
pub(crate) fn store_outbound_targets(db: &Store, s: &str) -> (ts: Vec<String>)
    requires
        entity_indexed(*db),
    ensures
        forall|i: int|
            0 <= i < ts@.len() ==> has_edge(store_edges(*db), s@, #[trigger] ts@[i]@),
        store_edges(*db).len() < 0x1_0000_0000 ==> forall|l: EdgeLabel, d: Seq<char>|
            #[trigger] store_edges(*db).contains((s@, l, d)) ==> exists|i: int|
                0 <= i < ts@.len() && ts@[i]@ == d,
{
    let q = indradb::VertexWithPropertyValueQuery::new(
        indradb::Identifier::new("entity").unwrap(),
        indradb::Json::new(serde_json::Value::String(s.to_string())),
    );
    let piped = q.outbound().unwrap().inbound().unwrap();
    let vs = extract_vertices(db.db.get(piped).unwrap()).unwrap();
    vs.into_iter().map(|v| v.t.as_str().to_owned()).collect()
}

/// Relies on Database::get with AllVertexQuery: one entry per stored vertex,
/// carrying its type identifier — the vertex's canonical string.
#[verifier::external_body]
pub(crate) fn store_all_vertices(db: &Store) -> (vs: Vec<String>)
    ensures
        vs@.len() == store_verts(*db).len(),
        forall|c: Seq<char>|
            #[trigger] store_verts(*db).contains(c) <==> exists|i: int|
                0 <= i < vs@.len() && vs@[i]@ == c,
{
    let out = db.db.get(indradb::AllVertexQuery).unwrap();
    let vertices = extract_vertices(out).unwrap();
    vertices.into_iter().map(|v| v.t.as_str().to_owned()).collect()
}

/// Relies on Database::get with AllEdgeQuery (one entry per stored edge, in
/// a fixed order) and with SpecificVertexQuery on the edges' endpoint ids,
/// which returns the vertices in the order the ids were given: one
/// (source, label, target) string triple per stored edge.
#[verifier::external_body]
pub(crate) fn store_all_edges(db: &Store) -> (es: Vec<(String, String, String)>)
    ensures
        es@.len() == store_edges(*db).len(),
        forall|t: EdgeRec|
            #[trigger] store_edges(*db).contains(t) <==> exists|i: int|
                0 <= i < es@.len() && es@[i].0@ == t.0 && es@[i].1@ == t.1.str_spec()
                    && es@[i].2@ == t.2,
{
    let edges = extract_edges(db.db.get(AllEdgeQuery).unwrap()).unwrap();
    let sq = SpecificVertexQuery::new(edges.iter().map(|e| e.outbound_id).collect());
    let srcs = extract_vertices(db.db.get(sq).unwrap()).unwrap();
    let dq = SpecificVertexQuery::new(edges.iter().map(|e| e.inbound_id).collect());
    let dsts = extract_vertices(db.db.get(dq).unwrap()).unwrap();
    edges
        .iter()
        .zip(srcs.iter().zip(dsts.iter()))
        .map(|(e, (s, d))| (s.t.to_string(), e.t.to_string(), d.t.to_string()))
        .collect()
}

/// Relies on Database::delete with AllVertexQuery: removes every vertex,
/// every property on it, and every incident edge — that is every stored
/// edge, since edges are only ever created between existing vertices. The
/// property index itself stays in place.
#[verifier::external_body]
pub(crate) fn store_delete_all_vertices(db: &mut Store)
    ensures
        entity_indexed(*final(db)) == entity_indexed(*old(db)),
        store_verts(*final(db)) == Set::<Seq<char>>::empty(),
        store_edges(*final(db)) == Set::<EdgeRec>::empty(),
{
    db.db.delete(indradb::AllVertexQuery).unwrap();
}

/// Relies on Database::delete with AllEdgeQuery: removes every edge and
/// leaves the vertices and the property index in place.
#[verifier::external_body]
pub(crate) fn store_delete_all_edges(db: &mut Store)
    ensures
        entity_indexed(*final(db)) == entity_indexed(*old(db)),
        store_verts(*final(db)) == store_verts(*old(db)),
        store_edges(*final(db)) == Set::<EdgeRec>::empty(),
{
    db.db.delete(indradb::AllEdgeQuery).unwrap();
}

} // verus!
