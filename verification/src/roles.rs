use vstd::prelude::*;

verus! {

use crate::store::{EdgeLabel, EdgeRec};

/// A namespace's declared role hierarchy: a finite ordered list of role
/// variants, each with at most one parent that must be declared before it
/// (which makes the parent relation a forest), plus a default variant.
pub struct RoleSet {
    /// The namespace variant name the roles belong to, e.g. "Post".
    pub ns_name: String,
    /// The role variant names, in declaration order.
    pub names: Vec<String>,
    /// For each variant, the index of its parent variant, if it has one.
    pub parents: Vec<Option<usize>>,
    /// The index of the default variant.
    pub default_index: usize,
}

pub struct RoleSetView {
    pub ns_name: Seq<char>,
    pub names: Seq<Seq<char>>,
    pub parents: Seq<Option<int>>,
    pub default_index: int,
}

impl View for RoleSet {
    type V = RoleSetView;

    open spec fn view(&self) -> RoleSetView {
        RoleSetView {
            ns_name: self.ns_name@,
            names: self.names@.map_values(|s: String| s@),
            parents: self.parents@.map_values(
                |p: Option<usize>|
                    match p {
                        Some(j) => Some(j as int),
                        None => None,
                    },
            ),
            default_index: self.default_index as int,
        }
    }
}

impl RoleSetView {
    /// Validity of the declaration: one parent entry per variant, a default
    /// variant that exists, every parent declared before its child (so the
    /// parent relation has no cycle), and distinct variant names.
    pub open spec fn wf(self) -> bool {
        &&& self.parents.len() == self.names.len()
        &&& 0 <= self.default_index < self.names.len()
        &&& forall|i: int|
            0 <= i < self.parents.len() ==> ((#[trigger] self.parents[i]) is Some ==> 0
                <= self.parents[i]->0 < i)
        &&& forall|i: int, j: int|
            0 <= i < j < self.names.len() ==> #[trigger] self.names[i] != #[trigger] self.names[j]
    }
}

impl RoleSet {
    pub open spec fn wf(&self) -> bool {
        self@.wf()
    }

    /// Builds a role set, eagerly checking the declaration's validity;
    /// an invalid declaration yields None.
    pub fn new(
        ns_name: String,
        names: Vec<String>,
        parents: Vec<Option<usize>>,
        default_index: usize,
    ) -> (r: Option<RoleSet>)
        ensures
            match r {
                Some(rs) => {
                    &&& rs@.ns_name == ns_name@
                    &&& rs@.names == names@.map_values(|s: String| s@)
                    &&& rs@.default_index == default_index as int
                    &&& rs.wf()
                },
                None => !(RoleSet { ns_name, names, parents, default_index })@.wf(),
            },
    {
        let rs = RoleSet { ns_name, names, parents, default_index };
        if rs.check_wf() {
            Some(rs)
        } else {
            None
        }
    }

    fn check_wf(&self) -> (b: bool)
        ensures
            b == self.wf(),
    {
        if self.parents.len() != self.names.len() {
            return false;
        }
        if self.default_index >= self.names.len() {
            return false;
        }
        let n = self.names.len();
        let mut i: usize = 0;
        while i < n
            invariant
                n == self.names.len(),
                self.parents.len() == n,
                i <= n,
                forall|k: int|
                    0 <= k < i ==> ((#[trigger] self@.parents[k]) is Some ==> 0 <= self@.parents[k]->0
                        < k),
            decreases n - i,
        {
            match self.parents[i] {
                Some(j) => {
                    if j >= i {
                        proof {
                            assert(self@.parents[i as int] == Some(j as int));
                        }
                        return false;
                    }
                    proof {
                        assert(self@.parents[i as int] == Some(j as int));
                    }
                },
                None => {
                    proof {
                        assert(self@.parents[i as int] is None);
                    }
                },
            }
            i += 1;
        }
        let mut a: usize = 0;
        while a < n
            invariant
                n == self.names.len(),
                self.parents.len() == n,
                a <= n,
                forall|k: int|
                    0 <= k < self@.parents.len() ==> ((#[trigger] self@.parents[k]) is Some ==> 0
                        <= self@.parents[k]->0 < k),
                forall|k: int, l: int|
                    0 <= k < l < n && k < a ==> #[trigger] self@.names[k] != #[trigger] self@.names[l],
            decreases n - a,
        {
            let mut b: usize = a + 1;
            while b < n
                invariant
                    n == self.names.len(),
                    a < n,
                    a < b,
                    b <= n,
                    forall|l: int| a < l < b ==> self@.names[a as int] != #[trigger] self@.names[l],
                decreases n - b,
            {
                let same = self.names[a] == self.names[b];
                proof {
                    assert(self@.names[a as int] == self.names@[a as int]@);
                    assert(self@.names[b as int] == self.names@[b as int]@);
                }
                if same {
                    return false;
                }
                b += 1;
            }
            a += 1;
        }
        true
    }
}

/// The canonical string of role i of the set, scoped to the object with id
/// oid: the namespace name, the object id and the role name, joined by the
/// separator.
pub open spec fn role_canon(rs: RoleSetView, oid: Seq<char>, i: int) -> Seq<char> {
    rs.ns_name + seq!['_'] + oid + seq!['_'] + rs.names[i]
}

/// The hierarchy (`inherits`) edges for the first n variants, scoped to oid.
pub open spec fn hier_upto(rs: RoleSetView, oid: Seq<char>, n: int) -> Set<EdgeRec>
    decreases n,
{
    if n <= 0 {
        Set::empty()
    } else {
        match rs.parents[n - 1] {
            Some(j) => hier_upto(rs, oid, n - 1).insert(
                (role_canon(rs, oid, j), EdgeLabel::Inherits, role_canon(rs, oid, n - 1)),
            ),
            None => hier_upto(rs, oid, n - 1),
        }
    }
}

/// All hierarchy edges of the set, scoped to oid: one per declared
/// parent-child pair.
pub open spec fn hier_edges(rs: RoleSetView, oid: Seq<char>) -> Set<EdgeRec> {
    hier_upto(rs, oid, rs.names.len() as int)
}

/// The membership (`role_to_entity`) edges of the first n variants, scoped
/// to oid, pointing at the object whose canonical string is obj.
pub open spec fn memb_upto(rs: RoleSetView, oid: Seq<char>, obj: Seq<char>, n: int) -> Set<EdgeRec>
    decreases n,
{
    if n <= 0 {
        Set::empty()
    } else {
        memb_upto(rs, oid, obj, n - 1).insert(
            (role_canon(rs, oid, n - 1), EdgeLabel::RoleToEntity, obj),
        )
    }
}

/// All membership edges of the set scoped to oid: one per variant.
pub open spec fn memb_edges(rs: RoleSetView, oid: Seq<char>, obj: Seq<char>) -> Set<EdgeRec> {
    memb_upto(rs, oid, obj, rs.names.len() as int)
}

/// The canonical strings of the first n role vertices scoped to oid.
pub open spec fn rverts_upto(rs: RoleSetView, oid: Seq<char>, n: int) -> Set<Seq<char>>
    decreases n,
{
    if n <= 0 {
        Set::empty()
    } else {
        rverts_upto(rs, oid, n - 1).insert(role_canon(rs, oid, n - 1))
    }
}

/// The canonical strings of all role vertices of the set scoped to oid.
pub open spec fn role_verts(rs: RoleSetView, oid: Seq<char>) -> Set<Seq<char>> {
    rverts_upto(rs, oid, rs.names.len() as int)
}

/// The three expansion sets are finite.
pub proof fn lemma_expansion_finite(rs: RoleSetView, oid: Seq<char>, obj: Seq<char>, n: int)
    ensures
        hier_upto(rs, oid, n).finite(),
        memb_upto(rs, oid, obj, n).finite(),
        rverts_upto(rs, oid, n).finite(),
    decreases n,
{
    if n > 0 {
        lemma_expansion_finite(rs, oid, obj, n - 1);
    }
}

/// What the hierarchy set holds: exactly one `inherits` edge per declared
/// parent-child pair among the first n variants.
pub proof fn lemma_hier_upto_members(rs: RoleSetView, oid: Seq<char>, n: int)
    ensures
        forall|e: EdgeRec|
            #[trigger] hier_upto(rs, oid, n).contains(e) <==> exists|i: int|
                0 <= i < n && (#[trigger] rs.parents[i]) is Some && e == (
                    role_canon(rs, oid, rs.parents[i]->0),
                    EdgeLabel::Inherits,
                    role_canon(rs, oid, i),
                ),
    decreases n,
{
    if n > 0 {
        lemma_hier_upto_members(rs, oid, n - 1);
        assert forall|e: EdgeRec| #[trigger] hier_upto(rs, oid, n).contains(e) implies exists|
            i: int,
        |
            0 <= i < n && (#[trigger] rs.parents[i]) is Some && e == (
                role_canon(rs, oid, rs.parents[i]->0),
                EdgeLabel::Inherits,
                role_canon(rs, oid, i),
            ) by {
            if rs.parents[n - 1] is Some && e == (
                role_canon(rs, oid, rs.parents[n - 1]->0),
                EdgeLabel::Inherits,
                role_canon(rs, oid, n - 1),
            ) {
                assert(
                    0 <= n - 1 < n && (rs.parents[n - 1]) is Some && e == (
                        role_canon(rs, oid, rs.parents[n - 1]->0),
                        EdgeLabel::Inherits,
                        role_canon(rs, oid, n - 1),
                    )
                );
            } else {
                assert(hier_upto(rs, oid, n - 1).contains(e));
            }
        }
        assert forall|e: EdgeRec|
            (exists|i: int|
                0 <= i < n && (#[trigger] rs.parents[i]) is Some && e == (
                    role_canon(rs, oid, rs.parents[i]->0),
                    EdgeLabel::Inherits,
                    role_canon(rs, oid, i),
                )) implies #[trigger] hier_upto(rs, oid, n).contains(e) by {
            let i = choose|i: int|
                0 <= i < n && (#[trigger] rs.parents[i]) is Some && e == (
                    role_canon(rs, oid, rs.parents[i]->0),
                    EdgeLabel::Inherits,
                    role_canon(rs, oid, i),
                );
            if i < n - 1 {
                assert(hier_upto(rs, oid, n - 1).contains(e));
            }
        }
    }
}

/// What the membership set holds: one `role_to_entity` edge per variant
/// among the first n.
pub proof fn lemma_memb_upto_members(rs: RoleSetView, oid: Seq<char>, obj: Seq<char>, n: int)
    ensures
        forall|e: EdgeRec|
            #[trigger] memb_upto(rs, oid, obj, n).contains(e) <==> exists|i: int|
                0 <= i < n && e == (role_canon(rs, oid, i), EdgeLabel::RoleToEntity, obj),
    decreases n,
{
    if n > 0 {
        lemma_memb_upto_members(rs, oid, obj, n - 1);
        assert forall|e: EdgeRec| #[trigger] memb_upto(rs, oid, obj, n).contains(e) implies exists|
            i: int,
        | 0 <= i < n && e == (role_canon(rs, oid, i), EdgeLabel::RoleToEntity, obj) by {
            if e == (role_canon(rs, oid, n - 1), EdgeLabel::RoleToEntity, obj) {
                assert(
                    0 <= n - 1 < n && e == (
                        role_canon(rs, oid, n - 1),
                        EdgeLabel::RoleToEntity,
                        obj,
                    )
                );
            } else {
                assert(memb_upto(rs, oid, obj, n - 1).contains(e));
            }
        }
        assert forall|e: EdgeRec|
            (exists|i: int|
                0 <= i < n && e == (
                    role_canon(rs, oid, i),
                    EdgeLabel::RoleToEntity,
                    obj,
                )) implies #[trigger] memb_upto(rs, oid, obj, n).contains(e) by {
            let i = choose|i: int|
                0 <= i < n && e == (role_canon(rs, oid, i), EdgeLabel::RoleToEntity, obj);
            if i < n - 1 {
                assert(memb_upto(rs, oid, obj, n - 1).contains(e));
            }
        }
    }
}

/// What the role-vertex set holds: the canonical string of each variant
/// among the first n.
pub proof fn lemma_rverts_upto_members(rs: RoleSetView, oid: Seq<char>, n: int)
    ensures
        forall|c: Seq<char>|
            #[trigger] rverts_upto(rs, oid, n).contains(c) <==> exists|i: int|
                0 <= i < n && c == role_canon(rs, oid, i),
    decreases n,
{
    if n > 0 {
        lemma_rverts_upto_members(rs, oid, n - 1);
        assert forall|c: Seq<char>| #[trigger] rverts_upto(rs, oid, n).contains(c) implies exists|
            i: int,
        | 0 <= i < n && c == role_canon(rs, oid, i) by {
            if c == role_canon(rs, oid, n - 1) {
                assert(0 <= n - 1 < n && c == role_canon(rs, oid, n - 1));
            } else {
                assert(rverts_upto(rs, oid, n - 1).contains(c));
            }
        }
        assert forall|c: Seq<char>|
            (exists|i: int| 0 <= i < n && c == role_canon(rs, oid, i)) implies #[trigger] rverts_upto(
            rs,
            oid,
            n,
        ).contains(c) by {
            let i = choose|i: int| 0 <= i < n && c == role_canon(rs, oid, i);
            if i < n - 1 {
                assert(rverts_upto(rs, oid, n - 1).contains(c));
            }
        }
    }
}

} // verus!
