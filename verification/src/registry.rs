//! Folding collected descriptors into a validated, identity-keyed registry.
//!
//! The collector hands over the descriptors in the build-dependent physical
//! order of the registry section.  [`registered_map`] folds them into a map
//! keyed by type identity, treating a duplicate identity as a build defect,
//! and then checks the closed-world property: every field of every
//! structured descriptor must reference an identity present in the map.
//! The resulting [`Registry`] is immutable; its content does not depend on
//! the physical order of the slots (see [`lemma_order_independence`]).

use std::collections::HashMap;
use vstd::prelude::*;
use vstd::seq_lib::group_to_multiset_ensures;
use vstd::std_specs::hash::group_hash_axioms;

use crate::meta::{StructV, Type, TypeV};

verus! {

/// The views of a sequence of descriptors.
pub open spec fn seq_view(s: Seq<Type>) -> Seq<TypeV> {
    s.map_values(|t: Type| t@)
}

/// Some descriptor in `s` carries the identity `id`.
pub open spec fn has_id(s: Seq<TypeV>, id: u64) -> bool {
    exists|i: int| 0 <= i < s.len() && s[i].id() == id
}

/// No identity occurs twice among the first `n` descriptors.
pub open spec fn no_dup_upto(s: Seq<TypeV>, n: int) -> bool {
    forall|i: int, j: int| 0 <= i < j < n ==> s[i].id() != s[j].id()
}

/// No identity occurs twice.
pub open spec fn distinct_ids(s: Seq<TypeV>) -> bool {
    forall|i: int, j: int| 0 <= i < j < s.len() ==> s[i].id() != s[j].id()
}

/// Every field of the structured descriptor `st` references an identity
/// present in `s`.
pub open spec fn struct_closed(s: Seq<TypeV>, st: StructV) -> bool {
    forall|k: int| 0 <= k < st.fields.len() ==> has_id(s, (#[trigger] st.fields[k]).ty_id)
}

/// The closed-world property: every field of every structured descriptor
/// in `s` references an identity present in `s`.
pub open spec fn closed(s: Seq<TypeV>) -> bool {
    forall|i: int|
        0 <= i < s.len() && (#[trigger] s[i]) is Struct ==> struct_closed(s, s[i]->Struct_0)
}

/// An index of a descriptor in `s` carrying the identity `id`.
pub open spec fn id_index(s: Seq<TypeV>, id: u64) -> int {
    choose|i: int| 0 <= i < s.len() && s[i].id() == id
}

/// The identity-keyed map over the descriptors of `s`: each identity
/// carried by some descriptor maps to the descriptor carrying it (under
/// [`distinct_ids`] there is exactly one).
pub open spec fn registry_of(s: Seq<TypeV>) -> Map<u64, TypeV> {
    Map::new(|id: u64| has_id(s, id), |id: u64| s[id_index(s, id)])
}

/// `j` is the first index whose identity already occurred earlier.
pub open spec fn is_first_dup(s: Seq<TypeV>, j: int) -> bool {
    &&& 0 <= j < s.len()
    &&& exists|i: int| 0 <= i < j && s[i].id() == s[j].id()
    &&& no_dup_upto(s, j)
}

/// The first identity to occur twice, in scan order.
pub open spec fn first_dup_id(s: Seq<TypeV>) -> u64 {
    s[choose|j: int| is_first_dup(s, j)].id()
}

/// Field `k` of descriptor `i` references an identity absent from `s`.
pub open spec fn missing_at(s: Seq<TypeV>, i: int, k: int) -> bool {
    &&& 0 <= i < s.len()
    &&& s[i] is Struct
    &&& 0 <= k < s[i]->Struct_0.fields.len()
    &&& !has_id(s, s[i]->Struct_0.fields[k].ty_id)
}

/// `(i, k)` is the first dangling field reference, scanning descriptors in
/// order and each descriptor's fields in order.
pub open spec fn is_first_missing(s: Seq<TypeV>, i: int, k: int) -> bool {
    &&& missing_at(s, i, k)
    &&& forall|i2: int, k2: int| missing_at(s, i2, k2) ==> i < i2 || (i == i2 && k <= k2)
}

/// The first dangling field reference.
pub open spec fn first_missing_pair(s: Seq<TypeV>) -> (int, int) {
    choose|i: int, k: int| is_first_missing(s, i, k)
}

/// Name of the struct owning the first dangling field reference.
pub open spec fn first_missing_struct_name(s: Seq<TypeV>) -> Seq<char> {
    s[first_missing_pair(s).0]->Struct_0.name
}

/// Name of the field making the first dangling reference.
pub open spec fn first_missing_field_name(s: Seq<TypeV>) -> Seq<char> {
    s[first_missing_pair(s).0]->Struct_0.fields[first_missing_pair(s).1].name
}

/// Every field of the structured descriptor `st` lies within the struct's
/// layout: its byte offset is strictly inside the struct's size, and the
/// field's own type — looked up in `m` — fits between that offset and the
/// struct's end.
pub open spec fn struct_layout_bounded(m: Map<u64, TypeV>, st: StructV) -> bool {
    forall|k: int|
        0 <= k < st.fields.len() ==> {
            let f = #[trigger] st.fields[k];
            &&& f.offset < st.layout.size
            &&& m.contains_key(f.ty_id)
            &&& f.offset + m[f.ty_id].layout().size <= st.layout.size
        }
}

/// [`struct_layout_bounded`], trivially true of an atomic descriptor.
pub open spec fn type_layout_bounded(m: Map<u64, TypeV>, t: TypeV) -> bool {
    t is Struct ==> struct_layout_bounded(m, t->Struct_0)
}

/// Every structured descriptor in `m` keeps all its fields within its own
/// layout.
pub open spec fn registry_layout_bounded(m: Map<u64, TypeV>) -> bool {
    forall|id: u64| #[trigger] m.contains_key(id) ==> type_layout_bounded(m, m[id])
}

/// Why the collected descriptors could not be folded into a registry.
/// Both are build defects and fatal: no partial registry is ever returned.
#[derive(Clone, Debug, PartialEq, Eq)]
pub enum RegistryError {
    /// Two descriptors carry the same type identity.
    DuplicateTypeId { ty_id: u64 },
    /// A field references a type identity that no descriptor carries,
    /// reported with the owning struct's name and the field's name.
    UnregisteredFieldType { struct_name: String, field_name: String },
}

/// A validated, closed-world, identity-keyed collection of descriptors:
/// every identity occurs exactly once, and every field of every structured
/// descriptor references a registered identity.  Immutable once built.
#[derive(Debug)]
pub struct Registry {
    entries: Vec<Type>,
    index: HashMap<u64, usize>,
}

impl View for Registry {
    type V = Map<u64, TypeV>;

    closed spec fn view(&self) -> Map<u64, TypeV> {
        registry_of(seq_view(self.entries@))
    }
}

impl Registry {
    #[verifier::type_invariant]
    spec fn inv(&self) -> bool {
        &&& distinct_ids(seq_view(self.entries@))
        &&& closed(seq_view(self.entries@))
        &&& forall|id: u64| #[trigger]
            self.index@.contains_key(id) ==> 0 <= self.index@[id] < self.entries@.len()
                && seq_view(self.entries@)[self.index@[id] as int].id() == id
        &&& forall|i: int|
            0 <= i < self.entries@.len() ==> self.index@.contains_key(
                #[trigger] seq_view(self.entries@)[i].id(),
            )
    }

    /// Looks a descriptor up by its type identity.
    pub fn get(&self, ty_id: u64) -> (r: Option<&Type>)
        ensures
            match r {
                Some(t) => self@.contains_key(ty_id) && t@ == self@[ty_id],
                None => !self@.contains_key(ty_id),
            },
    {
        proof {
            use_type_invariant(self);
            broadcast use group_hash_axioms;

            lemma_registry_round_trip(seq_view(self.entries@));
        }
        match self.index.get(&ty_id) {
            Some(i) => {
                let idx = *i;
                proof {
                    let sv = seq_view(self.entries@);
                    assert(sv[idx as int].id() == ty_id);
                    assert(self@[ty_id] == sv[idx as int]);
                    assert(sv[idx as int] == self.entries@[idx as int]@);
                }
                Some(&self.entries[idx])
            },
            None => None,
        }
    }

    /// The validated descriptors, in the physical order of the registry
    /// section.  That order is build-dependent and carries no meaning;
    /// the registry's content is exactly [`registry_of`] over it.
    pub fn entries(&self) -> (v: &Vec<Type>)
        ensures
            distinct_ids(seq_view(v@)),
            closed(seq_view(v@)),
            registry_of(seq_view(v@)) == self@,
    {
        proof {
            use_type_invariant(self);
        }
        &self.entries
    }

    /// Decides whether every structured descriptor keeps each of its
    /// fields within the struct's own layout: the field's byte offset
    /// strictly inside the struct's size, and the offset plus the field
    /// type's layout size no larger than the struct's size.
    pub fn layout_bounded(&self) -> (b: bool)
        ensures
            b == registry_layout_bounded(self@),
    {
        proof {
            use_type_invariant(self);
            lemma_registry_round_trip(seq_view(self.entries@));
        }
        let ghost sv = seq_view(self.entries@);
        let ghost m = self@;
        let n = self.entries.len();
        let mut ei: usize = 0;
        while ei < n
            invariant
                sv == seq_view(self.entries@),
                m == self@,
                m == registry_of(sv),
                distinct_ids(sv),
                closed(sv),
                n == self.entries@.len(),
                ei <= n,
                forall|e: int| 0 <= e < ei ==> type_layout_bounded(m, #[trigger] sv[e]),
                forall|i: int|
                    0 <= i < sv.len() ==> m.contains_key((#[trigger] sv[i]).id()) && m[sv[i].id()]
                        == sv[i],
                forall|id: u64| #[trigger] m.contains_key(id) ==> has_id(sv, id),
            decreases n - ei,
        {
            match &self.entries[ei] {
                Type::Struct(st) => {
                    proof {
                        assert(sv[ei as int] == self.entries@[ei as int]@);
                    }
                    let nf = st.fields.len();
                    let mut fi: usize = 0;
                    while fi < nf
                        invariant
                            sv == seq_view(self.entries@),
                            m == self@,
                            m == registry_of(sv),
                            distinct_ids(sv),
                            closed(sv),
                            n == self.entries@.len(),
                            ei < n,
                            self.entries@[ei as int] is Struct,
                            *st == self.entries@[ei as int]->Struct_0,
                            sv[ei as int] == self.entries@[ei as int]@,
                            sv[ei as int] is Struct,
                            sv[ei as int]->Struct_0 == st@,
                            nf == st.fields@.len(),
                            fi <= nf,
                            forall|i: int|
                                0 <= i < sv.len() ==> m.contains_key((#[trigger] sv[i]).id())
                                    && m[sv[i].id()] == sv[i],
                            forall|id: u64| #[trigger] m.contains_key(id) ==> has_id(sv, id),
                            forall|k: int|
                                0 <= k < fi ==> {
                                    let f = #[trigger] st@.fields[k];
                                    &&& f.offset < st@.layout.size
                                    &&& m.contains_key(f.ty_id)
                                    &&& f.offset + m[f.ty_id].layout().size <= st@.layout.size
                                },
                        decreases nf - fi,
                    {
                        let f = &st.fields[fi];
                        proof {
                            assert(st@.fields[fi as int] == st.fields@[fi as int]@);
                        }
                        if f.offset >= st.layout.size {
                            proof {
                                assert(!struct_layout_bounded(m, st@));
                                assert(m.contains_key(sv[ei as int].id()) && m[sv[ei as int].id()]
                                    == sv[ei as int]);
                                assert(!registry_layout_bounded(m));
                            }
                            return false;
                        }
                        match self.get(f.ty_id) {
                            None => {
                                proof {
                                    assert(struct_closed(sv, st@));
                                    assert(has_id(sv, st@.fields[fi as int].ty_id));
                                    let w = id_index(sv, st@.fields[fi as int].ty_id);
                                    assert(0 <= w < sv.len() && sv[w].id() == st@.fields[fi as int].ty_id);
                                    assert(m.contains_key(sv[w].id()));
                                    assert(false);
                                }
                                return false;
                            },
                            Some(ft) => {
                                let fl = ft.layout();
                                if fl.size > st.layout.size - f.offset {
                                    proof {
                                        assert(st@.fields[fi as int].offset
                                            + m[st@.fields[fi as int].ty_id].layout().size > st@.layout.size);
                                        assert(!struct_layout_bounded(m, st@));
                                        assert(m.contains_key(sv[ei as int].id()) && m[sv[ei as int].id()] == sv[ei as int]);
                                        assert(!registry_layout_bounded(m));
                                    }
                                    return false;
                                }
                            },
                        }
                        fi = fi + 1;
                    }
                    proof {
                        assert(struct_layout_bounded(m, st@));
                        assert(type_layout_bounded(m, sv[ei as int]));
                    }
                },
                Type::Value(_) => {
                    proof {
                        assert(sv[ei as int] == self.entries@[ei as int]@);
                        assert(!(sv[ei as int] is Struct));
                    }
                },
            }
            ei = ei + 1;
        }
        proof {
            assert forall|id: u64| #[trigger] m.contains_key(id) implies type_layout_bounded(
                m,
                m[id],
            ) by {
                assert(has_id(sv, id));
                let i = id_index(sv, id);
                assert(0 <= i < sv.len() && sv[i].id() == id);
                assert(m[sv[i].id()] == sv[i]);
            }
        }
        true
    }
}

/// Folds collected descriptors into a validated [`Registry`].
///
/// Succeeds exactly when no identity occurs twice and every field of every
/// structured descriptor references a collected identity; the registry then
/// maps each collected identity to its descriptor, exactly.  A duplicate
/// identity is reported as such; a dangling field reference is reported
/// with the owning struct's and the field's name, first one in scan order.
pub fn registered_map(types: Vec<Type>) -> (r: Result<Registry, RegistryError>)
    ensures
        r is Ok <==> distinct_ids(seq_view(types@)) && closed(seq_view(types@)),
        r matches Ok(reg) ==> reg@ == registry_of(seq_view(types@)),
        !distinct_ids(seq_view(types@)) ==> r == Err::<Registry, RegistryError>(
            RegistryError::DuplicateTypeId { ty_id: first_dup_id(seq_view(types@)) },
        ),
        distinct_ids(seq_view(types@)) && !closed(seq_view(types@)) ==> (r matches Err(e)
            && e matches RegistryError::UnregisteredFieldType { struct_name, field_name }
            && struct_name@ == first_missing_struct_name(seq_view(types@)) && field_name@
            == first_missing_field_name(seq_view(types@))),
{
    broadcast use group_hash_axioms;

    let ghost sv = seq_view(types@);
    let mut index: HashMap<u64, usize> = HashMap::new();
    let n = types.len();
    let mut i: usize = 0;
    while i < n
        invariant
            sv == seq_view(types@),
            n == types@.len(),
            i <= n,
            no_dup_upto(sv, i as int),
            forall|id: u64| #[trigger]
                index@.contains_key(id) ==> 0 <= index@[id] < i && sv[index@[id] as int].id()
                    == id,
            forall|k: int| 0 <= k < i ==> index@.contains_key(#[trigger] sv[k].id()),
        decreases n - i,
    {
        let id = types[i].id();
        proof {
            assert(sv[i as int] == types@[i as int]@);
        }
        if index.contains_key(&id) {
            proof {
                let k0 = index@[id] as int;
                assert(0 <= k0 < i && sv[k0].id() == id);
                assert(is_first_dup(sv, i as int));
                let j = choose|j: int| is_first_dup(sv, j);
                assert(is_first_dup(sv, j));
                if j < i {
                    let p = choose|p: int| 0 <= p < j && sv[p].id() == sv[j].id();
                    assert(!no_dup_upto(sv, i as int));
                } else if j > i {
                    assert(sv[k0].id() == sv[i as int].id());
                    assert(!no_dup_upto(sv, j));
                }
                assert(first_dup_id(sv) == id);
                assert(!distinct_ids(sv));
            }
            return Err(RegistryError::DuplicateTypeId { ty_id: id });
        }
        index.insert(id, i);
        i = i + 1;
    }
    proof {
        assert(distinct_ids(sv));
    }
    let mut ei: usize = 0;
    while ei < n
        invariant
            sv == seq_view(types@),
            n == types@.len(),
            ei <= n,
            distinct_ids(sv),
            forall|id: u64| #[trigger]
                index@.contains_key(id) ==> 0 <= index@[id] < n && sv[index@[id] as int].id()
                    == id,
            forall|k: int| 0 <= k < n ==> index@.contains_key(#[trigger] sv[k].id()),
            forall|i2: int, k2: int| missing_at(sv, i2, k2) ==> i2 >= ei,
        decreases n - ei,
    {
        match &types[ei] {
            Type::Struct(st) => {
                proof {
                    assert(sv[ei as int] == types@[ei as int]@);
                }
                let nf = st.fields.len();
                let mut fi: usize = 0;
                while fi < nf
                    invariant
                        sv == seq_view(types@),
                        n == types@.len(),
                        ei < n,
                        distinct_ids(sv),
                        types@[ei as int] is Struct,
                        *st == types@[ei as int]->Struct_0,
                        sv[ei as int] == types@[ei as int]@,
                        nf == st.fields@.len(),
                        fi <= nf,
                        forall|id: u64| #[trigger]
                            index@.contains_key(id) ==> 0 <= index@[id] < n && sv[index@[id] as int].id() == id,
                        forall|k: int| 0 <= k < n ==> index@.contains_key(#[trigger] sv[k].id()),
                        forall|i2: int, k2: int|
                            missing_at(sv, i2, k2) ==> i2 > ei || (i2 == ei && k2 >= fi),
                    decreases nf - fi,
                {
                    let present = index.contains_key(&st.fields[fi].ty_id);
                    proof {
                        assert(sv[ei as int]->Struct_0.fields[fi as int] == st.fields@[fi as int]@);
                        if present {
                            let k0 = index@[st.fields@[fi as int].ty_id] as int;
                            assert(has_id(sv, st.fields@[fi as int].ty_id));
                        } else {
                            if has_id(sv, st.fields@[fi as int].ty_id) {
                                let w = choose|w: int|
                                    0 <= w < sv.len() && sv[w].id() == st.fields@[fi as int].ty_id;
                                assert(index@.contains_key(sv[w].id()));
                            }
                        }
                    }
                    if !present {
                        proof {
                            assert(missing_at(sv, ei as int, fi as int));
                            assert(is_first_missing(sv, ei as int, fi as int));
                            let (ci, ck) = first_missing_pair(sv);
                            assert(is_first_missing(sv, ci, ck)) by {
                                assert(is_first_missing(sv, ei as int, fi as int));
                            }
                            assert(ci == ei as int && ck == fi as int);
                            assert(!closed(sv)) by {
                                assert(missing_at(sv, ei as int, fi as int));
                            }
                        }
                        return Err(RegistryError::UnregisteredFieldType {
                            struct_name: st.name.clone(),
                            field_name: st.fields[fi].name.clone(),
                        });
                    }
                    fi = fi + 1;
                }
            },
            Type::Value(_) => {
                proof {
                    assert(sv[ei as int] == types@[ei as int]@);
                    assert(!(sv[ei as int] is Struct));
                }
            },
        }
        ei = ei + 1;
    }
    proof {
        assert(closed(sv)) by {
            assert forall|i2: int|
                0 <= i2 < sv.len() && (#[trigger] sv[i2]) is Struct implies struct_closed(
                sv,
                sv[i2]->Struct_0,
            ) by {
                assert forall|k2: int|
                    0 <= k2 < sv[i2]->Struct_0.fields.len() implies has_id(
                    sv,
                    (#[trigger] sv[i2]->Struct_0.fields[k2]).ty_id,
                ) by {
                    assert(!missing_at(sv, i2, k2));
                }
            }
        }
    }
    let reg = Registry { entries: types, index };
    Ok(reg)
}

/// Round-trip law: under [`distinct_ids`], looking each collected
/// descriptor up again by its identity yields the identical descriptor —
/// no loss and no duplication — and the registry holds no identity beyond
/// the collected ones.
pub proof fn lemma_registry_round_trip(s: Seq<TypeV>)
    requires
        distinct_ids(s),
    ensures
        forall|i: int|
            0 <= i < s.len() ==> registry_of(s).contains_key((#[trigger] s[i]).id())
                && registry_of(s)[s[i].id()] == s[i],
        forall|id: u64| #[trigger] registry_of(s).contains_key(id) ==> has_id(s, id),
{
    assert forall|i: int| 0 <= i < s.len() implies registry_of(s).contains_key(
        (#[trigger] s[i]).id(),
    ) && registry_of(s)[s[i].id()] == s[i] by {
        assert(has_id(s, s[i].id()));
        let j = id_index(s, s[i].id());
        assert(0 <= j < s.len() && s[j].id() == s[i].id());
        if i != j {
            assert(!distinct_ids(s));
        }
    }
}

/// All elements of `s1` and `s2` coincide when their multisets do.
proof fn lemma_same_elements(s1: Seq<TypeV>, s2: Seq<TypeV>)
    requires
        s1.to_multiset() == s2.to_multiset(),
    ensures
        forall|x: TypeV| s1.contains(x) == s2.contains(x),
{
    broadcast use group_to_multiset_ensures;

    assert forall|x: TypeV| s1.contains(x) == s2.contains(x) by {
        assert(s1.contains(x) <==> s1.to_multiset().count(x) > 0);
        assert(s2.contains(x) <==> s2.to_multiset().count(x) > 0);
    }
}

/// [`closed`] carries over to a sequence with the same elements.
proof fn lemma_closed_transfer(s1: Seq<TypeV>, s2: Seq<TypeV>)
    requires
        forall|x: TypeV| s1.contains(x) == s2.contains(x),
        closed(s1),
    ensures
        closed(s2),
{
    assert forall|id: u64| has_id(s1, id) implies has_id(s2, id) by {
        let i = id_index(s1, id);
        assert(0 <= i < s1.len() && s1[i].id() == id);
        assert(s1.contains(s1[i]));
        let j = choose|j: int| 0 <= j < s2.len() && s2[j] == s1[i];
        assert(s2[j].id() == id);
    }
    assert forall|i: int|
        0 <= i < s2.len() && (#[trigger] s2[i]) is Struct implies struct_closed(
        s2,
        s2[i]->Struct_0,
    ) by {
        assert(s2.contains(s2[i]));
        assert(s1.contains(s2[i]));
        let m = choose|m: int| 0 <= m < s1.len() && s1[m] == s2[i];
        assert(s1[m] is Struct);
        assert(struct_closed(s1, s1[m]->Struct_0));
        assert forall|k: int|
            0 <= k < s2[i]->Struct_0.fields.len() implies has_id(
            s2,
            (#[trigger] s2[i]->Struct_0.fields[k]).ty_id,
        ) by {
            assert(s1[m]->Struct_0.fields[k] == s2[i]->Struct_0.fields[k]);
            assert(has_id(s1, s1[m]->Struct_0.fields[k].ty_id));
        }
    }
}

/// [`distinct_ids`] carries over to a sequence with the same multiset of
/// descriptors.
proof fn lemma_distinct_transfer(s1: Seq<TypeV>, s2: Seq<TypeV>)
    requires
        s1.to_multiset() == s2.to_multiset(),
        distinct_ids(s1),
    ensures
        distinct_ids(s2),
{
    broadcast use group_to_multiset_ensures;

    lemma_same_elements(s1, s2);
    assert(s1.no_duplicates()) by {
        assert forall|i: int, j: int|
            0 <= i < s1.len() && 0 <= j < s1.len() && i != j implies s1[i] != s1[j] by {
            if i < j {
                assert(s1[i].id() != s1[j].id());
            } else {
                assert(s1[j].id() != s1[i].id());
            }
        }
    }
    s1.lemma_multiset_has_no_duplicates();
    s2.lemma_multiset_has_no_duplicates_conv();
    assert forall|i: int, j: int| 0 <= i < j < s2.len() implies s2[i].id() != s2[j].id() by {
        if s2[i].id() == s2[j].id() {
            assert(s2[i] != s2[j]);
            assert(s2.contains(s2[i]));
            assert(s2.contains(s2[j]));
            assert(s1.contains(s2[i]));
            assert(s1.contains(s2[j]));
            let k = choose|k: int| 0 <= k < s1.len() && s1[k] == s2[i];
            let l = choose|l: int| 0 <= l < s1.len() && s1[l] == s2[j];
            assert(k != l);
            assert(s1[k].id() == s1[l].id());
            assert(false);
        }
    }
}

/// Order-independence law: shuffling the physical order of the collected
/// descriptors — the multiset of descriptors stays the same — changes
/// neither whether validation succeeds (duplicate identities and the
/// closed-world property are order-blind) nor the resulting registry's
/// content, hence no lookup's outcome.
pub proof fn lemma_order_independence(s1: Seq<TypeV>, s2: Seq<TypeV>)
    requires
        s1.to_multiset() == s2.to_multiset(),
    ensures
        distinct_ids(s2) == distinct_ids(s1),
        closed(s2) == closed(s1),
        distinct_ids(s1) ==> registry_of(s2) == registry_of(s1),
{
    broadcast use group_to_multiset_ensures;

    lemma_same_elements(s1, s2);
    if distinct_ids(s1) {
        lemma_distinct_transfer(s1, s2);
    }
    if distinct_ids(s2) {
        lemma_distinct_transfer(s2, s1);
    }
    assert forall|id: u64| has_id(s1, id) == has_id(s2, id) by {
        if has_id(s1, id) {
            let i = id_index(s1, id);
            assert(0 <= i < s1.len() && s1[i].id() == id);
            assert(s1.contains(s1[i]));
            let j = choose|j: int| 0 <= j < s2.len() && s2[j] == s1[i];
            assert(s2[j].id() == id);
            assert(has_id(s2, id));
        }
        if has_id(s2, id) {
            let i = id_index(s2, id);
            assert(0 <= i < s2.len() && s2[i].id() == id);
            assert(s2.contains(s2[i]));
            let j = choose|j: int| 0 <= j < s1.len() && s1[j] == s2[i];
            assert(s1[j].id() == id);
            assert(has_id(s1, id));
        }
    }
    if closed(s1) {
        lemma_closed_transfer(s1, s2);
    }
    if closed(s2) {
        lemma_closed_transfer(s2, s1);
    }
    if distinct_ids(s1) {
        assert(registry_of(s2) =~= registry_of(s1)) by {
            assert forall|id: u64| #[trigger]
                registry_of(s1).contains_key(id) implies registry_of(s1)[id] == registry_of(
                s2,
            )[id] by {
                let i1 = id_index(s1, id);
                assert(0 <= i1 < s1.len() && s1[i1].id() == id);
                assert(s1.contains(s1[i1]));
                let j = choose|j: int| 0 <= j < s2.len() && s2[j] == s1[i1];
                let i2 = id_index(s2, id);
                assert(0 <= i2 < s2.len() && s2[i2].id() == id);
                if i2 != j {
                    assert(s2[j].id() == id);
                    assert(false);
                }
            }
        }
    }
}

} // verus!
