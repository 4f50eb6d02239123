//! Model inheritance resolution: walking a model's parent chain, merging
//! texture tables child-first, and selecting the nearest non-empty element
//! list. The walk is bounded by the store size, so a cyclic parent chain is
//! reported as `CyclicModelParent` instead of looping.
use vstd::prelude::*;

use crate::block_model::{
    spec_element_ok, spec_table_lookup, spec_table_view, BlockElement, BlockModel, BlockModelData,
    ElementData, Texture, TextureKind, spec_elements_view,
};
use crate::text::str_eq;
use crate::ResolutionError;

verus! {

/// First-match lookup of a model in a store keyed by location string.
pub open spec fn spec_store_lookup(
    store: Seq<(Seq<char>, BlockModelData)>,
    name: Seq<char>,
) -> Option<BlockModelData>
    decreases store.len(),
{
    if store.len() == 0 {
        None
    } else if store[0].0 == name {
        Some(store[0].1)
    } else {
        spec_store_lookup(store.drop_first(), name)
    }
}

/// The view of a model store: location strings and models by value.
pub open spec fn spec_store_view(s: Seq<(String, BlockModel)>) -> Seq<(Seq<char>, BlockModelData)> {
    s.map_values(|p: (String, BlockModel)| (p.0@, p.1@))
}

/// Looks a model up by location string; the first match wins.
pub fn store_get<'a>(store: &'a Vec<(String, BlockModel)>, name: &str) -> (r: Option<&'a BlockModel>)
    ensures
        match r {
            Some(m) => spec_store_lookup(spec_store_view(store@), name@) == Some(m@),
            None => spec_store_lookup(spec_store_view(store@), name@) is None,
        },
{
    proof {
        assert(spec_store_view(store@).skip(0) =~= spec_store_view(store@));
    }
    let mut i: usize = 0;
    while i < store.len()
        invariant
            i <= store@.len(),
            spec_store_lookup(spec_store_view(store@), name@) == spec_store_lookup(
                spec_store_view(store@).skip(i as int),
                name@,
            ),
        decreases store@.len() - i,
    {
        proof {
            assert(spec_store_view(store@).skip(i as int)[0] == (store@[i as int].0@, store@[
                i as int].1@));
            assert(spec_store_view(store@).skip(i as int).drop_first() =~= spec_store_view(
                store@,
            ).skip(i as int + 1));
        }
        if str_eq(store[i].0.as_str(), name) {
            return Some(&store[i].1);
        }
        i += 1;
    }
    None
}

/// Inserts the entries of `entries` into `acc` in order, each only if its
/// name is not already present: the left-hand, child-side table wins.
pub open spec fn spec_insert_absent(
    acc: Seq<(Seq<char>, TextureKind)>,
    entries: Seq<(Seq<char>, TextureKind)>,
) -> Seq<(Seq<char>, TextureKind)>
    decreases entries.len(),
{
    if entries.len() == 0 {
        acc
    } else {
        let prev = spec_insert_absent(acc, entries.drop_last());
        if spec_table_lookup(prev, entries.last().0) is None {
            prev.push(entries.last())
        } else {
            prev
        }
    }
}

/// The merged textures and selected elements of the parent chain starting at
/// `name`, continuing a walk that has already gathered `acc_textures` and
/// (when some visited model had elements) `acc_elements`. A found model
/// consumes one unit of `fuel`; with `fuel == store.len()` at the top, fuel
/// can run out only when the chain revisits a model.
pub open spec fn spec_resolve_chain(
    store: Seq<(Seq<char>, BlockModelData)>,
    name: Seq<char>,
    acc_textures: Seq<(Seq<char>, TextureKind)>,
    acc_elements: Option<Seq<ElementData>>,
    fuel: nat,
) -> Result<(Seq<(Seq<char>, TextureKind)>, Seq<ElementData>), ResolutionError>
    decreases fuel,
{
    match spec_store_lookup(store, name) {
        None => Ok((
            acc_textures,
            match acc_elements {
                Some(e) => e,
                None => Seq::empty(),
            },
        )),
        Some(m) => {
            if fuel == 0 {
                Err(ResolutionError::CyclicModelParent)
            } else {
                let acc_textures2 = spec_insert_absent(acc_textures, m.textures);
                let acc_elements2 = if acc_elements is Some {
                    acc_elements
                } else if m.elements.len() > 0 {
                    Some(m.elements)
                } else {
                    None
                };
                match m.parent {
                    None => Ok((
                        acc_textures2,
                        match acc_elements2 {
                            Some(e) => e,
                            None => Seq::empty(),
                        },
                    )),
                    Some(p) => spec_resolve_chain(
                        store,
                        p,
                        acc_textures2,
                        acc_elements2,
                        (fuel - 1) as nat,
                    ),
                }
            }
        },
    }
}

/// Exact inheritance resolution for the model at location `name`.
pub open spec fn spec_resolve_model(
    store: Seq<(Seq<char>, BlockModelData)>,
    name: Seq<char>,
) -> Result<(Seq<(Seq<char>, TextureKind)>, Seq<ElementData>), ResolutionError> {
    spec_resolve_chain(store, name, Seq::empty(), None, store.len())
}

/// The effective texture table and geometry of one model after walking its
/// inheritance chain.
#[derive(Debug)]
pub struct ResolvedModel {
    /// Merged texture variables; nearer (child) entries win.
    pub textures: Vec<(String, Texture)>,
    /// The nearest non-empty element list of the chain.
    pub elements: Vec<BlockElement>,
}

/// Clones an element list, preserving its value.
fn clone_elements(v: &Vec<BlockElement>) -> (r: Vec<BlockElement>)
    ensures
        spec_elements_view(r@) == spec_elements_view(v@),
{
    let mut out: Vec<BlockElement> = Vec::new();
    let mut i: usize = 0;
    while i < v.len()
        invariant
            i <= v@.len(),
            out@.len() == i,
            forall|j: int| 0 <= j < i ==> out@[j]@ == v@[j]@,
        decreases v@.len() - i,
    {
        out.push(v[i].clone());
        i += 1;
    }
    proof {
        assert(spec_elements_view(out@) =~= spec_elements_view(v@));
    }
    out
}

/// Resolves the model at location `name` against `store`: walks the parent
/// chain from child to root, merging texture tables with nearer entries
/// winning and keeping the first non-empty element list. A location absent
/// from the store ends the walk; a chain that revisits a model fails with
/// `CyclicModelParent`.
pub fn resolve_block_model(store: &Vec<(String, BlockModel)>, name: &str) -> (r: Result<
    ResolvedModel,
    ResolutionError,
>)
    ensures
        match r {
            Ok(rm) => spec_resolve_model(spec_store_view(store@), name@) == Ok::<
                _,
                ResolutionError,
            >((spec_table_view(rm.textures@), spec_elements_view(rm.elements@))),
            Err(e) => spec_resolve_model(spec_store_view(store@), name@) == Err::<
                (Seq<(Seq<char>, TextureKind)>, Seq<ElementData>),
                _,
            >(e),
        },
{
    let ghost sv = spec_store_view(store@);
    let mut fuel: usize = store.len();
    let mut textures: Vec<(String, Texture)> = Vec::new();
    let mut elements: Option<Vec<BlockElement>> = None;
    let mut cur: &str = name;
    proof {
        assert(spec_table_view(textures@) =~= Seq::<(Seq<char>, TextureKind)>::empty());
    }
    loop
        invariant
            sv == spec_store_view(store@),
            spec_resolve_model(sv, name@) == spec_resolve_chain(
                sv,
                cur@,
                spec_table_view(textures@),
                match elements {
                    Some(ref e) => Some(spec_elements_view(e@)),
                    None => None,
                },
                fuel as nat,
            ),
        decreases fuel,
    {
        let m = match store_get(store, cur) {
            None => {
                return Ok(finish_resolved(textures, elements));
            },
            Some(m) => m,
        };
        if fuel == 0 {
            return Err(ResolutionError::CyclicModelParent);
        }
        merge_absent(&mut textures, &m.textures);
        if elements.is_none() && m.elements.len() > 0 {
            elements = Some(clone_elements(&m.elements));
        }
        match &m.parent {
            None => {
                return Ok(finish_resolved(textures, elements));
            },
            Some(p) => {
                cur = p.as_str();
                fuel -= 1;
            },
        }
    }
}

/// A lookup past an appended entry: earlier entries win, the appended one
/// answers only when nothing before it matched.
proof fn lemma_table_lookup_push(
    s: Seq<(Seq<char>, TextureKind)>,
    e: (Seq<char>, TextureKind),
    name: Seq<char>,
)
    ensures
        spec_table_lookup(s.push(e), name) == (match spec_table_lookup(s, name) {
            Some(t) => Some(t),
            None => if e.0 == name {
                Some(e.1)
            } else {
                None
            },
        }),
    decreases s.len(),
{
    if s.len() == 0 {
        assert(s.push(e)[0] == e);
        assert(s.push(e).drop_first() =~= Seq::<(Seq<char>, TextureKind)>::empty());
    } else {
        assert(s.push(e)[0] == s[0]);
        assert(s.push(e).drop_first() =~= s.drop_first().push(e));
        lemma_table_lookup_push(s.drop_first(), e, name);
    }
}

/// Merge priority: in a table merged from a nearer table and farther
/// entries, a name answers with the nearer table's entry when it has one,
/// and with the farther entries' first entry for it otherwise. The nearer,
/// child side always wins.
pub proof fn lemma_merge_priority(
    acc: Seq<(Seq<char>, TextureKind)>,
    entries: Seq<(Seq<char>, TextureKind)>,
    name: Seq<char>,
)
    ensures
        spec_table_lookup(spec_insert_absent(acc, entries), name) == (match spec_table_lookup(
            acc,
            name,
        ) {
            Some(t) => Some(t),
            None => spec_table_lookup(entries, name),
        }),
    decreases entries.len(),
{
    if entries.len() > 0 {
        let es = entries.drop_last();
        let e = entries.last();
        lemma_merge_priority(acc, es, name);
        let prev = spec_insert_absent(acc, es);
        if spec_table_lookup(prev, e.0) is None {
            lemma_table_lookup_push(prev, e, name);
        }
        lemma_merge_priority(acc, es, e.0);
        assert(es.push(e) =~= entries);
        lemma_table_lookup_push(es, e, name);
    }
}

/// Every element of a model is well formed.
pub open spec fn spec_model_elements_ok(m: BlockModelData) -> bool {
    forall|e: int| 0 <= e < m.elements.len() ==> spec_element_ok(#[trigger] m.elements[e])
}

/// Every element of every model of a store is well formed.
pub open spec fn spec_store_elements_ok(store: Seq<(Seq<char>, BlockModelData)>) -> bool {
    forall|k: int| 0 <= k < store.len() ==> spec_model_elements_ok((#[trigger] store[k]).1)
}

/// A looked-up model is one of the store's models.
proof fn lemma_store_lookup_member(store: Seq<(Seq<char>, BlockModelData)>, name: Seq<char>)
    requires
        spec_store_lookup(store, name) is Some,
    ensures
        exists|k: int|
            0 <= k < store.len() && (#[trigger] store[k]).1 == spec_store_lookup(
                store,
                name,
            )->Some_0,
    decreases store.len(),
{
    if store.len() > 0 && store[0].0 != name {
        lemma_store_lookup_member(store.drop_first(), name);
        let k = choose|k: int|
            0 <= k < store.drop_first().len() && (#[trigger] store.drop_first()[k]).1
                == spec_store_lookup(store.drop_first(), name)->Some_0;
        assert(store[k + 1] == store.drop_first()[k]);
    }
}

/// Resolution against a store of well-formed models hands back well-formed
/// elements, whatever the walk has gathered so far, provided what it
/// gathered was well formed too.
proof fn lemma_chain_elements_ok(
    store: Seq<(Seq<char>, BlockModelData)>,
    name: Seq<char>,
    acc_textures: Seq<(Seq<char>, TextureKind)>,
    acc_elements: Option<Seq<ElementData>>,
    fuel: nat,
)
    requires
        spec_store_elements_ok(store),
        acc_elements matches Some(es) ==> forall|e: int|
            0 <= e < es.len() ==> spec_element_ok(#[trigger] es[e]),
    ensures
        spec_resolve_chain(store, name, acc_textures, acc_elements, fuel) matches Ok(r)
            ==> forall|e: int| 0 <= e < r.1.len() ==> spec_element_ok(#[trigger] r.1[e]),
    decreases fuel,
{
    match spec_store_lookup(store, name) {
        None => {},
        Some(m) => {
            if fuel > 0 {
                lemma_store_lookup_member(store, name);
                let acc2 = spec_insert_absent(acc_textures, m.textures);
                let elems2 = if acc_elements is Some {
                    acc_elements
                } else if m.elements.len() > 0 {
                    Some(m.elements)
                } else {
                    None
                };
                match m.parent {
                    None => {},
                    Some(p) => {
                        lemma_chain_elements_ok(store, p, acc2, elems2, (fuel - 1) as nat);
                    },
                }
            }
        },
    }
}

/// Resolution against a store of well-formed models yields well-formed
/// elements.
pub proof fn lemma_resolve_elements_ok(store: Seq<(Seq<char>, BlockModelData)>, name: Seq<char>)
    requires
        spec_store_elements_ok(store),
    ensures
        spec_resolve_model(store, name) matches Ok(r) ==> forall|e: int|
            0 <= e < r.1.len() ==> spec_element_ok(#[trigger] r.1[e]),
{
    lemma_chain_elements_ok(store, name, Seq::empty(), None, store.len());
}

/// The name of the model the parent walk stands at after `k` steps, or
/// `None` once the walk has ended: a walk visits a model only when the store
/// holds it, and moves to the parent it names.
pub open spec fn spec_visit(
    store: Seq<(Seq<char>, BlockModelData)>,
    name: Seq<char>,
    k: nat,
) -> Option<Seq<char>>
    decreases k,
{
    if k == 0 {
        if spec_store_lookup(store, name) is Some {
            Some(name)
        } else {
            None
        }
    } else {
        match spec_visit(store, name, (k - 1) as nat) {
            None => None,
            Some(prev) => match spec_store_lookup(store, prev) {
                None => None,
                Some(m) => match m.parent {
                    None => None,
                    Some(p) => if spec_store_lookup(store, p) is Some {
                        Some(p)
                    } else {
                        None
                    },
                },
            },
        }
    }
}

/// A walk that stands somewhere after `k` steps stood somewhere at every
/// earlier step.
proof fn lemma_visit_monotone(
    store: Seq<(Seq<char>, BlockModelData)>,
    name: Seq<char>,
    j: nat,
    k: nat,
)
    requires
        j <= k,
        spec_visit(store, name, k) is Some,
    ensures
        spec_visit(store, name, j) is Some,
    decreases k - j,
{
    if j < k {
        assert(spec_visit(store, name, (k - 1) as nat) is Some);
        lemma_visit_monotone(store, name, j, (k - 1) as nat);
    }
}

/// The walk from `name` after one step is the walk from the parent it moved
/// to.
proof fn lemma_visit_shift(
    store: Seq<(Seq<char>, BlockModelData)>,
    name: Seq<char>,
    p: Seq<char>,
    k: nat,
)
    requires
        spec_visit(store, name, 1) == Some(p),
    ensures
        spec_visit(store, name, (k + 1) as nat) == spec_visit(store, p, k),
    decreases k,
{
    if k == 0 {
        assert(spec_store_lookup(store, p) is Some);
    } else {
        lemma_visit_shift(store, name, p, (k - 1) as nat);
    }
}

/// The walk is a function of the name it stands at: equal positions step
/// equally ever after.
proof fn lemma_visit_translate(
    store: Seq<(Seq<char>, BlockModelData)>,
    name: Seq<char>,
    i: nat,
    j: nat,
    d: nat,
)
    requires
        spec_visit(store, name, i) == spec_visit(store, name, j),
    ensures
        spec_visit(store, name, (i + d) as nat) == spec_visit(store, name, (j + d) as nat),
    decreases d,
{
    if d > 0 {
        lemma_visit_translate(store, name, i, j, (d - 1) as nat);
        assert(spec_visit(store, name, (i + d) as nat) == spec_visit(
            store,
            name,
            (i + (d - 1) + 1) as nat,
        ));
    }
}

/// A walk that revisits a name never ends.
proof fn lemma_cycle_visits_forever(
    store: Seq<(Seq<char>, BlockModelData)>,
    name: Seq<char>,
    i: nat,
    j: nat,
    k: nat,
)
    requires
        i < j,
        spec_visit(store, name, j) is Some,
        spec_visit(store, name, i) == spec_visit(store, name, j),
    ensures
        spec_visit(store, name, k) is Some,
    decreases k,
{
    if k <= j {
        lemma_visit_monotone(store, name, k, j);
    } else {
        lemma_visit_translate(store, name, i, j, (k - j) as nat);
        lemma_cycle_visits_forever(store, name, i, j, (i + k - j) as nat);
    }
}

/// A walk still standing when the fuel runs out makes resolution report a
/// cycle, whatever it has gathered so far.
proof fn lemma_chain_err_when_visits(
    store: Seq<(Seq<char>, BlockModelData)>,
    name: Seq<char>,
    acc_textures: Seq<(Seq<char>, TextureKind)>,
    acc_elements: Option<Seq<ElementData>>,
    fuel: nat,
)
    requires
        spec_visit(store, name, fuel) is Some,
    ensures
        spec_resolve_chain(store, name, acc_textures, acc_elements, fuel) == Err::<
            (Seq<(Seq<char>, TextureKind)>, Seq<ElementData>),
            ResolutionError,
        >(ResolutionError::CyclicModelParent),
    decreases fuel,
{
    lemma_visit_monotone(store, name, 0, fuel);
    let m = spec_store_lookup(store, name)->Some_0;
    if fuel > 0 {
        lemma_visit_monotone(store, name, 1, fuel);
        match m.parent {
            None => {
                assert(spec_visit(store, name, 1) is None);
            },
            Some(p) => {
                assert(spec_visit(store, name, 1) == Some(p));
                lemma_visit_shift(store, name, p, (fuel - 1) as nat);
                let acc2 = spec_insert_absent(acc_textures, m.textures);
                let elems2 = if acc_elements is Some {
                    acc_elements
                } else if m.elements.len() > 0 {
                    Some(m.elements)
                } else {
                    None
                };
                lemma_chain_err_when_visits(store, p, acc2, elems2, (fuel - 1) as nat);
            },
        }
    }
}

/// A walk already ended within the fuel makes resolution succeed, whatever
/// it has gathered so far.
proof fn lemma_chain_ok_when_ends(
    store: Seq<(Seq<char>, BlockModelData)>,
    name: Seq<char>,
    acc_textures: Seq<(Seq<char>, TextureKind)>,
    acc_elements: Option<Seq<ElementData>>,
    fuel: nat,
)
    requires
        spec_visit(store, name, fuel) is None,
    ensures
        spec_resolve_chain(store, name, acc_textures, acc_elements, fuel) is Ok,
    decreases fuel,
{
    match spec_store_lookup(store, name) {
        None => {},
        Some(m) => {
            assert(spec_visit(store, name, 0) is Some);
            assert(fuel > 0);
            let acc2 = spec_insert_absent(acc_textures, m.textures);
            let elems2 = if acc_elements is Some {
                acc_elements
            } else if m.elements.len() > 0 {
                Some(m.elements)
            } else {
                None
            };
            match m.parent {
                None => {},
                Some(p) => {
                    if spec_store_lookup(store, p) is None {
                        assert(spec_resolve_chain(store, p, acc2, elems2, (fuel - 1) as nat)
                            is Ok);
                    } else {
                        assert(spec_visit(store, name, 1) == Some(p));
                        lemma_visit_shift(store, name, p, (fuel - 1) as nat);
                        lemma_chain_ok_when_ends(store, p, acc2, elems2, (fuel - 1) as nat);
                    }
                },
            }
        },
    }
}

/// A name the store resolves is one of the store's keys.
proof fn lemma_lookup_in_keys(store: Seq<(Seq<char>, BlockModelData)>, name: Seq<char>)
    requires
        spec_store_lookup(store, name) is Some,
    ensures
        store.map_values(|p: (Seq<char>, BlockModelData)| p.0).contains(name),
    decreases store.len(),
{
    if store.len() > 0 && store[0].0 != name {
        lemma_lookup_in_keys(store.drop_first(), name);
        let keys = store.map_values(|p: (Seq<char>, BlockModelData)| p.0);
        let rest_keys = store.drop_first().map_values(|p: (Seq<char>, BlockModelData)| p.0);
        let l = choose|l: int| 0 <= l < rest_keys.len() && rest_keys[l] == name;
        assert(keys[l + 1] == name);
    } else if store.len() > 0 {
        assert(store.map_values(|p: (Seq<char>, BlockModelData)| p.0)[0] == name);
    }
}

/// Inheritance resolution terminates on an acyclic chain: when no two steps
/// of the parent walk stand at the same model, the walk ends within the
/// store's size — it visits each model at most once — and resolution
/// returns a result rather than an error.
pub proof fn lemma_resolution_terminates(store: Seq<(Seq<char>, BlockModelData)>, name: Seq<char>)
    requires
        forall|i: nat, j: nat|
            i < j && #[trigger] spec_visit(store, name, i) is Some && #[trigger] spec_visit(
                store,
                name,
                j,
            ) is Some ==> spec_visit(store, name, i) != spec_visit(store, name, j),
    ensures
        spec_resolve_model(store, name) is Ok,
        forall|k: nat| #[trigger] spec_visit(store, name, k) is Some ==> k < store.len(),
{
    let n = store.len();
    if spec_visit(store, name, n) is Some {
        let vnames = Seq::new(n + 1, |k: int| spec_visit(store, name, k as nat)->Some_0);
        assert forall|k: int| 0 <= k < n + 1 implies (#[trigger] spec_visit(store, name, k as nat))
            is Some by {
            lemma_visit_monotone(store, name, k as nat, n);
        }
        assert(vnames.no_duplicates()) by {
            assert forall|i: int, j: int|
                0 <= i < vnames.len() && 0 <= j < vnames.len() && i != j implies vnames[i]
                != vnames[j] by {
                if i < j {
                    assert(spec_visit(store, name, i as nat) != spec_visit(store, name, j as nat));
                } else {
                    assert(spec_visit(store, name, j as nat) != spec_visit(store, name, i as nat));
                }
            }
        }
        vnames.unique_seq_to_set();
        let keys = store.map_values(|p: (Seq<char>, BlockModelData)| p.0);
        keys.lemma_cardinality_of_set();
        assert(vnames.to_set().subset_of(keys.to_set())) by {
            assert forall|x: Seq<char>| vnames.to_set().contains(x) implies keys.to_set().contains(
                x,
            ) by {
                let k = choose|k: int| 0 <= k < vnames.len() && vnames[k] == x;
                assert(spec_visit(store, name, k as nat) == Some(x));
                lemma_visit_lookup(store, name, k as nat);
                lemma_lookup_in_keys(store, x);
            }
        }
        broadcast use vstd::seq_lib::seq_to_set_is_finite;

        vstd::set_lib::lemma_len_subset(vnames.to_set(), keys.to_set());
        assert(false);
    }
    assert forall|k: nat| #[trigger] spec_visit(store, name, k) is Some implies k < n by {
        if k >= n {
            lemma_visit_monotone(store, name, n, k);
        }
    }
    lemma_chain_ok_when_ends(store, name, Seq::empty(), None, n);
}

/// A walk standing at a name sees it in the store.
proof fn lemma_visit_lookup(store: Seq<(Seq<char>, BlockModelData)>, name: Seq<char>, k: nat)
    requires
        spec_visit(store, name, k) is Some,
    ensures
        spec_store_lookup(store, spec_visit(store, name, k)->Some_0) is Some,
{
    if k == 0 {
    } else {
        assert(spec_visit(store, name, (k - 1) as nat) is Some);
    }
}

/// Inheritance resolution detects a cyclic chain: when the parent walk
/// stands at the same model twice, resolution reports `CyclicModelParent`
/// rather than looping.
pub proof fn lemma_resolution_cycle(
    store: Seq<(Seq<char>, BlockModelData)>,
    name: Seq<char>,
    i: nat,
    j: nat,
)
    requires
        i < j,
        spec_visit(store, name, j) is Some,
        spec_visit(store, name, i) == spec_visit(store, name, j),
    ensures
        spec_resolve_model(store, name) == Err::<
            (Seq<(Seq<char>, TextureKind)>, Seq<ElementData>),
            ResolutionError,
        >(ResolutionError::CyclicModelParent),
{
    lemma_cycle_visits_forever(store, name, i, j, store.len());
    lemma_chain_err_when_visits(store, name, Seq::empty(), None, store.len());
}

/// Assembles the result of a finished walk; a walk that never saw a
/// non-empty element list resolves to no geometry.
fn finish_resolved(textures: Vec<(String, Texture)>, elements: Option<Vec<BlockElement>>) -> (r:
    ResolvedModel)
    ensures
        spec_table_view(r.textures@) == spec_table_view(textures@),
        spec_elements_view(r.elements@) == match elements {
            Some(e) => spec_elements_view(e@),
            None => Seq::<ElementData>::empty(),
        },
{
    match elements {
        Some(e) => ResolvedModel { textures, elements: e },
        None => {
            let r = ResolvedModel { textures, elements: Vec::new() };
            proof {
                assert(spec_elements_view(r.elements@) =~= Seq::<ElementData>::empty());
            }
            r
        },
    }
}

/// Appends to `acc` each entry of `entries`, in order, whose name `acc` does
/// not yet hold.
fn merge_absent(acc: &mut Vec<(String, Texture)>, entries: &Vec<(String, Texture)>)
    ensures
        spec_table_view(final(acc)@) == spec_insert_absent(
            spec_table_view(old(acc)@),
            spec_table_view(entries@),
        ),
{
    let ghost base = spec_table_view(acc@);
    let mut i: usize = 0;
    proof {
        assert(spec_table_view(entries@).take(0) =~= Seq::<(Seq<char>, TextureKind)>::empty());
    }
    while i < entries.len()
        invariant
            i <= entries@.len(),
            spec_table_view(acc@) == spec_insert_absent(
                base,
                spec_table_view(entries@).take(i as int),
            ),
        decreases entries@.len() - i,
    {
        proof {
            let ev = spec_table_view(entries@);
            assert(ev.take(i as int + 1).drop_last() =~= ev.take(i as int));
            assert(ev.take(i as int + 1).last() == (entries@[i as int].0@, entries@[i as int].1@));
        }
        let ghost prev = spec_table_view(acc@);
        match crate::block_model::table_get(acc, entries[i].0.as_str()) {
            None => {
                let entry = (entries[i].0.clone(), entries[i].1.clone());
                acc.push(entry);
                proof {
                    assert(spec_table_view(acc@) =~= prev.push((entries@[i as int].0@, entries@[
                        i as int].1@)));
                }
            },
            Some(_) => {},
        }
        i += 1;
    }
    proof {
        assert(spec_table_view(entries@).take(entries@.len() as int) =~= spec_table_view(
            entries@,
        ));
    }
}

} // verus!
