//! The per-definition baking pass: for each variant of a block-state
//! definition, resolve its authoritative model's inheritance chain, bake the
//! result against the atlas, and key it by block identity. A variant whose
//! model fails to resolve or bake is skipped; the rest of the batch goes on.
use vstd::prelude::*;

use crate::atlas::{spec_layout_ok, AtlasLayout, AtlasLayoutData};
use crate::block::{
    bake_block_model, block_identity, spec_bake_quads, spec_baked_ok, spec_block_identity,
    spec_buckets_of_quads, Block, BucketData,
};
use crate::block_model::spec_elements_view;
use crate::block_model_definition::{
    primary, spec_variants_view, BlockModelDefinition, BlockStateModel, BlockStateModelData,
};
use crate::resolve::{
    lemma_resolve_elements_ok, resolve_block_model, spec_resolve_model, spec_store_elements_ok,
    spec_store_view,
};

verus! {

/// What one variant bakes to: its block identity and buckets when its first
/// application's model resolves and bakes, nothing otherwise. A variant with
/// no applications bakes to nothing.
pub open spec fn spec_bake_variant(
    store: Seq<(Seq<char>, crate::block_model::BlockModelData)>,
    atlas: AtlasLayoutData,
    name: Seq<char>,
    state: Seq<char>,
    apps: Seq<BlockStateModelData>,
) -> Option<(Seq<char>, Seq<BucketData>)> {
    if apps.len() == 0 {
        None
    } else {
        match spec_resolve_model(store, apps[0].model) {
            Err(_) => None,
            Ok(resolved) => match spec_bake_quads(resolved.0, atlas, resolved.1) {
                Err(_) => None,
                Ok(quads) => Some(
                    (spec_block_identity(name, state), spec_buckets_of_quads(quads)),
                ),
            },
        }
    }
}

/// The baked variants of the first `i` entries of a variant table, skipping
/// the ones that fail.
pub open spec fn spec_bake_variants_upto(
    store: Seq<(Seq<char>, crate::block_model::BlockModelData)>,
    atlas: AtlasLayoutData,
    name: Seq<char>,
    variants: Seq<(Seq<char>, Seq<BlockStateModelData>)>,
    i: int,
) -> Seq<(Seq<char>, Seq<BucketData>)>
    decreases i,
{
    if i <= 0 {
        Seq::empty()
    } else {
        spec_bake_variants_upto(store, atlas, name, variants, i - 1) + (match spec_bake_variant(
            store,
            atlas,
            name,
            variants[i - 1].0,
            variants[i - 1].1,
        ) {
            None => Seq::empty(),
            Some(p) => seq![p],
        })
    }
}

/// The view of a baked-variant list.
pub open spec fn spec_baked_variants_view(s: Seq<(Block, crate::block::BlockModel)>) -> Seq<
    (Seq<char>, Seq<BucketData>),
> {
    s.map_values(|p: (Block, crate::block::BlockModel)| (p.0@, p.1@))
}

/// Bakes every variant of one block-state definition named `name`: the
/// variant's first application is authoritative; its model's chain is
/// resolved against `store` and baked against `atlas`, and the result keyed
/// by `"<name>"` or `"<name>[<state>]"`. A variant that fails to resolve or
/// bake is skipped. Multi-part definitions carry conditions this library
/// does not evaluate, so they bake to nothing. Every baked model of the
/// result is well formed.
pub fn load_block_model_definitions(
    name: &str,
    definition: &BlockModelDefinition,
    store: &Vec<(String, crate::block_model::BlockModel)>,
    atlas: &AtlasLayout,
) -> (r: Vec<(Block, crate::block::BlockModel)>)
    requires
        spec_layout_ok(atlas@),
        spec_store_elements_ok(spec_store_view(store@)),
    ensures
        definition matches BlockModelDefinition::Simple(variants) ==> spec_baked_variants_view(r@)
            == spec_bake_variants_upto(
            spec_store_view(store@),
            atlas@,
            name@,
            spec_variants_view(variants@),
            variants@.len() as int,
        ),
        definition matches BlockModelDefinition::MultiPart(_) ==> r@.len() == 0,
        forall|k: int| 0 <= k < r@.len() ==> spec_baked_ok((#[trigger] r@[k]).1@),
{
    let mut out: Vec<(Block, crate::block::BlockModel)> = Vec::new();
    let variants = match definition {
        BlockModelDefinition::MultiPart(_) => {
            return out;
        },
        BlockModelDefinition::Simple(variants) => variants,
    };
    let ghost sv = spec_store_view(store@);
    let ghost vv = spec_variants_view(variants@);
    let mut i: usize = 0;
    while i < variants.len()
        invariant
            i <= variants@.len(),
            sv == spec_store_view(store@),
            vv == spec_variants_view(variants@),
            vv.len() == variants@.len(),
            spec_layout_ok(atlas@),
            spec_store_elements_ok(sv),
            spec_baked_variants_view(out@) == spec_bake_variants_upto(sv, atlas@, name@, vv, i as int),
            forall|k: int| 0 <= k < out@.len() ==> spec_baked_ok((#[trigger] out@[k]).1@),
        decreases variants@.len() - i,
    {
        let ghost prev = spec_baked_variants_view(out@);
        proof {
            assert(vv[i as int] == (variants@[i as int].0@, variants@[i as int].1@.map_values(
                |m: BlockStateModel| m@,
            )));
        }
        let (state, apps) = &variants[i];
        match primary(apps) {
            None => {
                proof {
                    assert(prev + Seq::<(Seq<char>, Seq<BucketData>)>::empty() =~= prev);
                }
            },
            Some(app) => {
                proof {
                    assert(vv[i as int].1[0] == variants@[i as int].1@[0]@);
                }
                match resolve_block_model(store, app.model.as_str()) {
                    Err(_) => {
                        proof {
                            assert(prev + Seq::<(Seq<char>, Seq<BucketData>)>::empty() =~= prev);
                        }
                    },
                    Ok(resolved) => {
                        proof {
                            lemma_resolve_elements_ok(sv, app.model@);
                            let rr = spec_resolve_model(sv, app.model@)->Ok_0;
                            assert(rr.1 == spec_elements_view(resolved.elements@));
                            assert(forall|e: int|
                                0 <= e < spec_elements_view(resolved.elements@).len()
                                    ==> crate::block_model::spec_element_ok(
                                    #[trigger] spec_elements_view(resolved.elements@)[e],
                                ));
                        }
                        match bake_block_model(atlas, &resolved.textures, &resolved.elements) {
                            Err(_) => {
                                proof {
                                    assert(prev + Seq::<(Seq<char>, Seq<BucketData>)>::empty()
                                        =~= prev);
                                }
                            },
                            Ok(baked) => {
                                let b = block_identity(name, state.as_str());
                                let ghost bview = baked@;
                                out.push((b, baked));
                                proof {
                                    assert(spec_baked_variants_view(out@) =~= prev.push(
                                        (spec_block_identity(name@, state@), bview),
                                    ));
                                    assert(prev + seq![
                                        (spec_block_identity(name@, state@), bview),
                                    ] =~= prev.push((spec_block_identity(name@, state@), bview)));
                                }
                            },
                        }
                    },
                }
            },
        }
        i += 1;
    }
    out
}

} // verus!
