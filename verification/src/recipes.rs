//! The static recipe catalog and the resolution of a full recipe: the chain
//! of recipes from a final piece down to a raw material, picking at each
//! step the fastest recipe whose product is the current piece (ties broken
//! by the lowest recipe id, then by catalog order).

use vstd::prelude::*;

use crate::pieces::PieceKind;

verus! {

/// The tools a recipe may require.
#[derive(Clone, Copy, Debug, PartialEq, Eq, Structural)]
pub enum ToolType {
    T1,
    T2,
    T3,
    T4,
    T5,
    T6,
}

/// A catalog row: one transformation kind with its tool and duration.
#[derive(Clone, Copy, Debug, PartialEq, Eq, Structural)]
pub struct Recipe {
    pub id: i64,
    pub material_kind: PieceKind,
    pub product_kind: PieceKind,
    pub tool: ToolType,
    pub operation_time: i64,
}

/// A full recipe cannot be longer than the number of piece kinds; a longer
/// walk means the catalog loops.
pub const MAX_RECIPE_DEPTH: usize = 9;

/// `a` wins over `b`: strictly faster, or as fast with a lower id.
pub open spec fn preferred(a: Recipe, b: Recipe) -> bool {
    a.operation_time < b.operation_time || (a.operation_time == b.operation_time && a.id < b.id)
}

/// The recipe the resolver picks for a product: the fastest in the catalog,
/// ties broken by the lowest id, exact duplicates by catalog order.
pub open spec fn pick_best(catalog: Seq<Recipe>, product: PieceKind) -> Option<Recipe>
    decreases catalog.len(),
{
    if catalog.len() == 0 {
        None
    } else {
        let rest = pick_best(catalog.drop_last(), product);
        let last = catalog.last();
        if last.product_kind != product {
            rest
        } else {
            match rest {
                None => Some(last),
                Some(b) => if preferred(last, b) {
                    Some(last)
                } else {
                    Some(b)
                },
            }
        }
    }
}

/// The full recipe for a product: the picked recipe followed by the full
/// recipe of its material, stopping where no recipe exists. `None` when the
/// walk has not ended within `fuel` steps.
pub open spec fn spec_full_recipe(catalog: Seq<Recipe>, product: PieceKind, fuel: nat) -> Option<
    Seq<Recipe>,
>
    decreases fuel,
{
    match pick_best(catalog, product) {
        None => Some(Seq::<Recipe>::empty()),
        Some(r) => {
            if fuel == 0 {
                None
            } else {
                match spec_full_recipe(catalog, r.material_kind, (fuel - 1) as nat) {
                    None => None,
                    Some(rest) => Some(seq![r] + rest),
                }
            }
        },
    }
}

/// The picked recipe is in the catalog, produces the product, and no catalog
/// recipe for the product beats it; when nothing is picked, the catalog has
/// no recipe for the product.
pub proof fn lemma_pick_best_props(catalog: Seq<Recipe>, product: PieceKind)
    ensures
        match pick_best(catalog, product) {
            Some(r) => catalog.contains(r) && r.product_kind == product && (forall|j: int|
                0 <= j < catalog.len() && (#[trigger] catalog[j]).product_kind == product
                    ==> !preferred(catalog[j], r)),
            None => forall|j: int|
                0 <= j < catalog.len() ==> (#[trigger] catalog[j]).product_kind != product,
        },
    decreases catalog.len(),
{
    if catalog.len() > 0 {
        lemma_pick_best_props(catalog.drop_last(), product);
        let prefix = catalog.drop_last();
        assert(forall|j: int| 0 <= j < prefix.len() ==> prefix[j] == catalog[j]);
        match pick_best(prefix, product) {
            Some(b) => {
                let k = choose|k: int| 0 <= k < prefix.len() && prefix[k] == b;
                assert(catalog[k] == b);
                assert(catalog.contains(b));
            },
            None => {},
        }
        assert(catalog.contains(catalog.last())) by {
            assert(catalog[catalog.len() - 1] == catalog.last());
        }
    }
}

/// A chain of recipes hangs together under a target piece: the first link
/// produces the target, and each later link produces the previous link's
/// material.
pub open spec fn linked_chain(product: PieceKind, chain: Seq<Recipe>) -> bool
    decreases chain.len(),
{
    if chain.len() == 0 {
        true
    } else {
        chain[0].product_kind == product && linked_chain(chain[0].material_kind, chain.drop_first())
    }
}

/// Structure of a resolved full recipe: the links hang together under the
/// target, every link is a catalog row, and the chain ends where the catalog
/// offers nothing further.
pub proof fn lemma_full_recipe_chain(
    catalog: Seq<Recipe>,
    product: PieceKind,
    fuel: nat,
    chain: Seq<Recipe>,
)
    requires
        spec_full_recipe(catalog, product, fuel) == Some(chain),
    ensures
        linked_chain(product, chain),
        forall|i: int| 0 <= i < chain.len() ==> catalog.contains(#[trigger] chain[i]),
        chain.len() > 0 ==> pick_best(catalog, chain.last().material_kind) is None,
        chain.len() == 0 ==> pick_best(catalog, product) is None,
    decreases fuel,
{
    match pick_best(catalog, product) {
        None => {},
        Some(r) => {
            let rest = spec_full_recipe(catalog, r.material_kind, (fuel - 1) as nat)->Some_0;
            lemma_full_recipe_chain(catalog, r.material_kind, (fuel - 1) as nat, rest);
            lemma_pick_best_props(catalog, product);
            assert(chain == seq![r] + rest);
            assert(chain[0] == r);
            assert(chain.drop_first() =~= rest);
            assert forall|i: int| 0 <= i < chain.len() implies catalog.contains(
                #[trigger] chain[i],
            ) by {
                if i > 0 {
                    assert(chain[i] == rest[i - 1]);
                    assert(catalog.contains(rest[i - 1]));
                }
            }
            if rest.len() > 0 {
                assert(chain.last() == rest.last());
            } else {
                assert(chain.last() == r);
            }
        },
    }
}

/// A resolved full recipe has at most one link per unit of fuel.
pub proof fn lemma_full_recipe_len(
    catalog: Seq<Recipe>,
    product: PieceKind,
    fuel: nat,
    chain: Seq<Recipe>,
)
    requires
        spec_full_recipe(catalog, product, fuel) == Some(chain),
    ensures
        chain.len() <= fuel,
    decreases fuel,
{
    match pick_best(catalog, product) {
        None => {},
        Some(r) => {
            let rest = spec_full_recipe(catalog, r.material_kind, (fuel - 1) as nat)->Some_0;
            lemma_full_recipe_len(catalog, r.material_kind, (fuel - 1) as nat, rest);
        },
    }
}

/// The recipe picked for a product, as `pick_best` describes it.
pub fn best_recipe(catalog: &Vec<Recipe>, product: PieceKind) -> (r: Option<Recipe>)
    ensures
        r == pick_best(catalog@, product),
{
    let mut best: Option<Recipe> = None;
    let mut i: usize = 0;
    while i < catalog.len()
        invariant
            0 <= i <= catalog.len(),
            best == pick_best(catalog@.subrange(0, i as int), product),
        decreases catalog.len() - i,
    {
        let c = catalog[i];
        proof {
            assert(catalog@.subrange(0, i + 1 as int).drop_last() =~= catalog@.subrange(
                0,
                i as int,
            ));
            assert(catalog@.subrange(0, i + 1 as int).last() == catalog@[i as int]);
        }
        if c.product_kind == product {
            best = match best {
                None => Some(c),
                Some(b) => {
                    if c.operation_time < b.operation_time || (c.operation_time
                        == b.operation_time && c.id < b.id) {
                        Some(c)
                    } else {
                        Some(b)
                    }
                },
            };
        }
        i += 1;
    }
    proof {
        assert(catalog@.subrange(0, catalog@.len() as int) =~= catalog@);
    }
    best
}

/// The catalog does not resolve: the walk from the requested piece never
/// reaches a piece without a recipe, so the catalog loops.
#[derive(Clone, Copy, Debug, PartialEq, Eq, Structural)]
pub enum RecipeError {
    CatalogCycle,
}

/// Resolves the full recipe for a piece against the catalog. Returns the
/// chain from the requested piece down to the first piece with no recipe
/// (empty when the piece itself has none), or an error when the catalog
/// loops.
pub fn get_full_recipe(catalog: &Vec<Recipe>, piece: PieceKind) -> (r: Result<
    Vec<Recipe>,
    RecipeError,
>)
    ensures
        match r {
            Ok(chain) => spec_full_recipe(catalog@, piece, MAX_RECIPE_DEPTH as nat) == Some(
                chain@,
            ),
            Err(_) => spec_full_recipe(catalog@, piece, MAX_RECIPE_DEPTH as nat) is None,
        },
{
    let mut chain: Vec<Recipe> = Vec::new();
    let mut product = piece;
    let mut fuel: usize = MAX_RECIPE_DEPTH;
    loop
        invariant
            fuel <= MAX_RECIPE_DEPTH,
            spec_full_recipe(catalog@, piece, MAX_RECIPE_DEPTH as nat) == (match spec_full_recipe(
                catalog@,
                product,
                fuel as nat,
            ) {
                None => None::<Seq<Recipe>>,
                Some(rest) => Some(chain@ + rest),
            }),
        decreases fuel,
    {
        let picked = best_recipe(catalog, product);
        match picked {
            None => {
                proof {
                    assert(chain@ + Seq::<Recipe>::empty() =~= chain@);
                }
                return Ok(chain);
            },
            Some(r) => {
                if fuel == 0 {
                    return Err(RecipeError::CatalogCycle);
                }
                let ghost chain0 = chain@;
                chain.push(r);
                product = r.material_kind;
                fuel = fuel - 1;
                proof {
                    match spec_full_recipe(catalog@, product, fuel as nat) {
                        None => {},
                        Some(rest) => {
                            assert(chain0 + (seq![r] + rest) =~= chain@ + rest);
                        },
                    }
                }
            },
        }
    }
}

} // verus!
