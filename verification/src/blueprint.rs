//! Blueprints: one unit's full chain of items and transformations, generated
//! from an order's full recipe.

use vstd::prelude::*;

use crate::items::{Item, ItemStatus};
use crate::pieces::PieceKind;
use crate::recipes::Recipe;
use crate::transformations::{Transformation, TransformationStatus};

verus! {

/// One link of a blueprint: a material item, the transformation that
/// consumes it, and the recipe both follow.
#[derive(Debug)]
pub struct Step {
    pub material: Item,
    pub transf: Transformation,
    pub recipe: Recipe,
}

impl Step {
    /// Bundles one link.
    pub fn new(material: Item, transf: Transformation, recipe: Recipe) -> (r: Step)
        ensures
            r.material == material,
            r.transf == transf,
            r.recipe == recipe,
    {
        Step { material, transf, recipe }
    }
}

/// A process hangs together under a product item and a recipe chain: step
/// `i` follows chain link `i`, its transformation turns a fresh pending
/// material of the link's material kind into the previous step's material
/// (the product item for the first step), and every item carries the product
/// item's order binding.
pub open spec fn wf_process(item: Item, chain: Seq<Recipe>, process: Seq<Step>) -> bool
    decreases process.len(),
{
    if process.len() != chain.len() {
        false
    } else if process.len() == 0 {
        true
    } else {
        let s = process[0];
        &&& s.recipe == chain[0]
        &&& s.material.piece_kind == chain[0].material_kind
        &&& s.material.order_id == item.order_id
        &&& s.material.status == ItemStatus::Pending
        &&& s.material.warehouse is None
        &&& s.material.production_line is None
        &&& s.material.acc_cost.cents == 0
        &&& s.transf.product_id == item.id
        &&& s.transf.material_id == s.material.id
        &&& s.transf.recipe_id == chain[0].id
        &&& s.transf.status == TransformationStatus::Pending
        &&& s.transf.line is None
        &&& s.transf.machine is None
        &&& s.transf.time_taken is None
        &&& s.transf.id is None
        &&& wf_process(s.material, chain.drop_first(), process.drop_first())
    }
}

/// The item the next step of a process would feed: the last material, or
/// the product item itself while the process is empty.
pub open spec fn chain_tip(item: Item, process: Seq<Step>) -> Item {
    if process.len() == 0 {
        item
    } else {
        process.last().material
    }
}

/// Extending a hanging process by one fitting step keeps it hanging.
pub proof fn lemma_wf_process_push(item: Item, chain: Seq<Recipe>, process: Seq<Step>, s: Step)
    requires
        wf_process(item, chain, process),
        s.recipe.material_kind == s.material.piece_kind,
        s.material.order_id == item.order_id,
        s.material.status == ItemStatus::Pending,
        s.material.warehouse is None,
        s.material.production_line is None,
        s.material.acc_cost.cents == 0,
        s.transf.product_id == chain_tip(item, process).id,
        s.transf.material_id == s.material.id,
        s.transf.recipe_id == s.recipe.id,
        s.transf.status == TransformationStatus::Pending,
        s.transf.line is None,
        s.transf.machine is None,
        s.transf.time_taken is None,
        s.transf.id is None,
    ensures
        wf_process(item, chain.push(s.recipe), process.push(s)),
    decreases process.len(),
{
    if process.len() == 0 {
        assert(chain.push(s.recipe)[0] == s.recipe);
        assert(process.push(s)[0] == s);
        assert(chain.push(s.recipe).drop_first() =~= Seq::<Recipe>::empty());
        assert(process.push(s).drop_first() =~= Seq::<Step>::empty());
        assert(wf_process(s.material, Seq::<Recipe>::empty(), Seq::<Step>::empty()));
    } else {
        assert(process[0].material.order_id == item.order_id);
        assert(chain_tip(process[0].material, process.drop_first()) == chain_tip(item, process));
        lemma_wf_process_push(process[0].material, chain.drop_first(), process.drop_first(), s);
        assert(chain.push(s.recipe)[0] == chain[0]);
        assert(process.push(s)[0] == process[0]);
        assert(chain.push(s.recipe).drop_first() =~= chain.drop_first().push(s.recipe));
        assert(process.push(s).drop_first() =~= process.drop_first().push(s));
    }
}

/// The product item of one step: the unit's product for the first step,
/// and the previous step's material after that.
pub open spec fn step_product(item: Item, process: Seq<Step>, i: int) -> Item {
    if i == 0 {
        item
    } else {
        process[i - 1].material
    }
}

/// Every transformation of a hanging process binds items of the kinds its
/// recipe names: the material item carries the recipe's material kind, and
/// the product item carries the recipe's product kind.
pub proof fn lemma_process_kinds_match(item: Item, chain: Seq<Recipe>, process: Seq<Step>, i: int)
    requires
        wf_process(item, chain, process),
        crate::recipes::linked_chain(item.piece_kind, chain),
        0 <= i < process.len(),
    ensures
        process[i].material.piece_kind == process[i].recipe.material_kind,
        step_product(item, process, i).piece_kind == process[i].recipe.product_kind,
        process[i].transf.material_id == process[i].material.id,
        process[i].transf.product_id == step_product(item, process, i).id,
    decreases i,
{
    if i == 0 {
        assert(chain[0].product_kind == item.piece_kind);
    } else {
        assert(process[0].material.piece_kind == chain[0].material_kind);
        lemma_process_kinds_match(
            process[0].material,
            chain.drop_first(),
            process.drop_first(),
            i - 1,
        );
        assert(process.drop_first()[i - 1] == process[i]);
        if i >= 2 {
            assert(process.drop_first()[i - 2] == process[i - 1]);
        }
    }
}

/// The full recipe to follow is empty, so no process can be described.
#[derive(Clone, Copy, Debug, PartialEq, Eq, Structural)]
pub enum BlueprintError {
    NoRecipes,
}

/// Builds the process for one product item along a full recipe: a fresh
/// pending material item and a pending undated transformation per link,
/// chained tail-first and inheriting the product item's order binding.
/// An empty recipe is refused.
pub fn describe_process(full_recipe: &Vec<Recipe>, item: &Item) -> (r: Result<
    Vec<Step>,
    BlueprintError,
>)
    ensures
        full_recipe@.len() == 0 ==> r == Err::<Vec<Step>, BlueprintError>(
            BlueprintError::NoRecipes,
        ),
        full_recipe@.len() > 0 ==> (match r {
            Ok(process) => {
                &&& wf_process(*item, full_recipe@, process@)
                &&& forall|k: int|
                    0 <= k < process@.len() ==> (#[trigger] process@[k]).transf.date is None
            },
            Err(_) => false,
        }),
{
    if full_recipe.len() == 0 {
        return Err(BlueprintError::NoRecipes);
    }
    let mut process: Vec<Step> = Vec::new();
    let mut product_id: u128 = item.id();
    let mut i: usize = 0;
    while i < full_recipe.len()
        invariant
            0 <= i <= full_recipe.len(),
            process@.len() == i,
            wf_process(*item, full_recipe@.subrange(0, i as int), process@),
            product_id == chain_tip(*item, process@).id,
            chain_tip(*item, process@).order_id == item.order_id,
            forall|k: int| 0 <= k < process@.len() ==> (#[trigger] process@[k]).transf.date is None,
        decreases full_recipe.len() - i,
    {
        let recipe = full_recipe[i];
        let mat = Item::new(recipe.material_kind).set_order(item.order_id());
        let transf = Transformation::new(product_id, mat.id(), recipe.id);
        let next_id = mat.id();
        let s = Step::new(mat, transf, recipe);
        proof {
            lemma_wf_process_push(*item, full_recipe@.subrange(0, i as int), process@, s);
            assert(full_recipe@.subrange(0, i as int).push(recipe) =~= full_recipe@.subrange(
                0,
                i as int + 1,
            ));
        }
        process.push(s);
        product_id = next_id;
        i += 1;
    }
    proof {
        assert(full_recipe@.subrange(0, full_recipe@.len() as int) =~= full_recipe@);
    }
    Ok(process)
}

/// One unit's product item together with its process.
#[derive(Debug)]
pub struct ItemBlueprint {
    pub item: Item,
    pub process: Vec<Step>,
}

impl ItemBlueprint {
    /// Generates the blueprint for one product item along a full recipe.
    pub fn generate(item: Item, full_recipe: &Vec<Recipe>) -> (r: Result<
        ItemBlueprint,
        BlueprintError,
    >)
        ensures
            full_recipe@.len() == 0 ==> r == Err::<ItemBlueprint, BlueprintError>(
                BlueprintError::NoRecipes,
            ),
            full_recipe@.len() > 0 ==> (match r {
                Ok(bp) => {
                    &&& bp.item == item
                    &&& wf_process(item, full_recipe@, bp.process@)
                    &&& forall|k: int|
                        0 <= k < bp.process@.len() ==> (#[trigger] bp.process@[k]).transf.date
                            is None
                },
                Err(_) => false,
            }),
    {
        let process = match describe_process(full_recipe, &item) {
            Ok(p) => p,
            Err(e) => {
                return Err(e);
            },
        };
        Ok(ItemBlueprint { item, process })
    }

    /// The deepest (raw-material-adjacent) step's scheduled day is this
    /// unit's starting day; records it.
    pub fn set_start(&mut self, starting_date: i32)
        requires
            old(self).process@.len() > 0,
        ensures
            final(self).item == old(self).item,
            final(self).process@.len() == old(self).process@.len(),
            forall|k: int|
                0 <= k < old(self).process@.len() - 1 ==> final(self).process@[k] == old(
                    self,
                ).process@[k],
            final(self).process@.last().material == old(self).process@.last().material,
            final(self).process@.last().recipe == old(self).process@.last().recipe,
            final(self).process@.last().transf == (Transformation {
                date: Some(starting_date),
                ..old(self).process@.last().transf
            }),
    {
        let mut s = self.process.pop().unwrap();
        s.transf.set_date(starting_date);
        self.process.push(s);
        proof {
            assert(final(self).process@.last() == s);
        }
    }

    /// The product item.
    pub fn item(&self) -> (r: &Item)
        ensures
            r == self.item,
    {
        &self.item
    }

    /// The process, open for the scheduler to date.
    pub fn process_mut(&mut self) -> (r: &mut Vec<Step>)
        ensures
            *r == old(self).process,
            final(self).item == old(self).item,
            final(self).process == *final(r),
    {
        &mut self.process
    }
}

/// The items an order explodes into: `quantity` fresh pending items of the
/// ordered kind, each bound to the order.
pub fn gen_items(piece: PieceKind, quantity: i32, id: Option<u128>) -> (r: Vec<Item>)
    requires
        quantity >= 0,
    ensures
        r@.len() == quantity,
        forall|k: int|
            0 <= k < r@.len() ==> {
                let it = #[trigger] r@[k];
                &&& it.piece_kind == piece
                &&& it.order_id == id
                &&& it.status == ItemStatus::Pending
                &&& it.warehouse is None
                &&& it.production_line is None
                &&& it.acc_cost.cents == 0
            },
{
    let mut items: Vec<Item> = Vec::new();
    let mut n: i32 = 0;
    while n < quantity
        invariant
            0 <= n <= quantity,
            items@.len() == n,
            forall|k: int|
                0 <= k < items@.len() ==> {
                    let it = #[trigger] items@[k];
                    &&& it.piece_kind == piece
                    &&& it.order_id == id
                    &&& it.status == ItemStatus::Pending
                    &&& it.warehouse is None
                    &&& it.production_line is None
                    &&& it.acc_cost.cents == 0
                },
        decreases quantity - n,
    {
        let item = Item::new(piece).set_order(id);
        items.push(item);
        n += 1;
    }
    items
}

} // verus!
