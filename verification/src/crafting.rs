use vstd::prelude::*;

use crate::inventory::first_slot;
use crate::inventory::give_item;
use crate::inventory::give_spec;
use crate::inventory::lemma_first_slot;
use crate::inventory::remove_item;
use crate::inventory::remove_spec;
use crate::inventory::Inventory;
use crate::inventory::InventoryEntry;
use crate::items::ItemType;

verus! {

/// One ingredient requirement of a recipe: an item kind and how many of it
/// the check phase demands.
#[derive(Clone, Copy, PartialEq, Eq, Structural, Debug)]
pub struct ItemAndCount {
    pub item: ItemType,
    pub count: usize,
}

/// A crafting recipe: the ingredients it needs and the kind it produces.
#[derive(Clone, Debug)]
pub struct CraftingRecipe {
    pub needed: Vec<ItemAndCount>,
    pub produces: ItemType,
}

/// The ordered, read-only list of recipes known to the game.
#[derive(Clone, Debug)]
pub struct CraftingBook {
    pub recipes: Vec<CraftingRecipe>,
}

/// A recipe is well formed when none of its ingredient kinds, nor its
/// product, is the empty marker.
pub open spec fn recipe_wf(r: CraftingRecipe) -> bool {
    &&& r.produces != ItemType::Empty
    &&& forall|k: int| 0 <= k < r.needed@.len() ==> (#[trigger] r.needed@[k]).item != ItemType::Empty
}

/// The inventory satisfies one ingredient requirement: some slot (any slot,
/// not only the first) holds that kind in at least the required count.
pub open spec fn satisfies(s: Seq<InventoryEntry>, need: ItemAndCount) -> bool {
    exists|i: int|
        0 <= i < s.len() && (#[trigger] s[i]).item == need.item && s[i].count >= need.count
}

/// The inventory satisfies every ingredient requirement of the recipe.
pub open spec fn can_craft_spec(s: Seq<InventoryEntry>, needed: Seq<ItemAndCount>) -> bool {
    forall|k: int| 0 <= k < needed.len() ==> satisfies(s, #[trigger] needed[k])
}

/// The slots after the consume phase: for each ingredient in recipe order,
/// one item of its kind leaves the first slot holding that kind. Exactly one
/// leaves per ingredient, whatever count the ingredient declares; an
/// ingredient whose kind is (no longer) present consumes nothing.
pub open spec fn consume_spec(s: Seq<InventoryEntry>, needed: Seq<ItemAndCount>) -> Seq<
    InventoryEntry,
>
    decreases needed.len(),
{
    if needed.len() == 0 {
        s
    } else {
        consume_spec(remove_spec(s, needed[0].item, 1), needed.subrange(1, needed.len() as int))
    }
}

/// Removing items never raises any slot's count: a bound on every count
/// still holds after the whole consume phase.
pub proof fn lemma_consume_counts_bounded(
    s: Seq<InventoryEntry>,
    needed: Seq<ItemAndCount>,
    bound: int,
)
    requires
        forall|i: int| 0 <= i < s.len() ==> (#[trigger] s[i]).count <= bound,
    ensures
        forall|i: int|
            0 <= i < consume_spec(s, needed).len() ==> (#[trigger] consume_spec(s, needed)[i]).count
                <= bound,
    decreases needed.len(),
{
    if needed.len() == 0 {
    } else {
        let kind0 = needed[0].item;
        let t = remove_spec(s, kind0, 1);
        lemma_first_slot(s, kind0);
        assert(t.len() == s.len());
        assert forall|i: int| 0 <= i < t.len() implies (#[trigger] t[i]).count <= bound by {
            assert(s[i].count <= bound);
            if i == first_slot(s, kind0) {
                assert(t[i].count <= s[i].count);
            } else {
                assert(t[i] == s[i]);
            }
        }
        lemma_consume_counts_bounded(t, needed.subrange(1, needed.len() as int), bound);
    }
}

/// The crafting evaluator: a read-only check phase followed, only on full
/// success, by the consume phase. Every ingredient must be satisfied before
/// anything is consumed; an unmet ingredient leaves the inventory untouched.
/// The consume phase removes exactly one item per ingredient, whatever count
/// the ingredient declares — the check phase honors the declared counts but
/// the consume phase does not, a quirk of the game kept here deliberately.
/// The recipe's product is not granted here; the caller gives it.
#[verifier::loop_isolation(false)]
pub fn can_craft_and_consume(inventory: &mut Inventory, recipe: &CraftingRecipe) -> (crafted: bool)
    requires
        old(inventory).wf(),
        recipe_wf(*recipe),
    ensures
        final(inventory).wf(),
        crafted == can_craft_spec(old(inventory).items@, recipe.needed@),
        crafted ==> final(inventory).items@ == consume_spec(old(inventory).items@, recipe.needed@),
        !crafted ==> final(inventory).items@ == old(inventory).items@,
        final(inventory).selected == old(inventory).selected,
{
    let ghost s0 = old(inventory).items@;
    let ghost nd = recipe.needed@;
    let n = recipe.needed.len();
    let mut k: usize = 0;
    while k < n
        invariant
            *inventory == *old(inventory),
            k <= n,
            forall|q: int| 0 <= q < k ==> satisfies(s0, #[trigger] nd[q]),
        decreases n - k,
    {
        let need = recipe.needed[k];
        let m = inventory.items.len();
        let mut i: usize = 0;
        let mut found = false;
        while i < m
            invariant
                *inventory == *old(inventory),
                i <= m,
                found ==> satisfies(s0, need),
                !found ==> forall|j: int|
                    0 <= j < i ==> !((#[trigger] s0[j]).item == need.item && s0[j].count
                        >= need.count),
            decreases m - i,
        {
            if inventory.items[i].item == need.item && inventory.items[i].count >= need.count {
                found = true;
            }
            i += 1;
        }
        if !found {
            assert(!satisfies(s0, nd[k as int]));
            return false;
        }
        k += 1;
    }
    proof {
        assert(nd.subrange(0, n as int) =~= nd);
    }
    let mut k: usize = 0;
    while k < n
        invariant
            inventory.wf(),
            k <= n,
            inventory.selected == old(inventory).selected,
            consume_spec(s0, nd) == consume_spec(inventory.items@, nd.subrange(k as int, n as int)),
        decreases n - k,
    {
        let need = recipe.needed[k];
        let _ = remove_item(inventory, need.item, 1);
        proof {
            assert(nd.subrange(k as int, n as int).subrange(1, (n - k) as int) =~= nd.subrange(
                k as int + 1,
                n as int,
            ));
        }
        k += 1;
    }
    proof {
        assert(nd.subrange(n as int, n as int) =~= Seq::<ItemAndCount>::empty());
    }
    true
}

/// One craft attempt, as fired by a discrete trigger: evaluates the recipe
/// and, on success, gives the produced item to the inventory. Granting the
/// product is best-effort, as in the game: with no slot for it, the
/// product is lost while the craft still counts as done.
pub fn attempt_craft(inventory: &mut Inventory, recipe: &CraftingRecipe) -> (crafted: bool)
    requires
        old(inventory).wf(),
        recipe_wf(*recipe),
        forall|i: int|
            0 <= i < old(inventory).items@.len() ==> (#[trigger] old(inventory).items@[i]).count
                < usize::MAX,
    ensures
        final(inventory).wf(),
        crafted == can_craft_spec(old(inventory).items@, recipe.needed@),
        crafted ==> final(inventory).items@ == give_spec(
            consume_spec(old(inventory).items@, recipe.needed@),
            recipe.produces,
        ),
        !crafted ==> final(inventory).items@ == old(inventory).items@,
        final(inventory).selected == old(inventory).selected,
{
    let ghost s0 = old(inventory).items@;
    if can_craft_and_consume(inventory, recipe) {
        proof {
            lemma_consume_counts_bounded(s0, recipe.needed@, usize::MAX - 1);
            lemma_first_slot(inventory.items@, recipe.produces);
        }
        let _ = give_item(inventory, recipe.produces);
        true
    } else {
        false
    }
}

impl CraftingBook {
    /// The book the game starts with: one recipe, turning a twig and a
    /// flint into an axe.
    pub fn starter() -> (book: CraftingBook)
        ensures
            book.recipes@.len() == 1,
            recipe_wf(book.recipes@[0]),
            book.recipes@[0].needed@ == seq![
                (ItemAndCount { item: ItemType::Twig, count: 1 }),
                (ItemAndCount { item: ItemType::Flint, count: 1 }),
            ],
            book.recipes@[0].produces == ItemType::Axe,
    {
        let mut needed: Vec<ItemAndCount> = Vec::new();
        needed.push(ItemAndCount { item: ItemType::Twig, count: 1 });
        needed.push(ItemAndCount { item: ItemType::Flint, count: 1 });
        let recipe = CraftingRecipe { needed, produces: ItemType::Axe };
        let mut recipes: Vec<CraftingRecipe> = Vec::new();
        recipes.push(recipe);
        CraftingBook { recipes }
    }
}

} // verus!
