use survival_core::crafting::attempt_craft;
use survival_core::crafting::can_craft_and_consume;
use survival_core::crafting::CraftingBook;
use survival_core::crafting::CraftingRecipe;
use survival_core::crafting::ItemAndCount;
use survival_core::inventory::give_item;
use survival_core::inventory::Inventory;
use survival_core::inventory::InventoryEntry;
use survival_core::items::ItemType;

fn entry(item: ItemType, count: usize) -> InventoryEntry {
    InventoryEntry { item, count }
}

fn empty() -> InventoryEntry {
    entry(ItemType::Empty, 0)
}

#[test]
fn starter_book_holds_the_axe_recipe() {
    let book = CraftingBook::starter();
    assert_eq!(book.recipes.len(), 1);
    let recipe = &book.recipes[0];
    assert_eq!(recipe.produces, ItemType::Axe);
    assert_eq!(recipe.needed.len(), 2);
    assert_eq!(
        recipe.needed[0],
        ItemAndCount { item: ItemType::Twig, count: 1 }
    );
    assert_eq!(
        recipe.needed[1],
        ItemAndCount { item: ItemType::Flint, count: 1 }
    );
}

#[test]
fn crafting_the_axe_consumes_twig_and_flint() {
    let book = CraftingBook::starter();
    let mut inv = Inventory::new();
    assert!(give_item(&mut inv, ItemType::Twig));
    assert!(give_item(&mut inv, ItemType::Flint));

    assert!(can_craft_and_consume(&mut inv, &book.recipes[0]));
    for slot in inv.items.iter() {
        assert_eq!(*slot, empty());
    }

    assert!(give_item(&mut inv, book.recipes[0].produces));
    assert_eq!(inv.items[0], entry(ItemType::Axe, 1));
    for slot in inv.items.iter().skip(1) {
        assert_eq!(*slot, empty());
    }
}

#[test]
fn crafting_without_flint_fails_unchanged() {
    let book = CraftingBook::starter();
    let mut inv = Inventory::new();
    assert!(give_item(&mut inv, ItemType::Twig));
    let before: Vec<InventoryEntry> = inv.items.clone();

    assert!(!can_craft_and_consume(&mut inv, &book.recipes[0]));
    assert_eq!(inv.items, before);
}

#[test]
fn attempt_craft_grants_the_product() {
    let book = CraftingBook::starter();
    let mut inv = Inventory::new();
    assert!(give_item(&mut inv, ItemType::Twig));
    assert!(give_item(&mut inv, ItemType::Flint));

    assert!(attempt_craft(&mut inv, &book.recipes[0]));
    assert_eq!(inv.items[0], entry(ItemType::Axe, 1));
    for slot in inv.items.iter().skip(1) {
        assert_eq!(*slot, empty());
    }
}

#[test]
fn attempt_craft_without_ingredients_fails_unchanged() {
    let book = CraftingBook::starter();
    let mut inv = Inventory::new();
    let before: Vec<InventoryEntry> = inv.items.clone();
    assert!(!attempt_craft(&mut inv, &book.recipes[0]));
    assert_eq!(inv.items, before);
}

#[test]
fn consume_takes_one_per_ingredient_whatever_the_declared_count() {
    // The check phase honors the declared count (two wood), but the consume
    // phase removes exactly one per ingredient: the quirk kept from the game.
    let recipe = CraftingRecipe {
        needed: vec![ItemAndCount { item: ItemType::Wood, count: 2 }],
        produces: ItemType::Fire,
    };
    let mut inv = Inventory::new();
    for _ in 0..3 {
        assert!(give_item(&mut inv, ItemType::Wood));
    }
    assert!(can_craft_and_consume(&mut inv, &recipe));
    assert_eq!(inv.items[0], entry(ItemType::Wood, 2));
}

#[test]
fn check_honors_declared_counts() {
    let recipe = CraftingRecipe {
        needed: vec![ItemAndCount { item: ItemType::Wood, count: 2 }],
        produces: ItemType::Fire,
    };
    let mut inv = Inventory::new();
    assert!(give_item(&mut inv, ItemType::Wood));
    let before: Vec<InventoryEntry> = inv.items.clone();
    assert!(!can_craft_and_consume(&mut inv, &recipe));
    assert_eq!(inv.items, before);
}

#[test]
fn ingredients_may_be_satisfied_by_any_slot() {
    // The requirement scan accepts any slot holding the kind, not only the
    // first; here the flint sits after a wood stack in slot order.
    let book = CraftingBook::starter();
    let mut inv = Inventory::new();
    assert!(give_item(&mut inv, ItemType::Wood));
    assert!(give_item(&mut inv, ItemType::Twig));
    assert!(give_item(&mut inv, ItemType::Flint));

    assert!(can_craft_and_consume(&mut inv, &book.recipes[0]));
    assert_eq!(inv.items[0], entry(ItemType::Wood, 1));
    assert_eq!(inv.items[1], empty());
    assert_eq!(inv.items[2], empty());
}
