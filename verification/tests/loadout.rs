use arma_rs::loadout::{AssignedItems, Container, InventoryItem, Loadout, Magazine, Weapon};
use arma_rs::FromArma;

fn marshal_scenario() {
    let loadout = r#"[[],[],[],["U_Marshal",[]],[],[],"H_Cap_headphones","G_Aviator",[],["ItemMap","ItemGPS","","ItemCompass","ItemWatch",""]]"#;
    let mut loadout = Loadout::from_arma(loadout.to_string()).unwrap();
    loadout.set_secondary({
        let mut weapon = Weapon::new("launch_B_Titan_short_F".to_string());
        weapon.set_primary_magazine(Magazine::new("Titan_AT".to_string(), 1));
        weapon
    });
    loadout.set_primary({
        let mut weapon = Weapon::new("arifle_MXC_F".to_string());
        weapon.set_optic("optic_Holosight".to_string());
        weapon
    });
    let uniform = loadout.uniform_mut();
    uniform.set_class("U_B_CombatUniform_mcam".to_string());
    let uniform_items = uniform.items_mut().unwrap();
    uniform_items.push(InventoryItem::new_item("FirstAidKit".to_string(), 3));
    uniform_items.push(InventoryItem::new_magazine(
        "30Rnd_65x39_caseless_mag".to_string(),
        5,
        30,
    ));
}

#[test]
fn loadout_marshal() {
    marshal_scenario();
}

#[test]
fn mod_marshal() {
    marshal_scenario();
}

#[test]
fn assigned_from_arma() {
    let s = "[\"map\",\"terminal\",\"radio\",\"compass\",\"watch\",\"nvg\"]";
    let assigned = AssignedItems::from_arma(s.to_owned()).unwrap();
    assert_eq!(assigned.map(), "map");
    assert_eq!(assigned.terminal(), "terminal");
    assert_eq!(assigned.radio(), "radio");
    assert_eq!(assigned.compass(), "compass");
    assert_eq!(assigned.watch(), "watch");
    assert_eq!(assigned.nvg(), "nvg");
}

#[test]
fn container_from_arma() {
    let container = Container::from_arma("[]".to_string()).unwrap();
    assert!(!container.is_present());
    let container =
        Container::from_arma("[\"container\",[[\"item1\",1],[\"item2\",2]]]".to_string()).unwrap();
    assert!(container.is_present());
    assert_eq!(container.class().unwrap(), "container");
    assert_eq!(
        container.items().unwrap(),
        &vec![
            InventoryItem::new_item("item1".to_string(), 1),
            InventoryItem::new_item("item2".to_string(), 2),
        ]
    );
}

#[test]
fn classes() {
    let container = Container::from_arma("[]".to_string()).unwrap();
    assert!(!container.is_present());
    let container =
        Container::from_arma("[\"container\",[[\"item1\",1],[\"item2\",2]]]".to_string()).unwrap();
    assert_eq!(
        container.classes(),
        vec![
            ("container".to_string(), 1),
            ("item1".to_string(), 1),
            ("item2".to_string(), 2)
        ]
    );
}

#[test]
fn is() {
    let item = InventoryItem::new_item("test".to_owned(), 1);
    assert_eq!(item.class(), "test");
    assert_eq!(item.count(), 1);
    assert_eq!(item.ammo(), None);
    assert!(!item.is_magazine());
    let item = InventoryItem::new_magazine("test".to_owned(), 1, 1);
    assert_eq!(item.class(), "test");
    assert_eq!(item.count(), 1);
    assert_eq!(item.ammo(), Some(1));
    assert!(item.is_magazine());
}

#[test]
fn inventory_item_class() {
    let mut item = InventoryItem::new_item("test".to_owned(), 1);
    assert_eq!(item.class(), "test");
    item.set_class("test2".to_owned());
    assert_eq!(item.class(), "test2");
}

#[test]
fn count() {
    let mut item = InventoryItem::new_item("test".to_owned(), 1);
    assert_eq!(item.count(), 1);
    item.set_count(2);
    assert_eq!(item.count(), 2);
}

#[test]
fn inventory_item_ammo() {
    let item = InventoryItem::new_magazine("test".to_owned(), 1, 1);
    assert_eq!(item.ammo(), Some(1));
    assert!(item.is_magazine());
    let item = InventoryItem::new_item("test".to_owned(), 1);
    assert_eq!(item.ammo(), None);
    assert!(!item.is_magazine());
}

#[test]
fn inventory_item_from_arma() {
    let item = InventoryItem::from_arma("[\"test\",1]".to_owned()).unwrap();
    assert_eq!(item.class(), "test");
    assert_eq!(item.count(), 1);
    assert_eq!(item.ammo(), None);
    assert!(!item.is_magazine());
    let item = InventoryItem::from_arma("[\"test\",1,1]".to_owned()).unwrap();
    assert_eq!(item.class(), "test");
    assert_eq!(item.count(), 1);
    assert_eq!(item.ammo(), Some(1));
    assert!(item.is_magazine());
}

#[test]
fn test_magazine() {
    let mut magazine = Magazine::new("ACE_M84".to_string(), 10);
    assert!(magazine.is_present());
    assert_eq!(magazine.class(), Some("ACE_M84"));
    assert_eq!(magazine.ammo(), Some(10));
    magazine.set_class("ACE_M84_HEDP");
    assert_eq!(magazine.class(), Some("ACE_M84_HEDP"));
    magazine.set_ammo(20);
    assert_eq!(magazine.ammo(), Some(20));
}

#[test]
fn magazine_class() {
    let mut magazine = Magazine::new("ACE_M84".to_string(), 10);
    assert_eq!(magazine.class(), Some("ACE_M84"));
    magazine.set_class("ACE_M84_HEDP");
    assert_eq!(magazine.class(), Some("ACE_M84_HEDP"));
}

#[test]
fn magazine_ammo() {
    let mut magazine = Magazine::new("ACE_M84".to_string(), 10);
    assert_eq!(magazine.ammo(), Some(10));
    magazine.set_ammo(20);
    assert_eq!(magazine.ammo(), Some(20));
}

#[test]
fn magazine_from_arma() {
    let magazine = Magazine::from_arma("[]".to_string()).unwrap();
    assert!(!magazine.is_present());
    let magazine = Magazine::from_arma("[\"ACE_M84\", 10]".to_string()).unwrap();
    assert!(magazine.is_present());
    assert_eq!(magazine.class(), Some("ACE_M84"));
    assert_eq!(magazine.ammo(), Some(10));
}
