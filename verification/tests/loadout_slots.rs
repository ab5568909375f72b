use arma_rs::command::buffer_len;
use arma_rs::loadout::{AssignedItems, Container, InventoryItem, Loadout, Magazine, Weapon};
use arma_rs::FromArma;

#[test]
fn map() {
    let mut assigned = AssignedItems::default();
    assert_eq!(assigned.map(), "");
    assigned.set_map("map".to_owned());
    assert_eq!(assigned.map(), "map");
}

#[test]
fn terminal() {
    let mut assigned = AssignedItems::default();
    assert_eq!(assigned.terminal(), "");
    assigned.set_terminal("terminal".to_owned());
    assert_eq!(assigned.terminal(), "terminal");
}

#[test]
fn radio() {
    let mut assigned = AssignedItems::default();
    assert_eq!(assigned.radio(), "");
    assigned.set_radio("radio".to_owned());
    assert_eq!(assigned.radio(), "radio");
}

#[test]
fn compass() {
    let mut assigned = AssignedItems::default();
    assert_eq!(assigned.compass(), "");
    assigned.set_compass("compass".to_owned());
    assert_eq!(assigned.compass(), "compass");
}

#[test]
fn watch() {
    let mut assigned = AssignedItems::default();
    assert_eq!(assigned.watch(), "");
    assigned.set_watch("watch".to_owned());
    assert_eq!(assigned.watch(), "watch");
}

#[test]
fn nvg() {
    let mut assigned = AssignedItems::default();
    assert_eq!(assigned.nvg(), "");
    assigned.set_nvg("nvg".to_owned());
    assert_eq!(assigned.nvg(), "nvg");
}

#[test]
fn assigned_to_arma() {
    let mut assigned = AssignedItems::default();
    assigned.set_map("map".to_owned());
    assigned.set_terminal("terminal".to_owned());
    assigned.set_radio("radio".to_owned());
    assigned.set_compass("compass".to_owned());
    assigned.set_watch("watch".to_owned());
    assigned.set_nvg("nvg".to_owned());
    assert_eq!(
        assigned.arma_text(),
        r#"["map","terminal","radio","compass","watch","nvg"]"#
    );
}

#[test]
fn container_exists() {
    let container = Container::default();
    assert!(!container.is_present());
    let container = Container::new("container".to_string());
    assert!(container.is_present());
}

#[test]
fn container_class() {
    let container = Container::default();
    assert!(container.class().is_none());
    let mut container = Container::new("container".to_string());
    assert_eq!(container.class().unwrap(), "container");
    container.set_class("container2".to_string());
    assert_eq!(container.class().unwrap(), "container2");
}

#[test]
fn items() {
    let container = Container::default();
    assert!(container.items().is_none());
    let mut container = Container::new("container".to_string());
    assert!(container.items().is_some());
    let items = vec![
        InventoryItem::new_item("item1".to_string(), 1),
        InventoryItem::new_item("item2".to_string(), 2),
    ];
    *container.items_mut().unwrap() = items.clone();
    assert_eq!(container.items().unwrap(), &items);
}

#[test]
fn container_to_arma() {
    let container = Container::default();
    assert_eq!(container.arma_text(), "[]");
    let mut container = Container::new("container".to_string());
    assert_eq!(container.arma_text(), r#"["container",[]]"#);
    *container.items_mut().unwrap() = vec![
        InventoryItem::new_item("item1".to_string(), 1),
        InventoryItem::new_item("item2".to_string(), 2),
    ];
    assert_eq!(
        container.arma_text(),
        r#"["container",[["item1",1],["item2",2]]]"#
    );
}

#[test]
fn inventory_item_to_arma() {
    let item = InventoryItem::new_item("test".to_owned(), 1);
    assert_eq!(item.arma_text(), r#"["test",1]"#);
    let item = InventoryItem::new_magazine("test".to_owned(), 1, 1);
    assert_eq!(item.arma_text(), r#"["test",1,1]"#);
}

#[test]
fn magazine_exists() {
    let magazine = Magazine::default();
    assert!(!magazine.is_present());
    let magazine = Magazine::new("ACE_M84".to_string(), 10);
    assert!(magazine.is_present());
}

#[test]
fn magazine_to_arma() {
    let magazine = Magazine::new("ACE_M84".to_string(), 10);
    assert_eq!(magazine.arma_text(), r#"["ACE_M84",10]"#);
}

#[test]
fn weapon_exists() {
    let weapon = Weapon::default();
    assert!(!weapon.is_present());
    let weapon = Weapon::new("arifle_Mk20_GL_F".to_owned());
    assert!(weapon.is_present());
}

#[test]
fn weapon_class() {
    let weapon = Weapon::default();
    assert_eq!(weapon.class(), None);
    let mut weapon = Weapon::new("arifle_Mk20_GL_F".to_owned());
    assert_eq!(weapon.class(), Some("arifle_Mk20_GL_F"));
    weapon.set_class("arifle_Mk20_F".to_owned());
    assert_eq!(weapon.class(), Some("arifle_Mk20_F"));
}

#[test]
fn suppressor() {
    let weapon = Weapon::default();
    assert_eq!(weapon.suppressor(), None);
    let mut weapon = Weapon::new("arifle_Mk20_GL_F".to_owned());
    assert_eq!(weapon.suppressor(), Some(""));
    weapon.set_suppressor("muzzle_snds_H".to_owned());
    assert_eq!(weapon.suppressor(), Some("muzzle_snds_H"));
}

#[test]
fn pointer() {
    let weapon = Weapon::default();
    assert_eq!(weapon.pointer(), None);
    let mut weapon = Weapon::new("arifle_Mk20_GL_F".to_owned());
    assert_eq!(weapon.pointer(), Some(""));
    weapon.set_pointer("acc_pointer_IR".to_owned());
    assert_eq!(weapon.pointer(), Some("acc_pointer_IR"));
}

#[test]
fn optic() {
    let weapon = Weapon::default();
    assert_eq!(weapon.optic(), None);
    let mut weapon = Weapon::new("arifle_Mk20_GL_F".to_owned());
    assert_eq!(weapon.optic(), Some(""));
    weapon.set_optic("optic_Hamr".to_owned());
    assert_eq!(weapon.optic(), Some("optic_Hamr"));
}

#[test]
fn primary_magazine() {
    let weapon = Weapon::default();
    assert_eq!(weapon.primary_magazine(), None);
    let mut weapon = Weapon::new("arifle_Mk20_GL_F".to_owned());
    assert_eq!(weapon.primary_magazine(), Some(&Magazine::default()));
    weapon.set_primary_magazine(Magazine::new("30Rnd_556x45_Stanag".to_string(), 30));
    assert_eq!(
        weapon.primary_magazine(),
        Some(&Magazine::new("30Rnd_556x45_Stanag".to_string(), 30))
    );
}

#[test]
fn secondary_magazine() {
    let weapon = Weapon::default();
    assert_eq!(weapon.secondary_magazine(), None);
    let mut weapon = Weapon::new("arifle_Mk20_GL_F".to_owned());
    assert_eq!(weapon.secondary_magazine(), Some(&Magazine::default()));
    weapon.set_secondary_magazine(Magazine::new("1Rnd_HE_Grenade_shell".to_string(), 1));
    assert_eq!(
        weapon.secondary_magazine(),
        Some(&Magazine::new("1Rnd_HE_Grenade_shell".to_string(), 1))
    );
}

#[test]
fn bipod() {
    let weapon = Weapon::default();
    assert_eq!(weapon.bipod(), None);
    let mut weapon = Weapon::new("arifle_Mk20_GL_F".to_owned());
    assert_eq!(weapon.bipod(), Some(""));
    weapon.set_bipod("bipod_01_F".to_owned());
    assert_eq!(weapon.bipod(), Some("bipod_01_F"));
}

#[test]
fn weapon_from_arma() {
    let weapon = Weapon::from_arma("[]".to_owned()).unwrap();
    assert_eq!(weapon, Weapon::default());
    let weapon = Weapon::from_arma(
        "[\"arifle_Mk20_GL_F\",\"\",\"\",\"\",[\"30Rnd_556x45_Stanag\",30],[\"1Rnd_HE_Grenade_shell\",1],\"\"]".to_owned(),
    )
    .unwrap();
    assert_eq!(weapon, {
        let mut weapon = Weapon::new("arifle_Mk20_GL_F".to_owned());
        weapon.set_primary_magazine(Magazine::new("30Rnd_556x45_Stanag".to_string(), 30));
        weapon.set_secondary_magazine(Magazine::new("1Rnd_HE_Grenade_shell".to_string(), 1));
        weapon
    });
}

#[test]
fn weapon_to_arma() {
    let weapon = Weapon::default();
    assert_eq!(weapon.arma_text(), "[]");
    let weapon = Weapon::new("arifle_Mk20_GL_F".to_owned());
    assert_eq!(weapon.arma_text(), r#"["arifle_Mk20_GL_F","","","",[],[],""]"#);
}

fn b_soldier_at_f_scenario() {
    let loadout = r#"[["arifle_MXC_Holo_pointer_F", "", "acc_pointer_IR", "optic_Holosight", ["30Rnd_65x39_caseless_mag", 30], [], ""],
        ["launch_B_Titan_short_F", "", "", "", ["Titan_AT", 1], [], ""],
        ["hgun_P07_F", "", "", "", ["16Rnd_9x21_Mag", 16], [], ""],
        ["U_B_CombatUniform_mcam", [["FirstAidKit", 1], ["30Rnd_65x39_caseless_mag", 2, 30], ["Chemlight_green", 1, 1]]],
        ["V_PlateCarrier1_rgr", [["30Rnd_65x39_caseless_mag", 3, 30], ["16Rnd_9x21_Mag", 2, 16], ["SmokeShell", 1 ,1], ["SmokeShellGreen", 1, 1], ["Chemlight_green", 1, 1]]],
        ["B_AssaultPack_mcamo_AT",[["Titan_AT", 2, 1]]],
        "H_HelmetB_light_desert", "G_Bandanna_tan",[],
        ["ItemMap", "", "ItemRadio", "ItemCompass", "ItemWatch", "NVGoggles"]]"#;
    Loadout::from_arma(loadout.to_string()).unwrap();
    let loadout = r#"[["arifle_SPAR_02_blk_F","","","optic_Holosight_blk_F",["30Rnd_556x45_Stanag",30],[],""],[],["hgun_ACPC2_F","","","",["9Rnd_45ACP_Mag",8],[],""],["tacs_Uniform_Polo_TP_LS_TP_TB_NoLogo",[]],["V_PlateCarrier1_rgr_noflag_F",[]],[],"H_Cap_headphones","G_Shades_Black",[],["ItemMap","ItemGPS","ItemRadio","ItemCompass","ItemWatch",""]]"#;
    let mut loadout = Loadout::from_arma(loadout.to_string()).unwrap();
    loadout.set_secondary({
        let mut weapon = Weapon::new("launch_B_Titan_short_F".to_string());
        weapon.set_primary_magazine(Magazine::new("Titan_AT".to_string(), 1));
        weapon
    });
    let again = Loadout::from_arma(loadout.arma_text()).unwrap();
    assert_eq!(again, loadout);
}

#[test]
fn loadout_b_soldier_at_f() {
    b_soldier_at_f_scenario();
}

#[test]
fn mod_b_soldier_at_f() {
    b_soldier_at_f_scenario();
}

#[test]
fn context_context_buffer_len_zero() {
    assert_eq!(buffer_len(0), 0);
}

#[test]
fn context_context_buffer_len() {
    assert_eq!(buffer_len(100), 99);
}
