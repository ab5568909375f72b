//! For working with Arma's unit loadout array

pub mod magazine;

pub use magazine::Magazine;
pub mod inventory_item;

pub use inventory_item::InventoryItem;
pub mod weapon;

pub use weapon::Weapon;
pub mod container;

pub use container::Container;
pub mod assigned;
pub mod loadout_array;

pub use assigned::AssignedItems;
pub use loadout_array::Loadout;
