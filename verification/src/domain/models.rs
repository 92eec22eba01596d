pub mod bom;
pub mod bom_change_event;
pub mod bom_version;
pub mod component;
pub mod diff;
