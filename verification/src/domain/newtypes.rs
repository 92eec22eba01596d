pub mod new_bom;
pub mod new_component;
