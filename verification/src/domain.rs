//! The domain core: change events, the aggregate and its reducer, the
//! validator, the version log and the diff engine.

pub mod error;
pub mod models;
pub mod newtypes;
pub mod validation;

pub use models::bom::BOM;
pub use models::bom::BomView;
pub use models::bom_change_event::BOMChangeEvent;
pub use models::bom_change_event::BOMChangeEventView;
pub use models::bom_version::BomVersion;
pub use models::component::Component;
pub use models::component::ComponentView;
pub use models::component::CountedComponent;
pub use models::component::CountedComponentView;
pub use models::component::Price;
pub use models::component::PriceView;
pub use models::diff::BOMDiff;
pub use models::diff::BOMDiffView;
pub use models::diff::ConversionError;
pub use models::diff::DiffMap;
pub use models::diff::PartialDiff;
pub use models::diff::PartialDiffView;
