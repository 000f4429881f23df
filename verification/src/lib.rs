//! Map display logic: which resource markers a world map shows, how they are
//! drawn, and which legend entries are hidden.
pub mod resources;
pub mod constants;
pub mod view_options;
pub mod view_laws;
pub mod plot_item;
pub mod plot_laws;
pub mod icons;
