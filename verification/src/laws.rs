//! What holds of modules whatever they hold: laws of the tables, of
//! indexing, of qualified paths and of exporting, proved over the model.

pub mod tables;
pub mod writing;
pub mod indexing;
pub mod reaching;
pub mod exporting;
