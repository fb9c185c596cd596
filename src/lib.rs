//! Turns a comma-separated translation table into gettext catalogs: one
//! template (`template.pot`) and one `<language>.po` file per language column.

pub mod escape;
pub mod po;
pub mod table;
pub mod convert;
pub mod laws;
