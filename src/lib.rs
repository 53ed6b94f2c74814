//! Configuration model of a product configurator: materials and shared
//! material groups, optional parts with shared toggles, assemblies and
//! products, and the object list and control panel derived from them.
//!
//! The rendering backend stays outside: shapes and drawables are type
//! parameters, and the backend realizes and refreshes drawables through
//! closures it hands in.

pub mod assembly;
pub mod component;
pub mod controls;
pub mod distinct;
pub mod material;
pub mod part;
pub mod product;
