pub mod backend;
pub mod bootstrap;
pub mod language;
pub mod names;
pub mod text;
pub mod syntax;
