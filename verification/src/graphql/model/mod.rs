//! The entities: their records, their columns and their filter inputs.

pub mod actor;
pub mod category;
pub mod film;
pub mod join_tables;
pub mod language;

pub use actor::Actor;
pub use actor::ActorFilter;
pub use category::Category;
pub use category::CategoryFilter;
pub use film::Film;
pub use film::FilmFilter;
pub use language::Language;
pub use language::LanguageFilter;
