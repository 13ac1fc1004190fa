//! Macros and libraries: turning programs that use them into programs that do not.

pub mod declaration_laws;
pub mod declarations;
pub mod expansion_laws;
pub mod expressions;
pub mod forms;
pub mod import_laws;
pub mod imports;
pub mod laws;
pub mod libraries;
pub mod library_laws;
pub mod matching;
pub mod matching_laws;
pub mod outcome;
pub mod paths;
pub mod program_laws;
pub mod rename;
pub mod rename_laws;
pub mod shelf;
pub mod template;
pub mod template_laws;
