//! A Markdown document model built from a grammar-driven syntax tree, together
//! with the small rules an editor around it needs (fonts, file kinds, the
//! explorer tree and the editor's state transitions).

pub mod cst;
pub mod document;
pub mod editor;
pub mod explorer;
pub mod fonts;
pub mod laws;
pub mod reduce;
pub mod syntax;
pub mod text;
pub mod workspace;
