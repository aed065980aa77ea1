use vstd::prelude::*;

verus! {

/// What can go wrong while locating images or rendering the page.
#[derive(Debug, Clone, PartialEq, Eq)]
pub enum GalleryError {
    /// No file of the directory matched the extension filter.
    NoImages,
    /// The page template could not be rendered; holds the engine's message.
    Template(String),
}

} // verus!
