//! The document export surface: what a project hands the PDF and DOCX
//! renderers. The renderers are outside collaborators; only their input
//! model and error shape live here.

use vstd::prelude::*;

verus! {

/// Why an export failed.
pub enum PublishingError {
    PdfError(String),
    DocxError(String),
    IoError(String),
}

impl PublishingError {
    /// The failure spelled out for the caller.
    pub fn message(&self) -> (r: &String)
        ensures
            match self {
                PublishingError::PdfError(m) => r@ == m@,
                PublishingError::DocxError(m) => r@ == m@,
                PublishingError::IoError(m) => r@ == m@,
            },
    {
        match self {
            PublishingError::PdfError(m) => m,
            PublishingError::DocxError(m) => m,
            PublishingError::IoError(m) => m,
        }
    }
}

/// The title page data of an export.
pub struct DocumentMetadata {
    pub title: String,
    pub author: Option<String>,
    pub description: Option<String>,
}

/// One chapter as the renderers consume it.
pub struct ExportChapter {
    pub title: String,
    pub number: Option<i32>,
    pub content: String,
}

/// A whole document ready to render.
pub struct ExportDocument {
    pub metadata: DocumentMetadata,
    pub chapters: Vec<ExportChapter>,
}

} // verus!
