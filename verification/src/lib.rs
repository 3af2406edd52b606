//! Converts PDF documents to images and text with the poppler command-line
//! tools.
//!
//! The library decides and computes; it runs nothing itself. It reads the
//! report of the info tool, resolves a page selection against the document,
//! says which commands to run for a request, and turns what the commands
//! wrote into images and text, in the order of the pages.

pub mod codec;
pub mod command;
pub mod error;
pub mod gather;
pub mod info;
pub mod pages;
pub mod pdf;
pub mod process;
pub mod render_options;
pub mod text;

pub use command::{get_executable_path, pdf_info_command, Invocation};
pub use error::PDF2ImageError;
pub use gather::gather;
pub use info::{extract_pdf_info, PdfInfo};
pub use pages::Pages;
pub use pdf::{
    decode_page, decode_page_text, pdftext_all_pages, pdftext_all_pages_commands,
    pdftext_multi_page, pdftext_multi_page_commands, pdftext_single_page,
    pdftext_single_page_command, render_pdf_multi_page, render_pdf_multi_page_commands,
    render_pdf_single_page, render_pdf_single_page_command,
};
pub use process::{process_output, ProcessOutput, ProcessResult};
pub use render_options::{Crop, Password, RenderOptions, RenderOptionsBuilder, Scale, DPI};

// re-export image crate
pub use image;
