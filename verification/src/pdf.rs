//! Converting pages: which commands to run for a request, and what the
//! outputs of those commands come to.
//!
//! Every conversion has two halves. The first says which tools to run, one
//! command for each page, or fails before anything is run. The caller runs
//! the commands, in any order or all at once, and hands back what each wrote
//! or why it could not be run, in the order of the commands. The second half
//! turns these outputs into the images or the text of the pages.

use crate::codec::{decode_jpeg, jpeg_image, text_of_bytes, utf8_text_lossy};
use crate::command::{
    document_text_command, document_text_command_line, page_text_command, page_text_command_line,
    render_command_line, render_page_command, Invocation,
};
use crate::error::PDF2ImageError;
use crate::gather::{
    gather, gathered, is_first_failure, lemma_gathered, lemma_gathered_all,
    lemma_gathered_first_failure,
};
use crate::info::PdfInfo;
use crate::pages::Pages;
use crate::process::ProcessOutput;
use crate::render_options::RenderOptions;
use crate::text::{join, texts};
use image::DynamicImage;
use vstd::prelude::*;

verus! {

/// An encrypted document cannot be converted without a password.
pub open spec fn needs_password(info: PdfInfo, options: RenderOptions) -> bool {
    info.encrypted() && options.password is None
}

/// Fails where the document is encrypted and the options hold no password.
pub fn check_password(info: &PdfInfo, options: &RenderOptions) -> (res: Result<(), PDF2ImageError>)
    ensures
        res == if needs_password(*info, *options) {
            Err::<(), PDF2ImageError>(PDF2ImageError::NoPasswordForEncryptedPDF)
        } else {
            Ok::<(), PDF2ImageError>(())
        },
{
    if info.is_encrypted() && options.password.is_none() {
        Err(PDF2ImageError::NoPasswordForEncryptedPDF)
    } else {
        Ok(())
    }
}

/// The image of one page: the output of its command, decoded as JPEG. A
/// command that failed fails the page with its own error; an output that
/// is no JPEG image fails it with `DecodeFailure`.
pub open spec fn page_image(output: ProcessOutput) -> Result<DynamicImage, PDF2ImageError> {
    match output {
        Err(e) => Err(e),
        Ok(bytes) => match jpeg_image(bytes@) {
            Some(image) => Ok(image),
            None => Err(PDF2ImageError::DecodeFailure),
        },
    }
}

/// The images of the pages, each for itself.
pub open spec fn page_images(outputs: Seq<ProcessOutput>) -> Seq<
    Result<DynamicImage, PDF2ImageError>,
> {
    Seq::new(outputs.len(), |i: int| page_image(outputs[i]))
}

/// What a rendering call returns for the outputs of its commands.
pub open spec fn rendered_pages(
    info: PdfInfo,
    options: RenderOptions,
    outputs: Seq<ProcessOutput>,
) -> Result<Seq<DynamicImage>, PDF2ImageError> {
    if needs_password(info, options) {
        Err(PDF2ImageError::NoPasswordForEncryptedPDF)
    } else {
        gathered(page_images(outputs))
    }
}

/// The text of one page: the output of its command, read as UTF-8, and
/// lossily where it is ill-formed. Only a command that failed fails the
/// page.
pub open spec fn page_text(output: ProcessOutput) -> Result<Seq<char>, PDF2ImageError> {
    match output {
        Err(e) => Err(e),
        Ok(bytes) => Ok(text_of_bytes(bytes@)),
    }
}

/// The texts of the pages, each for itself.
pub open spec fn page_texts(outputs: Seq<ProcessOutput>) -> Seq<
    Result<Seq<char>, PDF2ImageError>,
> {
    Seq::new(outputs.len(), |i: int| page_text(outputs[i]))
}

/// What a text extraction returns for the outputs of its commands: the
/// texts of the pages, one after the other.
pub open spec fn extracted_text(
    info: PdfInfo,
    options: RenderOptions,
    outputs: Seq<ProcessOutput>,
) -> Result<Seq<char>, PDF2ImageError> {
    if needs_password(info, options) {
        Err(PDF2ImageError::NoPasswordForEncryptedPDF)
    } else {
        match gathered(page_texts(outputs)) {
            Ok(parts) => Ok(parts.flatten()),
            Err(e) => Err(e),
        }
    }
}

/// The text of a string that may be missing.
pub open spec fn text_of(result: Result<String, PDF2ImageError>) -> Result<
    Seq<char>,
    PDF2ImageError,
> {
    match result {
        Ok(text) => Ok(text@),
        Err(e) => Err(e),
    }
}

/// Decodes the output of a rendering command.
pub fn decode_page(output: &ProcessOutput) -> (res: Result<DynamicImage, PDF2ImageError>)
    ensures
        res == page_image(*output),
{
    match output {
        Err(e) => Err(*e),
        Ok(bytes) => match decode_jpeg(bytes.as_slice()) {
            Ok(image) => Ok(image),
            Err(e) => Err(PDF2ImageError::from(e)),
        },
    }
}

/// Decodes the output of a text command.
pub fn decode_page_text(output: &ProcessOutput) -> (res: Result<String, PDF2ImageError>)
    ensures
        text_of(res) == page_text(*output),
{
    match output {
        Err(e) => Err(*e),
        Ok(bytes) => Ok(utf8_text_lossy(bytes.as_slice())),
    }
}

/// The command of each page of `pages`, in their order: rendering commands,
/// or text commands where `text` is set.
fn page_commands(pages: &Vec<u32>, options: &RenderOptions, text: bool) -> (commands: Vec<
    Invocation,
>)
    ensures
        commands@.len() == pages@.len(),
        forall|i: int|
            0 <= i < pages@.len() ==> (#[trigger] commands@[i])@ == if text {
                page_text_command_line(pages@[i], *options)
            } else {
                render_command_line(pages@[i], *options)
            },
{
    let mut commands: Vec<Invocation> = Vec::new();
    let mut i: usize = 0;
    while i < pages.len()
        invariant
            i <= pages@.len(),
            commands@.len() == i,
            forall|k: int|
                0 <= k < i ==> (#[trigger] commands@[k])@ == if text {
                    page_text_command_line(pages@[k], *options)
                } else {
                    render_command_line(pages@[k], *options)
                },
        decreases pages@.len() - i,
    {
        let command = if text {
            page_text_command(pages[i], options)
        } else {
            render_page_command(pages[i], options)
        };
        commands.push(command);
        i += 1;
    }
    commands
}

/// The command to run for `render_pdf_single_page`.
///
/// Fails, with nothing to run, where the document is encrypted and the
/// options hold no password. The page is not held against the page count
/// of the document: the command asks for the page as it was given.
pub fn render_pdf_single_page_command(info: &PdfInfo, page: u32, options: &RenderOptions) -> (res:
    Result<Invocation, PDF2ImageError>)
    ensures
        match res {
            Ok(command) => !needs_password(*info, *options) && command@ == render_command_line(
                page,
                *options,
            ),
            Err(e) => needs_password(*info, *options) && e
                == PDF2ImageError::NoPasswordForEncryptedPDF,
        },
{
    match check_password(info, options) {
        Err(e) => Err(e),
        Ok(_) => Ok(render_page_command(page, options)),
    }
}

/// Renders one page of the PDF to an image, from the output of the command
/// that `render_pdf_single_page_command` gave.
pub fn render_pdf_single_page(
    info: &PdfInfo,
    options: &RenderOptions,
    output: &ProcessOutput,
) -> (res: Result<DynamicImage, PDF2ImageError>)
    ensures
        needs_password(*info, *options) ==> res == Err::<DynamicImage, PDF2ImageError>(
            PDF2ImageError::NoPasswordForEncryptedPDF,
        ),
        !needs_password(*info, *options) ==> res == page_image(*output),
{
    match check_password(info, options) {
        Err(e) => Err(e),
        Ok(_) => decode_page(output),
    }
}

/// The commands to run for `render_pdf_multi_page`: one for each page that
/// `pages` resolves to, in the order of the pages.
///
/// Fails, with nothing to run, where the document is encrypted and the
/// options hold no password.
pub fn render_pdf_multi_page_commands(
    info: &PdfInfo,
    pages: &Pages,
    options: &RenderOptions,
) -> (res: Result<Vec<Invocation>, PDF2ImageError>)
    ensures
        match res {
            Ok(commands) => {
                &&& !needs_password(*info, *options)
                &&& commands@.len() == pages.resolved(info.pages()).len()
                &&& forall|i: int|
                    0 <= i < commands@.len() ==> (#[trigger] commands@[i])@ == render_command_line(
                        pages.resolved(info.pages())[i],
                        *options,
                    )
            },
            Err(e) => needs_password(*info, *options) && e
                == PDF2ImageError::NoPasswordForEncryptedPDF,
        },
{
    match check_password(info, options) {
        Err(e) => Err(e),
        Ok(_) => {
            let resolved = pages.resolve(info.page_count());
            Ok(page_commands(&resolved, options, false))
        },
    }
}

/// Renders the pages of the PDF to images, from the outputs of the commands
/// that `render_pdf_multi_page_commands` gave, in the order of the commands.
///
/// There is one output for each command, and so for each page that `pages`
/// resolves to. The images come in the order of the pages, one for each
/// page. One failed page fails the call, and no image is returned: the
/// error is that of the first failed page in the order of the pages.
pub fn render_pdf_multi_page(
    info: &PdfInfo,
    pages: &Pages,
    options: &RenderOptions,
    outputs: &Vec<ProcessOutput>,
) -> (res: Result<Vec<DynamicImage>, PDF2ImageError>)
    requires
        outputs@.len() == pages.resolved(info.pages()).len(),
    ensures
        match rendered_pages(*info, *options, outputs@) {
            Ok(images) => res matches Ok(found) && found@ == images,
            Err(e) => res matches Err(found) && found == e,
        },
        needs_password(*info, *options) ==> res matches Err(
            PDF2ImageError::NoPasswordForEncryptedPDF,
        ),
        res matches Ok(found) ==> found@.len() == pages.resolved(info.pages()).len(),
{
    match check_password(info, options) {
        Err(e) => {
            return Err(e);
        },
        Ok(_) => {},
    }
    let mut decoded: Vec<Result<DynamicImage, PDF2ImageError>> = Vec::new();
    let mut i: usize = 0;
    while i < outputs.len()
        invariant
            i <= outputs@.len(),
            decoded@ == page_images(outputs@.take(i as int)),
        decreases outputs@.len() - i,
    {
        decoded.push(decode_page(&outputs[i]));
        i += 1;
        assert(decoded@ =~= page_images(outputs@.take(i as int)));
    }
    proof {
        assert(outputs@.take(i as int) =~= outputs@);
        lemma_gathered(decoded@);
    }
    gather(decoded)
}

/// Decodes the outputs of text commands and joins the texts, or fails with
/// the error of the first command that failed.
fn join_pages(outputs: &Vec<ProcessOutput>) -> (res: Result<String, PDF2ImageError>)
    ensures
        match gathered(page_texts(outputs@)) {
            Ok(parts) => res matches Ok(found) && found@ == parts.flatten(),
            Err(e) => res matches Err(found) && found == e,
        },
{
    let mut decoded: Vec<Result<String, PDF2ImageError>> = Vec::new();
    let mut i: usize = 0;
    while i < outputs.len()
        invariant
            i <= outputs@.len(),
            decoded@.len() == i,
            forall|k: int| 0 <= k < i ==> text_of(#[trigger] decoded@[k]) == page_text(outputs@[k]),
        decreases outputs@.len() - i,
    {
        decoded.push(decode_page_text(&outputs[i]));
        i += 1;
    }
    let ghost results = decoded@;
    let ghost wanted = page_texts(outputs@);
    proof {
        lemma_gathered(results);
    }
    match gather(decoded) {
        Ok(parts) => {
            proof {
                assert forall|k: int| 0 <= k < wanted.len() implies #[trigger] wanted[k] == Ok::<
                    Seq<char>,
                    PDF2ImageError,
                >(texts(parts@)[k]) by {
                    assert(results[k] == Ok::<String, PDF2ImageError>(parts@[k]));
                    assert(text_of(results[k]) == page_text(outputs@[k]));
                }
                lemma_gathered_all(wanted, texts(parts@));
            }
            Ok(join(&parts))
        },
        Err(e) => {
            proof {
                let at = choose|at: int| #[trigger]
                    is_first_failure(results, at) && results[at] == Err::<String, PDF2ImageError>(
                        e,
                    );
                assert(is_first_failure(wanted, at)) by {
                    assert(text_of(results[at]) == page_text(outputs@[at]));
                    assert forall|k: int| 0 <= k < at implies (#[trigger] wanted[k]) is Ok by {
                        assert(results[k] is Ok);
                        assert(text_of(results[k]) == page_text(outputs@[k]));
                    }
                }
                assert(text_of(results[at]) == page_text(outputs@[at]));
                lemma_gathered_first_failure(wanted, at);
            }
            Err(e)
        },
    }
}

/// The command to run for `pdftext_single_page`.
///
/// Fails, with nothing to run, where the document is encrypted and the
/// options hold no password.
pub fn pdftext_single_page_command(info: &PdfInfo, page: u32, options: &RenderOptions) -> (res:
    Result<Invocation, PDF2ImageError>)
    ensures
        match res {
            Ok(command) => !needs_password(*info, *options) && command@ == page_text_command_line(
                page,
                *options,
            ),
            Err(e) => needs_password(*info, *options) && e
                == PDF2ImageError::NoPasswordForEncryptedPDF,
        },
{
    match check_password(info, options) {
        Err(e) => Err(e),
        Ok(_) => Ok(page_text_command(page, options)),
    }
}

/// Extracts the text contents of a pdf file from a single page, from the
/// output of the command that `pdftext_single_page_command` gave.
pub fn pdftext_single_page(info: &PdfInfo, options: &RenderOptions, output: &ProcessOutput) -> (res:
    Result<String, PDF2ImageError>)
    ensures
        needs_password(*info, *options) ==> res matches Err(
            PDF2ImageError::NoPasswordForEncryptedPDF,
        ),
        !needs_password(*info, *options) ==> text_of(res) == page_text(*output),
{
    match check_password(info, options) {
        Err(e) => Err(e),
        Ok(_) => decode_page_text(output),
    }
}

/// The commands to run for `pdftext_multi_page`: one for each page that
/// `pages` resolves to, in the order of the pages.
///
/// Fails, with nothing to run, where the document is encrypted and the
/// options hold no password.
pub fn pdftext_multi_page_commands(info: &PdfInfo, pages: &Pages, options: &RenderOptions) -> (res:
    Result<Vec<Invocation>, PDF2ImageError>)
    ensures
        match res {
            Ok(commands) => {
                &&& !needs_password(*info, *options)
                &&& commands@.len() == pages.resolved(info.pages()).len()
                &&& forall|i: int|
                    0 <= i < commands@.len() ==> (#[trigger] commands@[i])@
                        == page_text_command_line(pages.resolved(info.pages())[i], *options)
            },
            Err(e) => needs_password(*info, *options) && e
                == PDF2ImageError::NoPasswordForEncryptedPDF,
        },
{
    match check_password(info, options) {
        Err(e) => Err(e),
        Ok(_) => {
            let resolved = pages.resolve(info.page_count());
            Ok(page_commands(&resolved, options, true))
        },
    }
}

/// Extracts the text contents of a pdf file from multiple pages, from the
/// outputs of the commands that `pdftext_multi_page_commands` gave, in the
/// order of the commands.
///
/// There is one output for each command, and so for each page that `pages`
/// resolves to. The texts of the pages follow each other in the order of
/// the pages. One command that failed fails the call: the error is that of
/// the first such page in the order of the pages.
pub fn pdftext_multi_page(
    info: &PdfInfo,
    pages: &Pages,
    options: &RenderOptions,
    outputs: &Vec<ProcessOutput>,
) -> (res: Result<String, PDF2ImageError>)
    requires
        outputs@.len() == pages.resolved(info.pages()).len(),
    ensures
        text_of(res) == extracted_text(*info, *options, outputs@),
        needs_password(*info, *options) ==> res matches Err(
            PDF2ImageError::NoPasswordForEncryptedPDF,
        ),
{
    match check_password(info, options) {
        Err(e) => Err(e),
        Ok(_) => join_pages(outputs),
    }
}

/// How many commands `pdftext_all_pages_commands` gives: one for the whole
/// document, or one for each page of a range or a list.
pub open spec fn all_pages_runs(pages: Pages, page_count: u32) -> nat {
    match pages {
        Pages::All => 1,
        _ => pages.resolved(page_count).len(),
    }
}

/// The commands to run for `pdftext_all_pages`: a single command for the
/// whole document where all pages are asked for, and else one for each page
/// that `pages` resolves to, in the order of the pages.
///
/// Fails, with nothing to run, where the document is encrypted and the
/// options hold no password.
pub fn pdftext_all_pages_commands(info: &PdfInfo, pages: &Pages, options: &RenderOptions) -> (res:
    Result<Vec<Invocation>, PDF2ImageError>)
    ensures
        match res {
            Ok(commands) => {
                &&& !needs_password(*info, *options)
                &&& commands@.len() == all_pages_runs(*pages, info.pages())
                &&& *pages is All ==> commands@[0]@ == document_text_command_line(*options)
                &&& !(*pages is All) ==> forall|i: int|
                    0 <= i < commands@.len() ==> (#[trigger] commands@[i])@
                        == page_text_command_line(pages.resolved(info.pages())[i], *options)
            },
            Err(e) => needs_password(*info, *options) && e
                == PDF2ImageError::NoPasswordForEncryptedPDF,
        },
{
    match check_password(info, options) {
        Err(e) => {
            return Err(e);
        },
        Ok(_) => {},
    }
    match pages {
        Pages::All => {
            let mut commands: Vec<Invocation> = Vec::new();
            commands.push(document_text_command(options));
            Ok(commands)
        },
        _ => {
            let resolved = pages.resolve(info.page_count());
            Ok(page_commands(&resolved, options, true))
        },
    }
}

/// Extracts the text contents of a pdf file from all pages as one big
/// string, from the outputs of the commands that
/// `pdftext_all_pages_commands` gave, in the order of the commands.
///
/// There is one output for each command. One command that failed fails the
/// call: the error is that of the first such command.
pub fn pdftext_all_pages(
    info: &PdfInfo,
    pages: &Pages,
    options: &RenderOptions,
    outputs: &Vec<ProcessOutput>,
) -> (res: Result<String, PDF2ImageError>)
    requires
        outputs@.len() == all_pages_runs(*pages, info.pages()),
    ensures
        text_of(res) == extracted_text(*info, *options, outputs@),
        needs_password(*info, *options) ==> res matches Err(
            PDF2ImageError::NoPasswordForEncryptedPDF,
        ),
{
    match check_password(info, options) {
        Err(e) => Err(e),
        Ok(_) => join_pages(outputs),
    }
}

/// A document that needs a password and gets none fails every call with
/// `NoPasswordForEncryptedPDF`, whatever the outputs are.
pub proof fn lemma_password_is_asked_first(
    info: PdfInfo,
    options: RenderOptions,
    outputs: Seq<ProcessOutput>,
)
    requires
        needs_password(info, options),
    ensures
        rendered_pages(info, options, outputs) == Err::<Seq<DynamicImage>, PDF2ImageError>(
            PDF2ImageError::NoPasswordForEncryptedPDF,
        ),
        extracted_text(info, options, outputs) == Err::<Seq<char>, PDF2ImageError>(
            PDF2ImageError::NoPasswordForEncryptedPDF,
        ),
{
}

/// The images of a call that succeeds stand in the order of the outputs,
/// and so in the order of the pages: there are as many images as outputs,
/// and each image is the image of the output in its place.
pub proof fn lemma_images_keep_their_places(
    info: PdfInfo,
    options: RenderOptions,
    outputs: Seq<ProcessOutput>,
    images: Seq<DynamicImage>,
)
    requires
        rendered_pages(info, options, outputs) == Ok::<Seq<DynamicImage>, PDF2ImageError>(images),
    ensures
        images.len() == outputs.len(),
        forall|i: int|
            0 <= i < outputs.len() ==> page_image(#[trigger] outputs[i]) == Ok::<
                DynamicImage,
                PDF2ImageError,
            >(images[i]),
{
    lemma_gathered(page_images(outputs));
    assert forall|i: int| 0 <= i < outputs.len() implies page_image(#[trigger] outputs[i]) == Ok::<
        DynamicImage,
        PDF2ImageError,
    >(images[i]) by {
        assert(page_images(outputs)[i] == Ok::<DynamicImage, PDF2ImageError>(images[i]));
    }
}

/// Where every command ran but the output of one page is no JPEG image, the
/// whole call fails, and with `DecodeFailure`.
pub proof fn lemma_undecodable_page_fails_call(
    info: PdfInfo,
    options: RenderOptions,
    outputs: Seq<ProcessOutput>,
    at: int,
)
    requires
        !needs_password(info, options),
        forall|i: int| 0 <= i < outputs.len() ==> (#[trigger] outputs[i]) is Ok,
        0 <= at < outputs.len(),
        jpeg_image(outputs[at]->Ok_0@) is None,
    ensures
        rendered_pages(info, options, outputs) == Err::<Seq<DynamicImage>, PDF2ImageError>(
            PDF2ImageError::DecodeFailure,
        ),
{
    let results = page_images(outputs);
    lemma_gathered(results);
    match gathered(results) {
        Ok(images) => {
            assert(results[at] == Ok::<DynamicImage, PDF2ImageError>(images[at]));
        },
        Err(e) => {
            let first = choose|first: int| #[trigger]
                is_first_failure(results, first) && results[first] == Err::<
                    DynamicImage,
                    PDF2ImageError,
                >(e);
            assert(outputs[first] is Ok);
        },
    }
}

/// A page whose command failed fails the call with the error of that
/// command, unless an earlier page failed too.
pub proof fn lemma_first_failed_page_decides(
    info: PdfInfo,
    options: RenderOptions,
    outputs: Seq<ProcessOutput>,
    at: int,
)
    requires
        !needs_password(info, options),
        is_first_failure(page_images(outputs), at),
    ensures
        rendered_pages(info, options, outputs) == Err::<Seq<DynamicImage>, PDF2ImageError>(
            page_image(outputs[at])->Err_0,
        ),
{
    lemma_gathered_first_failure(page_images(outputs), at);
}

/// Text is never lost to decoding: where every command ran, the call
/// succeeds, and its text is the texts of the outputs one after the other.
pub proof fn lemma_text_of_all_pages(
    info: PdfInfo,
    options: RenderOptions,
    outputs: Seq<ProcessOutput>,
)
    requires
        !needs_password(info, options),
        forall|i: int| 0 <= i < outputs.len() ==> (#[trigger] outputs[i]) is Ok,
    ensures
        extracted_text(info, options, outputs) == Ok::<Seq<char>, PDF2ImageError>(
            Seq::new(outputs.len(), |i: int| text_of_bytes(outputs[i]->Ok_0@)).flatten(),
        ),
{
    let parts = Seq::new(outputs.len(), |i: int| text_of_bytes(outputs[i]->Ok_0@));
    lemma_gathered_all(page_texts(outputs), parts);
}

} // verus!
