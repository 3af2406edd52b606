use pdf2image_alt::image::{DynamicImage, ImageFormat};
use pdf2image_alt::{
    decode_page, decode_page_text, gather, pdftext_all_pages, pdftext_all_pages_commands,
    pdftext_multi_page, pdftext_multi_page_commands, pdftext_single_page,
    pdftext_single_page_command, render_pdf_multi_page, render_pdf_multi_page_commands,
    render_pdf_single_page, render_pdf_single_page_command, Invocation, PDF2ImageError, Pages,
    Password, PdfInfo, ProcessOutput, ProcessResult, RenderOptions, RenderOptionsBuilder,
};
use pdf2image_alt::process_output;

/// A JPEG image that is `width` pixels wide and one pixel high.
fn jpeg(width: u32) -> Vec<u8> {
    let mut bytes = Vec::new();
    DynamicImage::new_rgb8(width, 1)
        .write_to(&mut std::io::Cursor::new(&mut bytes), ImageFormat::Jpeg)
        .unwrap();
    bytes
}

/// Stands for the rendering tool: the image of page `n` is `n` pixels wide.
/// Counts the commands it is given.
fn run_all(commands: &[Invocation], runs: &mut usize) -> Vec<ProcessOutput> {
    let mut outputs = Vec::new();
    for command in commands {
        *runs += 1;
        let at = command.args.iter().position(|arg| arg == "-f").unwrap();
        let page: u32 = command.args[at + 1].parse().unwrap();
        outputs.push(Ok(jpeg(page)));
    }
    outputs
}

fn plain() -> RenderOptions {
    RenderOptionsBuilder::new().build().unwrap()
}

fn with_password() -> RenderOptions {
    RenderOptionsBuilder::new().password(Password::User("pw".to_string())).build().unwrap()
}

#[test]
fn encrypted_without_password_runs_nothing() {
    let info = PdfInfo::new(3, true);
    let mut runs = 0;
    let images = match render_pdf_multi_page_commands(&info, &Pages::All, &plain()) {
        Ok(commands) => {
            let outputs = run_all(&commands, &mut runs);
            render_pdf_multi_page(&info, &Pages::All, &plain(), &outputs)
        }
        Err(e) => Err(e),
    };
    assert_eq!(images.err(), Some(PDF2ImageError::NoPasswordForEncryptedPDF));
    assert_eq!(runs, 0);
}

#[test]
fn encrypted_without_password_fails_every_call() {
    let info = PdfInfo::new(3, true);
    let options = plain();
    let pages = Pages::Range(1, 2);
    let no_password = Some(PDF2ImageError::NoPasswordForEncryptedPDF);
    assert_eq!(render_pdf_single_page_command(&info, 1, &options).err(), no_password);
    assert_eq!(render_pdf_multi_page_commands(&info, &pages, &options).err(), no_password);
    assert_eq!(pdftext_single_page_command(&info, 1, &options).err(), no_password);
    assert_eq!(pdftext_multi_page_commands(&info, &pages, &options).err(), no_password);
    assert_eq!(pdftext_all_pages_commands(&info, &pages, &options).err(), no_password);
    let output: ProcessOutput = Ok(jpeg(1));
    let outputs = vec![Ok(jpeg(1)), Ok(jpeg(2))];
    assert_eq!(render_pdf_single_page(&info, &options, &output).err(), no_password);
    assert_eq!(render_pdf_multi_page(&info, &pages, &options, &outputs).err(), no_password);
    assert_eq!(pdftext_single_page(&info, &options, &output).err(), no_password);
    assert_eq!(pdftext_multi_page(&info, &pages, &options, &outputs).err(), no_password);
    assert_eq!(pdftext_all_pages(&info, &pages, &options, &outputs).err(), no_password);
}

#[test]
fn encrypted_with_password_is_rendered() {
    let info = PdfInfo::new(3, true);
    let options = with_password();
    let commands = render_pdf_multi_page_commands(&info, &Pages::All, &options).unwrap();
    assert_eq!(commands.len(), 3);
    assert_eq!(commands[0].args, vec!["-jpeg", "-singlefile", "-f", "1", "-l", "1", "-upw", "pw"]);
}

#[test]
fn plain_document_needs_no_password() {
    let info = PdfInfo::new(3, false);
    assert!(render_pdf_single_page_command(&info, 2, &plain()).is_ok());
}

#[test]
fn one_command_for_each_resolved_page() {
    let info = PdfInfo::new(5, false);
    let commands =
        render_pdf_multi_page_commands(&info, &Pages::Specific(vec![2, 9, 5, 0, 3]), &plain()).unwrap();
    let pages: Vec<&str> = commands.iter().map(|command| command.args[3].as_str()).collect();
    assert_eq!(pages, vec!["2", "5", "3"]);
    for command in &commands {
        assert_eq!(command.program, "pdftoppm");
        assert_eq!(command.args[2], "-f");
        assert_eq!(command.args[4], "-l");
        assert_eq!(command.args[5], command.args[3]);
    }
}

#[test]
fn images_stand_in_page_order() {
    let info = PdfInfo::new(5, false);
    let pages = Pages::Specific(vec![2, 5, 3]);
    let commands = render_pdf_multi_page_commands(&info, &pages, &plain()).unwrap();
    let mut runs = 0;
    let finished = run_all(&commands, &mut runs);
    assert_eq!(runs, 3);
    // The commands end in another order than they were started in; each
    // output is put back in the place of its command.
    let mut outputs: Vec<ProcessOutput> = vec![Err(PDF2ImageError::IoFailure); 3];
    for at in [1usize, 2, 0] {
        outputs[at] = finished[at].clone();
    }
    let images = render_pdf_multi_page(&info, &pages, &plain(), &outputs).unwrap();
    let widths: Vec<u32> = images.iter().map(|image| image.width()).collect();
    assert_eq!(widths, vec![2, 5, 3]);
}

#[test]
fn empty_selection_is_no_error() {
    let info = PdfInfo::new(5, false);
    let pages = Pages::Range(7, 9);
    let commands = render_pdf_multi_page_commands(&info, &pages, &plain()).unwrap();
    assert!(commands.is_empty());
    let images = render_pdf_multi_page(&info, &pages, &plain(), &Vec::new()).unwrap();
    assert!(images.is_empty());
    assert_eq!(pdftext_multi_page(&info, &pages, &plain(), &Vec::new()), Ok(String::new()));
}

#[test]
fn one_undecodable_page_fails_the_call() {
    let info = PdfInfo::new(3, false);
    for bad in 0..3usize {
        let mut outputs: Vec<ProcessOutput> = vec![Ok(jpeg(1)), Ok(jpeg(2)), Ok(jpeg(3))];
        outputs[bad] = Ok(b"not an image".to_vec());
        let images = render_pdf_multi_page(&info, &Pages::All, &plain(), &outputs);
        assert_eq!(images.err(), Some(PDF2ImageError::DecodeFailure));
    }
}

#[test]
fn truncated_image_is_a_decode_failure() {
    let mut bytes = jpeg(8);
    bytes.truncate(bytes.len() / 2);
    assert_eq!(decode_page(&Ok(bytes)).err(), Some(PDF2ImageError::DecodeFailure));
    assert_eq!(decode_page(&Ok(Vec::new())).err(), Some(PDF2ImageError::DecodeFailure));
}

#[test]
fn first_failed_page_decides_the_error() {
    let info = PdfInfo::new(3, false);
    let outputs: Vec<ProcessOutput> =
        vec![Ok(jpeg(1)), Err(PDF2ImageError::SpawnFailure), Ok(b"junk".to_vec())];
    let images = render_pdf_multi_page(&info, &Pages::All, &plain(), &outputs);
    assert_eq!(images.err(), Some(PDF2ImageError::SpawnFailure));
    let outputs: Vec<ProcessOutput> =
        vec![Ok(b"junk".to_vec()), Err(PDF2ImageError::IoFailure), Ok(jpeg(3))];
    let images = render_pdf_multi_page(&info, &Pages::All, &plain(), &outputs);
    assert_eq!(images.err(), Some(PDF2ImageError::DecodeFailure));
}

#[test]
fn decoder_reads_the_image() {
    let image = decode_page(&Ok(jpeg(6))).unwrap();
    assert_eq!((image.width(), image.height()), (6, 1));
}

#[test]
fn decoder_error_is_a_decode_failure() {
    let error = pdf2image_alt::image::load_from_memory_with_format(b"junk", ImageFormat::Jpeg).unwrap_err();
    assert_eq!(PDF2ImageError::from(error), PDF2ImageError::DecodeFailure);
}

#[test]
fn single_page_is_not_held_against_the_page_count() {
    let info = PdfInfo::new(2, false);
    let command = render_pdf_single_page_command(&info, 9, &plain()).unwrap();
    assert_eq!(command.args, vec!["-jpeg", "-singlefile", "-f", "9", "-l", "9"]);
    let image = render_pdf_single_page(&info, &plain(), &Ok(jpeg(9))).unwrap();
    assert_eq!(image.width(), 9);
    let failed = render_pdf_single_page(&info, &plain(), &Err(PDF2ImageError::SpawnFailure));
    assert_eq!(failed.err(), Some(PDF2ImageError::SpawnFailure));
}

#[test]
fn gather_is_all_or_nothing() {
    assert_eq!(gather(vec![Ok(1), Ok(2), Ok(3)]), Ok(vec![1, 2, 3]));
    assert_eq!(gather(Vec::<Result<u8, PDF2ImageError>>::new()), Ok(Vec::new()));
    assert_eq!(
        gather(vec![Ok(1), Err(PDF2ImageError::DecodeFailure), Err(PDF2ImageError::IoFailure)]),
        Err(PDF2ImageError::DecodeFailure)
    );
}

#[test]
fn text_of_pages_in_order() {
    let info = PdfInfo::new(4, false);
    let pages = Pages::Specific(vec![4, 1]);
    let commands = pdftext_multi_page_commands(&info, &pages, &plain()).unwrap();
    assert_eq!(commands.len(), 2);
    assert_eq!(commands[0].args, vec!["-", "-", "-f", "4", "-l", "4"]);
    assert_eq!(commands[1].args, vec!["-", "-", "-f", "1", "-l", "1"]);
    let outputs: Vec<ProcessOutput> = vec![Ok(b"four\x0c".to_vec()), Ok(b"one\x0c".to_vec())];
    assert_eq!(pdftext_multi_page(&info, &pages, &plain(), &outputs), Ok("four\u{c}one\u{c}".to_string()));
}

#[test]
fn text_is_decoded_lossily() {
    assert_eq!(decode_page_text(&Ok(b"caf\xc3\xa9".to_vec())), Ok("café".to_string()));
    assert_eq!(decode_page_text(&Ok(b"a\xffb".to_vec())), Ok("a\u{fffd}b".to_string()));
    let info = PdfInfo::new(1, false);
    assert_eq!(
        pdftext_single_page(&info, &plain(), &Ok(b"\xc3(".to_vec())),
        Ok("\u{fffd}(".to_string())
    );
}

#[test]
fn failed_text_command_fails_the_call() {
    let info = PdfInfo::new(2, false);
    let outputs: Vec<ProcessOutput> = vec![Ok(b"one".to_vec()), Err(PDF2ImageError::IoFailure)];
    assert_eq!(
        pdftext_multi_page(&info, &Pages::All, &plain(), &outputs),
        Err(PDF2ImageError::IoFailure)
    );
    assert_eq!(
        pdftext_single_page(&info, &plain(), &Err(PDF2ImageError::SpawnFailure)),
        Err(PDF2ImageError::SpawnFailure)
    );
}

#[test]
fn whole_document_text_is_one_command() {
    let info = PdfInfo::new(40, false);
    let commands = pdftext_all_pages_commands(&info, &Pages::All, &plain()).unwrap();
    assert_eq!(commands.len(), 1);
    assert_eq!(commands[0].program, "pdftotext");
    assert_eq!(commands[0].args, vec!["-", "-"]);
    let outputs: Vec<ProcessOutput> = vec![Ok(b"everything".to_vec())];
    assert_eq!(pdftext_all_pages(&info, &Pages::All, &plain(), &outputs), Ok("everything".to_string()));
}

#[test]
fn text_of_a_range_is_one_command_for_each_page() {
    let info = PdfInfo::new(40, false);
    let pages = Pages::Range(39, 50);
    let commands = pdftext_all_pages_commands(&info, &pages, &plain()).unwrap();
    assert_eq!(commands.len(), 2);
    assert_eq!(commands[1].args, vec!["-", "-", "-f", "40", "-l", "40"]);
    let outputs: Vec<ProcessOutput> = vec![Ok(b"a".to_vec()), Ok(b"b".to_vec())];
    assert_eq!(pdftext_all_pages(&info, &pages, &plain(), &outputs), Ok("ab".to_string()));
}

#[test]
fn run_that_did_not_start_is_a_spawn_failure() {
    assert_eq!(process_output(ProcessResult::NotSpawned), Err(PDF2ImageError::SpawnFailure));
}

#[test]
fn run_that_broke_off_is_an_io_failure() {
    assert_eq!(process_output(ProcessResult::InputNotWritten), Err(PDF2ImageError::IoFailure));
    assert_eq!(process_output(ProcessResult::OutputNotRead), Err(PDF2ImageError::IoFailure));
}

#[test]
fn exit_status_is_not_fatal() {
    let failed = ProcessResult::Exited { stdout: b"part".to_vec(), success: false };
    assert_eq!(process_output(failed), Ok(b"part".to_vec()));
    let ended = ProcessResult::Exited { stdout: Vec::new(), success: true };
    assert_eq!(process_output(ended), Ok(Vec::new()));
}

#[test]
fn failed_tool_is_found_out_by_the_decoder() {
    let info = PdfInfo::new(1, false);
    let output = process_output(ProcessResult::Exited { stdout: Vec::new(), success: false });
    let image = render_pdf_single_page(&info, &plain(), &output);
    assert_eq!(image.err(), Some(PDF2ImageError::DecodeFailure));
}
