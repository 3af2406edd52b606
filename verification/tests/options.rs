use pdf2image_alt::{
    get_executable_path, pdf_info_command, Crop, PDF2ImageError, Password, RenderOptionsBuilder,
    Scale, DPI,
};
use pdf2image_alt::command::{document_text_command, page_text_command, render_page_command};

#[test]
fn default_options_state_nothing() {
    let options = RenderOptionsBuilder::default().build().unwrap();
    assert!(options.to_cli_args().is_empty());
    assert!(options.resolution.is_none());
    assert!(options.scale.is_none());
    assert!(options.crop.is_none());
    assert!(options.password.is_none());
    assert!(!options.pdftocairo);
}

#[test]
fn every_option_in_its_place() {
    let options = RenderOptionsBuilder::new()
        .resolution(DPI::Uniform(150))
        .scale_to(1024)
        .crop(Crop { x: 1, y: 2, width: 30, height: 40 })
        .password(Password::User("secret".to_string()))
        .build()
        .unwrap();
    assert_eq!(
        options.to_cli_args(),
        vec!["-r", "150", "-scale-to", "1024", "-x", "1", "-y", "2", "-W", "30", "-H", "40", "-upw", "secret"]
    );
}

#[test]
fn independent_resolution_and_dimensions() {
    let options = RenderOptionsBuilder::new()
        .resolution(DPI::XY(72, 300))
        .scale_to_xy(640, 480)
        .password(Password::Owner("root".to_string()))
        .build()
        .unwrap();
    assert_eq!(options.scale, Some(Scale::XY(640, 480)));
    assert_eq!(
        options.to_cli_args(),
        vec!["-rx", "72", "-ry", "300", "-scale-to-x", "640", "-scale-to-y", "480", "-opw", "root"]
    );
}

#[test]
fn conflicting_scale_modes_are_rejected() {
    let built = RenderOptionsBuilder::new().scale_to(100).scale_to_xy(10, 20).build();
    assert_eq!(built.err(), Some(PDF2ImageError::InvalidConfiguration));
    let built = RenderOptionsBuilder::new().scale_to_xy(10, 20).scale_to(100).build();
    assert_eq!(built.err(), Some(PDF2ImageError::InvalidConfiguration));
}

#[test]
fn render_command_for_each_tool() {
    let options = RenderOptionsBuilder::new().resolution(DPI::Uniform(90)).build().unwrap();
    let command = render_page_command(7, &options);
    assert_eq!(command.program, "pdftoppm");
    assert_eq!(command.args, vec!["-jpeg", "-singlefile", "-f", "7", "-l", "7", "-r", "90"]);
    let options = RenderOptionsBuilder::new().pdftocairo(true).build().unwrap();
    let command = render_page_command(12, &options);
    assert_eq!(command.program, "pdftocairo");
    assert_eq!(command.args, vec!["-", "-", "-jpeg", "-singlefile", "-f", "12", "-l", "12"]);
}

#[test]
fn text_commands() {
    let options = RenderOptionsBuilder::new()
        .password(Password::User("pw".to_string()))
        .build()
        .unwrap();
    let command = page_text_command(3, &options);
    assert_eq!(command.program, "pdftotext");
    assert_eq!(command.args, vec!["-", "-", "-f", "3", "-l", "3", "-upw", "pw"]);
    let command = document_text_command(&options);
    assert_eq!(command.program, "pdftotext");
    assert_eq!(command.args, vec!["-", "-", "-upw", "pw"]);
}

#[test]
fn info_command_reads_standard_input() {
    let command = pdf_info_command();
    assert_eq!(command.program, "pdfinfo");
    assert_eq!(command.args, vec!["-"]);
}

#[test]
fn executable_path_on_the_search_path() {
    assert_eq!(get_executable_path("pdftoppm", None, false), "pdftoppm");
    assert_eq!(get_executable_path("pdftoppm", None, true), "pdftoppm.exe");
}

#[test]
fn executable_path_in_a_directory() {
    assert_eq!(get_executable_path("pdfinfo", Some("/opt/poppler/bin"), false), "/opt/poppler/bin/pdfinfo");
    assert_eq!(get_executable_path("pdfinfo", Some("C:\\poppler"), true), "C:\\poppler\\pdfinfo.exe");
}
