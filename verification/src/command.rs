//! The command lines with which the poppler tools are run. The library only
//! says what to run; running it is the caller's part.

use crate::render_options::RenderOptions;
use crate::text::{decimal_digits, push_number, push_text, texts};
use vstd::prelude::*;

verus! {

/// One run of a tool: the document goes to its standard input, and what it
/// writes to its standard output is the result.
#[derive(Debug, Clone)]
pub struct Invocation {
    /// The name of the tool.
    pub program: String,
    /// The arguments, in order.
    pub args: Vec<String>,
}

/// An invocation as plain text.
pub struct CommandLine {
    pub program: Seq<char>,
    pub args: Seq<Seq<char>>,
}

impl View for Invocation {
    type V = CommandLine;

    open spec fn view(&self) -> CommandLine {
        CommandLine { program: self.program@, args: texts(self.args@) }
    }
}

/// The flags that restrict a tool to one page.
pub open spec fn page_args(page: u32) -> Seq<Seq<char>> {
    seq!["-f"@, decimal_digits(page as nat), "-l"@, decimal_digits(page as nat)]
}

/// The flags that make a rendering tool write one JPEG image to its
/// standard output.
pub open spec fn image_args(pdftocairo: bool) -> Seq<Seq<char>> {
    if pdftocairo {
        seq!["-"@, "-"@, "-jpeg"@, "-singlefile"@]
    } else {
        seq!["-jpeg"@, "-singlefile"@]
    }
}

/// The command that renders one page.
pub open spec fn render_command_line(page: u32, options: RenderOptions) -> CommandLine {
    CommandLine {
        program: if options.pdftocairo {
            "pdftocairo"@
        } else {
            "pdftoppm"@
        },
        args: image_args(options.pdftocairo) + page_args(page) + options.cli_args(),
    }
}

/// The command that extracts the text of one page.
pub open spec fn page_text_command_line(page: u32, options: RenderOptions) -> CommandLine {
    CommandLine {
        program: "pdftotext"@,
        args: seq!["-"@, "-"@] + page_args(page) + options.cli_args(),
    }
}

/// The command that extracts the text of the whole document.
pub open spec fn document_text_command_line(options: RenderOptions) -> CommandLine {
    CommandLine { program: "pdftotext"@, args: seq!["-"@, "-"@] + options.cli_args() }
}

/// The command that reports on a document.
pub open spec fn info_command_line() -> CommandLine {
    CommandLine { program: "pdfinfo"@, args: seq!["-"@] }
}

/// Appends the flags that restrict a tool to `page`.
fn push_page_args(args: &mut Vec<String>, page: u32)
    ensures
        texts(final(args)@) == texts(old(args)@) + page_args(page),
{
    push_text(args, "-f");
    push_number(args, page);
    push_text(args, "-l");
    push_number(args, page);
    assert(texts(args@) =~= texts(old(args)@) + page_args(page));
}

/// The command that renders `page` as a JPEG image.
pub fn render_page_command(page: u32, options: &RenderOptions) -> (command: Invocation)
    ensures
        command@ == render_command_line(page, *options),
{
    let mut args: Vec<String> = Vec::new();
    if options.pdftocairo {
        push_text(&mut args, "-");
        push_text(&mut args, "-");
    }
    push_text(&mut args, "-jpeg");
    push_text(&mut args, "-singlefile");
    assert(texts(args@) =~= image_args(options.pdftocairo));
    push_page_args(&mut args, page);
    options.push_cli_args(&mut args);
    let program = if options.pdftocairo {
        String::from_str("pdftocairo")
    } else {
        String::from_str("pdftoppm")
    };
    Invocation { program, args }
}

/// The command that extracts the text of `page`.
pub fn page_text_command(page: u32, options: &RenderOptions) -> (command: Invocation)
    ensures
        command@ == page_text_command_line(page, *options),
{
    let mut args: Vec<String> = Vec::new();
    push_text(&mut args, "-");
    push_text(&mut args, "-");
    assert(texts(args@) =~= seq!["-"@, "-"@]);
    push_page_args(&mut args, page);
    options.push_cli_args(&mut args);
    Invocation { program: String::from_str("pdftotext"), args }
}

/// The command that extracts the text of the whole document in one run.
pub fn document_text_command(options: &RenderOptions) -> (command: Invocation)
    ensures
        command@ == document_text_command_line(*options),
{
    let mut args: Vec<String> = Vec::new();
    push_text(&mut args, "-");
    push_text(&mut args, "-");
    assert(texts(args@) =~= seq!["-"@, "-"@]);
    options.push_cli_args(&mut args);
    Invocation { program: String::from_str("pdftotext"), args }
}

/// The command whose output `extract_pdf_info` reads.
pub fn pdf_info_command() -> (command: Invocation)
    ensures
        command@ == info_command_line(),
{
    let mut args: Vec<String> = Vec::new();
    push_text(&mut args, "-");
    assert(texts(args@) =~= seq!["-"@]);
    Invocation { program: String::from_str("pdfinfo"), args }
}

/// Where a tool is looked for: under its bare name on the search path, or
/// in `directory` where one is given. On Windows the file has the extension
/// `.exe` and the separator is a backslash.
pub open spec fn executable_path(
    command: Seq<char>,
    directory: Option<Seq<char>>,
    windows: bool,
) -> Seq<char> {
    match directory {
        Some(directory) => if windows {
            directory + "\\"@ + command + ".exe"@
        } else {
            directory + "/"@ + command
        },
        None => if windows {
            command + ".exe"@
        } else {
            command
        },
    }
}

/// Determines the executable path for the provided command
pub fn get_executable_path(command: &str, directory: Option<&str>, windows: bool) -> (path: String)
    ensures
        path@ == executable_path(
            command@,
            match directory {
                Some(directory) => Some(directory@),
                None => None,
            },
            windows,
        ),
{
    let mut path = match directory {
        Some(directory) => {
            let mut path = String::from_str(directory);
            path.append(if windows {
                "\\"
            } else {
                "/"
            });
            path
        },
        None => String::new(),
    };
    path.append(command);
    if windows {
        path.append(".exe");
    }
    proof {
        assert(Seq::<char>::empty() + command@ =~= command@);
    }
    path
}

} // verus!
