//! The options of a conversion, and the command-line flags that state them
//! to the poppler tools.

use crate::error::PDF2ImageError;
use crate::text::{decimal_digits, push_number, push_text, texts};
use vstd::prelude::*;

verus! {

/// The resolution of the rendered image, in dots per inch.
#[derive(Debug, Clone, Copy, PartialEq, Eq)]
pub enum DPI {
    /// The same resolution in both directions.
    Uniform(u32),
    /// A horizontal and a vertical resolution.
    XY(u32, u32),
}

/// The size in pixels to which a page is scaled.
#[derive(Debug, Clone, Copy, PartialEq, Eq)]
pub enum Scale {
    /// The longer side of the page gets this many pixels.
    Uniform(u32),
    /// A width and a height.
    XY(u32, u32),
}

/// The part of the page that is rendered, in pixels from its top left
/// corner.
#[derive(Debug, Clone, Copy, PartialEq, Eq)]
pub struct Crop {
    pub x: u32,
    pub y: u32,
    pub width: u32,
    pub height: u32,
}

/// The password that unlocks an encrypted document.
#[derive(Debug, Clone)]
pub enum Password {
    /// The password of the document's user.
    User(String),
    /// The password of the document's owner.
    Owner(String),
}

/// How pages are converted.
#[derive(Debug, Clone)]
pub struct RenderOptions {
    /// The resolution; the tool's own where absent.
    pub resolution: Option<DPI>,
    /// The size to scale to; unscaled where absent.
    pub scale: Option<Scale>,
    /// The part of the page to render; the whole page where absent.
    pub crop: Option<Crop>,
    /// The password, which an encrypted document needs.
    pub password: Option<Password>,
    /// Renders with `pdftocairo` in place of `pdftoppm`.
    pub pdftocairo: bool,
}

/// The flags that state a resolution.
pub open spec fn resolution_args(resolution: Option<DPI>) -> Seq<Seq<char>> {
    match resolution {
        None => seq![],
        Some(DPI::Uniform(dpi)) => seq!["-r"@, decimal_digits(dpi as nat)],
        Some(DPI::XY(x, y)) => seq![
            "-rx"@,
            decimal_digits(x as nat),
            "-ry"@,
            decimal_digits(y as nat),
        ],
    }
}

/// The flags that state a size to scale to.
pub open spec fn scale_args(scale: Option<Scale>) -> Seq<Seq<char>> {
    match scale {
        None => seq![],
        Some(Scale::Uniform(size)) => seq!["-scale-to"@, decimal_digits(size as nat)],
        Some(Scale::XY(x, y)) => seq![
            "-scale-to-x"@,
            decimal_digits(x as nat),
            "-scale-to-y"@,
            decimal_digits(y as nat),
        ],
    }
}

/// The flags that state the part of the page to render.
pub open spec fn crop_args(crop: Option<Crop>) -> Seq<Seq<char>> {
    match crop {
        None => seq![],
        Some(crop) => seq![
            "-x"@,
            decimal_digits(crop.x as nat),
            "-y"@,
            decimal_digits(crop.y as nat),
            "-W"@,
            decimal_digits(crop.width as nat),
            "-H"@,
            decimal_digits(crop.height as nat),
        ],
    }
}

/// The flag that hands over a password.
pub open spec fn password_args(password: Option<Password>) -> Seq<Seq<char>> {
    match password {
        None => seq![],
        Some(Password::User(word)) => seq!["-upw"@, word@],
        Some(Password::Owner(word)) => seq!["-opw"@, word@],
    }
}

/// Appends the flags that state `resolution`.
fn push_resolution(args: &mut Vec<String>, resolution: &Option<DPI>)
    ensures
        texts(final(args)@) == texts(old(args)@) + resolution_args(*resolution),
{
    match resolution {
        None => {},
        Some(DPI::Uniform(dpi)) => {
            push_text(args, "-r");
            push_number(args, *dpi);
        },
        Some(DPI::XY(x, y)) => {
            push_text(args, "-rx");
            push_number(args, *x);
            push_text(args, "-ry");
            push_number(args, *y);
        },
    }
    assert(texts(args@) =~= texts(old(args)@) + resolution_args(*resolution));
}

/// Appends the flags that state `scale`.
fn push_scale(args: &mut Vec<String>, scale: &Option<Scale>)
    ensures
        texts(final(args)@) == texts(old(args)@) + scale_args(*scale),
{
    match scale {
        None => {},
        Some(Scale::Uniform(size)) => {
            push_text(args, "-scale-to");
            push_number(args, *size);
        },
        Some(Scale::XY(x, y)) => {
            push_text(args, "-scale-to-x");
            push_number(args, *x);
            push_text(args, "-scale-to-y");
            push_number(args, *y);
        },
    }
    assert(texts(args@) =~= texts(old(args)@) + scale_args(*scale));
}

/// Appends the flags that state `crop`.
fn push_crop(args: &mut Vec<String>, crop: &Option<Crop>)
    ensures
        texts(final(args)@) == texts(old(args)@) + crop_args(*crop),
{
    match crop {
        None => {},
        Some(crop) => {
            push_text(args, "-x");
            push_number(args, crop.x);
            push_text(args, "-y");
            push_number(args, crop.y);
            push_text(args, "-W");
            push_number(args, crop.width);
            push_text(args, "-H");
            push_number(args, crop.height);
        },
    }
    assert(texts(args@) =~= texts(old(args)@) + crop_args(*crop));
}

/// Appends the flag that hands over `password`.
fn push_password(args: &mut Vec<String>, password: &Option<Password>)
    ensures
        texts(final(args)@) == texts(old(args)@) + password_args(*password),
{
    match password {
        None => {},
        Some(Password::User(word)) => {
            push_text(args, "-upw");
            push_text(args, word.as_str());
        },
        Some(Password::Owner(word)) => {
            push_text(args, "-opw");
            push_text(args, word.as_str());
        },
    }
    assert(texts(args@) =~= texts(old(args)@) + password_args(*password));
}

impl RenderOptions {
    /// The options as the tools read them on their command line: resolution,
    /// scale, crop and password, in this order, each left out where absent.
    pub open spec fn cli_args(&self) -> Seq<Seq<char>> {
        resolution_args(self.resolution) + scale_args(self.scale) + crop_args(self.crop)
            + password_args(self.password)
    }

    /// Appends the flags of these options to `args`.
    pub fn push_cli_args(&self, args: &mut Vec<String>)
        ensures
            texts(final(args)@) == texts(old(args)@) + self.cli_args(),
    {
        push_resolution(args, &self.resolution);
        push_scale(args, &self.scale);
        push_crop(args, &self.crop);
        push_password(args, &self.password);
        assert(texts(args@) =~= texts(old(args)@) + self.cli_args());
    }

    /// The flags of these options.
    pub fn to_cli_args(&self) -> (args: Vec<String>)
        ensures
            texts(args@) == self.cli_args(),
    {
        let mut args: Vec<String> = Vec::new();
        self.push_cli_args(&mut args);
        assert(texts(args@) =~= self.cli_args());
        args
    }
}

/// Collects the options of a conversion one by one.
///
/// Both ways of scaling may be asked of the builder; `build` rejects a
/// builder of which both were asked.
#[derive(Debug, Clone)]
pub struct RenderOptionsBuilder {
    pub resolution: Option<DPI>,
    pub scale_to: Option<u32>,
    pub scale_to_xy: Option<(u32, u32)>,
    pub crop: Option<Crop>,
    pub password: Option<Password>,
    pub pdftocairo: bool,
}

impl RenderOptionsBuilder {
    /// The builder of which nothing was asked yet.
    pub open spec fn unset() -> Self {
        RenderOptionsBuilder {
            resolution: None,
            scale_to: None,
            scale_to_xy: None,
            crop: None,
            password: None,
            pdftocairo: false,
        }
    }

    /// What was asked about scaling, where the requests agree.
    pub open spec fn scale(&self) -> Option<Scale> {
        match (self.scale_to, self.scale_to_xy) {
            (Some(size), _) => Some(Scale::Uniform(size)),
            (None, Some((x, y))) => Some(Scale::XY(x, y)),
            (None, None) => None,
        }
    }

    /// The two ways of scaling exclude each other.
    pub open spec fn conflicting(&self) -> bool {
        self.scale_to is Some && self.scale_to_xy is Some
    }

    /// What `build` makes of the builder.
    pub open spec fn built(&self) -> Result<RenderOptions, PDF2ImageError> {
        if self.conflicting() {
            Err(PDF2ImageError::InvalidConfiguration)
        } else {
            Ok(
                RenderOptions {
                    resolution: self.resolution,
                    scale: self.scale(),
                    crop: self.crop,
                    password: self.password,
                    pdftocairo: self.pdftocairo,
                },
            )
        }
    }

    /// A builder of which nothing was asked yet.
    pub fn new() -> (builder: Self)
        ensures
            builder == Self::unset(),
    {
        RenderOptionsBuilder {
            resolution: None,
            scale_to: None,
            scale_to_xy: None,
            crop: None,
            password: None,
            pdftocairo: false,
        }
    }

    /// Asks for a resolution.
    pub fn resolution(self, resolution: DPI) -> (builder: Self)
        ensures
            builder == (RenderOptionsBuilder { resolution: Some(resolution), ..self }),
    {
        RenderOptionsBuilder { resolution: Some(resolution), ..self }
    }

    /// Asks that the longer side of each page gets `size` pixels.
    pub fn scale_to(self, size: u32) -> (builder: Self)
        ensures
            builder == (RenderOptionsBuilder { scale_to: Some(size), ..self }),
    {
        RenderOptionsBuilder { scale_to: Some(size), ..self }
    }

    /// Asks that each page gets `width` by `height` pixels.
    pub fn scale_to_xy(self, width: u32, height: u32) -> (builder: Self)
        ensures
            builder == (RenderOptionsBuilder { scale_to_xy: Some((width, height)), ..self }),
    {
        RenderOptionsBuilder { scale_to_xy: Some((width, height)), ..self }
    }

    /// Asks for a part of each page.
    pub fn crop(self, crop: Crop) -> (builder: Self)
        ensures
            builder == (RenderOptionsBuilder { crop: Some(crop), ..self }),
    {
        RenderOptionsBuilder { crop: Some(crop), ..self }
    }

    /// Hands over the password of the document.
    pub fn password(self, password: Password) -> (builder: Self)
        ensures
            builder == (RenderOptionsBuilder { password: Some(password), ..self }),
    {
        RenderOptionsBuilder { password: Some(password), ..self }
    }

    /// Chooses between the two rendering tools.
    pub fn pdftocairo(self, pdftocairo: bool) -> (builder: Self)
        ensures
            builder == (RenderOptionsBuilder { pdftocairo, ..self }),
    {
        RenderOptionsBuilder { pdftocairo, ..self }
    }

    /// Makes the options, or fails with `InvalidConfiguration` where both
    /// ways of scaling were asked for.
    pub fn build(self) -> (res: Result<RenderOptions, PDF2ImageError>)
        ensures
            res == self.built(),
    {
        let scale = match (self.scale_to, self.scale_to_xy) {
            (Some(_), Some(_)) => {
                return Err(PDF2ImageError::InvalidConfiguration);
            },
            (Some(size), None) => Some(Scale::Uniform(size)),
            (None, Some((x, y))) => Some(Scale::XY(x, y)),
            (None, None) => None,
        };
        Ok(
            RenderOptions {
                resolution: self.resolution,
                scale,
                crop: self.crop,
                password: self.password,
                pdftocairo: self.pdftocairo,
            },
        )
    }
}

impl Default for RenderOptionsBuilder {
    fn default() -> (builder: Self)
        ensures
            builder == Self::unset(),
    {
        RenderOptionsBuilder::new()
    }
}

} // verus!
