//! The rendering configuration handed in by the command line layer.

use vstd::prelude::*;

use crate::fmt::FormatTemplate;

verus! {

/// ANSI framing of one display style: the escape bytes written before and
/// after the styled text. An empty pair paints nothing.
#[derive(Debug)]
pub struct Paint {
    pub prefix: Vec<u8>,
    pub suffix: Vec<u8>,
}

impl View for Paint {
    type V = (Seq<u8>, Seq<u8>);

    open spec fn view(&self) -> (Seq<u8>, Seq<u8>) {
        (self.prefix@, self.suffix@)
    }
}

/// Wrapping of a text in a style: the text as it is when there is no
/// style, else the prefix, the text and the suffix.
pub open spec fn apply_paint(p: Option<(Seq<u8>, Seq<u8>)>, text: Seq<u8>) -> Seq<u8> {
    match p {
        None => text,
        Some(pp) => pp.0 + text + pp.1,
    }
}

/// The part of a color rule table that the renderer reads directly: the
/// style of the directory prefix. Per-entry styles live in the entry cache.
#[derive(Debug)]
pub struct ColorTable {
    pub directory: Option<Paint>,
}

impl ColorTable {
    /// The directory style as a pair of byte strings.
    pub open spec fn directory_view(&self) -> Option<(Seq<u8>, Seq<u8>)> {
        match self.directory {
            None => None,
            Some(p) => Some(p@),
        }
    }
}

/// Options consumed by the rendering core. The walking options are carried
/// for the surrounding tool; the renderer reads the display fields.
#[derive(Debug)]
pub struct Config {
    pub case_sensitive: bool,
    pub search_full_path: bool,
    pub ignore_hidden: bool,
    pub read_fdignore: bool,
    pub follow_links: bool,
    pub strip_cwd_prefix: bool,
    pub hyperlink: bool,
    pub format: Option<FormatTemplate>,
    pub path_separator: Option<Vec<u8>>,
    pub actual_path_separator: Vec<u8>,
    pub ls_colors: Option<ColorTable>,
    pub null_separator: bool,
    pub host: Vec<u8>,
    pub cwd: Option<Vec<u8>>,
}

} // verus!
