//! One rendered record per entry.
//!
//! A record is: an optional hyperlink-open escape, the body, an optional
//! hyperlink-close escape, and a terminator byte. The body comes from the
//! format template when one is configured, else from colorized rendering,
//! else plain. The caller writes the returned bytes to its sink.

use vstd::prelude::*;

use crate::config::apply_paint;
use crate::config::ColorTable;
use crate::config::Config;
use crate::config::Paint;
use crate::dir_entry::DirEntry;
use crate::dir_entry::FileKind;
use crate::fmt::opt_bytes_view;
use crate::fmt::FormatTemplate;
use crate::fmt::TemplateSpec;
use crate::hyperlink::url_spec;
use crate::hyperlink::PathUrl;
use crate::filesystem::absolute_spec;
use crate::paths::append_bytes;
use crate::paths::dir_prefix_len;
use crate::paths::dir_prefix_spec;
use crate::paths::has_root;
use crate::paths::subvec;
use crate::paths::SEP_BYTE;

verus! {

/// Plain separator replacement over a whole string: every `/` byte from
/// `k` on becomes `sep`, any other byte stays.
pub open spec fn flat_replace_from(s: Seq<u8>, sep: Seq<u8>, k: int) -> Seq<u8>
    decreases s.len() - k,
{
    if k >= s.len() {
        Seq::empty()
    } else if s[k] == SEP_BYTE {
        sep + flat_replace_from(s, sep, k + 1)
    } else {
        seq![s[k]] + flat_replace_from(s, sep, k + 1)
    }
}

/// Replaces every separator byte of the path by `new_path_separator`,
/// without any component parsing.
pub fn replace_path_separator(path: &Vec<u8>, new_path_separator: &Vec<u8>) -> (r: Vec<u8>)
    ensures
        r@ == flat_replace_from(path@, new_path_separator@, 0),
{
    let mut r: Vec<u8> = Vec::new();
    let mut k: usize = 0;
    while k < path.len()
        invariant
            k <= path@.len(),
            flat_replace_from(path@, new_path_separator@, 0) == r@ + flat_replace_from(
                path@,
                new_path_separator@,
                k as int,
            ),
        decreases path@.len() - k,
    {
        if path[k] == SEP_BYTE {
            append_bytes(&mut r, new_path_separator);
        } else {
            let ghost prev = r@;
            r.push(path[k]);
            proof {
                assert(r@ =~= prev + seq![path@[k as int]]);
            }
        }
        k = k + 1;
    }
    r
}

/// The view of an optional borrowed paint.
pub open spec fn paint_opt_view(p: Option<&Paint>) -> Option<(Seq<u8>, Seq<u8>)> {
    match p {
        None => None,
        Some(pp) => Some(pp@),
    }
}

/// The trailing glyph after a directory: the configured separator, in the
/// given style; nothing for any other entry type.
pub open spec fn trailing_slash_spec(
    ft: Option<FileKind>,
    config: &Config,
    style: Option<(Seq<u8>, Seq<u8>)>,
) -> Seq<u8> {
    if ft == Some(FileKind::Directory) {
        apply_paint(style, config.actual_path_separator@)
    } else {
        Seq::empty()
    }
}

/// The body rendered through the format template.
pub open spec fn format_body_spec(entry: &DirEntry, config: &Config, t: TemplateSpec) -> Seq<u8> {
    FormatTemplate::generate_spec(
        t,
        entry.stripped_spec(config),
        (match config.path_separator {
            Some(ref sp) => Some(sp@),
            None => None,
        }),
    )
}

/// The directory prefix of the body, separator-remapped when configured.
pub open spec fn color_prefix_spec(p: Seq<u8>, off: int, config: &Config) -> Seq<u8> {
    match config.path_separator {
        Some(ref sp) => flat_replace_from(p.subrange(0, off), sp@, 0),
        None => p.subrange(0, off),
    }
}

/// The colorized body: the directory prefix in the directory style, the
/// rest in the entry's own style, and the trailing directory glyph.
pub open spec fn colorized_body_spec(entry: &DirEntry, config: &Config, ct: &ColorTable) -> Seq<
    u8,
> {
    let p = entry.stripped_spec(config);
    let off = dir_prefix_spec(p);
    let head = if off > 0 {
        apply_paint(ct.directory_view(), color_prefix_spec(p, off, config))
    } else {
        Seq::empty()
    };
    head + apply_paint(entry.style_view(), p.subrange(off, p.len() as int)) + trailing_slash_spec(
        entry.file_type_spec(),
        config,
        ct.directory_view(),
    )
}

/// The plain body: the stripped path, separator-remapped when configured,
/// and the trailing directory glyph without styling.
pub open spec fn plain_body_spec(entry: &DirEntry, config: &Config) -> Seq<u8> {
    let p = entry.stripped_spec(config);
    let body = match config.path_separator {
        Some(ref sp) => flat_replace_from(p, sp@, 0),
        None => p,
    };
    body + trailing_slash_spec(entry.file_type_spec(), config, None)
}

/// The body of a record: template, colorized or plain rendering.
pub open spec fn body_spec(entry: &DirEntry, config: &Config) -> Seq<u8> {
    match config.format {
        Some(ref f) => format_body_spec(entry, config, f@),
        None => match config.ls_colors {
            Some(ref ct) => colorized_body_spec(entry, config, ct),
            None => plain_body_spec(entry, config),
        },
    }
}

/// The URL of the entry, when hyperlinking is on and an absolute path can
/// be formed.
pub open spec fn record_url_spec(entry: &DirEntry, config: &Config) -> Option<Seq<u8>> {
    if config.hyperlink && (has_root(entry.path_view()) || config.cwd is Some) {
        Some(
            url_spec(
                config.host@,
                (match config.cwd {
                    Some(ref c) => absolute_spec(entry.path_view(), c@),
                    None => entry.path_view(),
                }),
            ),
        )
    } else {
        None
    }
}

/// The hyperlink-open escape around a URL.
pub open spec fn osc_open_spec(url: Seq<u8>) -> Seq<u8> {
    seq![27u8, 93u8, 56u8, 59u8, 59u8] + url + seq![27u8, 92u8]
}

/// The hyperlink-close escape.
pub open spec fn osc_close_spec() -> Seq<u8> {
    seq![27u8, 93u8, 56u8, 59u8, 59u8, 27u8, 92u8]
}

/// The record terminator: a NUL byte or a newline.
pub open spec fn terminator_spec(config: &Config) -> Seq<u8> {
    if config.null_separator {
        seq![0u8]
    } else {
        seq![10u8]
    }
}

/// One whole record.
pub open spec fn record_spec(entry: &DirEntry, config: &Config) -> Seq<u8> {
    let opening = match record_url_spec(entry, config) {
        Some(url) => osc_open_spec(url),
        None => Seq::empty(),
    };
    let closing = match record_url_spec(entry, config) {
        Some(_) => osc_close_spec(),
        None => Seq::empty(),
    };
    opening + body_spec(entry, config) + closing + terminator_spec(config)
}

/// Appends `text` wrapped in the style, or bare when there is none.
fn paint_append(out: &mut Vec<u8>, p: Option<&Paint>, text: &Vec<u8>)
    ensures
        final(out)@ == old(out)@ + apply_paint(paint_opt_view(p), text@),
{
    match p {
        None => append_bytes(out, text),
        Some(pp) => {
            append_bytes(out, &pp.prefix);
            append_bytes(out, text);
            append_bytes(out, &pp.suffix);
        },
    }
}

/// The trailing directory glyph, styled when a style is given.
fn print_trailing_slash(entry: &DirEntry, config: &Config, style: Option<&Paint>) -> (out: Vec<
    u8,
>)
    ensures
        out@ == trailing_slash_spec(entry.file_type_spec(), config, paint_opt_view(style)),
{
    let mut out: Vec<u8> = Vec::new();
    match entry.file_type() {
        Some(FileKind::Directory) => {
            paint_append(&mut out, style, &config.actual_path_separator);
        },
        _ => {},
    }
    out
}

/// The body rendered through the format template.
fn print_entry_format(entry: &DirEntry, config: &Config, format: &FormatTemplate) -> (out: Vec<
    u8,
>)
    ensures
        out@ == format_body_spec(entry, config, format@),
{
    let stripped = entry.stripped_path(config);
    let sep: Option<&Vec<u8>> = match &config.path_separator {
        Some(sp) => Some(sp),
        None => None,
    };
    format.generate(&stripped, sep)
}

/// The colorized body.
fn print_entry_colorized(entry: &DirEntry, config: &Config, ct: &ColorTable) -> (out: Vec<u8>)
    ensures
        out@ == colorized_body_spec(entry, config, ct),
{
    let stripped = entry.stripped_path(config);
    let off = dir_prefix_len(&stripped);
    let mut out: Vec<u8> = Vec::new();
    let dir_style: Option<&Paint> = match &ct.directory {
        Some(p) => Some(p),
        None => None,
    };
    if off > 0 {
        let head = subvec(&stripped, 0, off);
        let head = match &config.path_separator {
            Some(sp) => replace_path_separator(&head, sp),
            None => head,
        };
        paint_append(&mut out, dir_style, &head);
    }
    let rest = subvec(&stripped, off, stripped.len());
    paint_append(&mut out, entry.style(), &rest);
    let trail = print_trailing_slash(entry, config, dir_style);
    append_bytes(&mut out, &trail);
    out
}

/// The plain body.
fn print_entry_uncolorized(entry: &DirEntry, config: &Config) -> (out: Vec<u8>)
    ensures
        out@ == plain_body_spec(entry, config),
{
    let stripped = entry.stripped_path(config);
    let mut out: Vec<u8> = match &config.path_separator {
        Some(sp) => replace_path_separator(&stripped, sp),
        None => stripped,
    };
    let trail = print_trailing_slash(entry, config, None);
    append_bytes(&mut out, &trail);
    out
}

/// Renders one whole record for the entry: hyperlink escapes when they are
/// configured and possible, the body, and the terminator.
pub fn print_entry(entry: &DirEntry, config: &Config) -> (out: Vec<u8>)
    ensures
        out@ == record_spec(entry, config),
{
    let mut out: Vec<u8> = Vec::new();
    let mut has_hyperlink = false;
    if config.hyperlink {
        let cwd: Option<&Vec<u8>> = match &config.cwd {
            Some(c) => Some(c),
            None => None,
        };
        match PathUrl::new(entry.path(), cwd) {
            Some(u) => {
                let url = u.url_bytes(&config.host);
                out.push(27);
                out.push(93);
                out.push(56);
                out.push(59);
                out.push(59);
                proof {
                    assert(out@ =~= seq![27u8, 93u8, 56u8, 59u8, 59u8]);
                }
                append_bytes(&mut out, &url);
                out.push(27);
                out.push(92);
                proof {
                    assert(out@ =~= osc_open_spec(url@));
                }
                has_hyperlink = true;
            },
            None => {},
        }
    }
    let body = match &config.format {
        Some(f) => print_entry_format(entry, config, f),
        None => match &config.ls_colors {
            Some(ct) => print_entry_colorized(entry, config, ct),
            None => print_entry_uncolorized(entry, config),
        },
    };
    append_bytes(&mut out, &body);
    if has_hyperlink {
        let ghost before = out@;
        out.push(27);
        out.push(93);
        out.push(56);
        out.push(59);
        out.push(59);
        out.push(27);
        out.push(92);
        proof {
            assert(out@ =~= before + osc_close_spec());
        }
    } else {
        proof {
            assert(out@ + Seq::<u8>::empty() =~= out@);
        }
    }
    let ghost before_term = out@;
    if config.null_separator {
        out.push(0);
    } else {
        out.push(10);
    }
    proof {
        assert(out@ =~= before_term + terminator_spec(config));
    }
    out
}

} // verus!
