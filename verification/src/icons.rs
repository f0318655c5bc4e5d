use vstd::prelude::*;

use crate::terminal_protocol::ascii_lower;
use crate::text::{chars_of, eq_chars_str, starts_with_str};

verus! {
/// Color of a File Explorer icon.
#[derive(Clone, Copy, Debug, PartialEq, Eq, Structural)]
pub enum IconColor {
    Rgb(u8, u8, u8),
    DarkGray,
    Red,
}
pub const FOLDER_CLOSED: &'static str = "\u{f07b}";
pub const FOLDER_OPEN: &'static str = "\u{f07c}";
pub const FILE_GENERIC: &'static str = "\u{f016}";
pub const FILE_TEXT: &'static str = "\u{f0f6}";
pub const FILE_CODE: &'static str = "\u{f1c9}";
pub const FILE_IMAGE: &'static str = "\u{f1c5}";
pub const FILE_PDF: &'static str = "\u{f1c1}";
pub const FILE_ARCHIVE: &'static str = "\u{f1c6}";
pub const GIT: &'static str = "\u{f1d3}";
pub const LOCK: &'static str = "\u{f023}";
pub const COG: &'static str = "\u{f013}";
pub const TERMINAL: &'static str = "\u{f120}";
pub const DATABASE: &'static str = "\u{f1c0}";

/// The folder icon color.
pub open spec fn folder_color() -> IconColor {
    IconColor::Rgb(122u8, 162u8, 247u8)
}

/// Icon of an exactly recognized (lowercased) file name, if any.
pub open spec fn special_cased_spec(lower: Seq<char>) -> Option<(Seq<char>, IconColor)> {
    if lower == "cargo.toml"@ {
        Some((COG@, IconColor::Rgb(222u8, 165u8, 132u8)))
    } else if lower == "cargo.lock"@ || lower == "package-lock.json"@ || lower == "yarn.lock"@ || lower == "pnpm-lock.yaml"@ {
        Some((LOCK@, IconColor::DarkGray))
    } else if lower == "dockerfile"@ || lower == "docker-compose.yml"@ || lower == "docker-compose.yaml"@ {
        Some((FILE_CODE@, IconColor::Rgb(56u8, 150u8, 214u8)))
    } else if lower == ".gitignore"@ || lower == ".gitmodules"@ || lower == ".gitattributes"@ {
        Some((GIT@, IconColor::Rgb(240u8, 80u8, 50u8)))
    } else if lower == "package.json"@ {
        Some((COG@, IconColor::Rgb(203u8, 203u8, 65u8)))
    } else if lower == "readme.md"@ || lower == "readme"@ || lower == "readme.txt"@ {
        Some((FILE_TEXT@, IconColor::Rgb(148u8, 163u8, 184u8)))
    } else if lower == "license"@ || lower == "license.md"@ || lower == "license.txt"@ {
        Some((FILE_TEXT@, IconColor::Rgb(203u8, 203u8, 65u8)))
    } else if ".env"@.is_prefix_of(lower) {
        Some((COG@, IconColor::Rgb(197u8, 195u8, 71u8)))
    } else {
        None
    }
}

/// Icon of a (lowercased) file extension; a generic one for anything unknown.
pub open spec fn by_extension_spec(ext: Seq<char>) -> (Seq<char>, IconColor) {
    if ext == "rs"@ {
        (FILE_CODE@, IconColor::Rgb(222u8, 165u8, 132u8))
    } else if ext == "js"@ || ext == "mjs"@ || ext == "cjs"@ || ext == "jsx"@ {
        (FILE_CODE@, IconColor::Rgb(203u8, 203u8, 65u8))
    } else if ext == "ts"@ || ext == "tsx"@ {
        (FILE_CODE@, IconColor::Rgb(49u8, 120u8, 198u8))
    } else if ext == "json"@ || ext == "jsonc"@ {
        (COG@, IconColor::Rgb(203u8, 203u8, 65u8))
    } else if ext == "md"@ || ext == "markdown"@ {
        (FILE_TEXT@, IconColor::Rgb(148u8, 163u8, 184u8))
    } else if ext == "toml"@ {
        (COG@, IconColor::Rgb(156u8, 66u8, 33u8))
    } else if ext == "yml"@ || ext == "yaml"@ {
        (COG@, IconColor::Rgb(203u8, 23u8, 30u8))
    } else if ext == "py"@ {
        (FILE_CODE@, IconColor::Rgb(255u8, 213u8, 79u8))
    } else if ext == "html"@ || ext == "htm"@ {
        (FILE_CODE@, IconColor::Rgb(228u8, 77u8, 38u8))
    } else if ext == "css"@ {
        (FILE_CODE@, IconColor::Rgb(38u8, 77u8, 228u8))
    } else if ext == "scss"@ || ext == "sass"@ {
        (FILE_CODE@, IconColor::Rgb(205u8, 105u8, 149u8))
    } else if ext == "sh"@ || ext == "bash"@ || ext == "zsh"@ || ext == "fish"@ {
        (TERMINAL@, IconColor::Rgb(137u8, 224u8, 81u8))
    } else if ext == "lock"@ {
        (LOCK@, IconColor::DarkGray)
    } else if ext == "png"@ || ext == "jpg"@ || ext == "jpeg"@ || ext == "gif"@ || ext == "svg"@ || ext == "ico"@ || ext == "webp"@ || ext == "bmp"@ {
        (FILE_IMAGE@, IconColor::Rgb(212u8, 106u8, 135u8))
    } else if ext == "pdf"@ {
        (FILE_PDF@, IconColor::Red)
    } else if ext == "zip"@ || ext == "tar"@ || ext == "gz"@ || ext == "xz"@ || ext == "7z"@ || ext == "rar"@ {
        (FILE_ARCHIVE@, IconColor::Rgb(214u8, 196u8, 161u8))
    } else if ext == "sql"@ || ext == "db"@ || ext == "sqlite"@ {
        (DATABASE@, IconColor::Rgb(105u8, 179u8, 76u8))
    } else if ext == "lua"@ {
        (FILE_CODE@, IconColor::Rgb(0u8, 0u8, 255u8))
    } else if ext == "c"@ {
        (FILE_CODE@, IconColor::Rgb(85u8, 155u8, 213u8))
    } else if ext == "h"@ || ext == "hpp"@ {
        (FILE_CODE@, IconColor::Rgb(163u8, 105u8, 217u8))
    } else if ext == "cpp"@ || ext == "cc"@ || ext == "cxx"@ {
        (FILE_CODE@, IconColor::Rgb(243u8, 75u8, 125u8))
    } else if ext == "go"@ {
        (FILE_CODE@, IconColor::Rgb(0u8, 173u8, 216u8))
    } else if ext == "txt"@ {
        (FILE_TEXT@, IconColor::Rgb(203u8, 203u8, 203u8))
    } else {
        (FILE_GENERIC@, IconColor::Rgb(160u8, 160u8, 160u8))
    }
}

fn special_cased(lower: &Vec<char>) -> (r: Option<(&'static str, IconColor)>)
    ensures
        match special_cased_spec(lower@) {
            Some((g, c)) => r is Some && r.unwrap().0@ == g && r.unwrap().1 == c,
            None => r is None,
        },
{
    if eq_chars_str(lower, "cargo.toml") {
        Some((COG, IconColor::Rgb(222, 165, 132)))
    } else if eq_chars_str(lower, "cargo.lock") || eq_chars_str(lower, "package-lock.json") || eq_chars_str(lower, "yarn.lock") || eq_chars_str(lower, "pnpm-lock.yaml") {
        Some((LOCK, IconColor::DarkGray))
    } else if eq_chars_str(lower, "dockerfile") || eq_chars_str(lower, "docker-compose.yml") || eq_chars_str(lower, "docker-compose.yaml") {
        Some((FILE_CODE, IconColor::Rgb(56, 150, 214)))
    } else if eq_chars_str(lower, ".gitignore") || eq_chars_str(lower, ".gitmodules") || eq_chars_str(lower, ".gitattributes") {
        Some((GIT, IconColor::Rgb(240, 80, 50)))
    } else if eq_chars_str(lower, "package.json") {
        Some((COG, IconColor::Rgb(203, 203, 65)))
    } else if eq_chars_str(lower, "readme.md") || eq_chars_str(lower, "readme") || eq_chars_str(lower, "readme.txt") {
        Some((FILE_TEXT, IconColor::Rgb(148, 163, 184)))
    } else if eq_chars_str(lower, "license") || eq_chars_str(lower, "license.md") || eq_chars_str(lower, "license.txt") {
        Some((FILE_TEXT, IconColor::Rgb(203, 203, 65)))
    } else if starts_with_str(lower, ".env") {
        Some((COG, IconColor::Rgb(197, 195, 71)))
    } else {
        None
    }
}

fn by_extension(ext: &Vec<char>) -> (r: (&'static str, IconColor))
    ensures
        r.0@ == by_extension_spec(ext@).0,
        r.1 == by_extension_spec(ext@).1,
{
    if eq_chars_str(ext, "rs") {
        (FILE_CODE, IconColor::Rgb(222, 165, 132))
    } else if eq_chars_str(ext, "js") || eq_chars_str(ext, "mjs") || eq_chars_str(ext, "cjs") || eq_chars_str(ext, "jsx") {
        (FILE_CODE, IconColor::Rgb(203, 203, 65))
    } else if eq_chars_str(ext, "ts") || eq_chars_str(ext, "tsx") {
        (FILE_CODE, IconColor::Rgb(49, 120, 198))
    } else if eq_chars_str(ext, "json") || eq_chars_str(ext, "jsonc") {
        (COG, IconColor::Rgb(203, 203, 65))
    } else if eq_chars_str(ext, "md") || eq_chars_str(ext, "markdown") {
        (FILE_TEXT, IconColor::Rgb(148, 163, 184))
    } else if eq_chars_str(ext, "toml") {
        (COG, IconColor::Rgb(156, 66, 33))
    } else if eq_chars_str(ext, "yml") || eq_chars_str(ext, "yaml") {
        (COG, IconColor::Rgb(203, 23, 30))
    } else if eq_chars_str(ext, "py") {
        (FILE_CODE, IconColor::Rgb(255, 213, 79))
    } else if eq_chars_str(ext, "html") || eq_chars_str(ext, "htm") {
        (FILE_CODE, IconColor::Rgb(228, 77, 38))
    } else if eq_chars_str(ext, "css") {
        (FILE_CODE, IconColor::Rgb(38, 77, 228))
    } else if eq_chars_str(ext, "scss") || eq_chars_str(ext, "sass") {
        (FILE_CODE, IconColor::Rgb(205, 105, 149))
    } else if eq_chars_str(ext, "sh") || eq_chars_str(ext, "bash") || eq_chars_str(ext, "zsh") || eq_chars_str(ext, "fish") {
        (TERMINAL, IconColor::Rgb(137, 224, 81))
    } else if eq_chars_str(ext, "lock") {
        (LOCK, IconColor::DarkGray)
    } else if eq_chars_str(ext, "png") || eq_chars_str(ext, "jpg") || eq_chars_str(ext, "jpeg") || eq_chars_str(ext, "gif") || eq_chars_str(ext, "svg") || eq_chars_str(ext, "ico") || eq_chars_str(ext, "webp") || eq_chars_str(ext, "bmp") {
        (FILE_IMAGE, IconColor::Rgb(212, 106, 135))
    } else if eq_chars_str(ext, "pdf") {
        (FILE_PDF, IconColor::Red)
    } else if eq_chars_str(ext, "zip") || eq_chars_str(ext, "tar") || eq_chars_str(ext, "gz") || eq_chars_str(ext, "xz") || eq_chars_str(ext, "7z") || eq_chars_str(ext, "rar") {
        (FILE_ARCHIVE, IconColor::Rgb(214, 196, 161))
    } else if eq_chars_str(ext, "sql") || eq_chars_str(ext, "db") || eq_chars_str(ext, "sqlite") {
        (DATABASE, IconColor::Rgb(105, 179, 76))
    } else if eq_chars_str(ext, "lua") {
        (FILE_CODE, IconColor::Rgb(0, 0, 255))
    } else if eq_chars_str(ext, "c") {
        (FILE_CODE, IconColor::Rgb(85, 155, 213))
    } else if eq_chars_str(ext, "h") || eq_chars_str(ext, "hpp") {
        (FILE_CODE, IconColor::Rgb(163, 105, 217))
    } else if eq_chars_str(ext, "cpp") || eq_chars_str(ext, "cc") || eq_chars_str(ext, "cxx") {
        (FILE_CODE, IconColor::Rgb(243, 75, 125))
    } else if eq_chars_str(ext, "go") {
        (FILE_CODE, IconColor::Rgb(0, 173, 216))
    } else if eq_chars_str(ext, "txt") {
        (FILE_TEXT, IconColor::Rgb(203, 203, 203))
    } else {
        (FILE_GENERIC, IconColor::Rgb(160, 160, 160))
    }
}

/// The lowercase form of `s` per Unicode, as `str::to_lowercase` computes it.
pub uninterp spec fn unicode_lowercase(s: Seq<char>) -> Seq<char>;

/// Only ASCII chars.
pub open spec fn all_ascii(s: Seq<char>) -> bool {
    forall|i: int| 0 <= i < s.len() ==> (s[i] as u32) < 128
}

/// `str::to_lowercase`: Unicode lowercasing; on ASCII text this is plain
/// ASCII lowercasing, as std documents.
#[verifier::external_body]
fn to_lowercase(s: &str) -> (r: String)
    ensures
        r@ == unicode_lowercase(s@),
        all_ascii(s@) ==> r@ == s@.map_values(|c: char| ascii_lower(c)),
{
    s.to_lowercase()
}

/// Index of the last `c` in `s`, or -1.
pub open spec fn last_index_of(s: Seq<char>, c: char) -> int
    decreases s.len(),
{
    if s.len() == 0 {
        -1
    } else if s.last() == c {
        s.len() - 1
    } else {
        last_index_of(s.drop_last(), c)
    }
}

/// What follows the last `.` of `s`, empty without a dot.
pub open spec fn extension_of(s: Seq<char>) -> Seq<char> {
    let i = last_index_of(s, '.');
    if i < 0 {
        Seq::empty()
    } else {
        s.skip(i + 1)
    }
}

/// Glyph and color for a file row: exact special-cased names first, then
/// the extension, then a generic file icon.
pub open spec fn icon_for_file_spec(name: Seq<char>) -> (Seq<char>, IconColor) {
    let lower = unicode_lowercase(name);
    match special_cased_spec(lower) {
        Some(icon) => icon,
        None => by_extension_spec(extension_of(lower)),
    }
}

pub fn for_file(name: &str) -> (r: (&'static str, IconColor))
    ensures
        r.0@ == icon_for_file_spec(name@).0,
        r.1 == icon_for_file_spec(name@).1,
{
    let lower_string = to_lowercase(name);
    let lower = chars_of(lower_string.as_str());
    if let Some(icon) = special_cased(&lower) {
        return icon;
    }
    let mut i: usize = lower.len();
    assert(lower@.take(i as int) == lower@);
    while i > 0 && lower[i - 1] != '.'
        invariant
            i <= lower@.len(),
            last_index_of(lower@, '.') == last_index_of(lower@.take(i as int), '.'),
        decreases i,
    {
        assert(lower@.take(i as int).drop_last() == lower@.take(i - 1));
        i = i - 1;
    }
    let ext: Vec<char> = if i == 0 {
        assert(last_index_of(lower@.take(0), '.') == -1);
        Vec::new()
    } else {
        assert(last_index_of(lower@.take(i as int), '.') == i - 1);
        vstd::slice::slice_to_vec(vstd::slice::slice_subrange(lower.as_slice(), i, lower.len()))
    };
    assert(ext@ == extension_of(lower@));
    by_extension(&ext)
}

/// Folder glyph (open when expanded) and the folder color.
pub fn folder(expanded: bool) -> (r: (&'static str, IconColor))
    ensures
        r.0@ == (if expanded { FOLDER_OPEN@ } else { FOLDER_CLOSED@ }),
        r.1 == folder_color(),
{
    if expanded {
        (FOLDER_OPEN, IconColor::Rgb(122, 162, 247))
    } else {
        (FOLDER_CLOSED, IconColor::Rgb(122, 162, 247))
    }
}

/// The disclosure arrow left of a directory's icon.
pub fn arrow(expanded: bool) -> (r: &'static str)
    ensures
        r@ == (if expanded { "\u{25be}"@ } else { "\u{25b8}"@ }),
{
    if expanded {
        "\u{25be}"
    } else {
        "\u{25b8}"
    }
}

} // verus!
