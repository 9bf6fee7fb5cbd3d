//! Choosing the file format of the saved drawing from the output path.

use vstd::prelude::*;
use crate::error::{ErrorV, RSLogoError};
use crate::text::{chars_of, same_text, string_between};

verus! {

/// The formats a drawing can be saved in.
#[derive(Debug, Clone, Copy, PartialEq, Eq, Structural)]
pub enum ImageFormat {
    Svg,
    Png,
}

/// Position of the last `c` before `end`, or -1.
pub open spec fn last_index_of(s: Seq<char>, c: char, end: int) -> int
    decreases end,
{
    if end <= 0 || end > s.len() {
        -1
    } else if s[end - 1] == c {
        end - 1
    } else {
        last_index_of(s, c, end - 1)
    }
}

/// Where a path ends once trailing slashes are left out.
pub open spec fn trimmed_end(p: Seq<char>, end: int) -> int
    decreases end,
{
    if 0 < end <= p.len() && p[end - 1] == '/' {
        trimmed_end(p, end - 1)
    } else {
        end
    }
}

/// The last component of a path, trailing slashes aside.
pub open spec fn file_name(p: Seq<char>) -> Seq<char> {
    let e = trimmed_end(p, p.len() as int);
    p.subrange(last_index_of(p, '/', e) + 1, e)
}

/// The extension of a path: what follows the last `.` of its file name,
/// when that `.` is not the name's first character; a name `..` has none.
pub open spec fn extension_of(p: Seq<char>) -> Option<Seq<char>> {
    let name = file_name(p);
    let d = last_index_of(name, '.', name.len() as int);
    if name == ".."@ || d <= 0 {
        None
    } else {
        Some(name.subrange(d + 1, name.len() as int))
    }
}

/// The format chosen by the extension: `svg` or `png`; any other is an
/// `ImageSaveError`.
pub open spec fn format_of(p: Seq<char>) -> Result<ImageFormat, ErrorV> {
    match extension_of(p) {
        Some(x) => if x == "svg"@ {
            Ok(ImageFormat::Svg)
        } else if x == "png"@ {
            Ok(ImageFormat::Png)
        } else {
            Err(ErrorV::ImageSaveError("File extension not supported"@))
        },
        None => Err(ErrorV::ImageSaveError("File extension not supported"@)),
    }
}

fn last_index(s: &Vec<char>, c: char, end: usize) -> (r: Option<usize>)
    requires
        end <= s@.len(),
    ensures
        match r {
            Some(i) => i as int == last_index_of(s@, c, end as int) && i < end,
            None => last_index_of(s@, c, end as int) == -1,
        },
{
    let mut k = end;
    while k > 0
        invariant
            k <= end <= s@.len(),
            last_index_of(s@, c, end as int) == last_index_of(s@, c, k as int),
        decreases k,
    {
        if s[k - 1] == c {
            return Some(k - 1);
        }
        k = k - 1;
    }
    None
}

/// The format to save a drawing in, by the extension of `path`.
pub fn image_format(path: &str) -> (r: Result<ImageFormat, RSLogoError>)
    ensures
        match format_of(path@) {
            Ok(f) => r == Ok::<ImageFormat, RSLogoError>(f),
            Err(x) => r is Err && r->Err_0@ == x,
        },
{
    let p = chars_of(path);
    let mut e = p.len();
    while e > 0 && p[e - 1] == '/'
        invariant
            e <= p@.len(),
            p@ == path@,
            trimmed_end(p@, p@.len() as int) == trimmed_end(p@, e as int),
        decreases e,
    {
        e = e - 1;
    }
    let start = match last_index(&p, '/', e) {
        Some(i) => i + 1,
        None => 0,
    };
    let name = string_between(&p, start, e);
    let n = chars_of(name.as_str());
    let ext = match last_index(&n, '.', n.len()) {
        Some(d) => {
            if same_text(name.as_str(), "..") || d == 0 {
                None
            } else {
                Some(string_between(&n, d + 1, n.len()))
            }
        },
        None => None,
    };
    match ext {
        Some(x) => {
            if same_text(x.as_str(), "svg") {
                Ok(ImageFormat::Svg)
            } else if same_text(x.as_str(), "png") {
                Ok(ImageFormat::Png)
            } else {
                Err(RSLogoError::ImageSaveError("File extension not supported".to_owned()))
            }
        },
        None => Err(RSLogoError::ImageSaveError("File extension not supported".to_owned())),
    }
}

} // verus!
