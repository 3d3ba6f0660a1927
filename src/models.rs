use vstd::prelude::*;

verus! {

/// The four encodings the server produces.
#[derive(Clone, Copy, Debug, PartialEq, Eq, Structural)]
pub enum OutputFormat {
    Png,
    Jpeg,
    WebP,
    Gif,
}

/// A logical image request: a file name and optional target dimensions.
pub struct ImageParams {
    pub file_name: String,
    pub width: Option<u32>,
    pub height: Option<u32>,
}

/// Where the final path component of `s[..i]` ends: trailing separators and
/// trailing `.` components are skipped, as in `a.png/` and `a.png/./`.
pub open spec fn name_end(s: Seq<char>, i: int) -> int
    decreases i,
{
    if i > 0 && s[i - 1] == '/' {
        name_end(s, i - 1)
    } else if i > 1 && s[i - 1] == '.' && s[i - 2] == '/' {
        name_end(s, i - 2)
    } else {
        i
    }
}

/// The extension found by scanning the first `i` characters of `s` from the
/// right, for a final component that ends at `end`: the text after its last
/// `.`, unless that dot opens the component (a hidden file such as `.png` has
/// no extension).
pub open spec fn extension_from(s: Seq<char>, i: int, end: int) -> Option<Seq<char>>
    decreases i,
{
    if i <= 0 {
        None
    } else if s[i - 1] == '/' {
        None
    } else if s[i - 1] == '.' {
        if i - 1 == 0 || s[i - 2] == '/' {
            None
        } else {
            Some(s.subrange(i, end))
        }
    } else {
        extension_from(s, i - 1, end)
    }
}

/// The extension of a file name, taken as-is (case-sensitive).
pub open spec fn extension_of(s: Seq<char>) -> Option<Seq<char>> {
    extension_from(s, name_end(s, s.len() as int), name_end(s, s.len() as int))
}

/// The format that an extension selects, if any.
pub open spec fn format_of_extension(e: Seq<char>) -> Option<OutputFormat> {
    if e == seq!['p', 'n', 'g'] {
        Some(OutputFormat::Png)
    } else if e == seq!['j', 'p', 'g'] || e == seq!['j', 'p', 'e', 'g'] {
        Some(OutputFormat::Jpeg)
    } else if e == seq!['w', 'e', 'b', 'p'] {
        Some(OutputFormat::WebP)
    } else if e == seq!['g', 'i', 'f'] {
        Some(OutputFormat::Gif)
    } else {
        None
    }
}

/// The format of a file name; `None` for an unsupported or missing extension.
pub open spec fn format_of(name: Seq<char>) -> Option<OutputFormat> {
    match extension_of(name) {
        Some(e) => format_of_extension(e),
        None => None,
    }
}

/// The MIME type served for a format.
pub open spec fn content_type_of(f: OutputFormat) -> Seq<char> {
    match f {
        OutputFormat::Png => seq!['i', 'm', 'a', 'g', 'e', '/', 'p', 'n', 'g'],
        OutputFormat::Jpeg => seq!['i', 'm', 'a', 'g', 'e', '/', 'j', 'p', 'e', 'g'],
        OutputFormat::WebP => seq!['i', 'm', 'a', 'g', 'e', '/', 'w', 'e', 'b', 'p'],
        OutputFormat::Gif => seq!['i', 'm', 'a', 'g', 'e', '/', 'g', 'i', 'f'],
    }
}

/// A dimension as the pipeline reads it: absent counts as zero, and zero as unset.
pub open spec fn dim(d: Option<u32>) -> u32 {
    match d {
        Some(v) => v,
        None => 0,
    }
}

/// The extension of `s`, found by the same right-to-left scan as `extension_of`.
pub fn extension(s: &str) -> (r: Option<String>)
    ensures
        match (r, extension_of(s@)) {
            (Some(x), Some(e)) => x@ == e,
            (None, None) => true,
            _ => false,
        },
{
    let n = s.unicode_len();
    let mut end: usize = n;
    while end > 0
        invariant
            end <= n,
            n == s@.len(),
            name_end(s@, n as int) == name_end(s@, end as int),
        ensures
            end <= n,
            name_end(s@, n as int) == end,
        decreases end,
    {
        let c = s.get_char(end - 1);
        if c == '/' {
            end = end - 1;
        } else if c == '.' && end > 1 && s.get_char(end - 2) == '/' {
            end = end - 2;
        } else {
            break;
        }
    }
    let mut i: usize = end;
    while i > 0
        invariant
            i <= end,
            end <= n,
            n == s@.len(),
            extension_of(s@) == extension_from(s@, i as int, end as int),
        decreases i,
    {
        let c = s.get_char(i - 1);
        if c == '/' {
            return None;
        } else if c == '.' {
            if i - 1 == 0 {
                return None;
            }
            if s.get_char(i - 2) == '/' {
                return None;
            }
            return Some(String::from_str(s.substring_char(i, end)));
        }
        i = i - 1;
    }
    None
}

/// Whether `s` holds exactly the characters of the literal `lit`.
fn is_text(s: &String, lit: &str) -> (r: bool)
    ensures
        r == (s@ == lit@),
{
    let t = String::from_str(lit);
    *s == t
}

impl ImageParams {
    /// The output format selected by the file name's extension.
    pub fn get_format(&self) -> (r: Option<OutputFormat>)
        ensures
            r == format_of(self.file_name@),
    {
        match extension(self.file_name.as_str()) {
            None => None,
            Some(e) => {
                proof {
                    reveal_strlit("png");
                    reveal_strlit("jpg");
                    reveal_strlit("jpeg");
                    reveal_strlit("webp");
                    reveal_strlit("gif");
                    assert("png"@ =~= seq!['p', 'n', 'g']);
                    assert("jpg"@ =~= seq!['j', 'p', 'g']);
                    assert("jpeg"@ =~= seq!['j', 'p', 'e', 'g']);
                    assert("webp"@ =~= seq!['w', 'e', 'b', 'p']);
                    assert("gif"@ =~= seq!['g', 'i', 'f']);
                }
                if is_text(&e, "png") {
                    Some(OutputFormat::Png)
                } else if is_text(&e, "jpg") || is_text(&e, "jpeg") {
                    Some(OutputFormat::Jpeg)
                } else if is_text(&e, "webp") {
                    Some(OutputFormat::WebP)
                } else if is_text(&e, "gif") {
                    Some(OutputFormat::Gif)
                } else {
                    None
                }
            }
        }
    }

    /// The MIME type for the file name's format, if it is supported.
    pub fn get_content_type(&self) -> (r: Option<String>)
        ensures
            match (r, format_of(self.file_name@)) {
                (Some(t), Some(f)) => t@ == content_type_of(f),
                (None, None) => true,
                _ => false,
            },
    {
        match self.get_format() {
            Some(f) => Some(content_type(f)),
            None => None,
        }
    }
}

/// The MIME type of a format.
pub fn content_type(f: OutputFormat) -> (r: String)
    ensures
        r@ == content_type_of(f),
{
    match f {
        OutputFormat::Png => {
            proof {
                reveal_strlit("image/png");
                assert("image/png"@ =~= seq!['i', 'm', 'a', 'g', 'e', '/', 'p', 'n', 'g']);
            }
            String::from_str("image/png")
        },
        OutputFormat::Jpeg => {
            proof {
                reveal_strlit("image/jpeg");
                assert("image/jpeg"@ =~= seq!['i', 'm', 'a', 'g', 'e', '/', 'j', 'p', 'e', 'g']);
            }
            String::from_str("image/jpeg")
        },
        OutputFormat::WebP => {
            proof {
                reveal_strlit("image/webp");
                assert("image/webp"@ =~= seq!['i', 'm', 'a', 'g', 'e', '/', 'w', 'e', 'b', 'p']);
            }
            String::from_str("image/webp")
        },
        OutputFormat::Gif => {
            proof {
                reveal_strlit("image/gif");
                assert("image/gif"@ =~= seq!['i', 'm', 'a', 'g', 'e', '/', 'g', 'i', 'f']);
            }
            String::from_str("image/gif")
        },
    }
}

} // verus!
