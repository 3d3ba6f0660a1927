use vstd::prelude::*;

use crate::config::AppConfig;
use crate::models::{dim, ImageParams};

verus! {

/// The ten decimal digits, in order.
pub open spec fn digit_chars() -> Seq<char> {
    seq!['0', '1', '2', '3', '4', '5', '6', '7', '8', '9']
}

/// The decimal writing of `n`, without leading zeros.
pub open spec fn decimal(n: nat) -> Seq<char>
    decreases n,
{
    if n < 10 {
        seq![digit_chars()[n as int]]
    } else {
        decimal(n / 10) + seq![digit_chars()[(n % 10) as int]]
    }
}

/// `path` and `name` joined by one `/`, which is not doubled when `path`
/// already ends with it.
pub open spec fn join_path(path: Seq<char>, name: Seq<char>) -> Seq<char> {
    if path.len() > 0 && path.last() == '/' {
        path + name
    } else {
        path + seq!['/'] + name
    }
}

/// The directory of derived images for a width and a height: `{width}/{height}`
/// below the output root.
pub open spec fn output_dir_of(root: Seq<char>, width: u32, height: u32) -> Seq<char> {
    join_path(root, decimal(width as nat) + seq!['/'] + decimal(height as nat))
}

/// The decimal writing of `n`.
pub fn decimal_string(n: u32) -> (r: String)
    ensures
        r@ == decimal(n as nat),
    decreases n,
{
    let digits = "0123456789";
    proof {
        reveal_strlit("0123456789");
        assert(digits@ =~= digit_chars());
    }
    if n < 10 {
        let d = n as usize;
        let s = String::from_str(digits.substring_char(d, d + 1));
        assert(s@ =~= seq![digit_chars()[n as int]]);
        s
    } else {
        let mut s = decimal_string(n / 10);
        let d = (n % 10) as usize;
        let last = digits.substring_char(d, d + 1);
        assert(last@ =~= seq![digit_chars()[(n % 10) as int]]);
        s.append(last);
        s
    }
}

/// Resolves the file-system locations of sources and derived images.
pub struct FileUtils {
    config: AppConfig,
}

impl FileUtils {
    /// The configuration whose roots this resolver uses.
    pub closed spec fn config(&self) -> AppConfig {
        self.config
    }

    pub fn new(config: AppConfig) -> (r: FileUtils)
        ensures
            r.config() == config,
    {
        FileUtils { config }
    }

    /// `path` and `file_name` joined by the path separator.
    pub fn build_path(&self, path: &str, file_name: &str) -> (r: String)
        ensures
            r@ == join_path(path@, file_name@),
    {
        let mut final_path = String::from_str(path);
        let n = path.unicode_len();
        if n == 0 || path.get_char(n - 1) != '/' {
            proof { reveal_strlit("/"); }
            final_path.append("/");
        }
        final_path.append(file_name);
        final_path
    }

    /// Where the source of a request lives: `input_root/file_name`.
    pub fn build_input_path(&self, params: &ImageParams) -> (r: String)
        ensures
            r@ == join_path(self.config().input_path@, params.file_name@),
    {
        self.build_path(self.config.input_path.as_str(), params.file_name.as_str())
    }

    /// The directory that holds a request's derived image:
    /// `output_root/{width}/{height}`, an absent dimension written as 0.
    pub fn build_output_path(&self, params: &ImageParams) -> (r: String)
        ensures
            r@ == output_dir_of(self.config().output_path@, dim(params.width), dim(params.height)),
    {
        let height = match params.height {
            Some(h) => h,
            None => 0,
        };
        let width = match params.width {
            Some(w) => w,
            None => 0,
        };
        let mut sub = decimal_string(width);
        proof { reveal_strlit("/"); }
        sub.append("/");
        let h = decimal_string(height);
        sub.append(h.as_str());
        self.build_path(self.config.output_path.as_str(), sub.as_str())
    }

    /// Where a request's derived image is stored:
    /// `output_root/{width}/{height}/{file_name}`.
    pub fn build_target_path(&self, params: &ImageParams) -> (r: String)
        ensures
            r@ == join_path(
                output_dir_of(self.config().output_path@, dim(params.width), dim(params.height)),
                params.file_name@,
            ),
    {
        let dir = self.build_output_path(params);
        self.build_path(dir.as_str(), params.file_name.as_str())
    }
}

} // verus!
