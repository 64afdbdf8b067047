//! Derivation of output file paths: splitting an input path into directory
//! and file name, taking the stem of the file name, building the transformed
//! file name (with or without the new dimensions embedded), and joining it
//! with the chosen output directory.

use vstd::prelude::*;
use vstd::string::StrSliceExecFns;
use vstd::string::StringExecFns;
use crate::dims::TransformError;

verus! {

/// The index of the last occurrence of `c` in `s`, or `-1` when `c` does not
/// occur.
pub open spec fn last_pos(s: Seq<char>, c: char) -> int
    decreases s.len(),
{
    if s.len() == 0 {
        -1
    } else if s[s.len() - 1] == c {
        s.len() - 1
    } else {
        last_pos(s.drop_last(), c)
    }
}

/// `last_pos` points at an occurrence of `c`, and nothing after it is one.
pub proof fn lemma_last_pos_props(s: Seq<char>, c: char)
    ensures
        -1 <= last_pos(s, c) < s.len(),
        last_pos(s, c) >= 0 ==> s[last_pos(s, c)] == c,
        forall|j: int| last_pos(s, c) < j < s.len() ==> s[j] != c,
    decreases s.len(),
{
    if s.len() == 0 {
    } else if s[s.len() - 1] == c {
    } else {
        lemma_last_pos_props(s.drop_last(), c);
        assert forall|j: int| last_pos(s, c) < j < s.len() implies s[j] != c by {
            if j < s.len() - 1 {
                assert(s.drop_last()[j] == s[j]);
            }
        }
    }
}

/// The number of leading characters of `p` that name its directory, the last
/// separator included; `0` when `p` has no separator.
pub open spec fn dir_len(p: Seq<char>) -> int {
    last_pos(p, '/') + 1
}

/// The file-name part of `p`: everything after the last separator.
pub open spec fn file_name_spec(p: Seq<char>) -> Seq<char> {
    p.subrange(dir_len(p), p.len() as int)
}

/// The stem of a file name: everything before the last dot, except that a
/// name whose only dot is its first character (a hidden file) and a name
/// without a dot are their own stem.
pub open spec fn stem_spec(name: Seq<char>) -> Seq<char> {
    let d = last_pos(name, '.');
    if d <= 0 {
        name
    } else {
        name.subrange(0, d)
    }
}

/// Joining a directory and a file name: a separator is inserted unless the
/// directory is empty or already ends with one.
pub open spec fn join_spec(dir: Seq<char>, name: Seq<char>) -> Seq<char> {
    if dir.len() == 0 {
        name
    } else if dir[dir.len() - 1] == '/' {
        dir + name
    } else {
        dir + seq!['/'] + name
    }
}

/// Where a transformed file goes: into the requested output directory when
/// one is given, else next to the input.
pub open spec fn output_path_spec(
    input: Seq<char>,
    odir: Option<Seq<char>>,
    name: Seq<char>,
) -> Seq<char> {
    match odir {
        Option::Some(d) => join_spec(d, name),
        Option::None => input.subrange(0, dir_len(input)) + name,
    }
}

/// The view of an optional directory argument.
pub open spec fn odir_view(odir: Option<&str>) -> Option<Seq<char>> {
    match odir {
        Option::Some(d) => Option::Some(d@),
        Option::None => Option::None,
    }
}

/// Finds the last occurrence of `c` in `s`.
pub fn find_last(s: &str, c: char) -> (r: Option<usize>)
    ensures
        match r {
            Some(i) => i as int == last_pos(s@, c),
            None => last_pos(s@, c) == -1,
        },
{
    proof {
        lemma_last_pos_props(s@, c);
    }
    let n: usize = s.unicode_len();
    let mut i: usize = n;
    while i > 0
        invariant
            i <= n,
            n == s@.len(),
            forall|j: int| i <= j < n ==> s@[j] != c,
        decreases i,
    {
        i = i - 1;
        if s.get_char(i) == c {
            proof {
                lemma_last_pos_props(s@, c);
                let lp = last_pos(s@, c);
                if lp < i as int {
                    assert(s@[i as int] != c);
                }
                if lp > i as int {
                    assert(s@[lp] != c);
                }
            }
            return Some(i);
        }
    }
    None
}

/// The stem of the file name of `path`, or `None` when the path has no
/// file-name part at all.
pub fn file_stem_of(path: &str) -> (r: Option<&str>)
    ensures
        match r {
            Some(st) => file_name_spec(path@).len() > 0 && st@ == stem_spec(
                file_name_spec(path@),
            ),
            None => file_name_spec(path@).len() == 0,
        },
{
    proof {
        lemma_last_pos_props(path@, '/');
    }
    let n: usize = path.unicode_len();
    let start: usize = match find_last(path, '/') {
        Some(i) => i + 1,
        None => 0,
    };
    if start == n {
        return None;
    }
    let name = path.substring_char(start, n);
    proof {
        assert(name@ =~= file_name_spec(path@));
        lemma_last_pos_props(name@, '.');
    }
    match find_last(name, '.') {
        Some(di) => {
            if di > 0 {
                Some(name.substring_char(0, di))
            } else {
                Some(name)
            }
        },
        None => Some(name),
    }
}

/// The decimal digit characters.
pub open spec fn digit_char(d: nat) -> char {
    if d == 0 {
        '0'
    } else if d == 1 {
        '1'
    } else if d == 2 {
        '2'
    } else if d == 3 {
        '3'
    } else if d == 4 {
        '4'
    } else if d == 5 {
        '5'
    } else if d == 6 {
        '6'
    } else if d == 7 {
        '7'
    } else if d == 8 {
        '8'
    } else {
        '9'
    }
}

/// The decimal representation of `n`, most significant digit first, with no
/// leading zero except for `n == 0` itself.
pub open spec fn dec_rep(n: nat) -> Seq<char>
    decreases n,
{
    if n < 10 {
        seq![digit_char(n)]
    } else {
        dec_rep(n / 10).push(digit_char(n % 10))
    }
}

/// A single decimal digit as a string slice.
fn digit_str(d: u32) -> (r: &'static str)
    requires
        d < 10,
    ensures
        r@ == seq![digit_char(d as nat)],
{
    if d == 0 {
        let r = "0";
        proof {
            reveal_strlit("0");
            assert(r@ =~= seq![digit_char(d as nat)]);
        }
        r
    } else if d == 1 {
        let r = "1";
        proof {
            reveal_strlit("1");
            assert(r@ =~= seq![digit_char(d as nat)]);
        }
        r
    } else if d == 2 {
        let r = "2";
        proof {
            reveal_strlit("2");
            assert(r@ =~= seq![digit_char(d as nat)]);
        }
        r
    } else if d == 3 {
        let r = "3";
        proof {
            reveal_strlit("3");
            assert(r@ =~= seq![digit_char(d as nat)]);
        }
        r
    } else if d == 4 {
        let r = "4";
        proof {
            reveal_strlit("4");
            assert(r@ =~= seq![digit_char(d as nat)]);
        }
        r
    } else if d == 5 {
        let r = "5";
        proof {
            reveal_strlit("5");
            assert(r@ =~= seq![digit_char(d as nat)]);
        }
        r
    } else if d == 6 {
        let r = "6";
        proof {
            reveal_strlit("6");
            assert(r@ =~= seq![digit_char(d as nat)]);
        }
        r
    } else if d == 7 {
        let r = "7";
        proof {
            reveal_strlit("7");
            assert(r@ =~= seq![digit_char(d as nat)]);
        }
        r
    } else if d == 8 {
        let r = "8";
        proof {
            reveal_strlit("8");
            assert(r@ =~= seq![digit_char(d as nat)]);
        }
        r
    } else {
        let r = "9";
        proof {
            reveal_strlit("9");
            assert(r@ =~= seq![digit_char(d as nat)]);
        }
        r
    }
}

/// Writes `n` in decimal.
pub fn u32_to_dec(n: u32) -> (r: String)
    ensures
        r@ == dec_rep(n as nat),
    decreases n,
{
    if n < 10 {
        String::from_str(digit_str(n))
    } else {
        let mut s = u32_to_dec(n / 10);
        s.append(digit_str(n % 10));
        proof {
            assert(s@ =~= dec_rep(n as nat));
        }
        s
    }
}

/// The suffix a rescaled file name carries after the dimensions.
pub open spec fn jpg_suffix() -> Seq<char> {
    seq!['.', 'j', 'p', 'g']
}

/// The full suffix of a fixed-size-resized file name.
pub open spec fn transformed_suffix() -> Seq<char> {
    seq!['_', 't', 'r', 'a', 'n', 's', 'f', 'o', 'r', 'm', 'e', 'd', '.', 'j', 'p', 'g']
}

/// The file name a rescale writes: the stem, an underscore, the new
/// dimensions as `WxH`, and the `.jpg` extension.
pub open spec fn rescaled_name_spec(stem: Seq<char>, w: nat, h: nat) -> Seq<char> {
    stem + seq!['_'] + dec_rep(w) + seq!['x'] + dec_rep(h) + jpg_suffix()
}

/// The file name a fixed resize writes: the stem followed by
/// `_transformed.jpg`.
pub open spec fn transformed_name_spec(stem: Seq<char>) -> Seq<char> {
    stem + transformed_suffix()
}

/// Builds the `{stem}_{w}x{h}.jpg` file name.
pub fn rescaled_file_name(stem: &str, w: u32, h: u32) -> (r: String)
    ensures
        r@ == rescaled_name_spec(stem@, w as nat, h as nat),
{
    let mut s = String::from_str(stem);
    s.append("_");
    let ws = u32_to_dec(w);
    s.append(ws.as_str());
    s.append("x");
    let hs = u32_to_dec(h);
    s.append(hs.as_str());
    s.append(".jpg");
    proof {
        reveal_strlit("_");
        reveal_strlit("x");
        reveal_strlit(".jpg");
        assert(s@ =~= rescaled_name_spec(stem@, w as nat, h as nat));
    }
    s
}

/// Builds the `{stem}_transformed.jpg` file name.
pub fn transformed_file_name(stem: &str) -> (r: String)
    ensures
        r@ == transformed_name_spec(stem@),
{
    let mut s = String::from_str(stem);
    s.append("_transformed.jpg");
    proof {
        reveal_strlit("_transformed.jpg");
        assert(s@ =~= transformed_name_spec(stem@));
    }
    s
}

/// Places `file_name` under the output directory when one is given, else in
/// the directory of `input`.
pub fn derive_output_path(input: &str, odir: Option<&str>, file_name: &str) -> (r: String)
    ensures
        r@ == output_path_spec(input@, odir_view(odir), file_name@),
{
    match odir {
        Some(d) => {
            let dn: usize = d.unicode_len();
            if dn == 0 {
                String::from_str(file_name)
            } else if d.get_char(dn - 1) == '/' {
                let mut s = String::from_str(d);
                s.append(file_name);
                s
            } else {
                let mut s = String::from_str(d);
                s.append("/");
                s.append(file_name);
                proof {
                    reveal_strlit("/");
                    assert(s@ =~= join_spec(d@, file_name@));
                }
                s
            }
        },
        None => {
            proof {
                lemma_last_pos_props(input@, '/');
            }
            // Pins the character count within usize, so that the index just
            // after the last separator fits.
            let _n: usize = input.unicode_len();
            let start: usize = match find_last(input, '/') {
                Some(i) => i + 1,
                None => 0,
            };
            let prefix = input.substring_char(0, start);
            let mut s = String::from_str(prefix);
            s.append(file_name);
            s
        },
    }
}

/// The full output path of a rescale.
pub open spec fn rescale_output_path_spec(
    input: Seq<char>,
    odir: Option<Seq<char>>,
    w: nat,
    h: nat,
) -> Seq<char> {
    output_path_spec(input, odir, rescaled_name_spec(stem_spec(file_name_spec(input)), w, h))
}

/// The full output path of a fixed resize.
pub open spec fn resize_output_path_spec(input: Seq<char>, odir: Option<Seq<char>>) -> Seq<char> {
    output_path_spec(input, odir, transformed_name_spec(stem_spec(file_name_spec(input))))
}

/// Derives the output path of a rescale that produced a `w` by `h` image;
/// fails exactly when the input path has no file name to take a stem from.
pub fn rescale_output_path(input: &str, odir: Option<&str>, w: u32, h: u32) -> (r: Result<
    String,
    TransformError,
>)
    ensures
        match r {
            Ok(p) => file_name_spec(input@).len() > 0 && p@ == rescale_output_path_spec(
                input@,
                odir_view(odir),
                w as nat,
                h as nat,
            ),
            Err(e) => e == TransformError::EmptyFileName && file_name_spec(input@).len() == 0,
        },
{
    match file_stem_of(input) {
        Some(stem) => {
            let name = rescaled_file_name(stem, w, h);
            Ok(derive_output_path(input, odir, name.as_str()))
        },
        None => Err(TransformError::EmptyFileName),
    }
}

/// Derives the output path of a fixed resize; fails exactly when the input
/// path has no file name to take a stem from.
pub fn resize_output_path(input: &str, odir: Option<&str>) -> (r: Result<String, TransformError>)
    ensures
        match r {
            Ok(p) => file_name_spec(input@).len() > 0 && p@ == resize_output_path_spec(
                input@,
                odir_view(odir),
            ),
            Err(e) => e == TransformError::EmptyFileName && file_name_spec(input@).len() == 0,
        },
{
    match file_stem_of(input) {
        Some(stem) => {
            let name = transformed_file_name(stem);
            Ok(derive_output_path(input, odir, name.as_str()))
        },
        None => Err(TransformError::EmptyFileName),
    }
}

} // verus!
