//! Names and headers of the frame files.
//!
//! Frame `k` is stored as `f<k>.<ext>`, with `k` in decimal and without
//! padding. The numbering starts at zero and has no gaps, which is what lets
//! the assembler pick the frames up by the pattern `f%d.<ext>`.

use vstd::prelude::*;
use vstd::string::StringExecFns;
use crate::config_text::all_digits;
use crate::config_text::digits_value;
use crate::config_text::is_digit;
use crate::config_text::number_of;

verus! {

/// The character of the decimal digit `d`.
pub open spec fn digit_char(d: nat) -> char
    recommends
        d < 10,
{
    if d == 0 {
        '0'
    } else if d == 1 {
        '1'
    } else if d == 2 {
        '2'
    } else if d == 3 {
        '3'
    } else if d == 4 {
        '4'
    } else if d == 5 {
        '5'
    } else if d == 6 {
        '6'
    } else if d == 7 {
        '7'
    } else if d == 8 {
        '8'
    } else {
        '9'
    }
}

/// `n` written in decimal, most significant digit first, without padding.
pub open spec fn decimal(n: nat) -> Seq<char>
    decreases n,
{
    if n < 10 {
        seq![digit_char(n)]
    } else {
        decimal(n / 10).push(digit_char(n % 10))
    }
}

/// The name of the file that holds frame `index`.
pub open spec fn frame_name(index: nat, ext: Seq<char>) -> Seq<char> {
    seq!['f'] + decimal(index) + seq!['.'] + ext
}

/// The pattern that matches every frame file's name, with `%d` in the place
/// of the index.
pub open spec fn frame_pattern(ext: Seq<char>) -> Seq<char> {
    seq!['f', '%', 'd', '.'] + ext
}

/// The path of the file that holds frame `index` in the directory `dir`.
pub open spec fn frame_path(dir: Seq<char>, index: nat, ext: Seq<char>) -> Seq<char> {
    dir + seq!['/'] + frame_name(index, ext)
}

/// The pattern that matches the path of every frame file in the directory
/// `dir`.
pub open spec fn frame_path_pattern(dir: Seq<char>, ext: Seq<char>) -> Seq<char> {
    dir + seq!['/'] + frame_pattern(ext)
}

/// The header of a binary pixmap of `width` by `height` pixels with 255 as
/// the highest channel value: the magic number, the width, the height and
/// the depth, each followed by a line feed.
pub open spec fn pixmap_header(width: nat, height: nat) -> Seq<char> {
    seq!['P', '6', '\n'] + decimal(width) + seq!['\n'] + decimal(height) + seq![
        '\n',
        '2',
        '5',
        '5',
        '\n',
    ]
}

/// The one-character text of the digit `d`.
fn digit_text(d: usize) -> (s: &'static str)
    requires
        d < 10,
    ensures
        s@ == seq![digit_char(d as nat)],
{
    proof {
        reveal_strlit("0");
        reveal_strlit("1");
        reveal_strlit("2");
        reveal_strlit("3");
        reveal_strlit("4");
        reveal_strlit("5");
        reveal_strlit("6");
        reveal_strlit("7");
        reveal_strlit("8");
        reveal_strlit("9");
    }
    let s = if d == 0 {
        "0"
    } else if d == 1 {
        "1"
    } else if d == 2 {
        "2"
    } else if d == 3 {
        "3"
    } else if d == 4 {
        "4"
    } else if d == 5 {
        "5"
    } else if d == 6 {
        "6"
    } else if d == 7 {
        "7"
    } else if d == 8 {
        "8"
    } else {
        "9"
    };
    assert(s@ =~= seq![digit_char(d as nat)]);
    s
}

/// Appends `n` in decimal to `out`.
pub fn push_decimal(out: &mut String, n: usize)
    ensures
        final(out)@ == old(out)@ + decimal(n as nat),
    decreases n,
{
    if n >= 10 {
        push_decimal(out, n / 10);
    }
    out.append(digit_text(n % 10));
    assert(out@ =~= old(out)@ + decimal(n as nat));
}

/// The name of the file that holds frame `index`: `f`, the index in decimal,
/// a dot, and the extension.
pub fn frame_file_name(index: usize, ext: &str) -> (name: String)
    ensures
        name@ == frame_name(index as nat, ext@),
{
    proof {
        reveal_strlit("f");
        reveal_strlit(".");
    }
    let mut name = String::from_str("f");
    push_decimal(&mut name, index);
    name.append(".");
    name.append(ext);
    assert(name@ =~= frame_name(index as nat, ext@));
    name
}

/// The pattern by which the assembler finds the frame files: `f%d.` and the
/// extension.
pub fn frame_file_pattern(ext: &str) -> (pattern: String)
    ensures
        pattern@ == frame_pattern(ext@),
{
    proof {
        reveal_strlit("f%d.");
    }
    let mut pattern = String::from_str("f%d.");
    pattern.append(ext);
    assert(pattern@ =~= frame_pattern(ext@));
    pattern
}

/// The path of the file that holds frame `index` in the directory `dir`:
/// the directory, a slash, and the frame's name.
pub fn frame_file_path(dir: &str, index: usize, ext: &str) -> (path: String)
    ensures
        path@ == frame_path(dir@, index as nat, ext@),
{
    proof {
        reveal_strlit("/f");
        reveal_strlit(".");
    }
    let mut path = String::from_str(dir);
    path.append("/f");
    push_decimal(&mut path, index);
    path.append(".");
    path.append(ext);
    assert(path@ =~= frame_path(dir@, index as nat, ext@));
    path
}

/// The pattern by which the assembler finds the frame files in the
/// directory `dir`: the directory, a slash, and the name pattern.
pub fn frame_file_path_pattern(dir: &str, ext: &str) -> (pattern: String)
    ensures
        pattern@ == frame_path_pattern(dir@, ext@),
{
    proof {
        reveal_strlit("/f%d.");
    }
    let mut pattern = String::from_str(dir);
    pattern.append("/f%d.");
    pattern.append(ext);
    assert(pattern@ =~= frame_path_pattern(dir@, ext@));
    pattern
}

/// The header that precedes the pixel bytes in a frame file.
pub fn pixmap_file_header(width: usize, height: usize) -> (header: String)
    ensures
        header@ == pixmap_header(width as nat, height as nat),
{
    proof {
        reveal_strlit("P6\n");
        reveal_strlit("\n");
        reveal_strlit("\n255\n");
    }
    let mut header = String::from_str("P6\n");
    push_decimal(&mut header, width);
    header.append("\n");
    push_decimal(&mut header, height);
    header.append("\n255\n");
    assert(header@ =~= pixmap_header(width as nat, height as nat));
    header
}

/// A number written in decimal reads back as itself: the text is digits
/// alone, at least one, and they spell the number.
pub proof fn lemma_decimal_reads_back(n: nat)
    ensures
        decimal(n).len() > 0,
        all_digits(decimal(n)),
        digits_value(decimal(n)) == n,
        n <= usize::MAX ==> number_of(decimal(n)) == Some(n as usize),
    decreases n,
{
    let text = decimal(n);
    if n >= 10 {
        lemma_decimal_reads_back(n / 10);
        let head = decimal(n / 10);
        assert(text.subrange(0, text.len() - 1) =~= head);
        assert(is_digit(digit_char(n % 10)));
        assert forall|i: int| 0 <= i < text.len() implies is_digit(#[trigger] text[i]) by {
            if i < head.len() {
                assert(text[i] == head[i]);
            }
        }
    } else {
        assert(text.subrange(0, text.len() - 1) =~= Seq::<char>::empty());
        assert(digits_value(Seq::<char>::empty()) == 0);
    }
    assert(text[0] != '+');
}

/// Different frames are stored under different names.
pub proof fn lemma_frame_names_differ(i: nat, j: nat, ext: Seq<char>)
    requires
        i != j,
    ensures
        frame_name(i, ext) != frame_name(j, ext),
{
    let a = frame_name(i, ext);
    let b = frame_name(j, ext);
    if a == b {
        lemma_decimal_reads_back(i);
        lemma_decimal_reads_back(j);
        assert(a.len() == 2 + decimal(i).len() + ext.len());
        assert(b.len() == 2 + decimal(j).len() + ext.len());
        assert(a.subrange(1, 1 + decimal(i).len() as int) =~= decimal(i));
        assert(b.subrange(1, 1 + decimal(j).len() as int) =~= decimal(j));
        assert(false);
    }
}

} // verus!
