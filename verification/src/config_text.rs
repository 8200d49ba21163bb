//! The text form of a configuration: one `key = value` entry per line.
//!
//! A line that is empty or begins with `#` is skipped. Every other line is
//! cut at its first `=`; what stands before it, without the blanks around, is
//! the key, and what stands after it, without the blanks around, the value.
//! Where a key stands on several lines the last one counts.

use vstd::prelude::*;
use vstd::string::StrSliceExecFns;
use vstd::string::StringExecFns;
use crate::registry::same_text;

verus! {

/// Whether `c` is white space: a blank, a tab, a line break, or one of the
/// other characters that Unicode lists as white space.
pub open spec fn is_blank(c: char) -> bool {
    let n = c as u32;
    ||| 9 <= n <= 13
    ||| n == 0x20
    ||| n == 0x85
    ||| n == 0xA0
    ||| n == 0x1680
    ||| 0x2000 <= n <= 0x200A
    ||| n == 0x2028
    ||| n == 0x2029
    ||| n == 0x202F
    ||| n == 0x205F
    ||| n == 0x3000
}

/// `s` without the white space at its start.
pub open spec fn trim_start(s: Seq<char>) -> Seq<char>
    decreases s.len(),
{
    if s.len() > 0 && is_blank(s[0]) {
        trim_start(s.subrange(1, s.len() as int))
    } else {
        s
    }
}

/// `s` without the white space at its end.
pub open spec fn trim_end(s: Seq<char>) -> Seq<char>
    decreases s.len(),
{
    if s.len() > 0 && is_blank(s[s.len() - 1]) {
        trim_end(s.subrange(0, s.len() - 1))
    } else {
        s
    }
}

/// `s` without the white space at either end.
pub open spec fn trimmed(s: Seq<char>) -> Seq<char> {
    trim_end(trim_start(s))
}

/// The position of the first `c` in `s`, or the length of `s` where there
/// is none.
pub open spec fn index_of(s: Seq<char>, c: char) -> int
    decreases s.len(),
{
    if s.len() == 0 || s[0] == c {
        0
    } else {
        1 + index_of(s.subrange(1, s.len() as int), c)
    }
}

/// Whether `c` is white space.
pub fn is_blank_char(c: char) -> (blank: bool)
    ensures
        blank == is_blank(c),
{
    let n: u32 = c as u32;
    (9 <= n && n <= 13) || n == 0x20 || n == 0x85 || n == 0xA0 || n == 0x1680 || (0x2000 <= n && n
        <= 0x200A) || n == 0x2028 || n == 0x2029 || n == 0x202F || n == 0x205F || n == 0x3000
}

/// `s` without the white space at either end.
pub fn trim(s: &str) -> (t: &str)
    ensures
        t@ == trimmed(s@),
{
    let n: usize = s.unicode_len();
    let mut start: usize = 0;
    assert(s@.subrange(0, n as int) =~= s@);
    while start < n && is_blank_char(s.get_char(start))
        invariant
            n == s@.len(),
            start <= n,
            trim_start(s@) == trim_start(s@.subrange(start as int, n as int)),
        decreases n - start,
    {
        proof {
            let cur = s@.subrange(start as int, n as int);
            assert(cur.subrange(1, cur.len() as int) =~= s@.subrange(start + 1, n as int));
        }
        start = start + 1;
    }
    let mut end: usize = n;
    while end > start && is_blank_char(s.get_char(end - 1))
        invariant
            n == s@.len(),
            start <= end <= n,
            trimmed(s@) == trim_end(s@.subrange(start as int, end as int)),
        decreases end,
    {
        proof {
            let cur = s@.subrange(start as int, end as int);
            assert(cur.subrange(0, cur.len() - 1) =~= s@.subrange(start as int, end - 1));
        }
        end = end - 1;
    }
    s.substring_char(start, end)
}

/// The position of the first `c` in `s`, or the length of `s` where there
/// is none.
pub fn find_char(s: &str, c: char) -> (at: usize)
    ensures
        at == index_of(s@, c),
        at <= s@.len(),
{
    let n: usize = s.unicode_len();
    let mut at: usize = 0;
    assert(s@.subrange(0, n as int) =~= s@);
    while at < n && s.get_char(at) != c
        invariant
            n == s@.len(),
            at <= n,
            index_of(s@, c) == at + index_of(s@.subrange(at as int, n as int), c),
        decreases n - at,
    {
        proof {
            let cur = s@.subrange(at as int, n as int);
            assert(cur.subrange(1, cur.len() as int) =~= s@.subrange(at + 1, n as int));
        }
        at = at + 1;
    }
    at
}

/// Whether `c` is one of the digits `0` to `9`.
pub open spec fn is_digit(c: char) -> bool {
    48 <= c as u32 <= 57
}

/// The value of the digit `c`.
pub open spec fn digit_value(c: char) -> nat {
    if is_digit(c) {
        (c as u32 - 48) as nat
    } else {
        0
    }
}

/// The number that the digits `s` spell in decimal.
pub open spec fn digits_value(s: Seq<char>) -> nat
    decreases s.len(),
{
    if s.len() == 0 {
        0
    } else {
        digits_value(s.subrange(0, s.len() - 1)) * 10 + digit_value(s[s.len() - 1])
    }
}

/// Whether `s` holds digits only.
pub open spec fn all_digits(s: Seq<char>) -> bool {
    forall|i: int| 0 <= i < s.len() ==> is_digit(#[trigger] s[i])
}

/// `s` without a plus sign at its start.
pub open spec fn unsigned(s: Seq<char>) -> Seq<char> {
    if s.len() > 0 && s[0] == '+' {
        s.subrange(1, s.len() as int)
    } else {
        s
    }
}

/// The number that `s` spells: an optional plus sign and then at least one
/// digit, nothing else, with a value that fits the machine's word.
pub open spec fn number_of(s: Seq<char>) -> Option<usize> {
    let d = unsigned(s);
    if d.len() > 0 && all_digits(d) && digits_value(d) <= usize::MAX {
        Some(digits_value(d) as usize)
    } else {
        None
    }
}

/// A number is at least as large as what any of its leading digits spell.
proof fn lemma_leading_digits_bound(d: Seq<char>, k: int)
    requires
        0 <= k <= d.len(),
    ensures
        digits_value(d.subrange(0, k)) <= digits_value(d),
    decreases d.len() - k,
{
    if k == d.len() {
        assert(d.subrange(0, k) =~= d);
    } else {
        let shorter = d.subrange(0, d.len() - 1);
        lemma_leading_digits_bound(shorter, k);
        assert(shorter.subrange(0, k) =~= d.subrange(0, k));
    }
}

/// Reads `s` as a decimal number: `None` unless `s` is an optional plus
/// sign followed by digits alone, at least one, whose value fits.
pub fn parse_usize(s: &str) -> (number: Option<usize>)
    ensures
        number == number_of(s@),
{
    let n: usize = s.unicode_len();
    let first: usize = if n > 0 && s.get_char(0) == '+' {
        1
    } else {
        0
    };
    if first == n {
        return None;
    }
    let ghost d = s@.subrange(first as int, n as int);
    assert(d =~= unsigned(s@));
    let mut value: usize = 0;
    let mut i: usize = first;
    while i < n
        invariant
            n == s@.len(),
            first <= i <= n,
            d == s@.subrange(first as int, n as int),
            d == unsigned(s@),
            all_digits(d.subrange(0, i - first)),
            value == digits_value(d.subrange(0, i - first)),
        decreases n - i,
    {
        let code: u32 = s.get_char(i) as u32;
        if code < 48 || code > 57 {
            assert(!is_digit(d[i - first]));
            return None;
        }
        let digit: usize = (code - 48) as usize;
        proof {
            let longer = d.subrange(0, i + 1 - first);
            assert(longer.subrange(0, longer.len() - 1) =~= d.subrange(0, i - first));
            assert(digits_value(longer) == value * 10 + digit);
            lemma_leading_digits_bound(d, i + 1 - first);
        }
        let tens: usize = match value.checked_mul(10) {
            None => {
                return None;
            },
            Some(tens) => tens,
        };
        let next: usize = match tens.checked_add(digit) {
            None => {
                return None;
            },
            Some(next) => next,
        };
        value = next;
        i = i + 1;
    }
    assert(d.subrange(0, n - first) =~= d);
    Some(value)
}

/// One entry of a configuration text.
#[derive(Debug, PartialEq, Eq)]
pub struct Entry {
    pub key: String,
    pub value: String,
}

impl View for Entry {
    type V = (Seq<char>, Seq<char>);

    /// The key and the value, as texts.
    open spec fn view(&self) -> (Seq<char>, Seq<char>) {
        (self.key@, self.value@)
    }
}

/// What is wrong with a configuration text.
#[derive(Clone, Copy, Debug, PartialEq, Eq, Structural)]
pub enum TextError {
    /// A line that is not skipped holds no `=`.
    MissingSeparator,
    /// No entry has the key.
    MissingKey(Key),
    /// The value under the key is no number.
    InvalidNumber(Key),
}

/// The keys of a configuration.
#[derive(Clone, Copy, Debug, PartialEq, Eq, Structural)]
pub enum Key {
    Width,
    Height,
    FrameRate,
    Frames,
    CoreCount,
    Speed,
    FrameDir,
    Output,
    Shader,
}

/// The text that stands for `key` in a configuration.
pub open spec fn key_name(key: Key) -> Seq<char> {
    match key {
        Key::Width => "width"@,
        Key::Height => "height"@,
        Key::FrameRate => "frame_rate"@,
        Key::Frames => "frames"@,
        Key::CoreCount => "core_count"@,
        Key::Speed => "speed"@,
        Key::FrameDir => "frame_dir"@,
        Key::Output => "output"@,
        Key::Shader => "shader"@,
    }
}

impl Key {
    /// The text that stands for this key in a configuration.
    pub fn name(self) -> (n: &'static str)
        ensures
            n@ == key_name(self),
    {
        match self {
            Key::Width => "width",
            Key::Height => "height",
            Key::FrameRate => "frame_rate",
            Key::Frames => "frames",
            Key::CoreCount => "core_count",
            Key::Speed => "speed",
            Key::FrameDir => "frame_dir",
            Key::Output => "output",
            Key::Shader => "shader",
        }
    }
}

/// Whether a line holds no entry: it is empty or a comment.
pub open spec fn is_skipped(line: Seq<char>) -> bool {
    line.len() == 0 || line[0] == '#'
}

/// The entry that `line` holds: key and value are what stands before and
/// after the first `=`, trimmed. `None` where the line has no `=`.
pub open spec fn entry_of(line: Seq<char>) -> Option<(Seq<char>, Seq<char>)> {
    let at = index_of(line, '=');
    if 0 <= at < line.len() {
        Some((trimmed(line.subrange(0, at)), trimmed(line.subrange(at + 1, line.len() as int))))
    } else {
        None
    }
}

/// The first line of `text`, without its line feed and without a carriage
/// return that stands before the line feed.
pub open spec fn first_line(text: Seq<char>) -> Seq<char> {
    let n = index_of(text, '\n');
    if 0 < n < text.len() && text[n - 1] == '\r' {
        text.subrange(0, n - 1)
    } else {
        text.subrange(0, n)
    }
}

/// What follows the first line of `text` and its line feed.
pub open spec fn after_first_line(text: Seq<char>) -> Seq<char> {
    let n = index_of(text, '\n');
    if 0 <= n < text.len() {
        text.subrange(n + 1, text.len() as int)
    } else {
        Seq::empty()
    }
}

/// `tail` with `head` put before it, where there is a tail.
pub open spec fn prepend(
    head: Seq<(Seq<char>, Seq<char>)>,
    tail: Option<Seq<(Seq<char>, Seq<char>)>>,
) -> Option<Seq<(Seq<char>, Seq<char>)>> {
    match tail {
        Some(t) => Some(head + t),
        None => None,
    }
}

/// The entries of `text`, line by line and in order; `None` where a line
/// that is not skipped holds no entry.
pub open spec fn entries_of(text: Seq<char>) -> Option<Seq<(Seq<char>, Seq<char>)>>
    decreases text.len(),
{
    if text.len() == 0 {
        Some(Seq::empty())
    } else {
        let line = first_line(text);
        let tail = entries_of(after_first_line(text));
        if is_skipped(line) {
            tail
        } else {
            match entry_of(line) {
                Some(entry) => prepend(seq![entry], tail),
                None => None,
            }
        }
    }
}

/// The entries as key and value texts.
pub open spec fn entry_views(entries: Seq<Entry>) -> Seq<(Seq<char>, Seq<char>)> {
    Seq::new(entries.len(), |i: int| entries[i]@)
}

/// The value of the last entry under `key`, if there is one.
pub open spec fn value_for(entries: Seq<(Seq<char>, Seq<char>)>, key: Seq<char>) -> Option<
    Seq<char>,
>
    decreases entries.len(),
{
    if entries.len() == 0 {
        None
    } else if entries[entries.len() - 1].0 == key {
        Some(entries[entries.len() - 1].1)
    } else {
        value_for(entries.subrange(0, entries.len() - 1), key)
    }
}

/// The number under `key`, or the reason why there is none.
pub open spec fn number_for(entries: Seq<(Seq<char>, Seq<char>)>, key: Key) -> Result<
    usize,
    TextError,
> {
    match value_for(entries, key_name(key)) {
        None => Err(TextError::MissingKey(key)),
        Some(value) => match number_of(value) {
            None => Err(TextError::InvalidNumber(key)),
            Some(n) => Ok(n),
        },
    }
}

/// Reads one line that is not skipped.
pub fn parse_line(line: &str) -> (entry: Option<Entry>)
    ensures
        match entry {
            Some(e) => entry_of(line@) == Some(e@),
            None => entry_of(line@) is None,
        },
{
    let n: usize = line.unicode_len();
    let at: usize = find_char(line, '=');
    if at >= n {
        return None;
    }
    let key = trim(line.substring_char(0, at));
    let value = trim(line.substring_char(at + 1, n));
    Some(Entry { key: String::from_str(key), value: String::from_str(value) })
}

/// Reads a configuration text into its entries, in the order of the lines.
pub fn parse_entries(text: &str) -> (parsed: Result<Vec<Entry>, TextError>)
    ensures
        match parsed {
            Ok(entries) => entries_of(text@) == Some(entry_views(entries@)),
            Err(e) => e == TextError::MissingSeparator && entries_of(text@) is None,
        },
{
    let mut entries: Vec<Entry> = Vec::new();
    let mut rest: &str = text;
    let mut left: usize = rest.unicode_len();
    assert(entry_views(entries@) + entries_of(text@)->Some_0 =~= entries_of(text@)->Some_0);
    while left > 0
        invariant
            left == rest@.len(),
            entries_of(text@) == prepend(entry_views(entries@), entries_of(rest@)),
        decreases left,
    {
        let n: usize = find_char(rest, '\n');
        let cut: usize = if 0 < n && n < left && rest.get_char(n - 1) == '\r' {
            n - 1
        } else {
            n
        };
        let line: &str = rest.substring_char(0, cut);
        let next: &str = if n < left {
            rest.substring_char(n + 1, left)
        } else {
            rest.substring_char(left, left)
        };
        assert(line@ == first_line(rest@));
        assert(next@ =~= after_first_line(rest@));
        let ghost before = entry_views(entries@);
        let ghost tail = entries_of(next@);
        if !(cut == 0 || line.get_char(0) == '#') {
            match parse_line(line) {
                None => {
                    return Err(TextError::MissingSeparator);
                },
                Some(entry) => {
                    proof {
                        let after = entry_views(entries@.push(entry));
                        assert(after =~= before.push(entry@));
                        if tail is Some {
                            assert(before + (seq![entry@] + tail->Some_0) =~= after
                                + tail->Some_0);
                        }
                    }
                    entries.push(entry);
                },
            }
        }
        rest = next;
        left = rest.unicode_len();
    }
    assert(entry_views(entries@) + Seq::empty() =~= entry_views(entries@));
    Ok(entries)
}

/// The value of the last entry under `key`, if there is one.
pub fn value_of<'a>(entries: &'a Vec<Entry>, key: &str) -> (value: Option<&'a str>)
    ensures
        match value {
            Some(v) => value_for(entry_views(entries@), key@) == Some(v@),
            None => value_for(entry_views(entries@), key@) is None,
        },
{
    let ghost all = entry_views(entries@);
    let mut i: usize = entries.len();
    assert(all.subrange(0, i as int) =~= all);
    while i > 0
        invariant
            i <= entries@.len(),
            all == entry_views(entries@),
            value_for(all, key@) == value_for(all.subrange(0, i as int), key@),
        decreases i,
    {
        let ghost cur = all.subrange(0, i as int);
        i = i - 1;
        assert(cur[cur.len() - 1] == entries@[i as int]@);
        if same_text(entries[i].key.as_str(), key) {
            return Some(entries[i].value.as_str());
        }
        assert(cur.subrange(0, cur.len() - 1) =~= all.subrange(0, i as int));
    }
    None
}

/// The number under `key`: the last entry with that key counts, and its
/// value must be a number.
pub fn number(entries: &Vec<Entry>, key: Key) -> (found: Result<usize, TextError>)
    ensures
        found == number_for(entry_views(entries@), key),
{
    match value_of(entries, key.name()) {
        None => Err(TextError::MissingKey(key)),
        Some(value) => match parse_usize(value) {
            None => Err(TextError::InvalidNumber(key)),
            Some(n) => Ok(n),
        },
    }
}

/// The text under `key`: the value of the last entry with that key.
pub fn text<'a>(entries: &'a Vec<Entry>, key: Key) -> (found: Result<&'a str, TextError>)
    ensures
        match found {
            Ok(v) => value_for(entry_views(entries@), key_name(key)) == Some(v@),
            Err(e) => e == TextError::MissingKey(key) && value_for(
                entry_views(entries@),
                key_name(key),
            ) is None,
        },
{
    match value_of(entries, key.name()) {
        None => Err(TextError::MissingKey(key)),
        Some(value) => Ok(value),
    }
}

} // verus!
