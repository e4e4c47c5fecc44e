//! The memory map of the process, as the kernel writes it down.
use crate::text;
use vstd::prelude::*;
use vstd::string::*;

verus! {

/// Whether a character is white space.
pub open spec fn is_space(c: char) -> bool {
    ||| '\t' <= c <= '\r'
    ||| c == ' '
    ||| c == '\u{85}'
    ||| c == '\u{a0}'
    ||| c == '\u{1680}'
    ||| '\u{2000}' <= c <= '\u{200a}'
    ||| c == '\u{2028}'
    ||| c == '\u{2029}'
    ||| c == '\u{202f}'
    ||| c == '\u{205f}'
    ||| c == '\u{3000}'
}

/// Separates words.
pub open spec fn space() -> spec_fn(char) -> bool {
    |c: char| is_space(c)
}

/// Separates lines.
pub open spec fn newline() -> spec_fn(char) -> bool {
    |c: char| c == '\n'
}

/// The value of a hexadecimal digit.
pub open spec fn hex_digit(c: char) -> Option<nat> {
    if '0' <= c <= '9' {
        Some((c as u32 - '0' as u32) as nat)
    } else if 'a' <= c <= 'f' {
        Some((c as u32 - 'a' as u32 + 10) as nat)
    } else if 'A' <= c <= 'F' {
        Some((c as u32 - 'A' as u32 + 10) as nat)
    } else {
        None
    }
}

/// The value of hexadecimal digits.
pub open spec fn hex_value(s: Seq<char>) -> Option<nat>
    decreases s.len(),
{
    if s.len() == 0 {
        Some(0)
    } else {
        match (hex_value(s.drop_last()), hex_digit(s.last())) {
            (Some(high), Some(low)) => Some(high * 16 + low),
            _ => None,
        }
    }
}

/// The address that a string stands for. There may be a plus sign before the digits.
pub open spec fn hex_address(s: Seq<char>) -> Option<usize> {
    let digits = if s.len() > 1 && s[0] == '+' {
        s.skip(1)
    } else {
        s
    };
    match hex_value(digits) {
        Some(v) => if digits.len() > 0 && v <= usize::MAX {
            Some(v as usize)
        } else {
            None
        },
        None => None,
    }
}

/// Where the first dash of a string is, or its length if there is none, from a position on.
pub open spec fn dash_from(s: Seq<char>, at: int) -> int
    decreases s.len() - at,
{
    if at >= s.len() {
        s.len() as int
    } else if s[at] == '-' {
        at
    } else {
        dash_from(s, at + 1)
    }
}

/// The two addresses that a range of addresses stands for: what is before its first dash, and what
/// is between that and the next one, if there is one.
pub open spec fn range_of(s: Seq<char>) -> Option<(usize, usize)> {
    let first = dash_from(s, 0);
    let second = dash_from(s, first + 1);
    if first >= s.len() {
        None
    } else {
        match (hex_address(s.take(first)), hex_address(s.subrange(first + 1, second))) {
            (Some(start), Some(end)) => Some((start, end)),
            _ => None,
        }
    }
}

/// Whether a line describes a mapping.
pub open spec fn is_mapping_line(line: Seq<char>) -> bool {
    text::runs(line, space()).len() >= 5
}

/// What has been read of a memory map: the mappings, and where the vDSO is.
#[verifier::ext_equal]
pub struct MapsView {
    pub mappings: Seq<(usize, usize)>,
    pub vdso: Option<usize>,
}

/// What the first `n` lines of a memory map say, or nothing if one of them is not well-formed.
pub open spec fn maps_after(lines: Seq<Seq<char>>, n: int) -> Option<MapsView>
    decreases n,
{
    if n <= 0 {
        Some(MapsView { mappings: Seq::empty(), vdso: None })
    } else {
        let line = lines[n - 1];
        let words = text::runs(line, space());
        match maps_after(lines, n - 1) {
            None => None,
            Some(before) => if words.len() < 5 {
                Some(before)
            } else {
                match range_of(words[0]) {
                    None => None,
                    Some(range) => Some(
                        MapsView {
                            mappings: before.mappings.push(range),
                            vdso: if words.last() == "[vdso]"@ {
                                Some(range.0)
                            } else {
                                before.vdso
                            },
                        },
                    ),
                }
            },
        }
    }
}

/// What a memory map says.
pub open spec fn maps_of(s: Seq<char>) -> Option<MapsView> {
    let lines = text::runs(s, newline());
    maps_after(lines, lines.len() as int)
}

/// The number of mappings is that of the lines that describe one.
pub proof fn lemma_every_mapping_is_read(lines: Seq<Seq<char>>, n: int)
    requires
        0 <= n <= lines.len(),
        maps_after(lines, n) is Some,
    ensures
        maps_after(lines, n)->Some_0.mappings.len() == lines.take(n).filter(
            |line: Seq<char>| is_mapping_line(line),
        ).len(),
    decreases n,
{
    reveal(Seq::filter);
    if n > 0 {
        lemma_every_mapping_is_read(lines, n - 1);
        assert(lines.take(n).drop_last() =~= lines.take(n - 1));
        assert(lines.take(n).last() == lines[n - 1]);
    }
}

fn is_newline(c: char) -> (r: bool)
    ensures
        r == newline()(c),
{
    c == '\n'
}

fn is_white_space(c: char) -> (r: bool)
    ensures
        r == space()(c),
{
    ('\t' <= c && c <= '\r') || c == ' ' || c == '\u{85}' || c == '\u{a0}' || c == '\u{1680}' || (
    '\u{2000}' <= c && c <= '\u{200a}') || c == '\u{2028}' || c == '\u{2029}' || c == '\u{202f}'
        || c == '\u{205f}' || c == '\u{3000}'
}

fn digit_value(c: char) -> (r: Option<u32>)
    ensures
        match r {
            Some(v) => hex_digit(c) == Some(v as nat) && v < 16,
            None => hex_digit(c) is None,
        },
{
    if '0' <= c && c <= '9' {
        Some(c as u32 - '0' as u32)
    } else if 'a' <= c && c <= 'f' {
        Some(c as u32 - 'a' as u32 + 10)
    } else if 'A' <= c && c <= 'F' {
        Some(c as u32 - 'A' as u32 + 10)
    } else {
        None
    }
}

/// A prefix of digits that is too large makes the whole too large.
proof fn lemma_hex_grows(s: Seq<char>, n: int)
    requires
        0 <= n <= s.len(),
    ensures
        hex_value(s) is Some ==> hex_value(s.take(n)) is Some && hex_value(s.take(n))->Some_0
            <= hex_value(s)->Some_0,
    decreases s.len() - n,
{
    if n == s.len() {
        assert(s.take(n) =~= s);
    } else {
        lemma_hex_grows(s, n + 1);
        assert(s.take(n + 1).drop_last() =~= s.take(n));
    }
}

/// The address that some characters stand for.
fn parse_hex(chars: &Vec<char>, from: usize, to: usize) -> (r: Option<usize>)
    requires
        from <= to <= chars.len(),
    ensures
        r == hex_address(chars@.subrange(from as int, to as int)),
{
    let ghost s = chars@.subrange(from as int, to as int);
    let start: usize = if to - from > 1 && chars[from] == '+' {
        from + 1
    } else {
        from
    };
    let ghost digits = chars@.subrange(start as int, to as int);
    assert(digits =~= if s.len() > 1 && s[0] == '+' {
        s.skip(1)
    } else {
        s
    });
    if start == to {
        return None;
    }
    let mut value: usize = 0;
    let mut i: usize = start;
    assert(digits.take(0) =~= Seq::empty());
    while i < to
        invariant
            start <= i <= to <= chars.len(),
            from <= start,
            digits == chars@.subrange(start as int, to as int),
            s == chars@.subrange(from as int, to as int),
            digits == if s.len() > 1 && s[0] == '+' {
                s.skip(1)
            } else {
                s
            },
            hex_value(digits.take(i - start)) == Some(value as nat),
        decreases to - i,
    {
        let ghost k = i - start;
        proof {
            assert(digits.take(k + 1).drop_last() =~= digits.take(k));
            assert(digits.take(k + 1).last() == chars@[i as int]);
            lemma_hex_grows(digits, k + 1);
        }
        let d: u32 = match digit_value(chars[i]) {
            Some(d) => d,
            None => {
                return None;
            },
        };
        if value > (usize::MAX - d as usize) / 16 {
            assert(value * 16 + d > usize::MAX);
            return None;
        }
        assert(value * 16 + d <= usize::MAX);
        value = value * 16 + d as usize;
        i = i + 1;
    }
    assert(digits.take(i - start) =~= digits);
    Some(value)
}

/// Where the first dash is, or the length if there is none, from a position on.
fn find_dash(chars: &Vec<char>, at: usize) -> (r: usize)
    ensures
        r == dash_from(chars@, at as int),
        at <= chars.len() ==> at <= r <= chars.len(),
{
    let mut i: usize = at;
    while i < chars.len() && chars[i] != '-'
        invariant
            at <= i,
            at <= chars.len() ==> i <= chars.len(),
            dash_from(chars@, at as int) == dash_from(chars@, i as int),
        decreases chars.len() - i,
    {
        i = i + 1;
    }
    if i < chars.len() {
        i
    } else {
        chars.len()
    }
}

/// The two addresses that a range of addresses stands for.
fn parse_range(word: &str) -> (r: Option<(usize, usize)>)
    ensures
        r == range_of(word@),
{
    let chars = text::chars_of(word);
    let first: usize = find_dash(&chars, 0);
    if first >= chars.len() {
        return None;
    }
    let second: usize = find_dash(&chars, first + 1);
    assert(chars@.subrange(0, first as int) =~= chars@.take(first as int));
    match (parse_hex(&chars, 0, first), parse_hex(&chars, first + 1, second)) {
        (Some(start), Some(end)) => Some((start, end)),
        _ => None,
    }
}

/// The mappings of the process, and where the vDSO is, from the text of its memory map. There is
/// no result where a line that describes a mapping is not well-formed.
pub fn parse_maps(maps: &str) -> (r: Option<(Vec<(usize, usize)>, Option<usize>)>)
    ensures
        match r {
            None => maps_of(maps@) is None,
            Some((mappings, vdso)) => maps_of(maps@) == Some(
                MapsView { mappings: mappings@, vdso },
            ),
        },
{
    let lines = text::split_runs(maps, is_newline, Ghost(newline()));
    let ghost all = text::texts(lines@);
    let mut mappings: Vec<(usize, usize)> = Vec::new();
    let mut vdso: Option<usize> = None;
    let mut i: usize = 0;
    assert(mappings@ =~= Seq::empty());
    while i < lines.len()
        invariant
            i <= lines.len(),
            all == text::texts(lines@),
            all == text::runs(maps@, newline()),
            maps_after(all, i as int) == Some(MapsView { mappings: mappings@, vdso }),
        decreases lines.len() - i,
    {
        let line = lines[i].as_str();
        assert(all[i as int] == line@);
        let words = text::split_runs(line, is_white_space, Ghost(space()));
        let ghost texts = text::texts(words@);
        proof {
            if maps_after(all, i + 1) is None {
                lemma_bad_line_stays(all, i + 1, all.len() as int);
            }
        }
        if words.len() >= 5 {
            let range = match parse_range(words[0].as_str()) {
                Some(range) => range,
                None => {
                    assert(texts[0] == words@[0]@);
                    assert(maps_after(all, i + 1) is None);
                    return None;
                },
            };
            assert(texts[0] == words@[0]@);
            let ghost before = mappings@;
            mappings.push(range);
            // Check if the line corresponds to the vdso
            let last: usize = words.len() - 1;
            assert(texts.last() == words@[last as int]@);
            if text::same_text(words[last].as_str(), "[vdso]") {
                vdso = Some(range.0);
            }
            assert(mappings@ =~= before.push(range));
        }
        i = i + 1;
    }
    Some((mappings, vdso))
}

/// A line that is not well-formed spoils all that follows.
proof fn lemma_bad_line_stays(lines: Seq<Seq<char>>, n: int, m: int)
    requires
        0 <= n <= m,
        maps_after(lines, n) is None,
    ensures
        maps_after(lines, m) is None,
    decreases m - n,
{
    if n < m {
        assert(maps_after(lines, n + 1) is None);
        lemma_bad_line_stays(lines, n + 1, m);
    }
}

} // verus!
