//! Small shared helpers.
use vstd::prelude::*;
use vstd::string::StrSliceExecFns;

verus! {

/// Whether a character is Unicode white space (the `White_Space` property).
pub open spec fn spec_is_whitespace(c: char) -> bool {
    let u = c as u32;
    ||| (0x09 <= u && u <= 0x0d)
    ||| u == 0x20
    ||| u == 0x85
    ||| u == 0xa0
    ||| u == 0x1680
    ||| (0x2000 <= u && u <= 0x200a)
    ||| u == 0x2028
    ||| u == 0x2029
    ||| u == 0x202f
    ||| u == 0x205f
    ||| u == 0x3000
}

/// Whether a character is Unicode white space, as `char::is_whitespace` defines it.
pub fn is_whitespace(c: char) -> (res: bool)
    ensures
        res == spec_is_whitespace(c),
{
    let u = c as u32;
    (0x09 <= u && u <= 0x0d) || u == 0x20 || u == 0x85 || u == 0xa0 || u == 0x1680 || (0x2000
        <= u && u <= 0x200a) || u == 0x2028 || u == 0x2029 || u == 0x202f || u == 0x205f || u
        == 0x3000
}

/// The number of bytes of a character in UTF-8.
pub open spec fn utf8_len(c: char) -> nat {
    let u = c as u32;
    if u < 0x80 {
        1
    } else if u < 0x800 {
        2
    } else if u < 0x10000 {
        3
    } else {
        4
    }
}

/// The number of bytes of a text in UTF-8: what `str::len` returns.
pub open spec fn str_len(s: Seq<char>) -> nat
    decreases s.len(),
{
    if s.len() == 0 {
        0
    } else {
        str_len(s.drop_last()) + utf8_len(s.last())
    }
}

/// The length of a text without its trailing white space.
pub open spec fn trim_end_len(s: Seq<char>) -> nat
    decreases s.len(),
{
    if s.len() > 0 && spec_is_whitespace(s.last()) {
        trim_end_len(s.drop_last())
    } else {
        s.len()
    }
}

/// A text without its trailing white space: what `str::trim_end` returns.
pub open spec fn trim_end(s: Seq<char>) -> Seq<char> {
    s.take(trim_end_len(s) as int)
}

/// A text without its leading white space: what `str::trim_start` returns.
pub open spec fn trim_start(s: Seq<char>) -> Seq<char>
    decreases s.len(),
{
    if s.len() > 0 && spec_is_whitespace(s[0]) {
        trim_start(s.drop_first())
    } else {
        s
    }
}

/// A text without its leading and trailing white space: what `str::trim` returns.
pub open spec fn trim(s: Seq<char>) -> Seq<char> {
    trim_start(trim_end(s))
}

/// The number of UTF-8 bytes of a character.
pub fn char_utf8_len(c: char) -> (res: u8)
    ensures
        res == utf8_len(c),
{
    let u = c as u32;
    if u < 0x80 {
        1
    } else if u < 0x800 {
        2
    } else if u < 0x10000 {
        3
    } else {
        4
    }
}

/// The byte length of a text grows by the byte length of each character.
pub proof fn lemma_str_len_take(s: Seq<char>, i: int)
    requires
        0 <= i < s.len(),
    ensures
        str_len(s.take(i + 1)) == str_len(s.take(i)) + utf8_len(s[i]),
{
    assert(s.take(i + 1).drop_last() =~= s.take(i));
}

/// The number of UTF-8 bytes of a text: `str::len`.
pub fn text_len(s: &[char]) -> (res: u128)
    ensures
        res == str_len(s@),
{
    let mut total: u128 = 0;
    let mut i: usize = 0;
    while i < s.len()
        invariant
            0 <= i <= s@.len(),
            total == str_len(s@.take(i as int)),
            total <= 4 * i,
        decreases s@.len() - i,
    {
        proof {
            lemma_str_len_take(s@, i as int);
        }
        total = total + char_utf8_len(s[i]) as u128;
        i = i + 1;
    }
    assert(s@.take(i as int) =~= s@);
    total
}

/// The length of a text without its trailing white space.
pub fn trimmed_end_len(s: &[char]) -> (res: usize)
    ensures
        res == trim_end_len(s@),
        res <= s@.len(),
{
    let mut k: usize = s.len();
    assert(s@.take(k as int) =~= s@);
    while k > 0 && is_whitespace(s[k - 1])
        invariant
            0 <= k <= s@.len(),
            trim_end_len(s@) == trim_end_len(s@.take(k as int)),
        decreases k,
    {
        assert(s@.take(k as int).drop_last() =~= s@.take(k - 1));
        k = k - 1;
    }
    proof {
        if k > 0 {
            assert(s@.take(k as int).last() == s@[k - 1]);
        }
    }
    k
}

/// The number of leading white space characters of a text.
pub open spec fn trim_start_len(s: Seq<char>) -> nat
    decreases s.len(),
{
    if s.len() > 0 && spec_is_whitespace(s[0]) {
        1 + trim_start_len(s.drop_first())
    } else {
        0
    }
}

/// Trimming the start drops the leading white space.
pub proof fn lemma_trim_start(s: Seq<char>)
    ensures
        trim_start_len(s) <= s.len(),
        trim_start(s) == s.skip(trim_start_len(s) as int),
    decreases s.len(),
{
    if s.len() > 0 && spec_is_whitespace(s[0]) {
        lemma_trim_start(s.drop_first());
        assert(s.drop_first().skip(trim_start_len(s.drop_first()) as int) =~= s.skip(
            trim_start_len(s) as int,
        ));
    } else {
        assert(s.skip(0) =~= s);
    }
}

/// The number of leading white space characters of a text.
pub fn trimmed_start_len(s: &[char]) -> (res: usize)
    ensures
        res == trim_start_len(s@),
{
    let mut k: usize = 0;
    assert(s@.skip(0) =~= s@);
    while k < s.len() && is_whitespace(s[k])
        invariant
            0 <= k <= s@.len(),
            trim_start_len(s@) == k + trim_start_len(s@.skip(k as int)),
        decreases s@.len() - k,
    {
        assert(s@.skip(k as int).drop_first() =~= s@.skip(k + 1));
        k = k + 1;
    }
    k
}

/// A text without its leading and trailing white space: `str::trim`.
pub fn trimmed(s: &[char]) -> (res: Vec<char>)
    ensures
        res@ == trim(s@),
{
    let end = trimmed_end_len(s);
    let mut head: Vec<char> = Vec::new();
    let mut i: usize = 0;
    while i < end
        invariant
            end == trim_end_len(s@),
            end <= s@.len(),
            0 <= i <= end,
            head@ == s@.take(i as int),
        decreases end - i,
    {
        head.push(s[i]);
        i = i + 1;
        assert(head@ =~= s@.take(i as int));
    }
    let start = trimmed_start_len(head.as_slice());
    proof {
        lemma_trim_start(head@);
    }
    let mut out: Vec<char> = Vec::new();
    let mut j: usize = start;
    while j < head.len()
        invariant
            start <= j <= head@.len(),
            out@ == head@.subrange(start as int, j as int),
        decreases head@.len() - j,
    {
        out.push(head[j]);
        j = j + 1;
        assert(out@ =~= head@.subrange(start as int, j as int));
    }
    assert(out@ =~= head@.skip(start as int));
    out
}

/// The number of characters before the first newline (all of them when there is none).
pub open spec fn line_end(s: Seq<char>) -> nat
    decreases s.len(),
{
    if s.len() == 0 || s[0] == '\n' {
        0
    } else {
        1 + line_end(s.drop_first())
    }
}

/// A line without the carriage return of a `\r\n` ending.
pub open spec fn strip_cr(line: Seq<char>) -> Seq<char> {
    if line.len() > 0 && line.last() == '\r' {
        line.drop_last()
    } else {
        line
    }
}

/// The first line ends within the text.
pub proof fn lemma_line_end(s: Seq<char>)
    ensures
        line_end(s) <= s.len(),
        line_end(s) < s.len() ==> s[line_end(s) as int] == '\n',
        forall|i: int| 0 <= i < line_end(s) ==> s[i] != '\n',
    decreases s.len(),
{
    if s.len() > 0 && s[0] != '\n' {
        lemma_line_end(s.drop_first());
        assert forall|i: int| 0 <= i < line_end(s) implies s[i] != '\n' by {
            if i > 0 {
                assert(s[i] == s.drop_first()[i - 1]);
            }
        }
    }
}

/// The lines of a text, as `str::lines` gives them: split at each `\n`, with the `\r` of a
/// `\r\n` ending removed; a final line ending is optional and gives no empty last line.
pub open spec fn lines(s: Seq<char>) -> Seq<Seq<char>>
    decreases s.len(),
{
    if s.len() == 0 {
        Seq::empty()
    } else {
        let k = line_end(s);
        if k >= s.len() {
            seq![s]
        } else {
            proof {
                lemma_line_end(s);
            }
            seq![strip_cr(s.take(k as int))] + lines(s.skip((k + 1) as int))
        }
    }
}

/// The position of the first newline is found by scanning.
proof fn lemma_line_end_at(s: Seq<char>, j: int)
    requires
        0 <= j <= s.len(),
        forall|i: int| 0 <= i < j ==> s[i] != '\n',
        j == s.len() || s[j] == '\n',
    ensures
        line_end(s) == j,
    decreases s.len(),
{
    if s.len() > 0 && s[0] != '\n' {
        assert(j > 0);
        lemma_line_end_at(s.drop_first(), j - 1);
    }
}

/// A text without the carriage return of a `\r\n` ending.
fn stripped_cr(line: Vec<char>) -> (res: Vec<char>)
    ensures
        res@ == strip_cr(line@),
{
    let mut line = line;
    if line.len() > 0 && line[line.len() - 1] == '\r' {
        line.pop();
    }
    line
}

/// The lines of a text: `str::lines`.
pub fn split_lines(s: &Vec<char>) -> (res: Vec<Vec<char>>)
    ensures
        res@.map_values(|l: Vec<char>| l@) == lines(s@),
{
    let mut out: Vec<Vec<char>> = Vec::new();
    let mut current: Vec<char> = Vec::new();
    let mut start: usize = 0;
    let mut j: usize = 0;
    assert(s@.skip(0) =~= s@);
    while j < s.len()
        invariant
            0 <= start <= j <= s@.len(),
            current@ == s@.subrange(start as int, j as int),
            forall|i: int| start <= i < j ==> s@[i] != '\n',
            out@.map_values(|l: Vec<char>| l@) + lines(s@.skip(start as int)) == lines(s@),
        decreases s@.len() - j,
    {
        if s[j] == '\n' {
            let ghost rest = s@.skip(start as int);
            proof {
                lemma_line_end_at(rest, j - start);
                assert(rest.take(j - start) =~= current@);
                assert(rest.skip(j - start + 1) =~= s@.skip(j + 1));
            }
            let line = stripped_cr(current);
            let ghost line_view = line@;
            out.push(line);
            proof {
                assert(out@.map_values(|l: Vec<char>| l@) =~= out@.drop_last().map_values(
                    |l: Vec<char>| l@,
                ).push(line_view));
            }
            current = Vec::new();
            start = j + 1;
            assert(current@ =~= s@.subrange(start as int, (j + 1) as int));
        } else {
            current.push(s[j]);
            assert(current@ =~= s@.subrange(start as int, (j + 1) as int));
        }
        j = j + 1;
    }
    if start < s.len() {
        let ghost rest = s@.skip(start as int);
        proof {
            lemma_line_end_at(rest, rest.len() as int);
            assert(current@ =~= rest);
        }
        let ghost line_view = current@;
        out.push(current);
        proof {
            assert(out@.map_values(|l: Vec<char>| l@) =~= out@.drop_last().map_values(
                |l: Vec<char>| l@,
            ).push(line_view));
            assert(lines(s@.skip(s@.len() as int)) =~= Seq::<Seq<char>>::empty());
        }
    } else {
        assert(s@.skip(start as int) =~= Seq::<char>::empty());
    }
    assert(out@.map_values(|l: Vec<char>| l@) =~= lines(s@));
    out
}

/// The characters of a string.
pub fn string_chars(s: &String) -> (res: Vec<char>)
    ensures
        res@ == s@,
{
    let text = s.as_str();
    let n = text.unicode_len();
    let mut out: Vec<char> = Vec::new();
    let mut i: usize = 0;
    while i < n
        invariant
            n == text@.len(),
            text@ == s@,
            0 <= i <= n,
            out@ == s@.take(i as int),
        decreases n - i,
    {
        out.push(text.get_char(i));
        i = i + 1;
        assert(out@ =~= s@.take(i as int));
    }
    assert(s@.take(n as int) =~= s@);
    out
}

} // verus!
