use vstd::prelude::*;

verus! {

/// Appends one character to a string.
///
/// Stands for `String::push`: the string afterwards is the string before
/// followed by `c`.
#[verifier::external_body]
pub(crate) fn push_char(s: &mut String, c: char)
    ensures
        final(s)@ == old(s)@.push(c),
{
    s.push(c)
}

/// The characters of `s`, in order.
pub fn chars_of(s: &str) -> (out: Vec<char>)
    ensures
        out@ == s@,
{
    let mut out: Vec<char> = Vec::new();
    for c in it: s.chars()
        invariant
            it.seq() == s@,
            out@ == s@.take(it.index()),
    {
        out.push(c);
        assert(s@.take(it.index() + 1) == s@.take(it.index()).push(c));
    }
    assert(s@.take(s@.len() as int) == s@);
    out
}

/// The string made of `chars[from..to]`.
pub fn string_of(chars: &Vec<char>, from: usize, to: usize) -> (out: String)
    requires
        from <= to <= chars.len(),
    ensures
        out@ == chars@.subrange(from as int, to as int),
{
    let mut out = String::new();
    let mut i: usize = from;
    while i < to
        invariant
            from <= i <= to <= chars.len(),
            out@ == chars@.subrange(from as int, i as int),
        decreases to - i,
    {
        push_char(&mut out, chars[i]);
        i += 1;
        assert(chars@.subrange(from as int, i as int) == chars@.subrange(from as int, i - 1).push(chars@[i - 1]));
    }
    out
}

/// The line that starts at `i`, without its terminator: a line feed, or a
/// carriage return and a line feed.
pub open spec fn line_at(s: Seq<char>, i: int) -> Seq<char> {
    let e = position_of(s, i, '\n');
    if i < e < s.len() && s[e - 1] == '\r' {
        s.subrange(i, e - 1)
    } else {
        s.subrange(i, e)
    }
}

/// The lines of `s` from position `i` on.
pub open spec fn lines_from(s: Seq<char>, i: int) -> Seq<Seq<char>>
    decreases s.len() - i,
{
    let e = position_of(s, i, '\n');
    if 0 <= i < s.len() && i <= e {
        seq![line_at(s, i)] + (if e < s.len() {
            lines_from(s, e + 1)
        } else {
            Seq::empty()
        })
    } else {
        Seq::empty()
    }
}

/// The lines of `s`. A line ends at a line feed; a carriage return just
/// before that line feed belongs to the terminator. Text after the last
/// line feed is a line of its own unless it is empty.
pub open spec fn lines(s: Seq<char>) -> Seq<Seq<char>> {
    lines_from(s, 0)
}

/// A copy of `chars[from..to]`.
pub fn slice_of(chars: &Vec<char>, from: usize, to: usize) -> (out: Vec<char>)
    requires
        from <= to <= chars.len(),
    ensures
        out@ == chars@.subrange(from as int, to as int),
{
    let mut out: Vec<char> = Vec::new();
    let mut i: usize = from;
    while i < to
        invariant
            from <= i <= to <= chars.len(),
            out@ == chars@.subrange(from as int, i as int),
        decreases to - i,
    {
        out.push(chars[i]);
        i += 1;
        assert(chars@.subrange(from as int, i as int) == chars@.subrange(from as int, i - 1).push(
            chars@[i - 1],
        ));
    }
    out
}

/// A list of lines stands for the list of their texts.
pub proof fn lemma_lines_view(ls: Vec<Vec<char>>)
    ensures
        ls.deep_view().len() == ls.len(),
        forall|i: int| 0 <= i < ls.len() ==> #[trigger] ls.deep_view()[i] == ls@[i]@,
{
    assert forall|i: int| 0 <= i < ls.len() implies #[trigger] ls.deep_view()[i] == ls@[i]@ by {
        assert(ls@[i].deep_view() =~= ls@[i]@);
    }
}

/// Splits `chars` into its lines.
pub fn split_lines(chars: &Vec<char>) -> (out: Vec<Vec<char>>)
    ensures
        out.deep_view() == lines(chars@),
{
    let mut out: Vec<Vec<char>> = Vec::new();
    let mut i: usize = 0;
    assert(out.deep_view() =~= Seq::<Seq<char>>::empty());
    while i < chars.len()
        invariant
            i <= chars.len(),
            lines(chars@) == out.deep_view() + lines_from(chars@, i as int),
        decreases chars.len() - i,
    {
        let e = find_char(chars, i, '\n');
        let stop = if i < e && e < chars.len() && chars[e - 1] == '\r' {
            e - 1
        } else {
            e
        };
        let line = slice_of(chars, i, stop);
        let ghost before = out.deep_view();
        let ghost rest = if e < chars.len() {
            lines_from(chars@, e + 1)
        } else {
            Seq::<Seq<char>>::empty()
        };
        assert(line.deep_view() =~= line@);
        out.push(line);
        assert(out.deep_view() =~= before.push(line_at(chars@, i as int)));
        assert(before + (seq![line_at(chars@, i as int)] + rest) =~= before.push(
            line_at(chars@, i as int),
        ) + rest);
        if e < chars.len() {
            i = e + 1;
        } else {
            i = e;
        }
    }
    assert(lines_from(chars@, i as int) =~= Seq::<Seq<char>>::empty());
    out
}

/// Whether two character vectors hold the same text.
pub fn same_chars(a: &Vec<char>, b: &Vec<char>) -> (r: bool)
    ensures
        r == (a@ == b@),
{
    if a.len() != b.len() {
        return false;
    }
    let mut i: usize = 0;
    while i < a.len()
        invariant
            i <= a.len(),
            a.len() == b.len(),
            a@.take(i as int) == b@.take(i as int),
        decreases a.len() - i,
    {
        if a[i] != b[i] {
            return false;
        }
        i += 1;
        assert(a@.take(i as int) == a@.take(i - 1).push(a@[i - 1]));
        assert(b@.take(i as int) == b@.take(i - 1).push(b@[i - 1]));
    }
    assert(a@.take(a.len() as int) == a@);
    assert(b@.take(b.len() as int) == b@);
    true
}

/// Whether two strings hold the same text.
pub fn same_text(a: &str, b: &str) -> (r: bool)
    ensures
        r == (a@ == b@),
{
    let x = chars_of(a);
    let y = chars_of(b);
    same_chars(&x, &y)
}

/// Whether two lists of strings hold the same texts in the same order.
pub fn same_texts(a: &Vec<String>, b: &Vec<String>) -> (r: bool)
    ensures
        r == (a.deep_view() == b.deep_view()),
{
    if a.len() != b.len() {
        assert(a.deep_view().len() != b.deep_view().len());
        return false;
    }
    let mut i: usize = 0;
    while i < a.len()
        invariant
            i <= a.len(),
            a.len() == b.len(),
            forall|j: int| 0 <= j < i ==> a@[j]@ == b@[j]@,
        decreases a.len() - i,
    {
        if a[i] != b[i] {
            assert(a.deep_view()[i as int] != b.deep_view()[i as int]);
            return false;
        }
        i += 1;
    }
    assert(a.deep_view() =~= b.deep_view());
    true
}

/// A character with the Unicode property `White_Space`.
pub open spec fn is_whitespace(c: char) -> bool {
    ('\u{9}' <= c <= '\u{d}') || c == ' ' || c == '\u{85}' || c == '\u{a0}' || c == '\u{1680}' || (
    '\u{2000}' <= c <= '\u{200a}') || c == '\u{2028}' || c == '\u{2029}' || c == '\u{202f}' || c
        == '\u{205f}' || c == '\u{3000}'
}

/// The first position at or after `i` that holds no whitespace, or the end.
pub open spec fn leading_space_end(s: Seq<char>, i: int) -> int
    decreases s.len() - i,
{
    if 0 <= i < s.len() && is_whitespace(s[i]) {
        leading_space_end(s, i + 1)
    } else {
        i
    }
}

/// The position after the last character before `j` that is no whitespace,
/// or 0.
pub open spec fn trailing_space_start(s: Seq<char>, j: int) -> int
    decreases j,
{
    if 0 < j <= s.len() && is_whitespace(s[j - 1]) {
        trailing_space_start(s, j - 1)
    } else {
        j
    }
}

/// `s` without the whitespace at its start.
pub open spec fn trim_start(s: Seq<char>) -> Seq<char> {
    s.subrange(leading_space_end(s, 0), s.len() as int)
}

/// `s` without the whitespace at its end.
pub open spec fn trim_end(s: Seq<char>) -> Seq<char> {
    s.subrange(0, trailing_space_start(s, s.len() as int))
}

/// `s` without the whitespace at its start and at its end.
pub open spec fn trim(s: Seq<char>) -> Seq<char> {
    trim_end(trim_start(s))
}

/// Whether `needle` stands in `s` at position `i`.
pub open spec fn occurs_at(s: Seq<char>, needle: Seq<char>, i: int) -> bool {
    0 <= i && i + needle.len() <= s.len() && s.subrange(i, i + needle.len()) == needle
}

/// The first position at or after `i` at which `needle` stands in `s`.
pub open spec fn find_from(s: Seq<char>, needle: Seq<char>, i: int) -> Option<int>
    decreases s.len() + 1 - i,
{
    if i < 0 || i + needle.len() > s.len() {
        None
    } else if occurs_at(s, needle, i) {
        Some(i)
    } else {
        find_from(s, needle, i + 1)
    }
}

/// The first position at which `needle` stands in `s`.
pub open spec fn find(s: Seq<char>, needle: Seq<char>) -> Option<int> {
    find_from(s, needle, 0)
}

/// Whether `s` starts with `prefix`.
pub open spec fn starts_with(s: Seq<char>, prefix: Seq<char>) -> bool {
    occurs_at(s, prefix, 0)
}

/// `s` from position `i` on, with every occurrence of `needle` replaced by
/// `with`, the occurrences taken from left to right without overlap.
pub open spec fn replace_from(s: Seq<char>, needle: Seq<char>, with: Seq<char>, i: int) -> Seq<char>
    decreases s.len() - i,
{
    if i < 0 || i >= s.len() || needle.len() == 0 {
        Seq::empty()
    } else if occurs_at(s, needle, i) {
        with + replace_from(s, needle, with, i + needle.len())
    } else {
        seq![s[i]] + replace_from(s, needle, with, i + 1)
    }
}

/// `s` with every occurrence of `needle` replaced by `with`. An empty needle
/// occurs nowhere.
pub open spec fn replace(s: Seq<char>, needle: Seq<char>, with: Seq<char>) -> Seq<char> {
    if needle.len() == 0 {
        s
    } else {
        replace_from(s, needle, with, 0)
    }
}

/// The decimal digit for `d`.
pub open spec fn digit(d: nat) -> char {
    if d == 0 {
        '0'
    } else if d == 1 {
        '1'
    } else if d == 2 {
        '2'
    } else if d == 3 {
        '3'
    } else if d == 4 {
        '4'
    } else if d == 5 {
        '5'
    } else if d == 6 {
        '6'
    } else if d == 7 {
        '7'
    } else if d == 8 {
        '8'
    } else {
        '9'
    }
}

/// `n` written in decimal, without leading zeros.
pub open spec fn decimal(n: nat) -> Seq<char>
    decreases n,
{
    if n < 10 {
        seq![digit(n)]
    } else {
        decimal(n / 10).push(digit(n % 10))
    }
}

/// The lowercase form of a text, as Unicode defines it.
pub uninterp spec fn lowercase(s: Seq<char>) -> Seq<char>;

/// The lowercase form of `s`.
///
/// Stands for `str::to_lowercase`. Claimed: the result depends on the text
/// alone.
#[verifier::external_body]
pub(crate) fn to_lowercase(s: &str) -> (r: String)
    ensures
        r@ == lowercase(s@),
{
    s.to_lowercase()
}

/// Whether `c` is whitespace.
pub fn whitespace(c: char) -> (r: bool)
    ensures
        r == is_whitespace(c),
{
    ('\u{9}' <= c && c <= '\u{d}') || c == ' ' || c == '\u{85}' || c == '\u{a0}' || c
        == '\u{1680}' || ('\u{2000}' <= c && c <= '\u{200a}') || c == '\u{2028}' || c
        == '\u{2029}' || c == '\u{202f}' || c == '\u{205f}' || c == '\u{3000}'
}

/// `chars` without the whitespace at its start.
pub fn trimmed_start(chars: &Vec<char>) -> (out: Vec<char>)
    ensures
        out@ == trim_start(chars@),
{
    let mut i: usize = 0;
    while i < chars.len() && whitespace(chars[i])
        invariant
            i <= chars.len(),
            leading_space_end(chars@, 0) == leading_space_end(chars@, i as int),
        decreases chars.len() - i,
    {
        i += 1;
    }
    slice_of(chars, i, chars.len())
}

/// `chars` without the whitespace at its end.
pub fn trimmed_end(chars: &Vec<char>) -> (out: Vec<char>)
    ensures
        out@ == trim_end(chars@),
{
    let mut j: usize = chars.len();
    while j > 0 && whitespace(chars[j - 1])
        invariant
            j <= chars.len(),
            trailing_space_start(chars@, chars.len() as int) == trailing_space_start(
                chars@,
                j as int,
            ),
        decreases j,
    {
        j -= 1;
    }
    slice_of(chars, 0, j)
}

/// `chars` without the whitespace at its start and at its end.
pub fn trimmed(chars: &Vec<char>) -> (out: Vec<char>)
    ensures
        out@ == trim(chars@),
{
    let front = trimmed_start(chars);
    trimmed_end(&front)
}

/// Whether `needle` stands in `chars` at position `i`.
pub fn has_at(chars: &Vec<char>, needle: &Vec<char>, i: usize) -> (r: bool)
    ensures
        r == occurs_at(chars@, needle@, i as int),
{
    if i > chars.len() || needle.len() > chars.len() - i {
        return false;
    }
    let mut k: usize = 0;
    while k < needle.len()
        invariant
            k <= needle.len(),
            i + needle.len() <= chars.len(),
            forall|j: int| 0 <= j < k ==> chars@[i + j] == needle@[j],
        decreases needle.len() - k,
    {
        if chars[i + k] != needle[k] {
            assert(chars@.subrange(i as int, i + needle.len())[k as int] != needle@[k as int]);
            return false;
        }
        k += 1;
    }
    assert(chars@.subrange(i as int, i + needle.len()) =~= needle@);
    true
}

/// The first position at or after `i` at which `needle` stands in `chars`.
pub fn find_in(chars: &Vec<char>, needle: &Vec<char>, i: usize) -> (r: Option<usize>)
    ensures
        match r {
            Some(at) => find_from(chars@, needle@, i as int) == Some(at as int) && i <= at && at
                + needle.len() <= chars.len(),
            None => find_from(chars@, needle@, i as int) is None,
        },
{
    let mut at: usize = i;
    while at <= chars.len() && needle.len() <= chars.len() - at
        invariant
            i <= at,
            find_from(chars@, needle@, i as int) == find_from(chars@, needle@, at as int),
        decreases chars.len() + 1 - at,
    {
        if has_at(chars, needle, at) {
            return Some(at);
        }
        assert(at < chars.len()) by {
            if at == chars.len() {
                assert(chars@.subrange(at as int, at + needle.len()) =~= needle@);
            }
        }
        at += 1;
    }
    None
}

/// `chars` with every occurrence of `needle` replaced by `with`.
pub fn replaced(chars: &Vec<char>, needle: &Vec<char>, with: &Vec<char>) -> (out: Vec<char>)
    ensures
        out@ == replace(chars@, needle@, with@),
{
    if needle.len() == 0 {
        return slice_of(chars, 0, chars.len());
    }
    let mut out: Vec<char> = Vec::new();
    let mut i: usize = 0;
    while i < chars.len()
        invariant
            i <= chars.len(),
            needle.len() > 0,
            replace(chars@, needle@, with@) == out@ + replace_from(chars@, needle@, with@, i as int),
        decreases chars.len() - i,
    {
        let ghost before = out@;
        if has_at(chars, needle, i) {
            let mut k: usize = 0;
            while k < with.len()
                invariant
                    k <= with.len(),
                    out@ == before + with@.take(k as int),
                decreases with.len() - k,
            {
                out.push(with[k]);
                k += 1;
                assert(with@.take(k as int) == with@.take(k - 1).push(with@[k - 1]));
            }
            proof {
                assert(with@.take(with.len() as int) == with@);
                let rest = replace_from(chars@, needle@, with@, i + needle.len());
                assert(before + (with@ + rest) =~= (before + with@) + rest);
            }
            i += needle.len();
        } else {
            out.push(chars[i]);
            proof {
                let rest = replace_from(chars@, needle@, with@, i + 1);
                assert(before + (seq![chars@[i as int]] + rest) =~= before.push(chars@[i as int])
                    + rest);
            }
            i += 1;
        }
    }
    assert(out@ + Seq::<char>::empty() =~= out@);
    out
}

fn digit_char(d: usize) -> (c: char)
    requires
        d < 10,
    ensures
        c == digit(d as nat),
{
    if d == 0 {
        '0'
    } else if d == 1 {
        '1'
    } else if d == 2 {
        '2'
    } else if d == 3 {
        '3'
    } else if d == 4 {
        '4'
    } else if d == 5 {
        '5'
    } else if d == 6 {
        '6'
    } else if d == 7 {
        '7'
    } else if d == 8 {
        '8'
    } else {
        '9'
    }
}

/// `n` written in decimal.
pub fn decimal_of(n: usize) -> (out: Vec<char>)
    ensures
        out@ == decimal(n as nat),
    decreases n,
{
    if n < 10 {
        let mut out: Vec<char> = Vec::new();
        out.push(digit_char(n));
        out
    } else {
        let mut out = decimal_of(n / 10);
        out.push(digit_char(n % 10));
        out
    }
}

/// The first position at or after `i` that holds `c`, or the end of `s`.
pub open spec fn position_of(s: Seq<char>, i: int, c: char) -> int
    decreases s.len() - i,
{
    if 0 <= i < s.len() && s[i] != c {
        position_of(s, i + 1, c)
    } else {
        i
    }
}

/// The first position at or after `i` that holds `c`, or the length.
pub fn find_char(chars: &Vec<char>, i: usize, c: char) -> (e: usize)
    requires
        i <= chars.len(),
    ensures
        e == position_of(chars@, i as int, c),
        i <= e <= chars.len(),
        e < chars.len() ==> chars@[e as int] == c,
{
    let mut e: usize = i;
    while e < chars.len() && chars[e] != c
        invariant
            i <= e <= chars.len(),
            position_of(chars@, i as int, c) == position_of(chars@, e as int, c),
        decreases chars.len() - e,
    {
        e += 1;
    }
    e
}

/// A copy of a list of strings.
pub fn copy_texts(list: &Vec<String>) -> (out: Vec<String>)
    ensures
        out.deep_view() == list.deep_view(),
{
    let mut out: Vec<String> = Vec::new();
    let mut i: usize = 0;
    while i < list.len()
        invariant
            i <= list.len(),
            out.len() == i,
            forall|j: int| 0 <= j < i ==> out@[j]@ == list@[j]@,
        decreases list.len() - i,
    {
        out.push(list[i].clone());
        i += 1;
    }
    assert(out.deep_view() =~= list.deep_view());
    out
}

/// The text of `chars` as a string.
pub fn to_string(chars: &Vec<char>) -> (out: String)
    ensures
        out@ == chars@,
{
    let out = string_of(chars, 0, chars.len());
    assert(chars@.subrange(0, chars.len() as int) =~= chars@);
    out
}

} // verus!
