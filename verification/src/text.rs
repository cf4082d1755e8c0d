//! Character-sequence helpers shared by the emitters and parsers.
//!
//! Text is built as `Vec<char>` (whose view is a `Seq<char>`) and turned into a
//! `String` once at the end, so that every step has an exact specification.

use vstd::prelude::*;

verus! {

/// The characters of a string slice, in order.
#[verifier::external_body]
pub fn str_to_chars(s: &str) -> (v: Vec<char>)
    ensures
        v@ == s@,
{
    s.chars().collect()
}

/// A `String` holding exactly the given characters.
#[verifier::external_body]
pub fn chars_to_string(v: &[char]) -> (s: String)
    ensures
        s@ == v@,
{
    v.iter().collect()
}

/// Whether two character slices are equal.
pub fn chars_eq(a: &[char], b: &[char]) -> (r: bool)
    ensures
        r == (a@ == b@),
{
    if a.len() != b.len() {
        return false;
    }
    let mut i: usize = 0;
    while i < a.len()
        invariant
            a@.len() == b@.len(),
            i <= a@.len(),
            forall|j: int| 0 <= j < i ==> a@[j] == b@[j],
        decreases a@.len() - i,
    {
        if a[i] != b[i] {
            return false;
        }
        i = i + 1;
    }
    assert(a@ =~= b@);
    true
}

/// Whether two string slices hold the same characters.
pub fn str_eq(a: &str, b: &str) -> (r: bool)
    ensures
        r == (a@ == b@),
{
    let va = str_to_chars(a);
    let vb = str_to_chars(b);
    chars_eq(va.as_slice(), vb.as_slice())
}

/// Appends the characters of `s` to `out`.
pub fn push_str(out: &mut Vec<char>, s: &str)
    ensures
        final(out)@ == old(out)@ + s@,
{
    let mut v = str_to_chars(s);
    out.append(&mut v);
}

/// Appends a slice of characters to `out`.
pub fn push_chars(out: &mut Vec<char>, s: &[char])
    ensures
        final(out)@ == old(out)@ + s@,
{
    let ghost start = out@;
    let mut i: usize = 0;
    while i < s.len()
        invariant
            i <= s@.len(),
            out@ == start + s@.subrange(0, i as int),
        decreases s@.len() - i,
    {
        out.push(s[i]);
        i = i + 1;
        assert(s@.subrange(0, i as int) == s@.subrange(0, i - 1) + seq![s@[i - 1]]);
    }
    assert(s@.subrange(0, s@.len() as int) == s@);
}

/// `n` copies of the character `c`.
pub open spec fn repeat_char(c: char, n: nat) -> Seq<char> {
    Seq::new(n, |_i: int| c)
}

/// Appends `n` copies of `c` to `out`.
pub fn push_repeat(out: &mut Vec<char>, c: char, n: usize)
    ensures
        final(out)@ == old(out)@ + repeat_char(c, n as nat),
{
    let ghost start = out@;
    let mut i: usize = 0;
    while i < n
        invariant
            i <= n,
            out@ == start + repeat_char(c, i as nat),
        decreases n - i,
    {
        out.push(c);
        i = i + 1;
        assert(repeat_char(c, i as nat) == repeat_char(c, (i - 1) as nat) + seq![c]);
    }
}

/// Decimal digit for `d < 10`.
pub open spec fn digit_char(d: nat) -> char {
    if d == 0 { '0' }
    else if d == 1 { '1' }
    else if d == 2 { '2' }
    else if d == 3 { '3' }
    else if d == 4 { '4' }
    else if d == 5 { '5' }
    else if d == 6 { '6' }
    else if d == 7 { '7' }
    else if d == 8 { '8' }
    else { '9' }
}

/// The decimal notation of `n`, without leading zeros ("0" for zero).
pub open spec fn decimal(n: nat) -> Seq<char>
    decreases n,
{
    if n < 10 {
        seq![digit_char(n)]
    } else {
        decimal(n / 10).push(digit_char(n % 10))
    }
}

fn digit_of(d: u128) -> (c: char)
    requires
        d < 10,
    ensures
        c == digit_char(d as nat),
{
    if d == 0 { '0' }
    else if d == 1 { '1' }
    else if d == 2 { '2' }
    else if d == 3 { '3' }
    else if d == 4 { '4' }
    else if d == 5 { '5' }
    else if d == 6 { '6' }
    else if d == 7 { '7' }
    else if d == 8 { '8' }
    else { '9' }
}

/// Appends the decimal notation of `n` to `out`.
pub fn push_decimal(out: &mut Vec<char>, n: u128)
    ensures
        final(out)@ == old(out)@ + decimal(n as nat),
    decreases n,
{
    if n < 10 {
        out.push(digit_of(n));
    } else {
        push_decimal(out, n / 10);
        out.push(digit_of(n % 10));
    }
}

/// The decimal notation of `n` as a `String`.
pub fn decimal_string(n: u64) -> (s: String)
    ensures
        s@ == decimal(n as nat),
{
    let mut out: Vec<char> = Vec::new();
    push_decimal(&mut out, n as u128);
    assert(out@ == decimal(n as nat));
    chars_to_string(out.as_slice())
}

/// Unicode `White_Space` characters, the set that `char::is_whitespace` tests.
pub open spec fn is_ws(c: char) -> bool {
    ||| c == ' ' || c == '\t' || c == '\n' || c == '\x0B' || c == '\x0C' || c == '\r'
    ||| c == '\u{85}' || c == '\u{A0}' || c == '\u{1680}'
    ||| ('\u{2000}' <= c && c <= '\u{200A}')
    ||| c == '\u{2028}' || c == '\u{2029}' || c == '\u{202F}' || c == '\u{205F}'
    ||| c == '\u{3000}'
}

/// Whether `c` is a Unicode white-space character.
pub fn char_is_ws(c: char) -> (b: bool)
    ensures
        b == is_ws(c),
{
    c == ' ' || c == '\t' || c == '\n' || c == '\x0B' || c == '\x0C' || c == '\r'
        || c == '\u{85}' || c == '\u{A0}' || c == '\u{1680}'
        || ('\u{2000}' <= c && c <= '\u{200A}')
        || c == '\u{2028}' || c == '\u{2029}' || c == '\u{202F}' || c == '\u{205F}'
        || c == '\u{3000}'
}

/// `s` without its trailing white space.
pub open spec fn trim_end(s: Seq<char>) -> Seq<char>
    decreases s.len(),
{
    if s.len() > 0 && is_ws(s.last()) {
        trim_end(s.drop_last())
    } else {
        s
    }
}

/// `s` without its leading white space.
pub open spec fn trim_start(s: Seq<char>) -> Seq<char>
    decreases s.len(),
{
    if s.len() > 0 && is_ws(s[0]) {
        trim_start(s.drop_first())
    } else {
        s
    }
}

/// `s` without leading and trailing white space.
pub open spec fn trim(s: Seq<char>) -> Seq<char> {
    trim_start(trim_end(s))
}

/// Removes trailing white space from `v`.
pub fn trim_end_in_place(v: &mut Vec<char>)
    ensures
        final(v)@ == trim_end(old(v)@),
{
    loop
        invariant
            trim_end(v@) == trim_end(old(v)@),
        decreases v@.len(),
    {
        let n = v.len();
        if n > 0 && char_is_ws(v[n - 1]) {
            v.pop();
        } else {
            return;
        }
    }
}

/// Number of bytes of the UTF-8 encoding of `c`.
pub open spec fn char_utf8_len(c: char) -> nat {
    if (c as u32) < 0x80 {
        1
    } else if (c as u32) < 0x800 {
        2
    } else if (c as u32) < 0x10000 {
        3
    } else {
        4
    }
}

/// Number of bytes of the UTF-8 encoding of `s`.
pub open spec fn utf8_len(s: Seq<char>) -> nat
    decreases s.len(),
{
    if s.len() == 0 {
        0
    } else {
        utf8_len(s.drop_last()) + char_utf8_len(s.last())
    }
}

/// Longer prefixes are longer in bytes.
pub proof fn lemma_utf8_len_take_increasing(s: Seq<char>, a: int, b: int)
    requires
        0 <= a <= b <= s.len(),
    ensures
        utf8_len(s.take(a)) + (b - a) <= utf8_len(s.take(b)),
    decreases b - a,
{
    if a < b {
        lemma_utf8_len_take_increasing(s, a, b - 1);
        assert(s.take(b).drop_last() == s.take(b - 1));
    }
}

/// Number of bytes of the UTF-8 encoding of `c`.
pub fn char_width(c: char) -> (w: usize)
    ensures
        w == char_utf8_len(c),
{
    let v = c as u32;
    if v < 0x80 {
        1
    } else if v < 0x800 {
        2
    } else if v < 0x10000 {
        3
    } else {
        4
    }
}


/// The characters `s[start..end]`.
pub fn slice_chars(s: &[char], start: usize, end: usize) -> (r: Vec<char>)
    requires
        start <= end <= s@.len(),
    ensures
        r@ == s@.subrange(start as int, end as int),
{
    let mut r: Vec<char> = Vec::new();
    let mut i: usize = start;
    while i < end
        invariant
            start <= i <= end <= s@.len(),
            r@ == s@.subrange(start as int, i as int),
        decreases end - i,
    {
        r.push(s[i]);
        i = i + 1;
        assert(r@ =~= s@.subrange(start as int, i as int));
    }
    r
}

/// `s` without leading and trailing white space.
pub fn trim_chars(s: &[char]) -> (r: Vec<char>)
    ensures
        r@ == trim(s@),
{
    let mut end: usize = s.len();
    assert(s@.take(end as int) == s@);
    while end > 0 && char_is_ws(s[end - 1])
        invariant
            end <= s@.len(),
            trim_end(s@) == trim_end(s@.take(end as int)),
        decreases end,
    {
        assert(s@.take(end as int).drop_last() == s@.take(end - 1));
        end = end - 1;
    }
    assert(trim_end(s@.take(end as int)) == s@.take(end as int));
    let mut start: usize = 0;
    while start < end && char_is_ws(s[start])
        invariant
            start <= end <= s@.len(),
            trim(s@) == trim_start(s@.subrange(start as int, end as int)),
        decreases end - start,
    {
        assert(s@.subrange(start as int, end as int).drop_first() == s@.subrange(start + 1, end as int));
        start = start + 1;
    }
    slice_chars(s, start, end)
}

/// A string slice without leading and trailing white space.
pub fn trim_str(s: &str) -> (r: String)
    ensures
        r@ == trim(s@),
{
    let v = str_to_chars(s);
    let t = trim_chars(v.as_slice());
    chars_to_string(t.as_slice())
}

/// The pieces of `s` between newlines (one more piece than newlines).
pub open spec fn raw_pieces(s: Seq<char>) -> Seq<Seq<char>>
    decreases s.len(),
{
    if s.len() == 0 {
        seq![Seq::empty()]
    } else {
        let p = raw_pieces(s.drop_last());
        if s.last() == '\n' {
            p.push(Seq::empty())
        } else {
            p.update(p.len() - 1, p.last().push(s.last()))
        }
    }
}

/// A line without the carriage return of a `\r\n` ending.
pub open spec fn strip_cr(l: Seq<char>) -> Seq<char> {
    if l.len() > 0 && l.last() == '\r' {
        l.drop_last()
    } else {
        l
    }
}

/// The lines of `s` as `str::lines` yields them: split at `\n` or `\r\n`,
/// with no empty line after a final line ending.
pub open spec fn spec_lines(s: Seq<char>) -> Seq<Seq<char>> {
    let p = raw_pieces(s);
    let body = Seq::new((p.len() - 1) as nat, |i: int| strip_cr(p[i]));
    if p.last().len() > 0 {
        body.push(p.last())
    } else {
        body
    }
}

proof fn lemma_raw_pieces_nonempty(s: Seq<char>)
    ensures
        raw_pieces(s).len() >= 1,
    decreases s.len(),
{
    if s.len() > 0 {
        lemma_raw_pieces_nonempty(s.drop_last());
    }
}

/// The lines of a character sequence, as `str::lines` yields them.
pub fn split_lines(s: &[char]) -> (lines: Vec<Vec<char>>)
    ensures
        lines@.map_values(|l: Vec<char>| l@) == spec_lines(s@),
{
    let mut done: Vec<Vec<char>> = Vec::new();
    let mut cur: Vec<char> = Vec::new();
    let mut i: usize = 0;
    while i < s.len()
        invariant
            i <= s@.len(),
            done@.map_values(|l: Vec<char>| l@).push(cur@) == raw_pieces(s@.take(i as int)),
        decreases s@.len() - i,
    {
        proof {
            lemma_raw_pieces_nonempty(s@.take(i as int));
            assert(s@.take(i + 1).drop_last() == s@.take(i as int));
        }
        let ghost before = done@.map_values(|l: Vec<char>| l@);
        if s[i] == '\n' {
            let piece = cur;
            done.push(piece);
            cur = Vec::new();
            assert(done@.map_values(|l: Vec<char>| l@) =~= before.push(piece@));
        } else {
            cur.push(s[i]);
        }
        i = i + 1;
        assert(done@.map_values(|l: Vec<char>| l@).push(cur@) =~= raw_pieces(s@.take(i as int)));
    }
    assert(s@.take(s@.len() as int) == s@);
    let ghost p = raw_pieces(s@);
    let mut lines: Vec<Vec<char>> = Vec::new();
    let mut k: usize = 0;
    while k < done.len()
        invariant
            done@.map_values(|l: Vec<char>| l@).push(cur@) == p,
            k <= done@.len(),
            lines@.len() == k,
            forall|j: int| 0 <= j < k ==> #[trigger] lines@[j]@ == strip_cr(p[j]),
        decreases done@.len() - k,
    {
        assert(p[k as int] == done@[k as int]@);
        let l = &done[k];
        let n = l.len();
        let stripped = if n > 0 && l[n - 1] == '\r' {
            slice_chars(l.as_slice(), 0, n - 1)
        } else {
            slice_chars(l.as_slice(), 0, n)
        };
        proof {
            assert(l@.subrange(0, n as int) == l@);
            if n > 0 {
                assert(l@.subrange(0, n - 1) == l@.drop_last());
            }
        }
        lines.push(stripped);
        k = k + 1;
    }
    if cur.len() > 0 {
        lines.push(cur);
    }
    assert(lines@.map_values(|l: Vec<char>| l@) =~= spec_lines(s@));
    lines
}


/// Which characters separate the pieces of a split.
#[derive(Clone, Copy)]
pub enum Separator {
    /// Unicode white space.
    Whitespace,
    /// The list separators of trigger lists: `、`, `,` and `，`.
    ListMark,
}

/// Whether `c` separates pieces under `sep`.
pub open spec fn is_separator(sep: Separator, c: char) -> bool {
    match sep {
        Separator::Whitespace => is_ws(c),
        Separator::ListMark => c == '、' || c == ',' || c == '，',
    }
}

/// Whether `c` separates pieces under `sep`.
pub fn char_is_separator(sep: Separator, c: char) -> (b: bool)
    ensures
        b == is_separator(sep, c),
{
    match sep {
        Separator::Whitespace => char_is_ws(c),
        Separator::ListMark => c == '、' || c == ',' || c == '，',
    }
}

/// The pieces of `s` between separators (one more piece than separators).
pub open spec fn split_by(s: Seq<char>, sep: Separator) -> Seq<Seq<char>>
    decreases s.len(),
{
    if s.len() == 0 {
        seq![Seq::empty()]
    } else {
        let p = split_by(s.drop_last(), sep);
        if is_separator(sep, s.last()) {
            p.push(Seq::empty())
        } else {
            p.update(p.len() - 1, p.last().push(s.last()))
        }
    }
}

proof fn lemma_split_by_nonempty(s: Seq<char>, sep: Separator)
    ensures
        split_by(s, sep).len() >= 1,
    decreases s.len(),
{
    if s.len() > 0 {
        lemma_split_by_nonempty(s.drop_last(), sep);
    }
}

/// The non-empty pieces among `ps`, in order.
pub open spec fn keep_nonempty(ps: Seq<Seq<char>>) -> Seq<Seq<char>>
    decreases ps.len(),
{
    if ps.len() == 0 {
        Seq::empty()
    } else {
        keep_nonempty(ps.drop_last()) + if ps.last().len() > 0 {
            seq![ps.last()]
        } else {
            Seq::empty()
        }
    }
}

/// The words of `s`, as `str::split_whitespace` yields them.
pub open spec fn words(s: Seq<char>) -> Seq<Seq<char>> {
    keep_nonempty(split_by(s, Separator::Whitespace))
}

/// The views of a vector of character vectors.
pub open spec fn pieces_view(v: Seq<Vec<char>>) -> Seq<Seq<char>> {
    v.map_values(|l: Vec<char>| l@)
}

/// The pieces of `s` between separators.
pub fn split_chars(s: &[char], sep: Separator) -> (pieces: Vec<Vec<char>>)
    ensures
        pieces_view(pieces@) == split_by(s@, sep),
{
    let mut done: Vec<Vec<char>> = Vec::new();
    let mut cur: Vec<char> = Vec::new();
    let mut i: usize = 0;
    while i < s.len()
        invariant
            i <= s@.len(),
            pieces_view(done@).push(cur@) == split_by(s@.take(i as int), sep),
        decreases s@.len() - i,
    {
        proof {
            lemma_split_by_nonempty(s@.take(i as int), sep);
            assert(s@.take(i + 1).drop_last() == s@.take(i as int));
        }
        let ghost before = pieces_view(done@);
        if char_is_separator(sep, s[i]) {
            let piece = cur;
            done.push(piece);
            cur = Vec::new();
            assert(pieces_view(done@) =~= before.push(piece@));
        } else {
            cur.push(s[i]);
        }
        i = i + 1;
        assert(pieces_view(done@).push(cur@) =~= split_by(s@.take(i as int), sep));
    }
    assert(s@.take(s@.len() as int) == s@);
    done.push(cur);
    assert(pieces_view(done@) =~= split_by(s@, sep));
    done
}

/// The non-empty pieces among `ps`, in order.
pub fn keep_nonempty_pieces(ps: Vec<Vec<char>>) -> (r: Vec<Vec<char>>)
    ensures
        pieces_view(r@) == keep_nonempty(pieces_view(ps@)),
{
    let ghost all = pieces_view(ps@);
    let mut rest = ps;
    let total = rest.len();
    let mut r: Vec<Vec<char>> = Vec::new();
    let mut i: usize = 0;
    while rest.len() > 0
        invariant
            all.len() == total,
            i + rest@.len() == total,
            forall|k: int| 0 <= k < rest@.len() ==> #[trigger] rest@[k]@ == all[i + k],
            pieces_view(r@) == keep_nonempty(all.take(i as int)),
        decreases rest@.len(),
    {
        let piece = rest.remove(0);
        assert(all.take(i + 1).drop_last() == all.take(i as int));
        assert(all.take(i + 1).last() == piece@);
        let ghost before = pieces_view(r@);
        if piece.len() > 0 {
            r.push(piece);
            assert(pieces_view(r@) =~= before + seq![all[i as int]]);
        }
        i = i + 1;
    }
    assert(all.take(total as int) == all);
    r
}

/// The words of a character sequence.
pub fn split_words(s: &[char]) -> (r: Vec<Vec<char>>)
    ensures
        pieces_view(r@) == words(s@),
{
    let pieces = split_chars(s, Separator::Whitespace);
    keep_nonempty_pieces(pieces)
}

/// Strings holding the given character vectors.
pub fn pieces_to_strings(ps: &Vec<Vec<char>>) -> (r: Vec<String>)
    ensures
        r@.map_values(|s: String| s@) == pieces_view(ps@),
{
    let mut r: Vec<String> = Vec::new();
    let mut i: usize = 0;
    while i < ps.len()
        invariant
            i <= ps@.len(),
            r@.len() == i,
            forall|k: int| 0 <= k < i ==> #[trigger] r@[k]@ == ps@[k]@,
        decreases ps@.len() - i,
    {
        r.push(chars_to_string(ps[i].as_slice()));
        i = i + 1;
    }
    assert(r@.map_values(|s: String| s@) =~= pieces_view(ps@));
    r
}

/// `parts` joined by `sep`.
pub open spec fn join(parts: Seq<Seq<char>>, sep: Seq<char>) -> Seq<char>
    decreases parts.len(),
{
    if parts.len() == 0 {
        Seq::empty()
    } else if parts.len() == 1 {
        parts[0]
    } else {
        join(parts.drop_last(), sep) + sep + parts.last()
    }
}

/// Joins parts with a separator.
pub fn join_chars(parts: &Vec<Vec<char>>, sep: &str) -> (r: Vec<char>)
    ensures
        r@ == join(parts@.map_values(|c: Vec<char>| c@), sep@),
{
    let ghost pv = parts@.map_values(|c: Vec<char>| c@);
    let mut out: Vec<char> = Vec::new();
    let mut i: usize = 0;
    while i < parts.len()
        invariant
            pv == parts@.map_values(|c: Vec<char>| c@),
            i <= parts@.len(),
            out@ == join(pv.take(i as int), sep@),
        decreases parts@.len() - i,
    {
        assert(pv.take(i + 1).drop_last() == pv.take(i as int));
        if i > 0 {
            push_str(&mut out, sep);
        }
        push_chars(&mut out, parts[i].as_slice());
        i = i + 1;
        assert(pv.take(i as int).last() == parts@[i - 1]@);
    }
    assert(pv.take(parts@.len() as int) == pv);
    out
}


/// A first piece that starts with a non-separator is not empty.
proof fn lemma_split_by_first_nonempty(s: Seq<char>, sep: Separator)
    requires
        s.len() > 0,
        !is_separator(sep, s[0]),
    ensures
        split_by(s, sep).len() >= 1,
        split_by(s, sep)[0].len() > 0,
    decreases s.len(),
{
    lemma_split_by_nonempty(s, sep);
    if s.len() > 1 {
        lemma_split_by_first_nonempty(s.drop_last(), sep);
    } else {
        lemma_split_by_nonempty(s.drop_last(), sep);
    }
}

/// A list whose first piece is not empty keeps at least that piece.
proof fn lemma_keep_nonempty_first(ps: Seq<Seq<char>>)
    requires
        ps.len() > 0,
        ps[0].len() > 0,
    ensures
        keep_nonempty(ps).len() > 0,
    decreases ps.len(),
{
    if ps.len() > 1 {
        lemma_keep_nonempty_first(ps.drop_last());
    }
}

/// The leading white space is gone from a trimmed start.
proof fn lemma_trim_start_first(s: Seq<char>)
    ensures
        trim_start(s).len() > 0 ==> !is_ws(trim_start(s)[0]),
    decreases s.len(),
{
    if s.len() > 0 && is_ws(s[0]) {
        lemma_trim_start_first(s.drop_first());
    }
}

/// A non-empty trimmed text has at least one word.
pub proof fn lemma_trimmed_has_word(s: Seq<char>)
    requires
        trim(s).len() > 0,
    ensures
        words(trim(s)).len() > 0,
{
    lemma_trim_start_first(trim_end(s));
    lemma_split_by_first_nonempty(trim(s), Separator::Whitespace);
    lemma_keep_nonempty_first(split_by(trim(s), Separator::Whitespace));
}


/// A text without trailing white space ends in a character that is not
/// white space.
pub proof fn lemma_trim_end_last(s: Seq<char>)
    ensures
        trim_end(s).len() == 0 || !is_ws(trim_end(s).last()),
        trim_end(s).len() <= s.len(),
        trim_end(s) == s.take(trim_end(s).len() as int),
    decreases s.len(),
{
    if s.len() > 0 && is_ws(s.last()) {
        lemma_trim_end_last(s.drop_last());
        assert(s.drop_last().take(trim_end(s).len() as int) =~= s.take(trim_end(s).len() as int));
    } else {
        assert(s.take(s.len() as int) =~= s);
    }
}

/// Trimming the start keeps a suffix that starts with a character that is
/// not white space.
pub proof fn lemma_trim_start_suffix(s: Seq<char>)
    ensures
        trim_start(s).len() == 0 || !is_ws(trim_start(s)[0]),
        trim_start(s).len() <= s.len(),
        trim_start(s) == s.skip(s.len() - trim_start(s).len()),
    decreases s.len(),
{
    if s.len() > 0 && is_ws(s[0]) {
        lemma_trim_start_suffix(s.drop_first());
        assert(s.drop_first().skip(s.drop_first().len() - trim_start(s).len()) =~= s.skip(
            s.len() - trim_start(s).len(),
        ));
    } else {
        assert(s.skip(0) =~= s);
    }
}

/// A trimmed text neither starts nor ends with white space.
pub proof fn lemma_trim_ends(s: Seq<char>)
    ensures
        trim(s).len() == 0 || (!is_ws(trim(s)[0]) && !is_ws(trim(s).last())),
{
    lemma_trim_end_last(s);
    lemma_trim_start_suffix(trim_end(s));
    let t = trim_end(s);
    let r = trim_start(t);
    if r.len() > 0 {
        assert(r.last() == t.last());
    }
}

} // verus!
