//! Character-level text handling: lines, whitespace trimming, substring
//! search and decimal numbers, each with the meaning that std gives the
//! corresponding `str` operation.
use vstd::prelude::*;
use vstd::string::StringSliceAdditionalSpecFns;
use vstd::utf8::{decode_utf8, encode_utf8, is_char_boundary};

verus! {

// ---------------------------------------------------------------------------
// Specifications
// ---------------------------------------------------------------------------

/// Unicode `White_Space`, the property that `char::is_whitespace` tests.
pub open spec fn is_ws(c: char) -> bool {
    ||| c == ' '
    ||| ('\u{9}' <= c && c <= '\u{d}')
    ||| c == '\u{85}'
    ||| c == '\u{a0}'
    ||| c == '\u{1680}'
    ||| ('\u{2000}' <= c && c <= '\u{200a}')
    ||| c == '\u{2028}'
    ||| c == '\u{2029}'
    ||| c == '\u{202f}'
    ||| c == '\u{205f}'
    ||| c == '\u{3000}'
}

/// `str::trim_start`: the text without its leading whitespace.
pub open spec fn trim_start(s: Seq<char>) -> Seq<char>
    decreases s.len(),
{
    if s.len() > 0 && is_ws(s[0]) {
        trim_start(s.drop_first())
    } else {
        s
    }
}

/// `str::trim_end`: the text without its trailing whitespace.
pub open spec fn trim_end(s: Seq<char>) -> Seq<char>
    decreases s.len(),
{
    if s.len() > 0 && is_ws(s.last()) {
        trim_end(s.drop_last())
    } else {
        s
    }
}

/// `str::trim`: whitespace removed at both ends.
pub open spec fn trim(s: Seq<char>) -> Seq<char> {
    trim_end(trim_start(s))
}

/// The pieces of `s` between `'\n'` characters (`str::split('\n')`); never empty.
pub open spec fn split_nl(s: Seq<char>) -> Seq<Seq<char>>
    decreases s.len(),
{
    if s.len() == 0 {
        seq![Seq::<char>::empty()]
    } else {
        let p = split_nl(s.drop_last());
        if s.last() == '\n' {
            p.push(Seq::<char>::empty())
        } else {
            p.update(p.len() - 1, p.last().push(s.last()))
        }
    }
}

/// A line that ended in `"\r\n"` loses its `'\r'`.
pub open spec fn strip_cr(l: Seq<char>) -> Seq<char> {
    if l.len() > 0 && l.last() == '\r' {
        l.drop_last()
    } else {
        l
    }
}

/// `str::lines`: the lines of `s`, split at `"\n"` or `"\r\n"`; a final line
/// ending is optional and a final empty piece is not a line.
pub open spec fn lines(s: Seq<char>) -> Seq<Seq<char>> {
    let p = split_nl(s);
    let n: int = if p.last().len() == 0 { p.len() - 1 } else { p.len() as int };
    Seq::new(n as nat, |i: int| if i < p.len() - 1 { strip_cr(p[i]) } else { p[i] })
}

/// The first line of `s`, or `default` when `s` has none (`lines().next().unwrap_or(default)`).
pub open spec fn first_line_or(s: Seq<char>, default: Seq<char>) -> Seq<char> {
    if lines(s).len() > 0 {
        lines(s)[0]
    } else {
        default
    }
}

/// The first position at or after `i` where `pat` occurs in `s` (`str::find`).
pub open spec fn find_from(s: Seq<char>, pat: Seq<char>, i: nat) -> Option<nat>
    decreases s.len() + 1 - i,
{
    if i + pat.len() > s.len() {
        None
    } else if s.subrange(i as int, (i + pat.len()) as int) == pat {
        Some(i)
    } else {
        find_from(s, pat, i + 1)
    }
}

/// The digit character of `d < 10`.
pub open spec fn digit_char(d: nat) -> char {
    if d == 0 {
        '0'
    } else if d == 1 {
        '1'
    } else if d == 2 {
        '2'
    } else if d == 3 {
        '3'
    } else if d == 4 {
        '4'
    } else if d == 5 {
        '5'
    } else if d == 6 {
        '6'
    } else if d == 7 {
        '7'
    } else if d == 8 {
        '8'
    } else {
        '9'
    }
}

/// The decimal notation of `n`, as `to_string` writes it.
pub open spec fn decimal(n: nat) -> Seq<char>
    decreases n,
{
    if n < 10 {
        seq![digit_char(n)]
    } else {
        decimal(n / 10).push(digit_char(n % 10))
    }
}

pub open spec fn is_digit(c: char) -> bool {
    '0' <= c && c <= '9'
}

pub open spec fn digit_value(c: char) -> nat {
    ((c as int) - ('0' as int)) as nat
}

/// The number that a string of decimal digits denotes.
pub open spec fn digits_value(s: Seq<char>) -> nat
    decreases s.len(),
{
    if s.len() == 0 {
        0
    } else {
        digits_value(s.drop_last()) * 10 + digit_value(s.last())
    }
}

pub open spec fn all_digits(s: Seq<char>) -> bool {
    forall|i: int| 0 <= i < s.len() ==> is_digit(#[trigger] s[i])
}

/// `str::parse::<usize>`: an optional `'+'`, then at least one decimal digit
/// and nothing else, denoting a number that fits in a `usize`.
pub open spec fn parse_usize(s: Seq<char>) -> Option<nat> {
    let d = if s.len() > 0 && s[0] == '+' { s.drop_first() } else { s };
    if d.len() > 0 && all_digits(d) && digits_value(d) <= usize::MAX {
        Some(digits_value(d))
    } else {
        None
    }
}

/// The views of a sequence of strings.
pub open spec fn strings_view(v: Seq<String>) -> Seq<Seq<char>> {
    v.map_values(|s: String| s@)
}

/// The views of a sequence of character vectors.
pub open spec fn char_vecs_view(v: Seq<Vec<char>>) -> Seq<Seq<char>> {
    v.map_values(|s: Vec<char>| s@)
}

/// The text that follows the first `k` bytes of the UTF-8 encoding of `s`
/// (what `&s[k..]` denotes when `k` falls on a character boundary).
pub open spec fn byte_tail(s: Seq<char>, k: int) -> Seq<char> {
    let b = encode_utf8(s);
    decode_utf8(b.subrange(k, b.len() as int))
}

/// Whether `&s[k..]` can be taken: byte `k` starts a character or ends the text.
pub open spec fn byte_boundary(s: Seq<char>, k: int) -> bool {
    is_char_boundary(encode_utf8(s), k)
}

// ---------------------------------------------------------------------------
// Lemmas
// ---------------------------------------------------------------------------

pub proof fn lemma_split_nl_nonempty(s: Seq<char>)
    ensures
        split_nl(s).len() >= 1,
    decreases s.len(),
{
    if s.len() > 0 {
        lemma_split_nl_nonempty(s.drop_last());
    }
}

/// A prefix of a string of digits denotes no more than the whole string.
pub proof fn lemma_digits_value_prefix(s: Seq<char>, j: int)
    requires
        0 <= j <= s.len(),
    ensures
        digits_value(s.take(j)) <= digits_value(s),
    decreases s.len(),
{
    if j < s.len() {
        lemma_digits_value_prefix(s.drop_last(), j);
        assert(s.drop_last().take(j) =~= s.take(j));
    } else {
        assert(s.take(j) =~= s);
    }
}

proof fn lemma_digit_char(d: nat)
    requires
        d < 10,
    ensures
        is_digit(digit_char(d)),
        digit_value(digit_char(d)) == d,
{
    assert(('0' as int) == 48);
    assert(('9' as int) == 57);
    if d == 1 { assert(('1' as int) == 49); }
    if d == 2 { assert(('2' as int) == 50); }
    if d == 3 { assert(('3' as int) == 51); }
    if d == 4 { assert(('4' as int) == 52); }
    if d == 5 { assert(('5' as int) == 53); }
    if d == 6 { assert(('6' as int) == 54); }
    if d == 7 { assert(('7' as int) == 55); }
    if d == 8 { assert(('8' as int) == 56); }
}

proof fn lemma_decimal_digits(n: nat)
    ensures
        decimal(n).len() > 0,
        all_digits(decimal(n)),
        digits_value(decimal(n)) == n,
        decimal(n)[0] != '+',
    decreases n,
{
    lemma_digit_char(n % 10);
    if n < 10 {
        let d = decimal(n);
        assert(d.drop_last() =~= Seq::<char>::empty());
        assert(is_digit(d[0]));
        assert(n % 10 == n);
        assert(digits_value(d) == digits_value(d.drop_last()) * 10 + digit_value(d.last()));
    } else {
        lemma_decimal_digits(n / 10);
        let d = decimal(n);
        assert(d.last() == digit_char(n % 10));
        assert(digits_value(d) == digits_value(d.drop_last()) * 10 + digit_value(d.last()));
        assert(d.drop_last() =~= decimal(n / 10));
        assert forall|i: int| 0 <= i < d.len() implies is_digit(#[trigger] d[i]) by {
            if i < d.len() - 1 {
                assert(d[i] == decimal(n / 10)[i]);
            }
        }
    }
}

/// Reading back the decimal notation of a `usize` gives the number.
pub proof fn lemma_parse_decimal(n: usize)
    ensures
        parse_usize(decimal(n as nat)) == Some(n as nat),
{
    lemma_decimal_digits(n as nat);
}

// ---------------------------------------------------------------------------
// Executable functions
// ---------------------------------------------------------------------------

/// `String::push` from std appends one character at the end of the string.
#[verifier::external_body]
pub(crate) fn push_char(s: &mut String, c: char)
    ensures
        final(s)@ == old(s)@.push(c),
{
    s.push(c);
}

/// `String::pop` from std removes the last character, if there is one.
#[verifier::external_body]
pub(crate) fn pop_char(s: &mut String)
    ensures
        final(s)@ == (if old(s)@.len() > 0 {
            old(s)@.drop_last()
        } else {
            old(s)@
        }),
{
    s.pop();
}

/// The characters of `s`, in order.
pub fn chars_of(s: &str) -> (v: Vec<char>)
    ensures
        v@ == s@,
{
    let mut v: Vec<char> = Vec::new();
    for c in it: s.chars()
        invariant
            v@ == it.seq().take(it.index() as int),
    {
        v.push(c);
    }
    assert(v@ =~= s@);
    v
}

/// The lines of `s` (`s.lines()`), each as a string.
pub fn lines_of(s: &str) -> (r: Vec<String>)
    ensures
        strings_view(r@) == lines(s@),
{
    let v = chars_of(s);
    let ls = split_lines(&v);
    let mut r: Vec<String> = Vec::new();
    for i in 0..ls.len()
        invariant
            char_vecs_view(ls@) == lines(s@),
            v@ == s@,
            r@.len() == i,
            forall|k: int| 0 <= k < i ==> #[trigger] r@[k]@ == lines(s@)[k],
    {
        let l = &ls[i];
        assert(l@ == lines(s@)[i as int]);
        r.push(string_of(l, 0, l.len()));
        assert(l@.subrange(0, l@.len() as int) =~= l@);
    }
    assert(strings_view(r@) =~= lines(s@));
    r
}

/// Whether byte `k` of `s` starts a character or ends the text.
pub fn is_byte_boundary(s: &str, k: usize) -> (b: bool)
    ensures
        b == byte_boundary(s@, k as int),
{
    s.is_char_boundary(k)
}

/// `&s[k..]` as a string.
pub fn tail_from_byte(s: &str, k: usize) -> (r: String)
    requires
        byte_boundary(s@, k as int),
    ensures
        r@ == byte_tail(s@, k as int),
{
    let (_, t) = s.split_at(k);
    proof {
        vstd::utf8::encode_utf8_decode_utf8(t@);
        assert(t.spec_bytes() =~= encode_utf8(s@).subrange(k as int, encode_utf8(s@).len() as int));
    }
    t.to_owned()
}

/// The string made of `v[from..to]`.
pub fn string_of(v: &Vec<char>, from: usize, to: usize) -> (s: String)
    requires
        from <= to <= v@.len(),
    ensures
        s@ == v@.subrange(from as int, to as int),
{
    let mut s = String::new();
    let mut i = from;
    while i < to
        invariant
            from <= i <= to <= v@.len(),
            s@ == v@.subrange(from as int, i as int),
        decreases to - i,
    {
        push_char(&mut s, v[i]);
        assert(s@ =~= v@.subrange(from as int, i + 1));
        i += 1;
    }
    s
}

/// `s` followed by `t`.
pub fn concat_str(s: &str, t: &str) -> (r: String)
    ensures
        r@ == s@ + t@,
{
    let tv = chars_of(t);
    let mut r = s.to_owned();
    let mut i: usize = 0;
    while i < tv.len()
        invariant
            i <= tv@.len(),
            tv@ == t@,
            r@ == s@ + t@.take(i as int),
        decreases tv@.len() - i,
    {
        push_char(&mut r, tv[i]);
        assert(r@ =~= s@ + t@.take(i + 1));
        i += 1;
    }
    assert(t@.take(i as int) =~= t@);
    r
}

/// Where `pat` first occurs in `v[lo..]`, counted from `lo` (`str::find`).
pub fn find_in(v: &Vec<char>, lo: usize, pat: &Vec<char>) -> (r: Option<usize>)
    requires
        lo <= v@.len(),
    ensures
        match r {
            Some(p) => find_from(v@.skip(lo as int), pat@, 0) == Some(p as nat) && p + pat@.len()
                <= v@.len() - lo,
            None => find_from(v@.skip(lo as int), pat@, 0) is None,
        },
{
    let ghost rest = v@.skip(lo as int);
    let vl = v.len();
    let n = vl - lo;
    let m = pat.len();
    let mut j: usize = 0;
    while j <= n && m <= n - j
        invariant
            rest == v@.skip(lo as int),
            n == rest.len(),
            n == v@.len() - lo,
            vl == v@.len(),
            m == pat@.len(),
            lo <= v@.len(),
            find_from(rest, pat@, 0) == find_from(rest, pat@, j as nat),
        decreases n + 1 - j,
    {
        let mut t: usize = 0;
        let mut same = true;
        while t < m
            invariant
                j + m <= n,
                n == rest.len(),
                n == v@.len() - lo,
                vl == v@.len(),
                rest == v@.skip(lo as int),
                m == pat@.len(),
                lo <= v@.len(),
                t <= m,
                same == (forall|q: int| 0 <= q < t ==> rest[j + q] == pat@[q]),
            decreases m - t,
        {
            if v[lo + j + t] != pat[t] {
                same = false;
            }
            t += 1;
        }
        if same {
            assert(rest.subrange(j as int, j + m) =~= pat@);
            return Some(j);
        }
        assert(rest.subrange(j as int, j + m) != pat@) by {
            let q = choose|q: int| 0 <= q < m && rest[j + q] != pat@[q];
            assert(rest.subrange(j as int, j + m)[q] == rest[j + q]);
        }
        j += 1;
    }
    None
}

/// Whether `c` is whitespace (`char::is_whitespace`).
pub fn is_whitespace(c: char) -> (b: bool)
    ensures
        b == is_ws(c),
{
    c == ' ' || ('\u{9}' <= c && c <= '\u{d}') || c == '\u{85}' || c == '\u{a0}' || c
        == '\u{1680}' || ('\u{2000}' <= c && c <= '\u{200a}') || c == '\u{2028}' || c
        == '\u{2029}' || c == '\u{202f}' || c == '\u{205f}' || c == '\u{3000}'
}

/// Where `v[lo..hi]` starts once its leading whitespace is skipped.
pub fn trim_start_index(v: &Vec<char>, lo: usize, hi: usize) -> (r: usize)
    requires
        lo <= hi <= v@.len(),
    ensures
        lo <= r <= hi,
        v@.subrange(r as int, hi as int) == trim_start(v@.subrange(lo as int, hi as int)),
{
    let mut i = lo;
    while i < hi && is_whitespace(v[i])
        invariant
            lo <= i <= hi <= v@.len(),
            trim_start(v@.subrange(lo as int, hi as int)) == trim_start(
                v@.subrange(i as int, hi as int),
            ),
        decreases hi - i,
    {
        assert(v@.subrange(i as int, hi as int).drop_first() =~= v@.subrange(i + 1, hi as int));
        i += 1;
    }
    i
}

/// Where `v[lo..hi]` ends once its trailing whitespace is dropped.
pub fn trim_end_index(v: &Vec<char>, lo: usize, hi: usize) -> (r: usize)
    requires
        lo <= hi <= v@.len(),
    ensures
        lo <= r <= hi,
        v@.subrange(lo as int, r as int) == trim_end(v@.subrange(lo as int, hi as int)),
{
    let mut j = hi;
    while j > lo && is_whitespace(v[j - 1])
        invariant
            lo <= j <= hi <= v@.len(),
            trim_end(v@.subrange(lo as int, hi as int)) == trim_end(
                v@.subrange(lo as int, j as int),
            ),
        decreases j - lo,
    {
        assert(v@.subrange(lo as int, j as int).drop_last() =~= v@.subrange(lo as int, j - 1));
        j -= 1;
    }
    j
}

/// The lines of `v`, as `str::lines` splits them.
pub fn split_lines(v: &Vec<char>) -> (res: Vec<Vec<char>>)
    ensures
        char_vecs_view(res@) == lines(v@),
{
    let mut out: Vec<Vec<char>> = Vec::new();
    let mut cur: Vec<char> = Vec::new();
    let n = v.len();
    proof {
        lemma_split_nl_nonempty(v@.take(0));
        assert(v@.take(0) =~= Seq::<char>::empty());
    }
    for i in 0..n
        invariant
            n == v@.len(),
            split_nl(v@.take(i as int)).len() == out@.len() + 1,
            forall|k: int|
                0 <= k < out@.len() ==> #[trigger] out@[k]@ == strip_cr(
                    split_nl(v@.take(i as int))[k],
                ),
            cur@ == split_nl(v@.take(i as int)).last(),
    {
        let ghost pre = v@.take(i as int);
        proof {
            assert(v@.take(i + 1).drop_last() =~= pre);
            lemma_split_nl_nonempty(pre);
        }
        if v[i] == '\n' {
            let mut line = cur;
            if line.len() > 0 && line[line.len() - 1] == '\r' {
                line.pop();
                assert(line@ =~= strip_cr(split_nl(pre).last()));
            }
            out.push(line);
            cur = Vec::new();
        } else {
            cur.push(v[i]);
        }
        assert forall|k: int| 0 <= k < out@.len() implies #[trigger] out@[k]@ == strip_cr(
            split_nl(v@.take(i + 1))[k],
        ) by {}
    }
    let ghost p = split_nl(v@.take(n as int));
    assert(v@.take(n as int) =~= v@);
    proof {
        lemma_split_nl_nonempty(v@);
    }
    if cur.len() > 0 {
        out.push(cur);
    }
    assert(char_vecs_view(out@) =~= lines(v@));
    out
}

/// The digit character for `d < 10`.
fn digit(d: usize) -> (c: char)
    requires
        d < 10,
    ensures
        c == digit_char(d as nat),
{
    if d == 0 {
        '0'
    } else if d == 1 {
        '1'
    } else if d == 2 {
        '2'
    } else if d == 3 {
        '3'
    } else if d == 4 {
        '4'
    } else if d == 5 {
        '5'
    } else if d == 6 {
        '6'
    } else if d == 7 {
        '7'
    } else if d == 8 {
        '8'
    } else {
        '9'
    }
}

/// Appends the decimal notation of `n` to `s`.
pub fn push_decimal(s: &mut String, n: usize)
    ensures
        final(s)@ == old(s)@ + decimal(n as nat),
    decreases n,
{
    if n >= 10 {
        push_decimal(s, n / 10);
    }
    push_char(s, digit(n % 10));
    assert(final(s)@ =~= old(s)@ + decimal(n as nat));
}

/// The decimal notation of `n` (`n.to_string()`).
pub fn usize_to_string(n: usize) -> (s: String)
    ensures
        s@ == decimal(n as nat),
{
    let mut s = String::new();
    push_decimal(&mut s, n);
    assert(s@ =~= decimal(n as nat));
    s
}

/// `s.parse::<usize>().ok()`.
pub fn parse_usize_str(s: &str) -> (r: Option<usize>)
    ensures
        match r {
            Some(n) => parse_usize(s@) == Some(n as nat),
            None => parse_usize(s@) is None,
        },
{
    let v = chars_of(s);
    let start: usize = if v.len() > 0 && v[0] == '+' { 1 } else { 0 };
    let ghost d = if v@.len() > 0 && v@[0] == '+' { v@.drop_first() } else { v@ };
    assert(d =~= v@.subrange(start as int, v@.len() as int));
    if start >= v.len() {
        return None;
    }
    let mut acc: usize = 0;
    let mut i = start;
    while i < v.len()
        invariant
            start <= i <= v@.len(),
            v@ == s@,
            d == (if s@.len() > 0 && s@[0] == '+' { s@.drop_first() } else { s@ }),
            d == v@.subrange(start as int, v@.len() as int),
            all_digits(d.take(i - start)),
            acc as nat == digits_value(d.take(i - start)),
        decreases v@.len() - i,
    {
        let c = v[i];
        if !('0' <= c && c <= '9') {
            assert(!is_digit(d[i - start]));
            return None;
        }
        let ghost k = i - start;
        assert(d.take(k + 1).drop_last() =~= d.take(k));
        assert(d.take(k + 1).last() == c);
        let dv = (c as u32 - '0' as u32) as usize;
        assert(dv == digit_value(c));
        assert(digits_value(d.take(k + 1)) == digits_value(d.take(k)) * 10 + dv);
        let m = acc.checked_mul(10);
        if m.is_none() {
            proof {
                lemma_digits_value_prefix(d, k + 1);
                assert(digits_value(d) > usize::MAX);
            }
            return None;
        }
        let next = m.unwrap().checked_add(dv);
        if next.is_none() {
            proof {
                lemma_digits_value_prefix(d, k + 1);
                assert(digits_value(d) > usize::MAX);
            }
            return None;
        }
        acc = next.unwrap();
        i += 1;
    }
    assert(d.take(i - start) =~= d);
    Some(acc)
}

} // verus!
