//! Character-level helpers over the text that helper programs print and that
//! paths and file names hold.
use vstd::prelude::*;

verus! {

/// Unicode `White_Space`: the characters that `char::is_whitespace` accepts.
pub open spec fn is_ws(c: char) -> bool {
    let u = c as u32;
    (0x09 <= u && u <= 0x0d) || u == 0x20 || u == 0x85 || u == 0xa0 || u == 0x1680
        || (0x2000 <= u && u <= 0x200a) || u == 0x2028 || u == 0x2029 || u == 0x202f
        || u == 0x205f || u == 0x3000
}

/// `s` without its leading white space.
pub open spec fn trim_start(s: Seq<char>) -> Seq<char>
    decreases s.len(),
{
    if s.len() > 0 && is_ws(s[0]) {
        trim_start(s.drop_first())
    } else {
        s
    }
}

/// `s` without its trailing white space.
pub open spec fn trim_end(s: Seq<char>) -> Seq<char>
    decreases s.len(),
{
    if s.len() > 0 && is_ws(s.last()) {
        trim_end(s.drop_last())
    } else {
        s
    }
}

/// `s` without white space at either end.
pub open spec fn trimmed(s: Seq<char>) -> Seq<char> {
    trim_end(trim_start(s))
}

/// Whether `s` begins with `p`.
pub open spec fn has_prefix(s: Seq<char>, p: Seq<char>) -> bool {
    p.len() <= s.len() && s.take(p.len() as int) == p
}

/// Whether `t` occurs in `s` as a contiguous run.
pub open spec fn contains_run(s: Seq<char>, t: Seq<char>) -> bool {
    exists|i: int| 0 <= i && i + t.len() <= s.len() && #[trigger] s.subrange(i, i + t.len()) == t
}

/// The characters of `s`, in order.
pub fn chars_of(s: &str) -> (r: Vec<char>)
    ensures
        r@ == s@,
{
    let mut r: Vec<char> = Vec::new();
    for c in it: s.chars()
        invariant
            it.seq() == s@,
            r@ == it.seq().take(it.index() as int),
    {
        r.push(c);
    }
    r
}

/// Whether `c` is white space, as `char::is_whitespace` decides it.
pub fn is_whitespace(c: char) -> (r: bool)
    ensures
        r == is_ws(c),
{
    let u = c as u32;
    (0x09 <= u && u <= 0x0d) || u == 0x20 || u == 0x85 || u == 0xa0 || u == 0x1680
        || (0x2000 <= u && u <= 0x200a) || u == 0x2028 || u == 0x2029 || u == 0x202f
        || u == 0x205f || u == 0x3000
}

/// Index of the first character of `s[lo..hi]` that is not white space, or `hi`.
fn skip_ws_forward(cs: &Vec<char>, lo: usize, hi: usize) -> (i: usize)
    requires
        lo <= hi <= cs@.len(),
    ensures
        lo <= i <= hi,
        trim_start(cs@.subrange(lo as int, hi as int)) == cs@.subrange(i as int, hi as int),
{
    let mut i = lo;
    while i < hi && is_whitespace(cs[i])
        invariant
            lo <= i <= hi <= cs@.len(),
            trim_start(cs@.subrange(lo as int, hi as int)) == trim_start(
                cs@.subrange(i as int, hi as int),
            ),
        decreases hi - i,
    {
        assert(cs@.subrange(i as int, hi as int).drop_first() =~= cs@.subrange(
            i + 1,
            hi as int,
        ));
        i = i + 1;
    }
    i
}

/// Index just past the last character of `s[lo..hi]` that is not white space, or `lo`.
fn skip_ws_backward(cs: &Vec<char>, lo: usize, hi: usize) -> (j: usize)
    requires
        lo <= hi <= cs@.len(),
    ensures
        lo <= j <= hi,
        trim_end(cs@.subrange(lo as int, hi as int)) == cs@.subrange(lo as int, j as int),
{
    let mut j = hi;
    while j > lo && is_whitespace(cs[j - 1])
        invariant
            lo <= j <= hi <= cs@.len(),
            trim_end(cs@.subrange(lo as int, hi as int)) == trim_end(
                cs@.subrange(lo as int, j as int),
            ),
        decreases j - lo,
    {
        assert(cs@.subrange(lo as int, j as int).drop_last() =~= cs@.subrange(
            lo as int,
            j - 1,
        ));
        j = j - 1;
    }
    j
}

/// `s` without white space at either end, as `str::trim` gives it.
pub fn trim(s: &str) -> (r: &str)
    ensures
        r@ == trimmed(s@),
{
    let cs = chars_of(s);
    let n = cs.len();
    let i = skip_ws_forward(&cs, 0, n);
    let j = skip_ws_backward(&cs, i, n);
    assert(cs@.subrange(0, n as int) =~= s@);
    s.substring_char(i, j)
}

/// Whether `c` is one of the ASCII digits `0` to `9`.
pub open spec fn is_digit(c: char) -> bool {
    '0' as u32 <= c as u32 && c as u32 <= '9' as u32
}

/// The number that a run of ASCII digits writes in base ten.
pub open spec fn digits_value(s: Seq<char>) -> nat
    decreases s.len(),
{
    if s.len() == 0 {
        0
    } else {
        digits_value(s.drop_last()) * 10 + (s.last() as u32 - '0' as u32) as nat
    }
}

/// Whether every character of `d` is an ASCII digit.
pub open spec fn all_digits(d: Seq<char>) -> bool {
    forall|k: int| 0 <= k < d.len() ==> is_digit(#[trigger] d[k])
}

/// `s` without one leading `+`, if it has one.
pub open spec fn without_plus(s: Seq<char>) -> Seq<char> {
    if s.len() > 0 && s[0] == '+' {
        s.drop_first()
    } else {
        s
    }
}

/// What `u32::from_str` gives: an optional `+`, then one or more ASCII digits
/// whose value fits in a `u32`.
pub open spec fn parse_u32(s: Seq<char>) -> Option<u32> {
    let d = without_plus(s);
    if d.len() > 0 && all_digits(d) && digits_value(d) <= u32::MAX {
        Some(digits_value(d) as u32)
    } else {
        None
    }
}

/// Parses `cs[lo..hi]` as `u32::from_str` does.
pub fn parse_u32_in(cs: &Vec<char>, lo: usize, hi: usize) -> (r: Option<u32>)
    requires
        lo <= hi <= cs@.len(),
    ensures
        r == parse_u32(cs@.subrange(lo as int, hi as int)),
{
    let ghost s = cs@.subrange(lo as int, hi as int);
    let start: usize = if lo < hi && cs[lo] == '+' {
        lo + 1
    } else {
        lo
    };
    let ghost d = cs@.subrange(start as int, hi as int);
    assert(d =~= without_plus(s));
    if start == hi {
        return None;
    }
    let mut acc: u64 = 0;
    let mut over = false;
    let mut i = start;
    while i < hi
        invariant
            start <= i <= hi <= cs@.len(),
            d == cs@.subrange(start as int, hi as int),
            s == cs@.subrange(lo as int, hi as int),
            d == without_plus(s),
            forall|k: int| 0 <= k < i - start ==> is_digit(#[trigger] d[k]),
            !over ==> acc as nat == digits_value(d.take(i - start)) && acc <= u32::MAX,
            over ==> digits_value(d.take(i - start)) > u32::MAX,
        decreases hi - i,
    {
        let u = cs[i] as u32;
        assert(u == d[i - start] as u32);
        if !('0' as u32 <= u && u <= '9' as u32) {
            assert(!is_digit(d[i - start]));
            return None;
        }
        let dv = (u - '0' as u32) as u64;
        assert(d.take(i - start + 1).drop_last() =~= d.take(i - start));
        if !over {
            acc = acc * 10 + dv;
            if acc > u32::MAX as u64 {
                over = true;
            }
        }
        i = i + 1;
    }
    assert(d.take(hi - start) =~= d);
    if over {
        None
    } else {
        Some(acc as u32)
    }
}

/// The pieces of `s` between occurrences of `sep`, as `str::split` yields them.
pub open spec fn split_on(s: Seq<char>, sep: char) -> Seq<Seq<char>>
    decreases s.len(),
{
    if s.len() == 0 {
        seq![Seq::empty()]
    } else {
        let prev = split_on(s.drop_last(), sep);
        if s.last() == sep {
            prev.push(Seq::empty())
        } else {
            prev.update(prev.len() - 1, prev.last().push(s.last()))
        }
    }
}

/// The numbers among `pieces`, in order: those that `u32::from_str` accepts.
pub open spec fn parsed_numbers(pieces: Seq<Seq<char>>) -> Seq<u32>
    decreases pieces.len(),
{
    if pieces.len() == 0 {
        Seq::empty()
    } else {
        let prev = parsed_numbers(pieces.drop_last());
        match parse_u32(pieces.last()) {
            Some(v) => prev.push(v),
            None => prev,
        }
    }
}

/// The dot-separated numbers of a version such as `17.0.6`; pieces that are
/// not numbers are left out.
pub open spec fn dotted_numbers(s: Seq<char>) -> Seq<u32> {
    parsed_numbers(split_on(s, '.'))
}

/// The dot-separated numbers of `cs[lo..hi]`.
pub fn dotted_numbers_in(cs: &Vec<char>, lo: usize, hi: usize) -> (r: Vec<u32>)
    requires
        lo <= hi <= cs@.len(),
    ensures
        r@ == dotted_numbers(cs@.subrange(lo as int, hi as int)),
{
    let ghost s = cs@.subrange(lo as int, hi as int);
    let mut r: Vec<u32> = Vec::new();
    let mut start = lo;
    let mut i = lo;
    assert(s.take(0) =~= Seq::<char>::empty());
    while i < hi
        invariant
            lo <= start <= i <= hi <= cs@.len(),
            s == cs@.subrange(lo as int, hi as int),
            split_on(s.take(i - lo), '.').len() >= 1,
            split_on(s.take(i - lo), '.').last() == cs@.subrange(start as int, i as int),
            r@ == parsed_numbers(split_on(s.take(i - lo), '.').drop_last()),
        decreases hi - i,
    {
        let ghost prev = split_on(s.take(i - lo), '.');
        let ghost next = split_on(s.take(i - lo + 1), '.');
        assert(s.take(i - lo + 1).drop_last() =~= s.take(i - lo));
        assert(s.take(i - lo + 1).last() == cs@[i as int]);
        if cs[i] == '.' {
            let v = parse_u32_in(cs, start, i);
            assert(next == prev.push(Seq::empty()));
            assert(next.drop_last() =~= prev);
            assert(prev =~= prev.drop_last().push(prev.last()));
            if let Some(v) = v {
                r.push(v);
            }
            start = i + 1;
            assert(cs@.subrange(start as int, i + 1) =~= Seq::<char>::empty());
        } else {
            assert(next == prev.update(prev.len() - 1, prev.last().push(cs@[i as int])));
            assert(next.drop_last() =~= prev.drop_last());
            assert(cs@.subrange(start as int, i + 1) =~= cs@.subrange(start as int, i as int).push(
                cs@[i as int],
            ));
        }
        i = i + 1;
    }
    assert(s.take(hi - lo) =~= s);
    let ghost fin = split_on(s, '.');
    let last = parse_u32_in(cs, start, hi);
    assert(fin =~= fin.drop_last().push(fin.last()));
    if let Some(v) = last {
        r.push(v);
    }
    r
}

/// The runs of non-white-space characters of `s`, as `str::split_whitespace`
/// yields them.
pub open spec fn ws_tokens(s: Seq<char>) -> Seq<Seq<char>>
    decreases s.len(),
{
    if s.len() == 0 {
        Seq::empty()
    } else {
        let prev = ws_tokens(s.drop_last());
        let c = s.last();
        if is_ws(c) {
            prev
        } else if s.len() >= 2 && !is_ws(s[s.len() - 2]) {
            prev.update(prev.len() - 1, prev.last().push(c))
        } else {
            prev.push(seq![c])
        }
    }
}

/// The white-space separated tokens of `s`.
pub fn split_whitespace(s: &str) -> (r: Vec<String>)
    ensures
        r.deep_view() == ws_tokens(s@),
{
    let cs = chars_of(s);
    let n = cs.len();
    let mut r: Vec<String> = Vec::new();
    let mut start: usize = 0;
    let mut i: usize = 0;
    assert(s@.take(0) =~= Seq::<char>::empty());
    assert(r.deep_view() =~= Seq::<Seq<char>>::empty());
    while i < n
        invariant
            start <= i <= n == cs@.len(),
            cs@ == s@,
            i > 0 && !is_ws(cs@[i - 1]) ==> {
                &&& ws_tokens(s@.take(i as int)).len() >= 1
                &&& r.deep_view() == ws_tokens(s@.take(i as int)).drop_last()
                &&& ws_tokens(s@.take(i as int)).last() == cs@.subrange(start as int, i as int)
                &&& start < i
            },
            !(i > 0 && !is_ws(cs@[i - 1])) ==> r.deep_view() == ws_tokens(s@.take(i as int)),
        decreases n - i,
    {
        let ghost t = s@.take(i + 1);
        let ghost prev = ws_tokens(s@.take(i as int));
        assert(t.drop_last() =~= s@.take(i as int));
        assert(t.last() == cs@[i as int]);
        let ws_now = is_whitespace(cs[i]);
        let in_token = i > 0 && !is_whitespace(cs[i - 1]);
        if ws_now {
            if in_token {
                let piece = s.substring_char(start, i).to_owned();
                r.push(piece);
                assert(r.deep_view() =~= prev.drop_last().push(prev.last()));
                assert(prev.drop_last().push(prev.last()) =~= prev);
            }
        } else if in_token {
            assert(t[t.len() - 2] == cs@[i - 1]);
            assert(cs@.subrange(start as int, i + 1) =~= cs@.subrange(start as int, i as int).push(
                cs@[i as int],
            ));
            assert(ws_tokens(t).drop_last() =~= prev.drop_last());
        } else {
            start = i;
            assert(i >= 1 ==> t[t.len() - 2] == cs@[i - 1]);
            assert(ws_tokens(t) == prev.push(seq![cs@[i as int]]));
            assert(ws_tokens(t).drop_last() =~= prev);
            assert(cs@.subrange(start as int, i + 1) =~= seq![cs@[i as int]]);
        }
        i = i + 1;
    }
    assert(s@.take(n as int) =~= s@);
    if n > 0 && !is_whitespace(cs[n - 1]) {
        let piece = s.substring_char(start, n).to_owned();
        let ghost fin = ws_tokens(s@);
        r.push(piece);
        assert(r.deep_view() =~= fin.drop_last().push(fin.last()));
        assert(fin.drop_last().push(fin.last()) =~= fin);
    }
    r
}

/// The text of `s` before the first `sep`, or all of `s` if it holds none.
pub open spec fn before_first(s: Seq<char>, sep: char) -> Seq<char>
    decreases s.len(),
{
    if s.len() == 0 {
        s
    } else if s[0] == sep {
        Seq::empty()
    } else {
        seq![s[0]] + before_first(s.drop_first(), sep)
    }
}

/// The index of the first `sep` in `cs[lo..hi]`, or `hi`; the text before it
/// is `before_first`.
pub fn find_char(cs: &Vec<char>, lo: usize, hi: usize, sep: char) -> (k: usize)
    requires
        lo <= hi <= cs@.len(),
    ensures
        lo <= k <= hi,
        before_first(cs@.subrange(lo as int, hi as int), sep) == cs@.subrange(lo as int, k as int),
        k < hi ==> cs@[k as int] == sep,
        forall|j: int| lo <= j < k ==> cs@[j] != sep,
{
    let mut k = lo;
    while k < hi && cs[k] != sep
        invariant
            lo <= k <= hi <= cs@.len(),
            before_first(cs@.subrange(lo as int, hi as int), sep) == cs@.subrange(lo as int, k as int)
                + before_first(cs@.subrange(k as int, hi as int), sep),
            forall|j: int| lo <= j < k ==> cs@[j] != sep,
        decreases hi - k,
    {
        let ghost rest = cs@.subrange(k as int, hi as int);
        assert(rest.drop_first() =~= cs@.subrange(k + 1, hi as int));
        assert(cs@.subrange(lo as int, k + 1) =~= cs@.subrange(lo as int, k as int) + seq![cs@[k as int]]);
        assert(cs@.subrange(lo as int, k as int) + (seq![rest[0]] + before_first(rest.drop_first(), sep))
            =~= cs@.subrange(lo as int, k + 1) + before_first(cs@.subrange(k + 1, hi as int), sep));
        k = k + 1;
    }
    assert(before_first(cs@.subrange(k as int, hi as int), sep) =~= Seq::<char>::empty());
    assert(cs@.subrange(lo as int, k as int) + Seq::<char>::empty() =~= cs@.subrange(lo as int, k as int));
    k
}

/// The first line of `s`, as the first item of `str::lines`: the text before
/// the first line feed, without a carriage return just before that line feed.
/// An empty text has no line.
pub open spec fn first_line_of(s: Seq<char>) -> Option<Seq<char>> {
    let l = before_first(s, '\n');
    if s.len() == 0 {
        None
    } else if l.len() < s.len() && l.len() > 0 && l.last() == '\r' {
        Some(l.drop_last())
    } else {
        Some(l)
    }
}

/// The first line of `s`.
pub fn first_line(s: &str) -> (r: Option<String>)
    ensures
        r matches Some(l) ==> first_line_of(s@) == Some(l@),
        r is None <==> first_line_of(s@) is None,
{
    let cs = chars_of(s);
    let n = cs.len();
    if n == 0 {
        return None;
    }
    assert(cs@.subrange(0, n as int) =~= s@);
    let k = find_char(&cs, 0, n, '\n');
    let end = if k < n && k > 0 && cs[k - 1] == '\r' {
        k - 1
    } else {
        k
    };
    if k > 0 {
        assert(cs@.subrange(0, k as int).drop_last() =~= cs@.subrange(0, k - 1));
    }
    Some(s.substring_char(0, end).to_owned())
}

/// Whether `cs[lo..hi]` begins with `p`.
pub fn has_prefix_in(cs: &Vec<char>, lo: usize, hi: usize, p: &Vec<char>) -> (r: bool)
    requires
        lo <= hi <= cs@.len(),
    ensures
        r == has_prefix(cs@.subrange(lo as int, hi as int), p@),
{
    let ghost s = cs@.subrange(lo as int, hi as int);
    if p.len() > hi - lo {
        return false;
    }
    let mut j: usize = 0;
    while j < p.len()
        invariant
            j <= p@.len() <= hi - lo,
            lo <= hi <= cs@.len(),
            s == cs@.subrange(lo as int, hi as int),
            forall|m: int| 0 <= m < j ==> cs@[lo + m] == p@[m],
        decreases p@.len() - j,
    {
        if cs[lo + j] != p[j] {
            assert(s.take(p@.len() as int)[j as int] != p@[j as int]);
            return false;
        }
        j = j + 1;
    }
    assert(s.take(p@.len() as int) =~= p@);
    true
}

/// Whether `t` occurs in `cs` as a contiguous run.
pub fn contains_run_in(cs: &Vec<char>, t: &Vec<char>) -> (r: bool)
    ensures
        r == contains_run(cs@, t@),
{
    let n = cs.len();
    let m = t.len();
    if m > n {
        assert forall|i: int| 0 <= i && i + m <= n implies !(#[trigger] cs@.subrange(i, i + m) == t@) by {}
        return false;
    }
    let last = n - m;
    let mut i: usize = 0;
    loop
        invariant
            m <= n == cs@.len(),
            m == t@.len(),
            last == n - m,
            i <= last,
            forall|q: int| 0 <= q < i ==> #[trigger] cs@.subrange(q, q + m) != t@,
        decreases last - i,
    {
        assert(cs@.subrange(i as int, n as int).take(m as int) =~= cs@.subrange(i as int, i + m));
        if has_prefix_in(cs, i, n, t) {
            return true;
        }
        if i == last {
            return false;
        }
        i = i + 1;
    }
}

/// `parts` with `sep` between each two, as `[&str]::join` writes them.
pub open spec fn joined(parts: Seq<Seq<char>>, sep: Seq<char>) -> Seq<char>
    decreases parts.len(),
{
    if parts.len() == 0 {
        Seq::empty()
    } else if parts.len() == 1 {
        parts[0]
    } else {
        joined(parts.drop_last(), sep) + sep + parts.last()
    }
}

/// The views of a slice of texts.
pub open spec fn views_of(parts: Seq<&str>) -> Seq<Seq<char>> {
    parts.map_values(|p: &str| p@)
}

/// Writes `parts` with `sep` between each two.
pub fn join_texts(parts: &[&str], sep: &str) -> (r: String)
    ensures
        r@ == joined(views_of(parts@), sep@),
{
    let mut r = String::new();
    let mut i: usize = 0;
    let ghost vs = views_of(parts@);
    assert(vs.take(0) =~= Seq::<Seq<char>>::empty());
    while i < parts.len()
        invariant
            i <= parts@.len(),
            vs == views_of(parts@),
            r@ == joined(vs.take(i as int), sep@),
        decreases parts@.len() - i,
    {
        assert(vs.take(i + 1).drop_last() =~= vs.take(i as int));
        assert(vs.take(i + 1).last() == parts@[i as int]@);
        if i > 0 {
            r.append(sep);
        } else {
            assert(r@ =~= Seq::<char>::empty());
        }
        r.append(parts[i]);
        i = i + 1;
    }
    assert(vs.take(i as int) =~= vs);
    r
}

/// A copy of a list of texts.
pub fn clone_texts(v: &Vec<String>) -> (r: Vec<String>)
    ensures
        r.deep_view() == v.deep_view(),
{
    let mut r: Vec<String> = Vec::new();
    let mut i: usize = 0;
    while i < v.len()
        invariant
            i <= v@.len(),
            r@.len() == i,
            forall|k: int| 0 <= k < i ==> #[trigger] r@[k]@ == v@[k]@,
        decreases v@.len() - i,
    {
        let c = v[i].clone();
        r.push(c);
        i = i + 1;
    }
    assert(r.deep_view() =~= v.deep_view());
    r
}

/// The decimal digits of `n`, as `u32`'s `Display` writes them.
pub open spec fn decimal(n: nat) -> Seq<char>
    decreases n,
{
    if n < 10 {
        seq![digit_char(n)]
    } else {
        decimal(n / 10).push(digit_char(n % 10))
    }
}

/// The ASCII digit of `d`, for `d` below ten.
pub open spec fn digit_char(d: nat) -> char {
    ('0' as u32 + d) as char
}

/// The digits of a number are ASCII digits, at least one, with the value
/// of the number.
pub proof fn lemma_decimal_digits(n: nat)
    ensures
        decimal(n).len() > 0,
        all_digits(decimal(n)),
        digits_value(decimal(n)) == n,
    decreases n,
{
    let d = decimal(n);
    assert(digit_char(n % 10) as u32 == '0' as u32 + n % 10);
    assert(d.last() == digit_char(n % 10));
    assert(digits_value(d) == digits_value(d.drop_last()) * 10 + (n % 10));
    if n < 10 {
        assert(d.drop_last() =~= Seq::<char>::empty());
        assert(n % 10 == n);
    } else {
        lemma_decimal_digits(n / 10);
        assert(d.drop_last() =~= decimal(n / 10));
        assert((n / 10) * 10 + n % 10 == n) by (nonlinear_arith);
        assert forall|k: int| 0 <= k < d.len() implies is_digit(#[trigger] d[k]) by {
            if k < d.len() - 1 {
                assert(d[k] == decimal(n / 10)[k]);
            }
        }
    }
}

/// A number written in decimal reads back as itself.
pub proof fn lemma_parse_decimal(v: u32)
    ensures
        parse_u32(decimal(v as nat)) == Some(v),
        dotted_numbers(decimal(v as nat)) == seq![v],
{
    let d = decimal(v as nat);
    lemma_decimal_digits(v as nat);
    assert(is_digit(d[0]));
    assert(without_plus(d) == d);
    lemma_split_without_sep(d, '.');
    assert(split_on(d, '.').drop_last() =~= Seq::<Seq<char>>::empty());
    assert(parsed_numbers(split_on(d, '.')) == parsed_numbers(Seq::<Seq<char>>::empty()).push(v));
    assert(parsed_numbers(Seq::<Seq<char>>::empty()).push(v) =~= seq![v]);
}

/// A text without `sep` is one piece.
pub proof fn lemma_split_without_sep(s: Seq<char>, sep: char)
    requires
        forall|k: int| 0 <= k < s.len() ==> #[trigger] s[k] != sep,
    ensures
        split_on(s, sep) == seq![s],
    decreases s.len(),
{
    if s.len() > 0 {
        assert forall|k: int| 0 <= k < s.drop_last().len() implies #[trigger] s.drop_last()[k] != sep by {
            assert(s.drop_last()[k] == s[k]);
        }
        lemma_split_without_sep(s.drop_last(), sep);
        assert(s.drop_last().push(s.last()) =~= s);
        assert(split_on(s, sep) =~= seq![s]);
    } else {
        assert(s =~= Seq::<char>::empty());
    }
}

/// A release such as `[17, 0, 6]` written as `17.0.6`.
pub open spec fn dotted_release(rs: Seq<u32>) -> Seq<char>
    decreases rs.len(),
{
    if rs.len() == 0 {
        Seq::empty()
    } else if rs.len() == 1 {
        decimal(rs[0] as nat)
    } else {
        dotted_release(rs.drop_last()) + seq!['.'] + decimal(rs.last() as nat)
    }
}

/// A separator followed by a text without it adds that text as the last
/// piece.
pub proof fn lemma_split_on_append(s: Seq<char>, sep: char, t: Seq<char>)
    requires
        forall|k: int| 0 <= k < t.len() ==> #[trigger] t[k] != sep,
    ensures
        split_on(s + seq![sep] + t, sep) == split_on(s, sep).push(t),
    decreases t.len(),
{
    if t.len() == 0 {
        assert((s + seq![sep] + t).drop_last() =~= s);
        assert(t =~= Seq::<char>::empty());
    } else {
        let u = t.drop_last();
        assert forall|k: int| 0 <= k < u.len() implies #[trigger] u[k] != sep by {
            assert(u[k] == t[k]);
        }
        lemma_split_on_append(s, sep, u);
        assert((s + seq![sep] + t).drop_last() =~= s + seq![sep] + u);
        assert(u.push(t.last()) =~= t);
        assert(split_on(s + seq![sep] + t, sep) =~= split_on(s, sep).push(t));
    }
}

/// A release written with dots reads back as itself; it holds only digits
/// and dots and begins with a digit.
pub proof fn lemma_dotted_release(rs: Seq<u32>)
    requires
        rs.len() > 0,
    ensures
        dotted_numbers(dotted_release(rs)) == rs,
        dotted_release(rs).len() > 0,
        is_digit(dotted_release(rs)[0]),
        forall|k: int| 0 <= k < dotted_release(rs).len() ==> is_digit(#[trigger] dotted_release(rs)[k])
            || dotted_release(rs)[k] == '.',
    decreases rs.len(),
{
    let d = decimal(rs.last() as nat);
    lemma_decimal_digits(rs.last() as nat);
    lemma_parse_decimal(rs.last());
    if rs.len() == 1 {
        assert(rs =~= seq![rs[0]]);
        assert forall|k: int| 0 <= k < d.len() implies is_digit(#[trigger] d[k]) || d[k] == '.' by {}
    } else {
        let init = rs.drop_last();
        let s = dotted_release(init);
        lemma_dotted_release(init);
        assert forall|k: int| 0 <= k < d.len() implies #[trigger] d[k] != '.' by {
            assert(is_digit(d[k]));
        }
        lemma_split_on_append(s, '.', d);
        let pieces = split_on(s, '.').push(d);
        assert(pieces.drop_last() =~= split_on(s, '.'));
        assert(parsed_numbers(pieces) == parsed_numbers(split_on(s, '.')).push(rs.last()));
        assert(init.push(rs.last()) =~= rs);
        let all = s + seq!['.'] + d;
        assert(all[0] == s[0]);
        assert forall|k: int| 0 <= k < all.len() implies is_digit(#[trigger] all[k]) || all[k] == '.' by {
            if k < s.len() {
                assert(all[k] == s[k]);
            } else if k > s.len() {
                assert(all[k] == d[k - s.len() - 1]);
            }
        }
    }
}

/// The digit `d` as a text.
fn digit_text(d: u32) -> (r: &'static str)
    requires
        d < 10,
    ensures
        r@ == seq![digit_char(d as nat)],
{
    proof {
        reveal_strlit("0");
        reveal_strlit("1");
        reveal_strlit("2");
        reveal_strlit("3");
        reveal_strlit("4");
        reveal_strlit("5");
        reveal_strlit("6");
        reveal_strlit("7");
        reveal_strlit("8");
        reveal_strlit("9");
    }
    let r = match d {
        0 => "0",
        1 => "1",
        2 => "2",
        3 => "3",
        4 => "4",
        5 => "5",
        6 => "6",
        7 => "7",
        8 => "8",
        _ => "9",
    };
    assert(r@ =~= seq![digit_char(d as nat)]);
    r
}

/// `n` written in decimal.
pub fn decimal_text(n: u32) -> (r: String)
    ensures
        r@ == decimal(n as nat),
    decreases n,
{
    if n < 10 {
        digit_text(n).to_owned()
    } else {
        let mut r = decimal_text(n / 10);
        r.append(digit_text(n % 10));
        assert(r@ =~= decimal((n / 10) as nat).push(digit_char((n % 10) as nat)));
        r
    }
}

} // verus!
