//! Character-level text operations on which the mapping parsers are built:
//! whitespace, trimming, splitting, line breaking, pattern search and
//! integer parsing, each stated over the character sequence of the text.
use vstd::prelude::*;

verus! {

broadcast use vstd::string::group_string_axioms;

/// Appending one character to a `String` extends its character view by
/// that character, as the documentation of `String::push` states.
pub assume_specification[ String::push ](s: &mut String, ch: char)
    ensures
        final(s)@ == old(s)@.push(ch),
;

// ---------------------------------------------------------------------------
// Specifications
// ---------------------------------------------------------------------------

/// The Unicode `White_Space` property, which `char::is_whitespace` tests.
pub open spec fn is_ws(c: char) -> bool {
    ||| ('\u{9}' <= c && c <= '\u{d}')
    ||| c == ' '
    ||| c == '\u{85}'
    ||| c == '\u{a0}'
    ||| c == '\u{1680}'
    ||| ('\u{2000}' <= c && c <= '\u{200a}')
    ||| c == '\u{2028}'
    ||| c == '\u{2029}'
    ||| c == '\u{202f}'
    ||| c == '\u{205f}'
    ||| c == '\u{3000}'
}

/// `s` without its leading whitespace.
pub open spec fn trim_start(s: Seq<char>) -> Seq<char>
    decreases s.len(),
{
    if s.len() > 0 && is_ws(s[0]) {
        trim_start(s.drop_first())
    } else {
        s
    }
}

/// `s` without its trailing whitespace.
pub open spec fn trim_end(s: Seq<char>) -> Seq<char>
    decreases s.len(),
{
    if s.len() > 0 && is_ws(s.last()) {
        trim_end(s.drop_last())
    } else {
        s
    }
}

/// `s` without leading and trailing whitespace (`str::trim`).
pub open spec fn trim(s: Seq<char>) -> Seq<char> {
    trim_end(trim_start(s))
}

/// The pieces of `s` between occurrences of `sep` (`str::split` with a
/// character): as many pieces as there are separators, plus one.
pub open spec fn split(s: Seq<char>, sep: char) -> Seq<Seq<char>>
    decreases s.len(),
{
    if s.len() == 0 {
        seq![Seq::<char>::empty()]
    } else {
        let init = split(s.drop_last(), sep);
        if s.last() == sep {
            init.push(Seq::<char>::empty())
        } else {
            init.update(init.len() - 1, init.last().push(s.last()))
        }
    }
}

/// The pieces of `s` between whitespace characters, empty pieces included.
pub open spec fn split_ws_all(s: Seq<char>) -> Seq<Seq<char>>
    decreases s.len(),
{
    if s.len() == 0 {
        seq![Seq::<char>::empty()]
    } else {
        let init = split_ws_all(s.drop_last());
        if is_ws(s.last()) {
            init.push(Seq::<char>::empty())
        } else {
            init.update(init.len() - 1, init.last().push(s.last()))
        }
    }
}

/// The non-empty runs of non-whitespace characters of `s`, in order
/// (`str::split_whitespace`).
pub open spec fn words(s: Seq<char>) -> Seq<Seq<char>> {
    split_ws_all(s).filter(|w: Seq<char>| w.len() > 0)
}

/// `l` without one trailing carriage return.
pub open spec fn strip_cr(l: Seq<char>) -> Seq<char> {
    if l.len() > 0 && l.last() == '\r' {
        l.drop_last()
    } else {
        l
    }
}

/// The lines of `s` (`str::lines`): the text between line feeds, a carriage
/// return before a line feed not included, and no last empty line when the
/// text ends with a line feed or is empty.
pub open spec fn lines(s: Seq<char>) -> Seq<Seq<char>> {
    let p = split(s, '\n');
    let ended = p.take(p.len() - 1).map_values(|l: Seq<char>| strip_cr(l));
    if p.last().len() > 0 {
        ended.push(p.last())
    } else {
        ended
    }
}

/// `p` occurs in `s` at position `i`.
pub open spec fn occurs_at(s: Seq<char>, p: Seq<char>, i: int) -> bool {
    0 <= i && i + p.len() <= s.len() && s.subrange(i, i + p.len()) == p
}

/// The first position at or after `i` where `p` occurs in `s`.
pub open spec fn find_from(s: Seq<char>, p: Seq<char>, i: int) -> Option<int>
    decreases s.len() + 1 - i,
{
    if i < 0 || i + p.len() > s.len() {
        None
    } else if occurs_at(s, p, i) {
        Some(i)
    } else {
        find_from(s, p, i + 1)
    }
}

/// The pieces of `s[start..]` between non-overlapping occurrences of the
/// non-empty pattern `p`, searched from left to right (`str::split` with a
/// string pattern).
pub open spec fn split_str_from(s: Seq<char>, p: Seq<char>, start: int) -> Seq<Seq<char>>
    decreases s.len() - start,
{
    match find_from(s, p, start) {
        Some(i) => if start <= i && p.len() > 0 && i + p.len() <= s.len() {
            seq![s.subrange(start, i)] + split_str_from(s, p, i + p.len())
        } else {
            seq![s.subrange(start, s.len() as int)]
        },
        None => seq![s.subrange(start, s.len() as int)],
    }
}

/// The pieces of `s` between occurrences of the pattern `p`.
pub open spec fn split_str(s: Seq<char>, p: Seq<char>) -> Seq<Seq<char>> {
    split_str_from(s, p, 0)
}

/// `s` with every occurrence of `c` removed (`str::replace(c, "")`).
pub open spec fn remove_char(s: Seq<char>, c: char) -> Seq<char> {
    s.filter(|x: char| x != c)
}

/// `c` is an ASCII decimal digit.
pub open spec fn is_digit(c: char) -> bool {
    '0' <= c && c <= '9'
}

/// Every character of `s` is an ASCII decimal digit.
pub open spec fn all_digits(s: Seq<char>) -> bool {
    forall|i: int| 0 <= i < s.len() ==> is_digit(#[trigger] s[i])
}

/// The number that the decimal digits `s` denote.
pub open spec fn digits_value(s: Seq<char>) -> int
    decreases s.len(),
{
    if s.len() == 0 {
        0
    } else {
        digits_value(s.drop_last()) * 10 + (s.last() as int - '0' as int)
    }
}

/// The integer that `s` writes as an optional `+` or `-` followed by one or
/// more decimal digits, if it has that form.
pub open spec fn decimal_value(s: Seq<char>) -> Option<int> {
    let neg = s.len() > 0 && s[0] == '-';
    let signed = s.len() > 0 && (s[0] == '-' || s[0] == '+');
    let body = if signed {
        s.drop_first()
    } else {
        s
    };
    if body.len() == 0 || !all_digits(body) {
        None
    } else if neg {
        Some(-digits_value(body))
    } else {
        Some(digits_value(body))
    }
}

/// What `str::parse::<i64>` gives for `s`: the value of a decimal integer
/// that fits in an `i64`, and nothing for any other text.
pub open spec fn parse_i64_spec(s: Seq<char>) -> Option<i64> {
    match decimal_value(s) {
        Some(v) => if i64::MIN <= v <= i64::MAX {
            Some(v as i64)
        } else {
            None
        },
        None => None,
    }
}

/// The character views of a sequence of strings.
pub open spec fn views(v: Seq<String>) -> Seq<Seq<char>> {
    v.map_values(|s: String| s@)
}

/// The character views of a sequence of character vectors.
pub open spec fn vec_views(v: Seq<Vec<char>>) -> Seq<Seq<char>> {
    v.map_values(|s: Vec<char>| s@)
}

// ---------------------------------------------------------------------------
// Executable operations
// ---------------------------------------------------------------------------

/// The characters of a string slice, in order.
pub fn chars_of(s: &str) -> (v: Vec<char>)
    ensures
        v@ == s@,
{
    let mut v: Vec<char> = Vec::new();
    for c in it: s.chars()
        invariant
            v@ == it.seq().take(it.index() as int),
            it.seq() == s@,
    {
        v.push(c);
    }
    v
}

/// The string made of the characters `v[from..to]`.
pub fn string_of(v: &Vec<char>, from: usize, to: usize) -> (s: String)
    requires
        from <= to <= v@.len(),
    ensures
        s@ == v@.subrange(from as int, to as int),
{
    let mut s = String::new();
    let mut i = from;
    while i < to
        invariant
            from <= i <= to <= v@.len(),
            s@ == v@.subrange(from as int, i as int),
        decreases to - i,
    {
        s.push(v[i]);
        i = i + 1;
    }
    s
}

/// The string made of all the characters of `v`.
pub fn to_string(v: &Vec<char>) -> (s: String)
    ensures
        s@ == v@,
{
    string_of(v, 0, v.len())
}

/// The characters `v[from..to]` as a vector of their own.
pub fn sub_vec(v: &Vec<char>, from: usize, to: usize) -> (r: Vec<char>)
    requires
        from <= to <= v@.len(),
    ensures
        r@ == v@.subrange(from as int, to as int),
{
    let mut r: Vec<char> = Vec::new();
    let mut i = from;
    while i < to
        invariant
            from <= i <= to <= v@.len(),
            r@ == v@.subrange(from as int, i as int),
        decreases to - i,
    {
        r.push(v[i]);
        i = i + 1;
    }
    r
}

/// Whether `c` is a whitespace character.
pub fn is_whitespace(c: char) -> (b: bool)
    ensures
        b == is_ws(c),
{
    ('\u{9}' <= c && c <= '\u{d}') || c == ' ' || c == '\u{85}' || c == '\u{a0}' || c
        == '\u{1680}' || ('\u{2000}' <= c && c <= '\u{200a}') || c == '\u{2028}' || c
        == '\u{2029}' || c == '\u{202f}' || c == '\u{205f}' || c == '\u{3000}'
}

/// `v` without leading and trailing whitespace.
pub fn trim_vec(v: &Vec<char>) -> (r: Vec<char>)
    ensures
        r@ == trim(v@),
{
    let n = v.len();
    let mut a: usize = 0;
    assert(v@.skip(0) =~= v@);
    while a < n && is_whitespace(v[a])
        invariant
            a <= n == v@.len(),
            trim_start(v@) == trim_start(v@.skip(a as int)),
        decreases n - a,
    {
        assert(v@.skip(a as int).drop_first() == v@.skip(a + 1));
        a = a + 1;
    }
    assert(trim_start(v@.skip(a as int)) == v@.skip(a as int));
    assert(v@.skip(a as int) == v@.subrange(a as int, n as int));
    let mut b: usize = n;
    while b > a && is_whitespace(v[b - 1])
        invariant
            a <= b <= n == v@.len(),
            trim_end(v@.subrange(a as int, n as int)) == trim_end(v@.subrange(a as int, b as int)),
        decreases b,
    {
        assert(v@.subrange(a as int, b as int).drop_last() == v@.subrange(a as int, b - 1));
        b = b - 1;
    }
    sub_vec(v, a, b)
}

/// The pieces of `v` between occurrences of `sep`.
pub fn split_vec(v: &Vec<char>, sep: char) -> (r: Vec<Vec<char>>)
    ensures
        vec_views(r@) == split(v@, sep),
{
    let mut pieces: Vec<Vec<char>> = Vec::new();
    let mut cur: Vec<char> = Vec::new();
    let n = v.len();
    assert(v@.take(0) =~= Seq::<char>::empty());
    assert(vec_views(pieces@).push(cur@) =~= seq![Seq::<char>::empty()]);
    for i in 0..n
        invariant
            n == v@.len(),
            split(v@.take(i as int), sep) == vec_views(pieces@).push(cur@),
    {
        assert(v@.take(i + 1).drop_last() == v@.take(i as int));
        let ghost before = vec_views(pieces@);
        if v[i] == sep {
            pieces.push(cur);
            cur = Vec::new();
            assert(vec_views(pieces@) =~= before.push(vec_views(pieces@).last()));
        } else {
            cur.push(v[i]);
        }
        assert(split(v@.take(i + 1), sep) =~= vec_views(pieces@).push(cur@));
    }
    pieces.push(cur);
    assert(v@.take(n as int) == v@);
    assert(vec_views(pieces@) =~= split(v@, sep));
    pieces
}

/// Whether `c` occurs in `v`.
pub fn contains_char(v: &Vec<char>, c: char) -> (b: bool)
    ensures
        b == v@.contains(c),
{
    let n = v.len();
    for i in 0..n
        invariant
            n == v@.len(),
            forall|j: int| 0 <= j < i ==> v@[j] != c,
    {
        if v[i] == c {
            return true;
        }
    }
    false
}

/// Whether `v` begins with the characters of `p`.
pub fn starts_with(v: &Vec<char>, p: &Vec<char>) -> (b: bool)
    ensures
        b == p@.is_prefix_of(v@),
{
    if p.len() > v.len() {
        return false;
    }
    let n = p.len();
    for i in 0..n
        invariant
            n == p@.len() <= v@.len(),
            forall|j: int| 0 <= j < i ==> v@[j] == p@[j],
    {
        if v[i] != p[i] {
            return false;
        }
    }
    assert(p@ =~= v@.subrange(0, n as int));
    true
}

/// Whether `v` ends with the characters of `p`.
pub fn ends_with(v: &Vec<char>, p: &Vec<char>) -> (b: bool)
    ensures
        b == p@.is_suffix_of(v@),
{
    if p.len() > v.len() {
        return false;
    }
    let n = p.len();
    let off = v.len() - n;
    for i in 0..n
        invariant
            n == p@.len() <= v@.len(),
            off + n == v.len(),
            forall|j: int| 0 <= j < i ==> v@[off + j] == p@[j],
    {
        if v[off + i] != p[i] {
            assert(!(p@ =~= v@.subrange(off as int, v@.len() as int)));
            return false;
        }
    }
    assert(p@ =~= v@.subrange(off as int, v@.len() as int));
    true
}

/// Whether `p` occurs in `v` at position `i`.
pub fn occurs_at_exec(v: &Vec<char>, p: &Vec<char>, i: usize) -> (b: bool)
    ensures
        b == occurs_at(v@, p@, i as int),
{
    if i > v.len() || p.len() > v.len() - i {
        return false;
    }
    let n = p.len();
    for k in 0..n
        invariant
            n == p@.len(),
            i + n <= v.len(),
            forall|j: int| 0 <= j < k ==> v@[i + j] == p@[j],
    {
        if v[i + k] != p[k] {
            assert(v@.subrange(i as int, i + n)[k as int] != p@[k as int]);
            return false;
        }
    }
    assert(v@.subrange(i as int, i + n) =~= p@);
    true
}

/// The first position at or after `from` where `p` occurs in `v`.
pub fn find(v: &Vec<char>, p: &Vec<char>, from: usize) -> (r: Option<usize>)
    ensures
        r matches Some(i) ==> find_from(v@, p@, from as int) == Some(i as int),
        r is None ==> find_from(v@, p@, from as int) is None,
{
    let mut i = from;
    loop
        invariant
            from <= i,
            find_from(v@, p@, from as int) == find_from(v@, p@, i as int),
        decreases v@.len() + 1 - i,
    {
        if i > v.len() || p.len() > v.len() - i {
            return None;
        }
        if occurs_at_exec(v, p, i) {
            return Some(i);
        }
        if i == v.len() {
            assert(find_from(v@, p@, i + 1) is None);
            return None;
        }
        i = i + 1;
    }
}

/// `v` with every occurrence of `c` removed.
pub fn remove_char_vec(v: &Vec<char>, c: char) -> (r: Vec<char>)
    ensures
        r@ == remove_char(v@, c),
{
    let mut r: Vec<char> = Vec::new();
    let n = v.len();
    assert(v@.take(0) =~= Seq::<char>::empty());
    proof {
        reveal(Seq::filter);
    }
    for i in 0..n
        invariant
            n == v@.len(),
            r@ == remove_char(v@.take(i as int), c),
    {
        assert(v@.take(i + 1).drop_last() == v@.take(i as int));
        proof {
            reveal(Seq::filter);
        }
        if v[i] != c {
            r.push(v[i]);
        }
    }
    assert(v@.take(n as int) == v@);
    r
}

/// The non-empty runs of non-whitespace characters of `v`, in order.
pub fn words_vec(v: &Vec<char>) -> (r: Vec<Vec<char>>)
    ensures
        vec_views(r@) == words(v@),
{
    let mut toks: Vec<Vec<char>> = Vec::new();
    let mut cur: Vec<char> = Vec::new();
    let n = v.len();
    assert(v@.take(0) =~= Seq::<char>::empty());
    proof {
        reveal(Seq::filter);
        assert(split_ws_all(v@.take(0)).drop_last() =~= Seq::<Seq<char>>::empty());
    }
    for i in 0..n
        invariant
            n == v@.len(),
            split_ws_all(v@.take(i as int)).len() >= 1,
            vec_views(toks@) == split_ws_all(v@.take(i as int)).drop_last().filter(
                |w: Seq<char>| w.len() > 0,
            ),
            cur@ == split_ws_all(v@.take(i as int)).last(),
    {
        let ghost old_all = split_ws_all(v@.take(i as int));
        let ghost old_toks = vec_views(toks@);
        assert(v@.take(i + 1).drop_last() == v@.take(i as int));
        assert(v@.take(i + 1).last() == v@[i as int]);
        let c = v[i];
        if is_whitespace(c) {
            let ghost new_all = split_ws_all(v@.take(i + 1));
            assert(new_all == old_all.push(Seq::<char>::empty()));
            assert(new_all.drop_last() == old_all);
            proof {
                reveal(Seq::filter);
                assert(old_all.drop_last().push(old_all.last()) =~= old_all);
            }
            if cur.len() > 0 {
                toks.push(cur);
                assert(vec_views(toks@) =~= old_toks.push(old_all.last()));
            }
            cur = Vec::new();
            assert(cur@ =~= new_all.last());
        } else {
            cur.push(c);
            let ghost new_all = split_ws_all(v@.take(i + 1));
            assert(new_all.drop_last() =~= old_all.drop_last());
        }
    }
    let ghost all = split_ws_all(v@);
    assert(v@.take(n as int) == v@);
    proof {
        reveal(Seq::filter);
        assert(all.drop_last().push(all.last()) =~= all);
    }
    if cur.len() > 0 {
        let ghost before = vec_views(toks@);
        toks.push(cur);
        assert(vec_views(toks@) =~= before.push(all.last()));
    }
    toks
}

/// The lines of `text`, as `str::lines` yields them.
pub fn lines_of(text: &str) -> (r: Vec<String>)
    ensures
        views(r@) == lines(text@),
{
    let v = chars_of(text);
    let n = v.len();
    let mut out: Vec<String> = Vec::new();
    let mut start: usize = 0;
    assert(v@.take(0) =~= Seq::<char>::empty());
    for i in 0..n
        invariant
            n == v@.len(),
            start <= i,
            split(v@.take(i as int), '\n').len() == out@.len() + 1,
            forall|k: int|
                0 <= k < out@.len() ==> #[trigger] out@[k]@ == strip_cr(
                    split(v@.take(i as int), '\n')[k],
                ),
            split(v@.take(i as int), '\n').last() == v@.subrange(start as int, i as int),
    {
        let ghost old_p = split(v@.take(i as int), '\n');
        assert(v@.take(i + 1).drop_last() == v@.take(i as int));
        assert(v@.take(i + 1).last() == v@[i as int]);
        if v[i] == '\n' {
            let end = if i > start && v[i - 1] == '\r' {
                i - 1
            } else {
                i
            };
            let line = string_of(&v, start, end);
            assert(line@ == strip_cr(v@.subrange(start as int, i as int)));
            out.push(line);
            start = i + 1;
            assert(v@.subrange(start as int, i + 1) =~= Seq::<char>::empty());
        } else {
            assert(v@.subrange(start as int, i + 1) =~= v@.subrange(start as int, i as int).push(
                v@[i as int],
            ));
        }
    }
    assert(v@.take(n as int) == v@);
    let ghost p = split(v@, '\n');
    let ghost ended = p.take(p.len() - 1).map_values(|l: Seq<char>| strip_cr(l));
    assert(views(out@) =~= ended);
    if start < n {
        let last = string_of(&v, start, n);
        out.push(last);
        assert(views(out@) =~= ended.push(p.last()));
    }
    out
}

/// Parses a decimal `i64` the way `str::parse::<i64>` does: an optional sign
/// and at least one digit, with no other character, within the range of
/// `i64`.
pub fn parse_i64(v: &Vec<char>) -> (r: Option<i64>)
    ensures
        r == parse_i64_spec(v@),
{
    let n = v.len();
    if n == 0 {
        return None;
    }
    let neg = v[0] == '-';
    let start: usize = if v[0] == '-' || v[0] == '+' {
        1
    } else {
        0
    };
    let ghost body = if start == 1 {
        v@.drop_first()
    } else {
        v@
    };
    assert(body =~= v@.subrange(start as int, n as int));
    if start == n {
        return None;
    }
    let limit: i128 = 0x8000_0000_0000_0000;
    let mut acc: i128 = 0;
    let mut over = false;
    assert(v@.subrange(start as int, start as int) =~= Seq::<char>::empty());
    for i in start..n
        invariant
            n == v@.len(),
            start <= n,
            body == v@.subrange(start as int, n as int),
            0 < n,
            start <= 1,
            (start == 1) == (v@[0] == '-' || v@[0] == '+'),
            neg == (v@[0] == '-'),
            body == (if start == 1 {
                v@.drop_first()
            } else {
                v@
            }),
            limit == 0x8000_0000_0000_0000,
            all_digits(v@.subrange(start as int, i as int)),
            over ==> digits_value(v@.subrange(start as int, i as int)) > limit,
            !over ==> acc == digits_value(v@.subrange(start as int, i as int)) && 0 <= acc
                <= limit,
    {
        let c = v[i];
        assert(v@.subrange(start as int, i + 1).drop_last() =~= v@.subrange(
            start as int,
            i as int,
        ));
        assert(v@.subrange(start as int, i + 1).last() == c);
        if !('0' <= c && c <= '9') {
            assert(body[i - start] == c);
            assert(!is_digit(body[i - start]));
            assert(!all_digits(body));
            return None;
        }
        let d: i128 = ((c as u32) - 48) as i128;
        if !over {
            acc = acc * 10 + d;
            if acc > limit {
                over = true;
            }
        }
        assert(all_digits(v@.subrange(start as int, i + 1)));
    }
    assert(v@.subrange(start as int, n as int) == body);
    if over {
        return None;
    }
    if neg {
        if acc <= limit {
            let val: i128 = -acc;
            return Some(val as i64);
        }
        None
    } else {
        if acc < limit {
            return Some(acc as i64);
        }
        None
    }
}

/// A position that `find_from` reports is at or after the starting position
/// and holds an occurrence of the pattern.
pub proof fn lemma_find_from(s: Seq<char>, p: Seq<char>, i: int)
    ensures
        find_from(s, p, i) matches Some(k) ==> i <= k && occurs_at(s, p, k),
    decreases s.len() + 1 - i,
{
    if !(i < 0 || i + p.len() > s.len()) && !occurs_at(s, p, i) {
        lemma_find_from(s, p, i + 1);
    }
}

/// Splitting always yields at least one piece.
pub proof fn lemma_split_len(s: Seq<char>, sep: char)
    ensures
        split(s, sep).len() >= 1,
    decreases s.len(),
{
    if s.len() > 0 {
        lemma_split_len(s.drop_last(), sep);
    }
}

/// Trimming the end of a text that starts with a character that is no
/// whitespace keeps that first character.
pub proof fn lemma_trim_end_prefix(s: Seq<char>)
    requires
        s.len() > 0,
        !is_ws(s[0]),
    ensures
        trim_end(s).len() > 0,
        trim_end(s)[0] == s[0],
    decreases s.len(),
{
    if is_ws(s.last()) {
        lemma_trim_end_prefix(s.drop_last());
    }
}

/// Whether `a` and `b` hold the same characters.
pub fn same_chars(a: &Vec<char>, b: &Vec<char>) -> (r: bool)
    ensures
        r == (a@ == b@),
{
    if a.len() != b.len() {
        return false;
    }
    let n = a.len();
    for i in 0..n
        invariant
            n == a@.len() == b@.len(),
            forall|j: int| 0 <= j < i ==> a@[j] == b@[j],
    {
        if a[i] != b[i] {
            return false;
        }
    }
    assert(a@ =~= b@);
    true
}

/// Whether the characters of `a` are those of the text `b`.
pub fn is_text(a: &Vec<char>, b: &str) -> (r: bool)
    ensures
        r == (a@ == b@),
{
    same_chars(a, &chars_of(b))
}

/// Splitting a text whose last character is not the separator leaves that
/// character at the end of the last piece.
pub proof fn lemma_split_last(s: Seq<char>, sep: char)
    requires
        s.len() > 0,
        s.last() != sep,
    ensures
        split(s, sep).last().len() > 0,
        split(s, sep).last().last() == s.last(),
        split(s, sep).len() == split(s.drop_last(), sep).len(),
{
    lemma_split_len(s.drop_last(), sep);
}

/// A final line ending is optional: a text that ends with a line feed, or
/// with a carriage return and a line feed, has the same lines as the text
/// without it (for a text whose last character is neither).
pub proof fn law_final_line_ending_optional(s: Seq<char>)
    requires
        s.len() > 0,
        s.last() != '\n',
        s.last() != '\r',
    ensures
        lines(s.push('\n')) == lines(s),
        lines(s.push('\r').push('\n')) == lines(s),
{
    let p = split(s, '\n');
    lemma_split_len(s, '\n');
    lemma_split_last(s, '\n');
    let n = p.len();
    assert(s.push('\n').drop_last() == s);
    let p1 = split(s.push('\n'), '\n');
    assert(p1 == p.push(Seq::<char>::empty()));
    assert(strip_cr(p.last()) == p.last());
    assert(lines(s.push('\n')) =~= lines(s)) by {
        assert(p1.take(p1.len() - 1) =~= p);
        assert(p.take(n - 1).map_values(|l: Seq<char>| strip_cr(l)).push(p.last()) =~= p.map_values(
            |l: Seq<char>| strip_cr(l),
        ));
    }
    let s2 = s.push('\r');
    assert(s2.drop_last() == s);
    assert(s2.push('\n').drop_last() == s2);
    let p2 = split(s2, '\n');
    assert(p2 == p.update(n - 1, p.last().push('\r')));
    let p3 = split(s2.push('\n'), '\n');
    assert(p3 == p2.push(Seq::<char>::empty()));
    assert(strip_cr(p.last().push('\r')) =~= p.last());
    assert(lines(s2.push('\n')) =~= lines(s)) by {
        assert(p3.take(p3.len() - 1) =~= p2);
        assert(p2.map_values(|l: Seq<char>| strip_cr(l)) =~= p.take(n - 1).map_values(
            |l: Seq<char>| strip_cr(l),
        ).push(p.last()));
    }
}

/// A text without the separator is a single piece.
pub proof fn lemma_split_no_sep(y: Seq<char>, sep: char)
    requires
        !y.contains(sep),
    ensures
        split(y, sep) == seq![y],
    decreases y.len(),
{
    if y.len() > 0 {
        assert(!y.drop_last().contains(sep)) by {
            if y.drop_last().contains(sep) {
                let i = choose|i: int| 0 <= i < y.drop_last().len() && y.drop_last()[i] == sep;
                assert(y[i] == sep);
            }
        }
        lemma_split_no_sep(y.drop_last(), sep);
        assert(y[y.len() - 1] != sep);
        assert(y.drop_last().push(y.last()) =~= y);
        assert(split(y, sep) =~= seq![y]);
    } else {
        assert(y =~= Seq::<char>::empty());
    }
}

/// Splitting a text that starts with a separator-free piece and a
/// separator gives that piece, then the pieces of the rest.
pub proof fn lemma_split_after_sep(y: Seq<char>, sep: char, z: Seq<char>)
    requires
        !y.contains(sep),
    ensures
        split(y.push(sep) + z, sep) == seq![y] + split(z, sep),
    decreases z.len(),
{
    if z.len() == 0 {
        assert(y.push(sep) + z =~= y.push(sep));
        assert(y.push(sep).drop_last() =~= y);
        lemma_split_no_sep(y, sep);
        assert(split(y.push(sep) + z, sep) =~= seq![y] + split(z, sep));
    } else {
        let t = y.push(sep) + z;
        assert(t.drop_last() =~= y.push(sep) + z.drop_last());
        assert(t.last() == z.last());
        lemma_split_after_sep(y, sep, z.drop_last());
        lemma_split_len(z.drop_last(), sep);
        assert(split(t, sep) =~= seq![y] + split(z, sep));
    }
}

/// There is one piece more than there are separators.
pub proof fn law_split_count(x: Seq<char>, sep: char)
    ensures
        split(x, sep).len() == x.filter(|c: char| c == sep).len() + 1,
    decreases x.len(),
{
    reveal(Seq::filter);
    if x.len() > 0 {
        law_split_count(x.drop_last(), sep);
        lemma_split_len(x.drop_last(), sep);
    }
}

} // verus!
