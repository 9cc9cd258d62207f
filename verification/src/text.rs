//! Character-level text utilities shared by the parsers and formatters.
//!
//! Text is modelled as `Seq<char>`; the executable helpers work on
//! `Vec<char>` / `&[char]` and are proved against the spec functions here.
use vstd::prelude::*;

verus! {

/// Unicode `White_Space`, the set that `char::is_whitespace` tests.
pub open spec fn is_ws(c: char) -> bool {
    ||| c == '\t' || c == '\n' || c == '\u{0B}' || c == '\u{0C}' || c == '\r' || c == ' '
    ||| c == '\u{85}' || c == '\u{A0}' || c == '\u{1680}'
    ||| ('\u{2000}' <= c && c <= '\u{200A}')
    ||| c == '\u{2028}' || c == '\u{2029}' || c == '\u{202F}' || c == '\u{205F}' || c == '\u{3000}'
}

/// `char::is_whitespace`.
pub fn is_whitespace(c: char) -> (r: bool)
    ensures
        r == is_ws(c),
{
    c == '\t' || c == '\n' || c == '\u{0B}' || c == '\u{0C}' || c == '\r' || c == ' '
        || c == '\u{85}' || c == '\u{A0}' || c == '\u{1680}' || ('\u{2000}' <= c && c
        <= '\u{200A}') || c == '\u{2028}' || c == '\u{2029}' || c == '\u{202F}' || c == '\u{205F}'
        || c == '\u{3000}'
}

/// Number of UTF-8 bytes that encode `c`.
pub open spec fn utf8_width(c: char) -> nat {
    if (c as u32) < 0x80 {
        1
    } else if (c as u32) < 0x800 {
        2
    } else if (c as u32) < 0x10000 {
        3
    } else {
        4
    }
}

/// Number of UTF-8 bytes that encode `s` (what `str::len` returns).
pub open spec fn byte_len(s: Seq<char>) -> nat
    decreases s.len(),
{
    if s.len() == 0 {
        0
    } else {
        byte_len(s.drop_last()) + utf8_width(s.last())
    }
}

pub proof fn lemma_byte_len_append(a: Seq<char>, b: Seq<char>)
    ensures
        byte_len(a + b) == byte_len(a) + byte_len(b),
    decreases b.len(),
{
    if b.len() == 0 {
        assert(a + b =~= a);
    } else {
        lemma_byte_len_append(a, b.drop_last());
        assert((a + b).drop_last() =~= a + b.drop_last());
    }
}

pub proof fn lemma_byte_len_bounds(s: Seq<char>)
    ensures
        s.len() <= byte_len(s) <= 4 * s.len(),
    decreases s.len(),
{
    if s.len() > 0 {
        lemma_byte_len_bounds(s.drop_last());
    }
}

/// `char::len_utf8`.
pub fn char_width(c: char) -> (r: usize)
    ensures
        r == utf8_width(c),
{
    let v = c as u32;
    if v < 0x80 {
        1
    } else if v < 0x800 {
        2
    } else if v < 0x10000 {
        3
    } else {
        4
    }
}

/// Whether `s` is at most `limit` bytes long in UTF-8.
pub fn byte_len_le(s: &[char], limit: usize) -> (r: bool)
    ensures
        r == (byte_len(s@) <= limit),
{
    let mut total: usize = 0;
    let mut i: usize = 0;
    while i < s.len()
        invariant
            i <= s.len(),
            total == byte_len(s@.take(i as int)),
            total <= limit,
        decreases s.len() - i,
    {
        assert(s@.take((i + 1) as int).drop_last() =~= s@.take(i as int));
        let w = char_width(s[i]);
        if w > limit - total {
            proof {
                lemma_byte_len_append(s@.take((i + 1) as int), s@.skip((i + 1) as int));
                assert(s@.take((i + 1) as int) + s@.skip((i + 1) as int) =~= s@);
            }
            return false;
        }
        total = total + w;
        i += 1;
    }
    assert(s@.take(i as int) =~= s@);
    true
}

/// Number of UTF-8 bytes that encode `s`, exactly.
pub fn byte_len_wide(s: &[char]) -> (r: u128)
    ensures
        r == byte_len(s@),
{
    let mut total: u128 = 0;
    let mut i: usize = 0;
    while i < s.len()
        invariant
            i <= s.len(),
            total == byte_len(s@.take(i as int)),
            total <= 4 * i,
        decreases s.len() - i,
    {
        assert(s@.take((i + 1) as int).drop_last() =~= s@.take(i as int));
        let w = char_width(s[i]);
        total = total + w as u128;
        i += 1;
    }
    assert(s@.take(i as int) =~= s@);
    total
}

/// `s` begins with `p`.
pub open spec fn starts_with(s: Seq<char>, p: Seq<char>) -> bool {
    p.len() <= s.len() && s.take(p.len() as int) == p
}

/// Character sequences are equal.
pub fn chars_eq(a: &[char], b: &[char]) -> (r: bool)
    ensures
        r == (a@ == b@),
{
    if a.len() != b.len() {
        return false;
    }
    let mut i: usize = 0;
    while i < a.len()
        invariant
            a.len() == b.len(),
            i <= a.len(),
            forall|k: int| 0 <= k < i ==> a@[k] == b@[k],
        decreases a.len() - i,
    {
        if a[i] != b[i] {
            return false;
        }
        i += 1;
    }
    assert(a@ =~= b@);
    true
}

/// `s` begins with `p`.
pub fn has_prefix(s: &[char], p: &[char]) -> (r: bool)
    ensures
        r == starts_with(s@, p@),
{
    if p.len() > s.len() {
        return false;
    }
    let mut i: usize = 0;
    while i < p.len()
        invariant
            p.len() <= s.len(),
            i <= p.len(),
            forall|k: int| 0 <= k < i ==> s@[k] == p@[k],
        decreases p.len() - i,
    {
        if s[i] != p[i] {
            assert(s@.take(p.len() as int)[i as int] != p@[i as int]);
            return false;
        }
        i += 1;
    }
    assert(s@.take(p.len() as int) =~= p@);
    true
}

/// Appends one character to a string.
#[verifier::external_body]
fn push_char(s: &mut String, c: char)
    ensures
        final(s)@ == old(s)@.push(c),
{
    s.push(c);
}

/// The characters of a string slice, in order.
pub fn chars_of(s: &str) -> (v: Vec<char>)
    ensures
        v@ == s@,
{
    let mut v: Vec<char> = Vec::new();
    for c in it: s.chars()
        invariant
            v@ == it.seq().take(it.index() as int),
    {
        v.push(c);
    }
    proof {
        assert(v@ =~= s@);
    }
    v
}

/// A string made of the given characters.
pub fn string_of(v: &[char]) -> (s: String)
    ensures
        s@ == v@,
{
    let mut s = String::new();
    let mut i: usize = 0;
    while i < v.len()
        invariant
            i <= v.len(),
            s@ == v@.take(i as int),
        decreases v.len() - i,
    {
        push_char(&mut s, v[i]);
        i += 1;
        proof {
            assert(v@.take(i as int) =~= v@.take((i - 1) as int).push(v@[i - 1]));
        }
    }
    proof {
        assert(v@.take(i as int) =~= v@);
    }
    s
}

/// Appends `b` to `a`.
pub fn extend_chars(a: &mut Vec<char>, b: &[char])
    ensures
        final(a)@ == old(a)@ + b@,
{
    let mut i: usize = 0;
    while i < b.len()
        invariant
            i <= b.len(),
            a@ == old(a)@ + b@.take(i as int),
        decreases b.len() - i,
    {
        a.push(b[i]);
        i += 1;
        proof {
            assert(b@.take(i as int) =~= b@.take((i - 1) as int).push(b@[i - 1]));
        }
    }
    proof {
        assert(b@.take(i as int) =~= b@);
    }
}

/// A copy of `v`.
pub fn copy_chars(v: &Vec<char>) -> (r: Vec<char>)
    ensures
        r@ == v@,
{
    let r = slice_chars(v.as_slice(), 0, v.len());
    assert(v@.subrange(0, v@.len() as int) =~= v@);
    r
}

/// Copy of `s[from..to]`.
pub fn slice_chars(s: &[char], from: usize, to: usize) -> (r: Vec<char>)
    requires
        from <= to <= s.len(),
    ensures
        r@ == s@.subrange(from as int, to as int),
{
    let mut r: Vec<char> = Vec::new();
    let mut i = from;
    while i < to
        invariant
            from <= i <= to <= s.len(),
            r@ == s@.subrange(from as int, i as int),
        decreases to - i,
    {
        r.push(s[i]);
        i += 1;
        proof {
            assert(s@.subrange(from as int, i as int) =~= s@.subrange(from as int, (i - 1) as int).push(s@[i - 1]));
        }
    }
    r
}

// ---------------------------------------------------------------- trimming

/// `s` with leading whitespace removed (`str::trim_start`).
pub open spec fn trim_start(s: Seq<char>) -> Seq<char>
    decreases s.len(),
{
    if s.len() > 0 && is_ws(s[0]) {
        trim_start(s.drop_first())
    } else {
        s
    }
}

/// `s` with trailing whitespace removed (`str::trim_end`).
pub open spec fn trim_end(s: Seq<char>) -> Seq<char>
    decreases s.len(),
{
    if s.len() > 0 && is_ws(s.last()) {
        trim_end(s.drop_last())
    } else {
        s
    }
}

/// `str::trim`.
pub open spec fn trim(s: Seq<char>) -> Seq<char> {
    trim_end(trim_start(s))
}

/// Index of the first non-whitespace character at or after `i`.
proof fn lemma_trim_start_skip(s: Seq<char>, i: int)
    requires
        0 <= i <= s.len(),
        forall|k: int| 0 <= k < i ==> is_ws(s[k]),
    ensures
        trim_start(s) == trim_start(s.skip(i)),
    decreases i,
{
    if i > 0 {
        assert(s.drop_first().skip(i - 1) =~= s.skip(i));
        lemma_trim_start_skip(s.drop_first(), i - 1);
    } else {
        assert(s.skip(0) =~= s);
    }
}

proof fn lemma_trim_end_take(s: Seq<char>, j: int)
    requires
        0 <= j <= s.len(),
        forall|k: int| j <= k < s.len() ==> is_ws(s[k]),
    ensures
        trim_end(s) == trim_end(s.take(j)),
    decreases s.len() - j,
{
    if j < s.len() {
        assert(s.drop_last().take(j) =~= s.take(j));
        lemma_trim_end_take(s.drop_last(), j);
    } else {
        assert(s.take(j) =~= s);
    }
}

/// `str::trim_start`.
pub fn trim_start_chars(s: &[char]) -> (r: Vec<char>)
    ensures
        r@ == trim_start(s@),
{
    let mut i: usize = 0;
    while i < s.len() && is_whitespace(s[i])
        invariant
            i <= s.len(),
            forall|k: int| 0 <= k < i ==> is_ws(s@[k]),
        decreases s.len() - i,
    {
        i += 1;
    }
    proof {
        lemma_trim_start_skip(s@, i as int);
    }
    slice_chars(s, i, s.len())
}

/// `str::trim_end`.
pub fn trim_end_chars(s: &[char]) -> (r: Vec<char>)
    ensures
        r@ == trim_end(s@),
{
    let mut j: usize = s.len();
    while j > 0 && is_whitespace(s[j - 1])
        invariant
            j <= s.len(),
            forall|k: int| j <= k < s.len() ==> is_ws(s@[k]),
        decreases j,
    {
        j -= 1;
    }
    proof {
        lemma_trim_end_take(s@, j as int);
        assert(s@.subrange(0, j as int) =~= s@.take(j as int));
    }
    slice_chars(s, 0, j)
}

/// `str::trim`.
pub fn trim_chars(s: &[char]) -> (r: Vec<char>)
    ensures
        r@ == trim(s@),
{
    let a = trim_start_chars(s);
    trim_end_chars(&a)
}


// ---------------------------------------------------------------- words

/// The whitespace-separated words of `s` (`str::split_whitespace`).
pub open spec fn words(s: Seq<char>) -> Seq<Seq<char>>
    decreases s.len(),
{
    if s.len() == 0 {
        Seq::empty()
    } else {
        let w = words(s.drop_last());
        let c = s.last();
        if is_ws(c) {
            w
        } else if s.len() > 1 && !is_ws(s[s.len() - 2]) && w.len() > 0 {
            w.update(w.len() - 1, w.last().push(c))
        } else {
            w.push(seq![c])
        }
    }
}

/// Every word is non-empty and holds no whitespace.
pub proof fn lemma_words_wf(s: Seq<char>)
    ensures
        forall|i: int|
            0 <= i < words(s).len() ==> #[trigger] words(s)[i].len() > 0 && forall|k: int|
                0 <= k < words(s)[i].len() ==> !is_ws(words(s)[i][k]),
    decreases s.len(),
{
    if s.len() > 0 {
        let w = words(s.drop_last());
        lemma_words_wf(s.drop_last());
        let c = s.last();
        if !is_ws(c) && s.len() > 1 && !is_ws(s[s.len() - 2]) && w.len() > 0 {
            let nw = w.update(w.len() - 1, w.last().push(c));
            assert forall|i: int| 0 <= i < nw.len() implies #[trigger] nw[i].len() > 0 && forall|k: int|
                0 <= k < nw[i].len() ==> !is_ws(nw[i][k]) by {
                if i < w.len() - 1 {
                    assert(nw[i] == w[i]);
                } else {
                    assert(w[i].len() > 0);
                }
            }
        } else if !is_ws(c) {
            let nw = w.push(seq![c]);
            assert forall|i: int| 0 <= i < nw.len() implies #[trigger] nw[i].len() > 0 && forall|k: int|
                0 <= k < nw[i].len() ==> !is_ws(nw[i][k]) by {
                if i < w.len() {
                    assert(nw[i] == w[i]);
                }
            }
        }
    }
}

/// `str::split_whitespace`, collected.
pub fn split_whitespace(s: &[char]) -> (r: Vec<Vec<char>>)
    ensures
        r@.len() == words(s@).len(),
        forall|i: int| 0 <= i < r@.len() ==> (#[trigger] r@[i])@ == words(s@)[i],
{
    let mut done: Vec<Vec<char>> = Vec::new();
    let mut cur: Vec<char> = Vec::new();
    let mut i: usize = 0;
    while i < s.len()
        invariant
            i <= s.len(),
            cur@.len() > 0 ==> {
                &&& i > 0
                &&& !is_ws(s@[i - 1])
                &&& words(s@.take(i as int)).len() == done@.len() + 1
                &&& words(s@.take(i as int)).last() == cur@
            },
            cur@.len() == 0 ==> {
                &&& (i == 0 || is_ws(s@[i - 1]))
                &&& words(s@.take(i as int)).len() == done@.len()
            },
            forall|k: int| 0 <= k < done@.len() ==> (#[trigger] done@[k])@ == words(s@.take(i as int))[k],
        decreases s.len() - i,
    {
        let c = s[i];
        let ghost prev = s@.take(i as int);
        let ghost next = s@.take(i + 1);
        assert(next.drop_last() =~= prev);
        assert(next.last() == c);
        if is_whitespace(c) {
            if cur.len() > 0 {
                let w = cur;
                cur = Vec::new();
                done.push(w);
            }
        } else {
            if cur.len() > 0 {
                assert(next[next.len() - 2] == s@[i - 1]);
            }
            cur.push(c);
        }
        i += 1;
    }
    if cur.len() > 0 {
        done.push(cur);
    }
    assert(s@.take(i as int) =~= s@);
    done
}

/// `parts` joined with `sep` between consecutive parts.
pub open spec fn join(parts: Seq<Seq<char>>, sep: Seq<char>) -> Seq<char>
    decreases parts.len(),
{
    if parts.len() == 0 {
        Seq::empty()
    } else if parts.len() == 1 {
        parts[0]
    } else {
        join(parts.drop_last(), sep) + sep + parts.last()
    }
}

/// `parts.join(sep)`.
pub fn join_chars(parts: &Vec<Vec<char>>, sep: &[char]) -> (r: Vec<char>)
    ensures
        r@ == join(views(parts@), sep@),
{
    let ghost ps = views(parts@);
    let mut r: Vec<char> = Vec::new();
    let mut i: usize = 0;
    while i < parts.len()
        invariant
            i <= parts.len(),
            ps == views(parts@),
            r@ == join(ps.take(i as int), sep@),
        decreases parts.len() - i,
    {
        assert(ps.take((i + 1) as int).drop_last() =~= ps.take(i as int));
        if i > 0 {
            extend_chars(&mut r, sep);
        } else {
            assert(r@ + parts@[0]@ =~= parts@[0]@);
        }
        extend_chars(&mut r, parts[i].as_slice());
        i += 1;
    }
    assert(ps.take(i as int) =~= ps);
    r
}

/// `s.split_whitespace().collect::<Vec<_>>().join(" ")`.
pub open spec fn normalize_ws(s: Seq<char>) -> Seq<char> {
    join(words(s), seq![' '])
}

/// Maps each string to its characters.
pub open spec fn strings(v: Seq<String>) -> Seq<Seq<char>> {
    v.map_values(|p: String| p@)
}

/// Maps each vector of characters to its sequence.
pub open spec fn views(v: Seq<Vec<char>>) -> Seq<Seq<char>> {
    v.map_values(|p: Vec<char>| p@)
}

pub proof fn lemma_views_push(v: Seq<Vec<char>>, x: Vec<char>)
    ensures
        views(v.push(x)) == views(v).push(x@),
{
    assert(views(v.push(x)) =~= views(v).push(x@));
}

/// Strings made of the given character vectors.
pub fn strings_of(v: &Vec<Vec<char>>) -> (r: Vec<String>)
    ensures
        strings(r@) == views(v@),
{
    let mut r: Vec<String> = Vec::new();
    let mut i: usize = 0;
    while i < v.len()
        invariant
            i <= v.len(),
            strings(r@) == views(v@).take(i as int),
        decreases v.len() - i,
    {
        let ghost before = r@;
        r.push(string_of(v[i].as_slice()));
        assert(views(v@)[i as int] == v@[i as int]@);
        assert(strings(r@) =~= strings(before).push(v@[i as int]@));
        assert(strings(r@) =~= views(v@).take((i + 1) as int));
        i += 1;
    }
    assert(views(v@).take(i as int) =~= views(v@));
    r
}

/// Appends `src[from..to]` to `output`.
pub fn copy_lines_into(output: &mut Vec<Vec<char>>, src: &Vec<Vec<char>>, from: usize, to: usize)
    requires
        from <= to <= src.len(),
    ensures
        views(final(output)@) == views(old(output)@) + views(src@).subrange(from as int, to as int),
{
    let ghost before = views(output@);
    let mut k = from;
    while k < to
        invariant
            from <= k <= to <= src.len(),
            views(output@) == before + views(src@).subrange(from as int, k as int),
        decreases to - k,
    {
        let ghost prev = output@;
        let c = copy_chars(&src[k]);
        output.push(c);
        proof {
            lemma_views_push(prev, c);
            assert(views(src@)[k as int] == src@[k as int]@);
            assert(views(src@).subrange(from as int, k + 1) =~= views(src@).subrange(from as int, k as int).push(
                views(src@)[k as int]));
            assert(views(output@) =~= before + views(src@).subrange(from as int, k + 1));
        }
        k += 1;
    }
}

/// `s.split_whitespace().collect::<Vec<_>>().join(" ")`.
pub fn normalize_whitespace_chars(s: &[char]) -> (r: Vec<char>)
    ensures
        r@ == normalize_ws(s@),
{
    let ws = split_whitespace(s);
    let sp: Vec<char> = vec![' '];
    let r = join_chars(&ws, sp.as_slice());
    assert(views(ws@) =~= words(s@));
    assert(sp@ =~= seq![' ']);
    r
}

// ---------------------------------------------------------------- lines

/// The pieces of `s` between occurrences of `sep` (`str::split`).
pub open spec fn split_on(s: Seq<char>, sep: char) -> Seq<Seq<char>>
    decreases s.len(),
{
    if s.len() == 0 {
        seq![Seq::empty()]
    } else {
        let rest = split_on(s.drop_last(), sep);
        if s.last() == sep {
            rest.push(Seq::empty())
        } else {
            rest.update(rest.len() - 1, rest.last().push(s.last()))
        }
    }
}

pub proof fn lemma_split_on_nonempty(s: Seq<char>, sep: char)
    ensures
        split_on(s, sep).len() >= 1,
    decreases s.len(),
{
    if s.len() > 0 {
        lemma_split_on_nonempty(s.drop_last(), sep);
    }
}

/// `str::split(sep)`, collected.
pub fn split_chars(s: &[char], sep: char) -> (r: Vec<Vec<char>>)
    ensures
        views(r@) == split_on(s@, sep),
{
    let mut done: Vec<Vec<char>> = Vec::new();
    let mut cur: Vec<char> = Vec::new();
    let mut i: usize = 0;
    while i < s.len()
        invariant
            i <= s.len(),
            views(done@).push(cur@) == split_on(s@.take(i as int), sep),
        decreases s.len() - i,
    {
        let ghost prev = s@.take(i as int);
        let ghost next = s@.take(i + 1);
        assert(next.drop_last() =~= prev);
        proof { lemma_split_on_nonempty(prev, sep); }
        if s[i] == sep {
            let w = cur;
            cur = Vec::new();
            done.push(w);
            assert(views(done@).push(cur@) =~= split_on(prev, sep).push(Seq::empty()));
        } else {
            cur.push(s[i]);
            assert(views(done@).push(cur@) =~= split_on(prev, sep).update(
                split_on(prev, sep).len() - 1, split_on(prev, sep).last().push(s@[i as int])));
        }
        i += 1;
    }
    done.push(cur);
    assert(s@.take(i as int) =~= s@);
    assert(views(done@) =~= split_on(s@, sep));
    done
}

/// `line` without one trailing carriage return.
pub open spec fn strip_cr(line: Seq<char>) -> Seq<char> {
    if line.len() > 0 && line.last() == '\r' {
        line.drop_last()
    } else {
        line
    }
}

/// `str::lines`: pieces between line feeds, without a final empty piece after
/// a trailing line feed, each without one trailing carriage return.
pub open spec fn lines(s: Seq<char>) -> Seq<Seq<char>> {
    let parts = split_on(s, '\n');
    let parts = if s.len() == 0 {
        Seq::empty()
    } else if s.last() == '\n' {
        parts.drop_last()
    } else {
        parts
    };
    parts.map_values(|l: Seq<char>| strip_cr(l))
}

/// `str::lines`, collected.
pub fn lines_of(s: &[char]) -> (r: Vec<Vec<char>>)
    ensures
        views(r@) == lines(s@),
{
    let parts = split_chars(s, '\n');
    let ghost ps = split_on(s@, '\n');
    proof { lemma_split_on_nonempty(s@, '\n'); }
    let n = if s.len() == 0 {
        0
    } else if s[s.len() - 1] == '\n' {
        parts.len() - 1
    } else {
        parts.len()
    };
    let mut r: Vec<Vec<char>> = Vec::new();
    let mut i: usize = 0;
    while i < n
        invariant
            n <= parts@.len(),
            views(parts@) == ps,
            i <= n,
            r@.len() == i,
            forall|k: int| 0 <= k < i ==> (#[trigger] r@[k])@ == strip_cr(ps[k]),
        decreases n - i,
    {
        let line = &parts[i];
        assert(line@ == ps[i as int]);
        let l = if line.len() > 0 && line[line.len() - 1] == '\r' {
            slice_chars(line.as_slice(), 0, line.len() - 1)
        } else {
            slice_chars(line.as_slice(), 0, line.len())
        };
        assert(line@.subrange(0, line@.len() - 1) =~= line@.drop_last());
        assert(line@.subrange(0, line@.len() as int) =~= line@);
        r.push(l);
        i += 1;
    }
    assert(views(r@) =~= lines(s@));
    r
}

// ---------------------------------------------------------------- newlines

/// `s.replace("\r\n", "\n").replace('\r', "\n")`.
pub open spec fn normalize_newlines(s: Seq<char>) -> Seq<char>
    decreases s.len(),
{
    if s.len() == 0 {
        Seq::empty()
    } else if s[0] == '\r' && s.len() > 1 && s[1] == '\n' {
        seq!['\n'] + normalize_newlines(s.skip(2))
    } else if s[0] == '\r' {
        seq!['\n'] + normalize_newlines(s.drop_first())
    } else {
        seq![s[0]] + normalize_newlines(s.drop_first())
    }
}

/// `s.replace("\r\n", "\n").replace('\r', "\n")`.
pub fn normalize_newlines_chars(s: &[char]) -> (r: Vec<char>)
    ensures
        r@ == normalize_newlines(s@),
{
    let mut r: Vec<char> = Vec::new();
    let mut i: usize = 0;
    assert(s@.skip(0) =~= s@);
    assert(Seq::<char>::empty() + normalize_newlines(s@) =~= normalize_newlines(s@));
    while i < s.len()
        invariant
            i <= s.len(),
            normalize_newlines(s@) == r@ + normalize_newlines(s@.skip(i as int)),
        decreases s.len() - i,
    {
        let ghost rest = s@.skip(i as int);
        if s[i] == '\r' && i + 1 < s.len() && s[i + 1] == '\n' {
            assert(rest.skip(2) =~= s@.skip(i + 2));
            r.push('\n');
            i += 2;
        } else {
            assert(rest.drop_first() =~= s@.skip(i + 1));
            if s[i] == '\r' {
                r.push('\n');
            } else {
                r.push(s[i]);
            }
            i += 1;
        }
    }
    assert(s@.skip(i as int) =~= Seq::<char>::empty());
    assert(r@ + Seq::<char>::empty() =~= r@);
    r
}


// ---------------------------------------------------------------- numbers

/// The decimal digit for `d < 10`.
pub open spec fn digit_char(d: nat) -> char {
    if d == 0 { '0' } else if d == 1 { '1' } else if d == 2 { '2' } else if d == 3 { '3' }
    else if d == 4 { '4' } else if d == 5 { '5' } else if d == 6 { '6' } else if d == 7 { '7' }
    else if d == 8 { '8' } else { '9' }
}

/// The decimal representation of `n` (what `{}` prints for an integer).
pub open spec fn decimal(n: nat) -> Seq<char>
    decreases n,
{
    if n < 10 {
        seq![digit_char(n)]
    } else {
        decimal(n / 10).push(digit_char(n % 10))
    }
}

fn digit(d: usize) -> (c: char)
    requires
        d < 10,
    ensures
        c == digit_char(d as nat),
{
    if d == 0 { '0' } else if d == 1 { '1' } else if d == 2 { '2' } else if d == 3 { '3' }
    else if d == 4 { '4' } else if d == 5 { '5' } else if d == 6 { '6' } else if d == 7 { '7' }
    else if d == 8 { '8' } else { '9' }
}

/// Appends the decimal representation of `n`.
pub fn push_decimal(out: &mut Vec<char>, n: usize)
    ensures
        final(out)@ == old(out)@ + decimal(n as nat),
    decreases n,
{
    if n < 10 {
        out.push(digit(n));
        assert(out@ =~= old(out)@ + decimal(n as nat));
    } else {
        push_decimal(out, n / 10);
        out.push(digit(n % 10));
        assert(out@ =~= old(out)@ + decimal(n as nat));
    }
}

fn digit_u64(d: u64) -> (c: char)
    requires
        d < 10,
    ensures
        c == digit_char(d as nat),
{
    digit(d as usize)
}

/// Appends the decimal representation of `n`.
pub fn push_decimal_u64(out: &mut Vec<char>, n: u64)
    ensures
        final(out)@ == old(out)@ + decimal(n as nat),
    decreases n,
{
    if n < 10 {
        out.push(digit_u64(n));
        assert(out@ =~= old(out)@ + decimal(n as nat));
    } else {
        push_decimal_u64(out, n / 10);
        out.push(digit_u64(n % 10));
        assert(out@ =~= old(out)@ + decimal(n as nat));
    }
}

} // verus!
