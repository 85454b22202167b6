use vstd::prelude::*;

verus! {

/// Unicode `White_Space` code points, as `char::is_whitespace` documents them.
pub open spec fn is_ws(c: char) -> bool {
    let u = c as u32;
    ||| 0x09 <= u <= 0x0D
    ||| u == 0x20
    ||| u == 0x85
    ||| u == 0xA0
    ||| u == 0x1680
    ||| 0x2000 <= u <= 0x200A
    ||| u == 0x2028
    ||| u == 0x2029
    ||| u == 0x202F
    ||| u == 0x205F
    ||| u == 0x3000
}

/// Whether `c` is Unicode white space.
pub fn is_whitespace(c: char) -> (r: bool)
    ensures
        r == is_ws(c),
{
    let u = c as u32;
    (0x09 <= u && u <= 0x0D) || u == 0x20 || u == 0x85 || u == 0xA0 || u == 0x1680 || (0x2000
        <= u && u <= 0x200A) || u == 0x2028 || u == 0x2029 || u == 0x202F || u == 0x205F || u
        == 0x3000
}

} // verus!

verus! {

/// The characters of `s`, in order.
pub fn chars_of(s: &str) -> (v: Vec<char>)
    ensures
        v@ == s@,
{
    let mut v: Vec<char> = Vec::new();
    for c in it: s.chars()
        invariant
            it.seq() == s@,
            v@ == s@.take(it.index() as int),
    {
        v.push(c);
    }
    assert(v@ == s@.take(s@.len() as int));
    v
}

} // verus!

verus! {

/// Drops leading white space (`str::trim_start`).
pub open spec fn trim_start(s: Seq<char>) -> Seq<char>
    decreases s.len(),
{
    if s.len() > 0 && is_ws(s[0]) {
        trim_start(s.drop_first())
    } else {
        s
    }
}

/// Drops trailing white space (`str::trim_end`).
pub open spec fn trim_end(s: Seq<char>) -> Seq<char>
    decreases s.len(),
{
    if s.len() > 0 && is_ws(s.last()) {
        trim_end(s.drop_last())
    } else {
        s
    }
}

/// Drops leading and trailing white space (`str::trim`).
pub open spec fn trim(s: Seq<char>) -> Seq<char> {
    trim_end(trim_start(s))
}

/// The pieces of `s` between occurrences of `sep`, as `str::split` with a
/// `char` pattern yields them: there is always at least one piece, and
/// `n` separators give `n + 1` pieces, empty ones included.
pub open spec fn split_char(s: Seq<char>, sep: char) -> Seq<Seq<char>>
    decreases s.len(),
{
    if s.len() == 0 {
        seq![Seq::<char>::empty()]
    } else {
        let r = split_char(s.drop_last(), sep);
        if s.last() == sep {
            r.push(Seq::<char>::empty())
        } else {
            r.update(r.len() - 1, r.last().push(s.last()))
        }
    }
}

/// Whether `s` ends with a carriage return followed by a line feed.
pub open spec fn ends_crlf(s: Seq<char>) -> bool {
    s.len() >= 2 && s[s.len() - 2] == '\r' && s.last() == '\n'
}

/// The pieces of `s` between occurrences of `"\r\n"`, as `str::split("\r\n")`
/// yields them. Two occurrences of `"\r\n"` never overlap, so reading the
/// matches from the end finds the same ones as reading them from the start.
pub open spec fn split_crlf(s: Seq<char>) -> Seq<Seq<char>>
    decreases s.len(),
{
    if s.len() == 0 {
        seq![Seq::<char>::empty()]
    } else if ends_crlf(s) {
        split_crlf(s.take(s.len() - 2)).push(Seq::<char>::empty())
    } else {
        let r = split_crlf(s.drop_last());
        r.update(r.len() - 1, r.last().push(s.last()))
    }
}

/// The pieces of `ps` with `sep` between each two of them (`[T]::join`).
pub open spec fn join(ps: Seq<Seq<char>>, sep: Seq<char>) -> Seq<char>
    decreases ps.len(),
{
    if ps.len() == 0 {
        Seq::<char>::empty()
    } else if ps.len() == 1 {
        ps[0]
    } else {
        join(ps.drop_last(), sep) + sep + ps.last()
    }
}

/// The contents of each string.
pub open spec fn views(v: Seq<String>) -> Seq<Seq<char>> {
    v.map_values(|x: String| x@)
}

/// The decimal digit for `d < 10`.
pub open spec fn digit(d: nat) -> char {
    (('0' as nat) + d) as char
}

/// The decimal representation of `n`, as `{}` formats an unsigned integer.
pub open spec fn decimal(n: nat) -> Seq<char>
    decreases n,
{
    if n < 10 {
        seq![digit(n)]
    } else {
        decimal(n / 10).push(digit(n % 10))
    }
}

/// `split_char` yields at least one piece.
pub proof fn lemma_split_char_len(s: Seq<char>, sep: char)
    ensures
        split_char(s, sep).len() >= 1,
    decreases s.len(),
{
    if s.len() > 0 {
        lemma_split_char_len(s.drop_last(), sep);
    }
}

/// `split_crlf` yields at least one piece.
pub proof fn lemma_split_crlf_len(s: Seq<char>)
    ensures
        split_crlf(s).len() >= 1,
    decreases s.len(),
{
    if s.len() > 0 {
        if ends_crlf(s) {
            lemma_split_crlf_len(s.take(s.len() - 2));
        } else {
            lemma_split_crlf_len(s.drop_last());
        }
    }
}

/// Appends `c` to `s` by `String::push`, whose documentation promises that
/// `c` is added at the end and nothing else changes.
#[verifier::external_body]
pub(crate) fn push_char(s: &mut String, c: char)
    ensures
        final(s)@ == old(s)@.push(c),
{
    s.push(c);
}

/// Appends `t` to `s`.
pub fn push_str(s: &mut String, t: &str)
    ensures
        final(s)@ == old(s)@ + t@,
{
    s.append(t);
}

/// The decimal digit for `d`.
pub fn digit_char(d: usize) -> (c: char)
    requires
        d < 10,
    ensures
        c == digit(d as nat),
{
    let b: u8 = 48u8 + (d as u8);
    b as char
}

/// Appends the decimal representation of `n` to `s`.
pub fn push_decimal(s: &mut String, n: usize)
    ensures
        final(s)@ == old(s)@ + decimal(n as nat),
    decreases n,
{
    if n >= 10 {
        push_decimal(s, n / 10);
    }
    push_char(s, digit_char(n % 10));
    proof {
        if n >= 10 {
            assert(decimal(n as nat) == decimal((n / 10) as nat).push(digit((n % 10) as nat)));
        }
    }
}

/// The characters `v[lo..hi]` as a string.
pub fn string_of(v: &Vec<char>, lo: usize, hi: usize) -> (r: String)
    requires
        lo <= hi <= v.len(),
    ensures
        r@ == v@.subrange(lo as int, hi as int),
{
    let mut r = String::new();
    let mut i = lo;
    while i < hi
        invariant
            lo <= i <= hi <= v.len(),
            r@ == v@.subrange(lo as int, i as int),
        decreases hi - i,
    {
        push_char(&mut r, v[i]);
        i = i + 1;
        assert(r@ == v@.subrange(lo as int, i as int));
    }
    r
}

} // verus!

verus! {

/// The bounds `(a, b)` with `v[a..b]` the trimmed characters of `v`.
pub fn trim_bounds(v: &Vec<char>) -> (r: (usize, usize))
    ensures
        r.0 <= r.1 <= v.len(),
        v@.subrange(r.0 as int, r.1 as int) == trim(v@),
{
    let n = v.len();
    let mut a: usize = 0;
    assert(v@.subrange(0, n as int) == v@);
    while a < n && is_whitespace(v[a])
        invariant
            a <= n == v.len(),
            trim_start(v@) == trim_start(v@.subrange(a as int, n as int)),
        decreases n - a,
    {
        assert(v@.subrange(a as int, n as int).drop_first() == v@.subrange(a + 1, n as int));
        a = a + 1;
    }
    let mut b: usize = n;
    while b > a && is_whitespace(v[b - 1])
        invariant
            a <= b <= n == v.len(),
            trim_start(v@) == v@.subrange(a as int, n as int),
            trim(v@) == trim_end(v@.subrange(a as int, b as int)),
        decreases b,
    {
        assert(v@.subrange(a as int, b as int).drop_last() == v@.subrange(a as int, b - 1));
        b = b - 1;
    }
    (a, b)
}

/// The pieces of `v[lo..hi]` between occurrences of `sep`.
pub fn split_chars(v: &Vec<char>, lo: usize, hi: usize, sep: char) -> (r: Vec<String>)
    requires
        lo <= hi <= v.len(),
    ensures
        views(r@) == split_char(v@.subrange(lo as int, hi as int), sep),
{
    let mut pieces: Vec<String> = Vec::new();
    let mut cur = String::new();
    let mut i = lo;
    proof {
        assert(v@.subrange(lo as int, lo as int) =~= Seq::<char>::empty());
        assert(views(pieces@).push(cur@) =~= seq![Seq::<char>::empty()]);
    }
    while i < hi
        invariant
            lo <= i <= hi <= v.len(),
            views(pieces@).push(cur@) == split_char(v@.subrange(lo as int, i as int), sep),
        decreases hi - i,
    {
        let c = v[i];
        let ghost s = v@.subrange(lo as int, i + 1);
        let ghost prev = views(pieces@).push(cur@);
        assert(s.drop_last() == v@.subrange(lo as int, i as int));
        assert(s.last() == c);
        if c == sep {
            pieces.push(cur);
            cur = String::new();
            assert(views(pieces@).push(cur@) =~= prev.push(Seq::<char>::empty()));
        } else {
            push_char(&mut cur, c);
            assert(views(pieces@).push(cur@) =~= prev.update(
                prev.len() - 1,
                prev.last().push(c),
            ));
        }
        i = i + 1;
    }
    pieces.push(cur);
    assert(views(pieces@) =~= split_char(v@.subrange(lo as int, hi as int), sep));
    pieces
}

} // verus!

verus! {

/// The pieces of `v[lo..hi]` between occurrences of `"\r\n"`.
pub fn split_crlf_chars(v: &Vec<char>, lo: usize, hi: usize) -> (r: Vec<String>)
    requires
        lo <= hi <= v.len(),
    ensures
        views(r@) == split_crlf(v@.subrange(lo as int, hi as int)),
{
    let mut pieces: Vec<String> = Vec::new();
    let mut start = lo;
    let mut i = lo;
    proof {
        assert(v@.subrange(lo as int, lo as int) =~= Seq::<char>::empty());
        assert(views(pieces@).push(v@.subrange(lo as int, lo as int)) =~= seq![
            Seq::<char>::empty(),
        ]);
    }
    while i < hi
        invariant
            lo <= start <= i <= hi <= v.len(),
            start > lo ==> v@[start - 1] == '\n',
            views(pieces@).push(v@.subrange(start as int, i as int)) == split_crlf(
                v@.subrange(lo as int, i as int),
            ),
        decreases hi - i,
    {
        let c = v[i];
        let ghost s = v@.subrange(lo as int, i + 1);
        let ghost prev = views(pieces@).push(v@.subrange(start as int, i as int));
        assert(s.drop_last() == v@.subrange(lo as int, i as int));
        assert(s.last() == c);
        if c == '\n' && i > lo && v[i - 1] == '\r' {
            assert(i - 1 >= start);
            let ghost t = v@.subrange(lo as int, i - 1);
            assert(ends_crlf(s));
            assert(s.take(s.len() - 2) == t);
            assert(t.len() == 0 || !ends_crlf(v@.subrange(lo as int, i as int)));
            assert(v@.subrange(lo as int, i as int).drop_last() == t);
            proof {
                lemma_split_crlf_len(t);
            }
            let ghost rt = split_crlf(t);
            assert(split_crlf(v@.subrange(lo as int, i as int)) == rt.update(
                rt.len() - 1,
                rt.last().push('\r'),
            ));
            assert(rt.len() == prev.len());
            assert(v@.subrange(start as int, i as int) == v@.subrange(start as int, i - 1).push(
                '\r',
            ));
            assert(prev[prev.len() - 1] == v@.subrange(start as int, i as int));
            assert(rt.last().push('\r') == v@.subrange(start as int, i as int));
            assert(rt.last() =~= rt.last().push('\r').drop_last());
            assert(rt.last() =~= v@.subrange(start as int, i - 1));
            assert forall|k: int| 0 <= k < rt.len() - 1 implies rt[k] == views(pieces@)[k] by {
                assert(prev[k] == rt[k]);
            }
            assert(rt =~= views(pieces@).push(v@.subrange(start as int, i - 1)));
            let piece = string_of(v, start, i - 1);
            pieces.push(piece);
            start = i + 1;
            assert(v@.subrange(start as int, i + 1) =~= Seq::<char>::empty());
            assert(views(pieces@).push(v@.subrange(start as int, i + 1)) =~= rt.push(
                Seq::<char>::empty(),
            ));
        } else {
            assert(!ends_crlf(s));
            assert(v@.subrange(start as int, i + 1) == v@.subrange(start as int, i as int).push(c));
            assert(views(pieces@).push(v@.subrange(start as int, i + 1)) =~= prev.update(
                prev.len() - 1,
                prev.last().push(c),
            ));
        }
        i = i + 1;
    }
    let last = string_of(v, start, hi);
    pieces.push(last);
    assert(views(pieces@) =~= split_crlf(v@.subrange(lo as int, hi as int)));
    pieces
}

/// The pieces of `s` between occurrences of `"\r\n"`, in order.
pub fn split_lines(s: &str) -> (r: Vec<String>)
    ensures
        views(r@) == split_crlf(s@),
{
    let v = chars_of(s);
    assert(v@.subrange(0, v@.len() as int) == v@);
    split_crlf_chars(&v, 0, v.len())
}

/// The strings of `ps` with `sep` between each two of them.
pub fn join_strings(ps: &Vec<String>, sep: &str) -> (r: String)
    ensures
        r@ == join(views(ps@), sep@),
{
    let mut r = String::new();
    let mut i: usize = 0;
    while i < ps.len()
        invariant
            i <= ps.len(),
            r@ == join(views(ps@).take(i as int), sep@),
        decreases ps.len() - i,
    {
        if i > 0 {
            push_str(&mut r, sep);
        }
        push_str(&mut r, ps[i].as_str());
        let ghost t = views(ps@).take(i + 1);
        assert(t.drop_last() =~= views(ps@).take(i as int));
        assert(t.last() == ps@[i as int]@);
        i = i + 1;
    }
    assert(views(ps@).take(ps.len() as int) =~= views(ps@));
    r
}

} // verus!
