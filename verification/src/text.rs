use vstd::prelude::*;

verus! {

// ---------------------------------------------------------------------------
// Character-level specifications
// ---------------------------------------------------------------------------

/// `::`, the separator used inside normalized keys and Rust paths.
pub open spec fn sep() -> Seq<char> {
    seq![':', ':']
}

/// There is a `::` starting at position `i` of `s`.
pub open spec fn is_sep_at(s: Seq<char>, i: int) -> bool {
    0 <= i && i + 1 < s.len() && s[i] == ':' && s[i + 1] == ':'
}

/// The position of the first `::` in `s` at or after `i`, scanning left to right.
pub open spec fn find_sep_from(s: Seq<char>, i: nat) -> Option<int>
    decreases s.len() - i,
{
    if i + 1 >= s.len() {
        None
    } else if is_sep_at(s, i as int) {
        Some(i as int)
    } else {
        find_sep_from(s, i + 1)
    }
}

/// The position of the first `::` in `s`.
pub open spec fn find_sep(s: Seq<char>) -> Option<int> {
    find_sep_from(s, 0)
}

/// `str::splitn(n, "::")`: at most `n` pieces, split at the first `n - 1` separators.
pub open spec fn split_n(s: Seq<char>, n: nat) -> Seq<Seq<char>>
    decreases n,
{
    if n <= 1 {
        seq![s]
    } else {
        match find_sep(s) {
            None => seq![s],
            Some(i) => seq![s.take(i)] + split_n(s.skip(i + 2), (n - 1) as nat),
        }
    }
}

/// Appending `::` to `v` puts the first separator exactly at the end of `v`:
/// `v` can stand as a leading field in front of a `::` without being cut.
pub open spec fn sep_free(v: Seq<char>) -> bool {
    find_sep(v + sep()) == Some(v.len() as int)
}

/// `s` starts with `p`.
pub open spec fn has_prefix(s: Seq<char>, p: Seq<char>) -> bool {
    p.len() <= s.len() && s.take(p.len() as int) == p
}

/// `str::strip_prefix`.
pub open spec fn strip_prefix(s: Seq<char>, p: Seq<char>) -> Option<Seq<char>> {
    if has_prefix(s, p) {
        Some(s.skip(p.len() as int))
    } else {
        None
    }
}

/// The ASCII digit for `d`, which is below ten.
pub open spec fn digit_char(d: nat) -> char {
    if d == 0 {
        '0'
    } else if d == 1 {
        '1'
    } else if d == 2 {
        '2'
    } else if d == 3 {
        '3'
    } else if d == 4 {
        '4'
    } else if d == 5 {
        '5'
    } else if d == 6 {
        '6'
    } else if d == 7 {
        '7'
    } else if d == 8 {
        '8'
    } else {
        '9'
    }
}

pub open spec fn is_digit(c: char) -> bool {
    '0' <= c && c <= '9'
}

pub open spec fn digit_value(c: char) -> nat {
    ((c as int) - ('0' as int)) as nat
}

pub open spec fn all_digits(s: Seq<char>) -> bool {
    forall|i: int| 0 <= i < s.len() ==> is_digit(#[trigger] s[i])
}

/// The number that a string of decimal digits denotes.
pub open spec fn digits_value(s: Seq<char>) -> nat
    decreases s.len(),
{
    if s.len() == 0 {
        0
    } else {
        digits_value(s.drop_last()) * 10 + digit_value(s.last())
    }
}

/// The decimal representation of `n`, as `Display` writes an unsigned integer.
pub open spec fn decimal(n: nat) -> Seq<char>
    decreases n,
{
    if n < 10 {
        seq![digit_char(n)]
    } else {
        decimal(n / 10).push(digit_char(n % 10))
    }
}

/// The digits of an unsigned number as `str::parse` reads them: all but a leading `+`.
pub open spec fn unsigned_digits(s: Seq<char>) -> Seq<char> {
    if s.len() > 0 && s[0] == '+' {
        s.drop_first()
    } else {
        s
    }
}

/// `str::parse` for an unsigned integer type whose largest value is `max`:
/// an optional `+`, then one or more ASCII digits, denoting at most `max`.
pub open spec fn parse_unsigned(s: Seq<char>, max: nat) -> Option<nat> {
    let body = unsigned_digits(s);
    if body.len() == 0 || !all_digits(body) || digits_value(body) > max {
        None
    } else {
        Some(digits_value(body))
    }
}

/// The contents of each string in a sequence.
pub open spec fn views(v: Seq<String>) -> Seq<Seq<char>> {
    v.map_values(|x: String| x@)
}

// ---------------------------------------------------------------------------
// Lemmas
// ---------------------------------------------------------------------------

/// A separator search only looks at the part of the string it scans: two strings that
/// agree on `0..k` give the same first separator when it lies before `k - 1`.
proof fn lemma_find_sep_from_prefix(s: Seq<char>, t: Seq<char>, i: nat, k: int)
    requires
        k <= s.len(),
        k <= t.len(),
        s.take(k) == t.take(k),
        find_sep_from(s, i) matches Some(j) && j + 1 < k,
    ensures
        find_sep_from(t, i) == find_sep_from(s, i),
    decreases s.len() - i,
{
    lemma_find_sep_from_spec(s, i);
    assert(s.take(k)[i as int] == s[i as int]);
    assert(t.take(k)[i as int] == t[i as int]);
    if is_sep_at(s, i as int) {
        assert(s.take(k)[i + 1int] == s[i + 1int]);
        assert(t.take(k)[i + 1int] == t[i + 1int]);
    } else {
        if i + 1 < k {
            assert(s.take(k)[i + 1int] == s[i + 1int]);
            assert(t.take(k)[i + 1int] == t[i + 1int]);
        }
        lemma_find_sep_from_prefix(s, t, i + 1, k);
    }
}

/// The search result is a separator, and no separator lies before it.
pub proof fn lemma_find_sep_from_spec(s: Seq<char>, i: nat)
    ensures
        find_sep_from(s, i) matches Some(j) ==> i <= j && is_sep_at(s, j) && forall|m: int|
            i <= m < j ==> !is_sep_at(s, m),
        find_sep_from(s, i) is None ==> forall|m: int| i <= m ==> !is_sep_at(s, m),
    decreases s.len() - i,
{
    if i + 1 >= s.len() {
    } else if is_sep_at(s, i as int) {
    } else {
        lemma_find_sep_from_spec(s, i + 1);
    }
}

/// A first separator is characterized by being a separator with none before it.
pub proof fn lemma_find_sep_from_unique(s: Seq<char>, i: nat, j: int)
    requires
        i <= j,
        is_sep_at(s, j),
        forall|m: int| i <= m < j ==> !is_sep_at(s, m),
    ensures
        find_sep_from(s, i) == Some(j),
    decreases s.len() - i,
{
    if i < j {
        lemma_find_sep_from_unique(s, i + 1, j);
    }
}

/// A field without a separator of its own keeps its place in front of `::`.
pub proof fn lemma_sep_free_then(v: Seq<char>, rest: Seq<char>)
    requires
        sep_free(v),
    ensures
        find_sep(v + sep() + rest) == Some(v.len() as int),
{
    let a = v + sep();
    let b = v + sep() + rest;
    assert(b.take(a.len() as int) =~= a.take(a.len() as int));
    lemma_find_sep_from_prefix(a, b, 0, a.len() as int);
}

/// A field without any `:` is separator-free.
pub proof fn lemma_no_colon_sep_free(v: Seq<char>)
    requires
        forall|i: int| 0 <= i < v.len() ==> v[i] != ':',
    ensures
        sep_free(v),
{
    let a = v + sep();
    assert forall|m: int| 0 <= m < v.len() implies !is_sep_at(a, m) by {
        assert(a[m] == v[m]);
    }
    lemma_find_sep_from_unique(a, 0, v.len() as int);
}

pub proof fn lemma_digit_char(d: nat)
    requires
        d < 10,
    ensures
        is_digit(digit_char(d)),
        digit_value(digit_char(d)) == d,
        digit_char(d) != ':',
        digit_char(d) != '+',
{
}

/// The decimal representation is made of digits, has no `:`, and reads back as `n`.
pub proof fn lemma_decimal(n: nat)
    ensures
        decimal(n).len() > 0,
        all_digits(decimal(n)),
        forall|i: int| 0 <= i < decimal(n).len() ==> decimal(n)[i] != ':',
        decimal(n)[0] != '+',
        digits_value(decimal(n)) == n,
    decreases n,
{
    if n < 10 {
        lemma_digit_char(n);
        let d = decimal(n);
        assert(d.drop_last() =~= Seq::<char>::empty());
        assert(digits_value(d.drop_last()) == 0);
    } else {
        lemma_decimal(n / 10);
        lemma_digit_char(n % 10);
        let d = decimal(n);
        assert(d.drop_last() =~= decimal(n / 10));
        assert(d[0] == decimal(n / 10)[0]);
        assert(d.last() == digit_char(n % 10));
        assert(d.len() > 0);
        assert(digits_value(d) == digits_value(d.drop_last()) * 10 + digit_value(d.last()));
        assert(digits_value(d) == digits_value(decimal(n / 10)) * 10 + digit_value(d.last()));
        assert(n == (n / 10) * 10 + n % 10);
        assert(digits_value(d) == n);
        assert(d.drop_last() =~= decimal(n / 10));
        assert forall|i: int| 0 <= i < d.len() implies is_digit(#[trigger] d[i]) && d[i] != ':' by {
            if i < d.len() - 1 {
                assert(d[i] == decimal(n / 10)[i]);
            }
        }
    }
}

/// Parsing the decimal representation of `n` gives `n` back.
pub proof fn lemma_parse_decimal(n: nat, max: nat)
    requires
        n <= max,
    ensures
        parse_unsigned(decimal(n), max) == Some(n),
{
    lemma_decimal(n);
}

/// Adding digits never makes the value smaller.
proof fn lemma_digits_value_prefix(s: Seq<char>, j: int)
    requires
        0 <= j <= s.len(),
    ensures
        digits_value(s.take(j)) <= digits_value(s),
    decreases s.len(),
{
    if j < s.len() {
        assert(s.drop_last().take(j) =~= s.take(j));
        lemma_digits_value_prefix(s.drop_last(), j);
    } else {
        assert(s.take(j) =~= s);
    }
}

// ---------------------------------------------------------------------------
// Executable helpers
// ---------------------------------------------------------------------------

/// Appends one character to the end of a string.
///
/// Trusted: `String::push` appends the character to the string's contents.
#[verifier::external_body]
pub fn push_char(s: &mut String, c: char)
    ensures
        final(s)@ == old(s)@.push(c),
{
    s.push(c);
}

/// Appends a string slice to the end of a string.
pub fn push_str(s: &mut String, t: &str)
    ensures
        final(s)@ == old(s)@ + t@,
{
    s.append(t);
}

/// The characters of a string slice, in order.
pub fn to_chars(s: &str) -> (v: Vec<char>)
    ensures
        v@ == s@,
{
    let mut v: Vec<char> = Vec::new();
    for c in it: s.chars()
        invariant
            v@ == it.seq().take(it.index() as int),
            it.seq() == s@,
    {
        v.push(c);
    }
    v
}

/// The string made of the characters `v[lo..hi]`.
pub fn string_of_range(v: &Vec<char>, lo: usize, hi: usize) -> (s: String)
    requires
        lo <= hi <= v.len(),
    ensures
        s@ == v@.subrange(lo as int, hi as int),
{
    let mut s = String::new();
    let mut i = lo;
    while i < hi
        invariant
            lo <= i <= hi <= v.len(),
            s@ == v@.subrange(lo as int, i as int),
        decreases hi - i,
    {
        push_char(&mut s, v[i]);
        assert(v@.subrange(lo as int, i + 1) =~= v@.subrange(lo as int, i as int).push(v@[i as int]));
        i = i + 1;
    }
    s
}

/// The string made of all the characters of `v`.
pub fn string_of(v: &Vec<char>) -> (s: String)
    ensures
        s@ == v@,
{
    let s = string_of_range(v, 0, v.len());
    assert(v@.subrange(0, v.len() as int) =~= v@);
    s
}

/// A copy of a string slice as an owned string.
pub fn owned(s: &str) -> (r: String)
    ensures
        r@ == s@,
{
    s.to_owned()
}

/// String equality by contents.
pub fn str_eq(a: &str, b: &str) -> (r: bool)
    ensures
        r == (a@ == b@),
{
    let x = a.to_owned();
    let y = b.to_owned();
    x == y
}

/// The position of the first `::` in `v` at or after `from`.
pub fn find_sep_exec(v: &Vec<char>, from: usize) -> (r: Option<usize>)
    requires
        from <= v.len(),
    ensures
        match r {
            Some(j) => find_sep_from(v@, from as nat) == Some(j as int),
            None => find_sep_from(v@, from as nat) is None,
        },
    decreases v.len() - from,
{
    if v.len() - from < 2 {
        None
    } else if v[from] == ':' && v[from + 1] == ':' {
        Some(from)
    } else {
        find_sep_exec(v, from + 1)
    }
}

/// `s.splitn(n, "::")`, each piece as an owned string.
pub fn splitn_sep(s: &str, n: usize) -> (parts: Vec<String>)
    ensures
        views(parts@) == split_n(s@, n as nat),
{
    let v = to_chars(s);
    assert(v@.skip(0) =~= v@);
    splitn_chars(&v, 0, n)
}

/// `splitn` on the characters `v[from..]`.
fn splitn_chars(v: &Vec<char>, from: usize, n: usize) -> (parts: Vec<String>)
    requires
        from <= v.len(),
    ensures
        views(parts@) == split_n(v@.skip(from as int), n as nat),
    decreases n,
{
    let ghost rest = v@.skip(from as int);
    if n <= 1 {
        let mut parts: Vec<String> = Vec::new();
        parts.push(string_of_range(v, from, v.len()));
        assert(views(parts@) =~= seq![rest]);
        return parts;
    }
    proof {
        lemma_shift_find_sep(v@, from as nat, 0);
    }
    match find_sep_exec(v, from) {
        None => {
            let mut parts: Vec<String> = Vec::new();
            parts.push(string_of_range(v, from, v.len()));
            assert(views(parts@) =~= seq![rest]);
            parts
        },
        Some(j) => {
            proof {
                lemma_find_sep_from_spec(v@, from as nat);
            }
            let first = string_of_range(v, from, j);
            let tail = splitn_chars(v, j + 2, n - 1);
            let mut parts: Vec<String> = Vec::new();
            parts.push(first);
            let mut k: usize = 0;
            let ghost tv = views(tail@);
            while k < tail.len()
                invariant
                    k <= tail.len(),
                    tv == views(tail@),
                    views(parts@) =~= seq![v@.subrange(from as int, j as int)] + tv.take(k as int),
                decreases tail.len() - k,
            {
                let piece = tail[k].clone();
                let ghost old_parts = parts;
                assert(tv[k as int] == tail@[k as int]@);
                parts.push(piece);
                assert(views(parts@) =~= views(old_parts@).push(piece@));
                assert(tv.take(k + 1) =~= tv.take(k as int).push(tv[k as int]));
                k = k + 1;
            }
            assert(tv.take(k as int) =~= tv);
            assert(rest.take(j - from) =~= v@.subrange(from as int, j as int));
            assert(rest.skip(j - from + 2) =~= v@.skip(j + 2));
            parts
        },
    }
}

/// Searching in a suffix is searching in the whole from the suffix's start.
pub proof fn lemma_shift_find_sep(s: Seq<char>, from: nat, i: nat)
    requires
        from <= s.len(),
    ensures
        match find_sep_from(s.skip(from as int), i) {
            Some(j) => find_sep_from(s, from + i) == Some(j + from),
            None => find_sep_from(s, from + i) is None,
        },
    decreases s.len() - from - i,
{
    let t = s.skip(from as int);
    if i + 1 >= t.len() {
    } else {
        assert(t[i as int] == s[(from + i) as int]);
        assert(t[i + 1int] == s[(from + i + 1) as int]);
        if !is_sep_at(t, i as int) {
            lemma_shift_find_sep(s, from, i + 1);
        }
    }
}

/// `s.strip_prefix(p)`.
pub fn strip_prefix_str(s: &str, p: &str) -> (r: Option<String>)
    ensures
        match r {
            Some(x) => strip_prefix(s@, p@) == Some(x@),
            None => strip_prefix(s@, p@) is None,
        },
{
    let sv = to_chars(s);
    let pv = to_chars(p);
    if pv.len() > sv.len() {
        return None;
    }
    let mut i: usize = 0;
    while i < pv.len()
        invariant
            i <= pv.len() <= sv.len(),
            sv@ == s@,
            pv@ == p@,
            forall|m: int| 0 <= m < i ==> sv@[m] == pv@[m],
        decreases pv.len() - i,
    {
        if sv[i] != pv[i] {
            assert(sv@.take(pv.len() as int)[i as int] == sv@[i as int]);
            return None;
        }
        i = i + 1;
    }
    assert(sv@.take(pv.len() as int) =~= pv@);
    let r = string_of_range(&sv, pv.len(), sv.len());
    assert(sv@.subrange(pv.len() as int, sv.len() as int) =~= sv@.skip(pv.len() as int));
    Some(r)
}

/// The ASCII digit for `d`.
pub fn digit_char_exec(d: u64) -> (c: char)
    requires
        d < 10,
    ensures
        c == digit_char(d as nat),
{
    if d == 0 {
        '0'
    } else if d == 1 {
        '1'
    } else if d == 2 {
        '2'
    } else if d == 3 {
        '3'
    } else if d == 4 {
        '4'
    } else if d == 5 {
        '5'
    } else if d == 6 {
        '6'
    } else if d == 7 {
        '7'
    } else if d == 8 {
        '8'
    } else {
        '9'
    }
}

/// Appends the decimal representation of `n`.
pub fn push_decimal(out: &mut String, n: u64)
    ensures
        final(out)@ == old(out)@ + decimal(n as nat),
    decreases n,
{
    if n >= 10 {
        push_decimal(out, n / 10);
    }
    let c = digit_char_exec(n % 10);
    push_char(out, c);
    if n >= 10 {
        assert(final(out)@ =~= old(out)@ + decimal(n as nat));
    } else {
        assert(final(out)@ =~= old(out)@ + decimal(n as nat));
    }
}

/// The decimal representation of `n`.
pub fn render_decimal(n: u64) -> (s: String)
    ensures
        s@ == decimal(n as nat),
{
    let mut s = String::new();
    push_decimal(&mut s, n);
    assert(s@ =~= decimal(n as nat));
    s
}

/// `s.parse::<uN>()` for an unsigned type whose largest value is `max`.
pub fn parse_unsigned_exec(s: &str, max: u64) -> (r: Option<u64>)
    ensures
        match r {
            Some(x) => parse_unsigned(s@, max as nat) == Some(x as nat),
            None => parse_unsigned(s@, max as nat) is None,
        },
{
    let v = to_chars(s);
    let start: usize = if v.len() > 0 && v[0] == '+' { 1 } else { 0 };
    let ghost body = unsigned_digits(s@);
    assert(body =~= v@.skip(start as int));
    if start >= v.len() {
        assert(body.len() == 0);
        return None;
    }
    let mut acc: u128 = 0;
    let mut i = start;
    while i < v.len()
        invariant
            start <= i <= v.len(),
            v@ == s@,
            body =~= v@.skip(start as int),
            body == unsigned_digits(s@),
            all_digits(v@.subrange(start as int, i as int)),
            acc as nat == digits_value(v@.subrange(start as int, i as int)),
            acc <= max,
        decreases v.len() - i,
    {
        let c = v[i];
        if c < '0' || c > '9' {
            assert(body[i - start] == c);
            assert(!is_digit(body[i - start]));
            assert(!all_digits(body));
            assert(unsigned_digits(s@) == body);
            assert(parse_unsigned(s@, max as nat) is None);
            return None;
        }
        let d: u128 = (c as u32 - '0' as u32) as u128;
        let next = acc * 10 + d;
        let ghost pre = v@.subrange(start as int, i as int);
        let ghost post = v@.subrange(start as int, i + 1);
        assert(post.drop_last() =~= pre);
        assert(post.last() == c);
        assert(digit_value(c) == d);
        assert(digits_value(post) == digits_value(pre) * 10 + digit_value(c));
        if next > max as u128 {
            proof {
                if all_digits(body) {
                    assert(post =~= body.take(i + 1 - start));
                    lemma_digits_value_prefix(body, i + 1 - start);
                }
            }
            return None;
        }
        acc = next;
        i = i + 1;
    }
    assert(v@.subrange(start as int, v.len() as int) =~= body);
    assert(all_digits(body));
    assert(body.len() > 0);
    Some(acc as u64)
}


// ---------------------------------------------------------------------------
// Whitespace, search, replacement, joining
// ---------------------------------------------------------------------------

/// `char::is_whitespace`: the Unicode `White_Space` property.
pub open spec fn is_ws(c: char) -> bool {
    ('\u{9}' <= c && c <= '\u{d}') || c == ' ' || c == '\u{85}' || c == '\u{a0}' || c
        == '\u{1680}' || ('\u{2000}' <= c && c <= '\u{200a}') || c == '\u{2028}' || c
        == '\u{2029}' || c == '\u{202f}' || c == '\u{205f}' || c == '\u{3000}'
}

pub fn is_ws_exec(c: char) -> (r: bool)
    ensures
        r == is_ws(c),
{
    ('\u{9}' <= c && c <= '\u{d}') || c == ' ' || c == '\u{85}' || c == '\u{a0}' || c
        == '\u{1680}' || ('\u{2000}' <= c && c <= '\u{200a}') || c == '\u{2028}' || c
        == '\u{2029}' || c == '\u{202f}' || c == '\u{205f}' || c == '\u{3000}'
}

/// Drops whitespace from the front.
pub open spec fn trim_start(s: Seq<char>) -> Seq<char>
    decreases s.len(),
{
    if s.len() > 0 && is_ws(s[0]) {
        trim_start(s.drop_first())
    } else {
        s
    }
}

/// Drops whitespace from the back.
pub open spec fn trim_end(s: Seq<char>) -> Seq<char>
    decreases s.len(),
{
    if s.len() > 0 && is_ws(s.last()) {
        trim_end(s.drop_last())
    } else {
        s
    }
}

/// `str::trim`.
pub open spec fn trim(s: Seq<char>) -> Seq<char> {
    trim_end(trim_start(s))
}

/// The whitespace-free core of `s[lo..hi]`: the bounds after trimming.
fn trim_bounds(v: &Vec<char>) -> (r: (usize, usize))
    ensures
        r.0 <= r.1 <= v.len(),
        v@.subrange(r.0 as int, r.1 as int) == trim(v@),
{
    let mut lo: usize = 0;
    assert(v@.skip(0) =~= v@);
    while lo < v.len() && is_ws_exec(v[lo])
        invariant
            lo <= v.len(),
            trim_start(v@) == trim_start(v@.skip(lo as int)),
        decreases v.len() - lo,
    {
        assert(v@.skip(lo as int).drop_first() =~= v@.skip(lo + 1));
        lo = lo + 1;
    }
    assert(trim_start(v@.skip(lo as int)) == v@.skip(lo as int));
    let mut hi: usize = v.len();
    assert(v@.skip(lo as int) =~= v@.subrange(lo as int, hi as int));
    while hi > lo && is_ws_exec(v[hi - 1])
        invariant
            lo <= hi <= v.len(),
            trim(v@) == trim_end(v@.subrange(lo as int, hi as int)),
        decreases hi - lo,
    {
        assert(v@.subrange(lo as int, hi as int).drop_last() =~= v@.subrange(lo as int, hi - 1));
        hi = hi - 1;
    }
    (lo, hi)
}

/// `str::trim`.
pub fn trim_str(s: &str) -> (r: String)
    ensures
        r@ == trim(s@),
{
    let v = to_chars(s);
    let (lo, hi) = trim_bounds(&v);
    string_of_range(&v, lo, hi)
}

/// `str::trim().is_empty()`: the string is all whitespace.
pub fn is_blank(s: &str) -> (r: bool)
    ensures
        r == (trim(s@).len() == 0),
{
    let v = to_chars(s);
    let (lo, hi) = trim_bounds(&v);
    lo == hi
}

/// `p` occurs in `s` at position `i`.
pub open spec fn occurs_at(s: Seq<char>, p: Seq<char>, i: int) -> bool {
    0 <= i && i + p.len() <= s.len() && s.subrange(i, i + p.len()) == p
}

/// `str::contains` for a string pattern.
pub open spec fn contains(s: Seq<char>, p: Seq<char>) -> bool {
    exists|i: int| occurs_at(s, p, i)
}

/// The first position where `p` occurs in `s`, at or after `from`.
pub open spec fn find_from(s: Seq<char>, p: Seq<char>, from: nat) -> Option<int>
    decreases s.len() + 1 - from,
{
    if from + p.len() > s.len() {
        None
    } else if occurs_at(s, p, from as int) {
        Some(from as int)
    } else {
        find_from(s, p, from + 1)
    }
}

/// `str::find`: the first position where `p` occurs in `s`.
pub open spec fn find(s: Seq<char>, p: Seq<char>) -> Option<int> {
    find_from(s, p, 0)
}

proof fn lemma_find_from(s: Seq<char>, p: Seq<char>, from: nat)
    ensures
        find_from(s, p, from) matches Some(i) ==> from <= i && occurs_at(s, p, i),
        find_from(s, p, from) is None ==> forall|i: int| from <= i ==> !occurs_at(s, p, i),
    decreases s.len() + 1 - from,
{
    if from + p.len() <= s.len() && !occurs_at(s, p, from as int) {
        lemma_find_from(s, p, from + 1);
    }
}

/// `find` gives an occurrence, and there is one exactly when it gives one.
pub proof fn lemma_find(s: Seq<char>, p: Seq<char>)
    ensures
        find(s, p) matches Some(i) ==> occurs_at(s, p, i),
        find(s, p) is None <==> !contains(s, p),
{
    lemma_find_from(s, p, 0);
}

fn occurs_at_exec(v: &Vec<char>, p: &Vec<char>, i: usize) -> (r: bool)
    requires
        i + p.len() <= v.len(),
    ensures
        r == occurs_at(v@, p@, i as int),
{
    let mut j: usize = 0;
    while j < p.len()
        invariant
            j <= p.len(),
            i + p.len() <= v.len(),
            forall|m: int| 0 <= m < j ==> v@[i + m] == p@[m],
        decreases p.len() - j,
    {
        if v[i + j] != p[j] {
            assert(v@.subrange(i as int, i + p.len())[j as int] == v@[i + j]);
            return false;
        }
        j = j + 1;
    }
    assert(v@.subrange(i as int, i + p.len()) =~= p@);
    true
}

/// The first position where `p` occurs in `v`.
pub fn find_chars(v: &Vec<char>, p: &Vec<char>) -> (r: Option<usize>)
    ensures
        match r {
            Some(i) => find(v@, p@) == Some(i as int),
            None => find(v@, p@) is None,
        },
{
    if p.len() > v.len() {
        return None;
    }
    let limit = v.len() - p.len();
    let mut i: usize = 0;
    loop
        invariant
            p.len() <= v.len(),
            limit == v.len() - p.len(),
            i <= limit,
            find(v@, p@) == find_from(v@, p@, i as nat),
        decreases limit - i,
    {
        if occurs_at_exec(v, p, i) {
            return Some(i);
        }
        if i == limit {
            assert(find_from(v@, p@, (i + 1) as nat) is None);
            return None;
        }
        i = i + 1;
    }
}

/// `s.contains(p)`.
pub fn contains_str(s: &str, p: &str) -> (r: bool)
    ensures
        r == contains(s@, p@),
{
    let v = to_chars(s);
    let pv = to_chars(p);
    proof {
        lemma_find(s@, p@);
    }
    find_chars(&v, &pv).is_some()
}

/// `s.starts_with(p)`.
pub fn starts_with_str(s: &str, p: &str) -> (r: bool)
    ensures
        r == has_prefix(s@, p@),
{
    strip_prefix_str(s, p).is_some()
}

/// Every occurrence of character `a` replaced by `b`.
pub open spec fn replace_char(s: Seq<char>, a: char, b: char) -> Seq<char> {
    s.map_values(|c: char| if c == a { b } else { c })
}

pub fn replace_char_str(s: &str, a: char, b: char) -> (r: String)
    ensures
        r@ == replace_char(s@, a, b),
{
    let v = to_chars(s);
    let mut r = String::new();
    let mut i: usize = 0;
    while i < v.len()
        invariant
            i <= v.len(),
            v@ == s@,
            r@ == replace_char(v@.take(i as int), a, b),
        decreases v.len() - i,
    {
        let c = if v[i] == a { b } else { v[i] };
        push_char(&mut r, c);
        assert(replace_char(v@.take(i + 1), a, b) =~= replace_char(v@.take(i as int), a, b).push(c));
        i = i + 1;
    }
    assert(v@.take(v.len() as int) =~= v@);
    r
}

/// `str::replace`: the occurrences of `p`, taken from the left without overlap, each
/// replaced by `r`.
pub open spec fn replace_all(s: Seq<char>, p: Seq<char>, r: Seq<char>) -> Seq<char>
    decreases s.len(),
{
    if s.len() == 0 {
        s
    } else if p.len() > 0 && has_prefix(s, p) {
        r + replace_all(s.skip(p.len() as int), p, r)
    } else {
        seq![s[0]] + replace_all(s.skip(1), p, r)
    }
}

pub fn replace_str(s: &str, p: &str, r: &str) -> (out: String)
    ensures
        out@ == replace_all(s@, p@, r@),
{
    let v = to_chars(s);
    let pv = to_chars(p);
    let mut out = String::new();
    let mut i: usize = 0;
    assert(v@.skip(0) =~= v@);
    assert(out@ + replace_all(v@, p@, r@) =~= replace_all(s@, p@, r@));
    while i < v.len()
        invariant
            i <= v.len(),
            v@ == s@,
            pv@ == p@,
            out@ + replace_all(v@.skip(i as int), p@, r@) == replace_all(s@, p@, r@),
        decreases v.len() - i,
    {
        let ghost rest = v@.skip(i as int);
        if pv.len() > 0 && pv.len() <= v.len() - i && occurs_at_exec(&v, &pv, i) {
            assert(rest.take(pv.len() as int) =~= v@.subrange(i as int, i + pv.len()));
            assert(rest.skip(pv.len() as int) =~= v@.skip(i + pv.len()));
            push_str(&mut out, r);
            i = i + pv.len();
        } else {
            assert(!(pv.len() > 0 && has_prefix(rest, pv@))) by {
                if pv.len() > 0 && has_prefix(rest, pv@) {
                    assert(v@.subrange(i as int, i + pv.len()) =~= rest.take(pv.len() as int));
                }
            }
            assert(rest.skip(1) =~= v@.skip(i + 1));
            push_char(&mut out, v[i]);
            assert(out@ + replace_all(v@.skip(i + 1), p@, r@) =~= replace_all(s@, p@, r@));
            i = i + 1;
        }
    }
    assert(v@.skip(i as int) =~= Seq::<char>::empty());
    out
}

/// The pieces joined with `sep` between neighbours.
pub open spec fn join(parts: Seq<Seq<char>>, sep: Seq<char>) -> Seq<char>
    decreases parts.len(),
{
    if parts.len() == 0 {
        Seq::empty()
    } else if parts.len() == 1 {
        parts[0]
    } else {
        join(parts.drop_last(), sep) + sep + parts.last()
    }
}

/// `parts.join(sep)`.
pub fn join_strings(parts: &Vec<String>, sep: &str) -> (r: String)
    ensures
        r@ == join(views(parts@), sep@),
{
    let mut r = String::new();
    let ghost pv = views(parts@);
    let mut i: usize = 0;
    assert(pv.take(0) =~= Seq::<Seq<char>>::empty());
    while i < parts.len()
        invariant
            i <= parts.len(),
            pv == views(parts@),
            r@ == join(pv.take(i as int), sep@),
        decreases parts.len() - i,
    {
        let ghost before = r@;
        if i > 0 {
            push_str(&mut r, sep);
        }
        push_str(&mut r, parts[i].as_str());
        assert(pv.take(i + 1).drop_last() =~= pv.take(i as int));
        if i == 0 {
            assert(before =~= Seq::<char>::empty());
            assert(r@ =~= pv[0]);
        }
        i = i + 1;
    }
    assert(pv.take(parts.len() as int) =~= pv);
    r
}

/// The last position of character `c` in `s`.
pub open spec fn last_index_of(s: Seq<char>, c: char) -> Option<int>
    decreases s.len(),
{
    if s.len() == 0 {
        None
    } else if s.last() == c {
        Some(s.len() - 1)
    } else {
        last_index_of(s.drop_last(), c)
    }
}

/// `s` cut at every `sep`, keeping empty pieces (`str::split`).
pub open spec fn split_all(s: Seq<char>, sep: char) -> Seq<Seq<char>>
    decreases s.len(),
{
    if s.len() == 0 {
        seq![Seq::empty()]
    } else {
        let p = split_all(s.drop_last(), sep);
        if s.last() == sep {
            p.push(Seq::empty())
        } else {
            p.update(p.len() - 1, p.last().push(s.last()))
        }
    }
}

pub proof fn lemma_split_all_len(s: Seq<char>, sep: char)
    ensures
        split_all(s, sep).len() >= 1,
    decreases s.len(),
{
    if s.len() > 0 {
        lemma_split_all_len(s.drop_last(), sep);
    }
}

/// `s.split(sep)` for a character separator.
pub fn split_char_str(s: &str, sep: char) -> (r: Vec<String>)
    ensures
        views(r@) == split_all(s@, sep),
{
    let v = to_chars(s);
    let mut done: Vec<String> = Vec::new();
    let mut cur = String::new();
    let mut i: usize = 0;
    assert(v@.take(0) =~= Seq::<char>::empty());
    assert(views(done@).push(cur@) =~= split_all(v@.take(0), sep));
    while i < v.len()
        invariant
            i <= v.len(),
            v@ == s@,
            views(done@).push(cur@) == split_all(v@.take(i as int), sep),
        decreases v.len() - i,
    {
        let ghost before = views(done@).push(cur@);
        assert(v@.take(i + 1).drop_last() =~= v@.take(i as int));
        assert(v@.take(i + 1).last() == v@[i as int]);
        if v[i] == sep {
            let finished = cur;
            done.push(finished);
            cur = String::new();
            assert(views(done@).push(cur@) =~= before.push(Seq::empty()));
        } else {
            let ghost old_cur = cur@;
            push_char(&mut cur, v[i]);
            assert(views(done@).push(cur@) =~= before.update(before.len() - 1, old_cur.push(v@[i as int])));
        }
        i = i + 1;
    }
    assert(v@.take(v.len() as int) =~= v@);
    done.push(cur);
    done
}


/// The order of `String`: lexicographic by character (UTF-8 keeps code-point order).
pub open spec fn lex_le(a: Seq<char>, b: Seq<char>) -> bool
    decreases a.len(),
{
    if a.len() == 0 {
        true
    } else if b.len() == 0 {
        false
    } else if a[0] != b[0] {
        a[0] < b[0]
    } else {
        lex_le(a.drop_first(), b.drop_first())
    }
}

pub proof fn lemma_lex_total(a: Seq<char>, b: Seq<char>)
    ensures
        lex_le(a, b) || lex_le(b, a),
    decreases a.len(),
{
    if a.len() > 0 && b.len() > 0 && a[0] == b[0] {
        lemma_lex_total(a.drop_first(), b.drop_first());
    }
}

pub proof fn lemma_lex_trans(a: Seq<char>, b: Seq<char>, c: Seq<char>)
    requires
        lex_le(a, b),
        lex_le(b, c),
    ensures
        lex_le(a, c),
    decreases a.len(),
{
    if a.len() > 0 && b.len() > 0 && c.len() > 0 && a[0] == b[0] && b[0] == c[0] {
        lemma_lex_trans(a.drop_first(), b.drop_first(), c.drop_first());
    }
}

/// `a <= b` on strings.
pub fn str_le(a: &str, b: &str) -> (r: bool)
    ensures
        r == lex_le(a@, b@),
{
    let av = to_chars(a);
    let bv = to_chars(b);
    let mut i: usize = 0;
    assert(av@.skip(0) =~= av@);
    assert(bv@.skip(0) =~= bv@);
    loop
        invariant
            i <= av.len(),
            i <= bv.len(),
            av@ == a@,
            bv@ == b@,
            lex_le(a@, b@) == lex_le(av@.skip(i as int), bv@.skip(i as int)),
        decreases av.len() - i,
    {
        if i == av.len() {
            return true;
        }
        if i == bv.len() {
            return false;
        }
        let x = av[i];
        let y = bv[i];
        assert(av@.skip(i as int)[0] == x);
        assert(bv@.skip(i as int)[0] == y);
        if x != y {
            return x < y;
        }
        assert(av@.skip(i as int).drop_first() =~= av@.skip(i + 1));
        assert(bv@.skip(i as int).drop_first() =~= bv@.skip(i + 1));
        i = i + 1;
    }
}

/// UTF-8 width of a character.
pub open spec fn utf8_width(c: char) -> nat {
    if (c as u32) < 0x80 {
        1
    } else if (c as u32) < 0x800 {
        2
    } else if (c as u32) < 0x10000 {
        3
    } else {
        4
    }
}

/// The length of the UTF-8 encoding of `s` (`str::len`).
pub open spec fn utf8_len(s: Seq<char>) -> nat
    decreases s.len(),
{
    if s.len() == 0 {
        0
    } else {
        utf8_width(s[0]) + utf8_len(s.drop_first())
    }
}

/// The longest prefix of `s` whose encoding fits in `n` bytes.
pub open spec fn take_bytes(s: Seq<char>, n: nat) -> Seq<char>
    decreases s.len(),
{
    if s.len() > 0 && utf8_width(s[0]) <= n {
        seq![s[0]] + take_bytes(s.drop_first(), (n - utf8_width(s[0])) as nat)
    } else {
        Seq::empty()
    }
}

pub fn utf8_width_exec(c: char) -> (r: usize)
    ensures
        r == utf8_width(c),
{
    let x = c as u32;
    if x < 0x80 {
        1
    } else if x < 0x800 {
        2
    } else if x < 0x10000 {
        3
    } else {
        4
    }
}

/// `str::len` (in bytes), capped: the exact value when it is below `cap`, else at least `cap`.
pub fn utf8_len_capped(s: &str, cap: usize) -> (r: usize)
    ensures
        r <= cap,
        r < cap ==> r == utf8_len(s@),
        r == cap ==> utf8_len(s@) >= cap,
{
    let v = to_chars(s);
    let mut total: usize = 0;
    let mut i: usize = 0;
    assert(v@.skip(0) =~= v@);
    while i < v.len()
        invariant
            i <= v.len(),
            v@ == s@,
            total < cap ==> utf8_len(s@) == total + utf8_len(v@.skip(i as int)),
            total <= cap,
            total == cap ==> utf8_len(s@) >= cap,
        decreases v.len() - i,
    {
        if total == cap {
            return cap;
        }
        let w = utf8_width_exec(v[i]);
        assert(v@.skip(i as int)[0] == v@[i as int]);
        assert(v@.skip(i as int).drop_first() =~= v@.skip(i + 1));
        proof {
            lemma_utf8_len_nonneg(v@.skip(i + 1));
        }
        if w >= cap - total {
            return cap;
        }
        total = total + w;
        i = i + 1;
    }
    total
}

proof fn lemma_utf8_len_nonneg(s: Seq<char>)
    ensures
        utf8_len(s) >= 0,
{
}

/// The longest prefix of `s` whose encoding fits in `n` bytes.
pub fn take_bytes_str(s: &str, n: usize) -> (r: String)
    ensures
        r@ == take_bytes(s@, n as nat),
        utf8_len(take_bytes(s@, n as nat)) <= n,
{
    let v = to_chars(s);
    let mut out: Vec<char> = Vec::new();
    let mut left = n;
    let mut i: usize = 0;
    assert(v@.skip(0) =~= v@);
    loop
        invariant
            i <= v.len(),
            v@ == s@,
            left <= n,
            out@ + take_bytes(v@.skip(i as int), left as nat) == take_bytes(s@, n as nat),
            utf8_len(out@) + left == n,
        ensures
            out@ == take_bytes(s@, n as nat),
        decreases v.len() - i,
    {
        if i == v.len() {
            assert(v@.skip(i as int).len() == 0);
            assert(out@ =~= out@ + take_bytes(v@.skip(i as int), left as nat));
            break;
        }
        let w = utf8_width_exec(v[i]);
        let ghost rest = v@.skip(i as int);
        assert(rest[0] == v@[i as int]);
        assert(rest.drop_first() =~= v@.skip(i + 1));
        if w > left {
            assert(take_bytes(rest, left as nat) =~= Seq::<char>::empty());
            assert(out@ =~= out@ + take_bytes(rest, left as nat));
            break;
        }
        let ghost before = out@;
        out.push(v[i]);
        proof {
            lemma_utf8_len_push(before, v@[i as int]);
        }
        assert(out@ + take_bytes(v@.skip(i + 1), (left - w) as nat) =~= before + take_bytes(rest, left as nat));
        left = left - w;
        i = i + 1;
    }
    proof {
        lemma_take_bytes_fits(s@, n as nat);
    }
    string_of(&out)
}

proof fn lemma_utf8_len_push(s: Seq<char>, c: char)
    ensures
        utf8_len(s.push(c)) == utf8_len(s) + utf8_width(c),
    decreases s.len(),
{
    if s.len() > 0 {
        assert(s.push(c).drop_first() =~= s.drop_first().push(c));
        assert(s.push(c)[0] == s[0]);
        lemma_utf8_len_push(s.drop_first(), c);
    } else {
        assert(s.push(c).drop_first() =~= Seq::<char>::empty());
        assert(s.push(c)[0] == c);
        assert(utf8_len(Seq::<char>::empty()) == 0);
    }
}

proof fn lemma_take_bytes_fits(s: Seq<char>, n: nat)
    ensures
        utf8_len(take_bytes(s, n)) <= n,
    decreases s.len(),
{
    if s.len() > 0 && utf8_width(s[0]) <= n {
        let t = take_bytes(s, n);
        lemma_take_bytes_fits(s.drop_first(), (n - utf8_width(s[0])) as nat);
        assert(t.drop_first() =~= take_bytes(s.drop_first(), (n - utf8_width(s[0])) as nat));
    }
}

} // verus!
