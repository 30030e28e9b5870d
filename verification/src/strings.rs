//! Character-level string operations with their meaning stated over
//! `Seq<char>`: whitespace trimming, substring search, splitting, joining
//! and decimal rendering and reading.
use vstd::prelude::*;

verus! {

broadcast use vstd::string::group_string_axioms;

/// Unicode `White_Space`, the property behind `char::is_whitespace`.
pub open spec fn is_ws(c: char) -> bool {
    let v = c as u32;
    ||| 0x9 <= v <= 0xd
    ||| v == 0x20
    ||| v == 0x85
    ||| v == 0xa0
    ||| v == 0x1680
    ||| 0x2000 <= v <= 0x200a
    ||| v == 0x2028
    ||| v == 0x2029
    ||| v == 0x202f
    ||| v == 0x205f
    ||| v == 0x3000
}

/// `s` without its leading whitespace.
pub open spec fn trim_start(s: Seq<char>) -> Seq<char>
    decreases s.len(),
{
    if s.len() > 0 && is_ws(s[0]) {
        trim_start(s.drop_first())
    } else {
        s
    }
}

/// `s` without its trailing whitespace.
pub open spec fn trim_end(s: Seq<char>) -> Seq<char>
    decreases s.len(),
{
    if s.len() > 0 && is_ws(s.last()) {
        trim_end(s.drop_last())
    } else {
        s
    }
}

/// `s` without leading and trailing whitespace, as `str::trim` gives it.
pub open spec fn trimmed(s: Seq<char>) -> Seq<char> {
    trim_end(trim_start(s))
}

/// `s` without any trailing `c`, as `str::trim_end_matches(c)` gives it.
pub open spec fn trim_end_char(s: Seq<char>, c: char) -> Seq<char>
    decreases s.len(),
{
    if s.len() > 0 && s.last() == c {
        trim_end_char(s.drop_last(), c)
    } else {
        s
    }
}

/// The first index at or after `i` where `pat` occurs in `s`.
pub open spec fn find_from(s: Seq<char>, pat: Seq<char>, i: nat) -> Option<int>
    decreases s.len() - i,
{
    if i + pat.len() > s.len() {
        None
    } else if pat.len() == 0 || s.subrange(i as int, (i + pat.len()) as int) == pat {
        Some(i as int)
    } else {
        find_from(s, pat, i + 1)
    }
}

/// The first index where `pat` occurs in `s`, as `str::find` gives it.
pub open spec fn find(s: Seq<char>, pat: Seq<char>) -> Option<int> {
    find_from(s, pat, 0)
}

/// `s` starts with `pat`.
pub open spec fn starts_with(s: Seq<char>, pat: Seq<char>) -> bool {
    pat.len() <= s.len() && s.subrange(0, pat.len() as int) == pat
}

/// `s` with every leading repetition of a non-empty `pat` removed, as
/// `str::trim_start_matches(pat)` gives it.
pub open spec fn strip_prefixes(s: Seq<char>, pat: Seq<char>) -> Seq<char>
    decreases s.len(),
{
    if pat.len() > 0 && starts_with(s, pat) {
        strip_prefixes(s.subrange(pat.len() as int, s.len() as int), pat)
    } else {
        s
    }
}

/// The pieces of `s` between occurrences of `sep`: `split(sep)`.
pub open spec fn split_on(s: Seq<char>, sep: char) -> Seq<Seq<char>>
    decreases s.len(),
{
    if s.len() == 0 {
        seq![Seq::<char>::empty()]
    } else {
        let rest = split_on(s.drop_last(), sep);
        if s.last() == sep {
            rest.push(Seq::<char>::empty())
        } else {
            rest.update(rest.len() - 1, rest.last().push(s.last()))
        }
    }
}

/// `parts` joined with `sep` between neighbours.
pub open spec fn joined(parts: Seq<Seq<char>>, sep: Seq<char>) -> Seq<char>
    decreases parts.len(),
{
    if parts.len() == 0 {
        Seq::empty()
    } else if parts.len() == 1 {
        parts[0]
    } else {
        joined(parts.drop_last(), sep) + sep + parts.last()
    }
}

/// The decimal digits of `n`, as `n.to_string()` writes them.
pub open spec fn decimal(n: nat) -> Seq<char>
    decreases n,
{
    if n < 10 {
        seq![digit_char(n)]
    } else {
        decimal(n / 10).push(digit_char(n % 10))
    }
}

/// The character of a decimal digit.
pub open spec fn digit_char(d: nat) -> char {
    if d == 0 { '0' }
    else if d == 1 { '1' }
    else if d == 2 { '2' }
    else if d == 3 { '3' }
    else if d == 4 { '4' }
    else if d == 5 { '5' }
    else if d == 6 { '6' }
    else if d == 7 { '7' }
    else if d == 8 { '8' }
    else { '9' }
}

/// `c` is an ASCII decimal digit.
pub open spec fn is_digit(c: char) -> bool {
    48 <= c as u32 <= 57
}

/// The value of a string of decimal digits.
pub open spec fn digits_value(ds: Seq<char>) -> nat
    decreases ds.len(),
{
    if ds.len() == 0 {
        0
    } else {
        digits_value(ds.drop_last()) * 10 + (ds.last() as u32 - 48) as nat
    }
}

/// The digits of an unsigned number: `s` without one leading `+`.
pub open spec fn unsigned_digits(s: Seq<char>) -> Seq<char> {
    if s.len() > 0 && s[0] == '+' { s.drop_first() } else { s }
}

/// The number `s` writes as `str::parse` reads an unsigned integer: one
/// optional `+`, then one or more decimal digits and nothing else.
pub open spec fn decimal_value(s: Seq<char>) -> Option<nat> {
    let ds = unsigned_digits(s);
    if ds.len() > 0 && forall|i: int| 0 <= i < ds.len() ==> is_digit(#[trigger] ds[i]) {
        Some(digits_value(ds))
    } else {
        None
    }
}

/// The number `s` writes, when it is at most `bound`.
pub open spec fn decimal_within(s: Seq<char>, bound: nat) -> Option<nat> {
    match decimal_value(s) {
        Some(v) => if v <= bound { Some(v) } else { None },
        None => None,
    }
}

/// Character-wise equality of two strings.
pub fn str_eq(a: &str, b: &str) -> (r: bool)
    ensures
        r == (a@ == b@),
{
    let sa = String::from_str(a);
    let sb = String::from_str(b);
    sa == sb
}

/// `c` is whitespace in the sense of `char::is_whitespace`.
pub fn is_whitespace(c: char) -> (r: bool)
    ensures
        r == is_ws(c),
{
    let v = c as u32;
    (0x9 <= v && v <= 0xd) || v == 0x20 || v == 0x85 || v == 0xa0 || v == 0x1680
        || (0x2000 <= v && v <= 0x200a) || v == 0x2028 || v == 0x2029 || v == 0x202f
        || v == 0x205f || v == 0x3000
}

/// The characters of `s`.
pub fn chars_of(s: &str) -> (v: Vec<char>)
    ensures
        v@ == s@,
{
    let mut v: Vec<char> = Vec::new();
    for c in it: s.chars()
        invariant
            v@ == it.seq().take(it.index() as int),
    {
        v.push(c);
    }
    v
}

/// The characters of `s` from index `from` to index `to`, as a `String`.
pub fn substring(s: &str, from: usize, to: usize) -> (r: String)
    requires
        from <= to <= s@.len(),
    ensures
        r@ == s@.subrange(from as int, to as int),
{
    String::from_str(s.substring_char(from, to))
}

/// `a` followed by `b`.
pub fn concat(a: &str, b: &str) -> (r: String)
    ensures
        r@ == a@ + b@,
{
    let mut r = String::from_str(a);
    r.append(b);
    r
}

/// `s` without leading and trailing whitespace (`str::trim`).
pub fn trim(s: &str) -> (r: String)
    ensures
        r@ == trimmed(s@),
{
    let cs = chars_of(s);
    let n = cs.len();
    let mut a: usize = 0;
    assert(s@.subrange(0, n as int) =~= s@);
    loop
        invariant
            cs@ == s@,
            n == s@.len(),
            a <= n,
            trim_start(s@) == trim_start(s@.subrange(a as int, n as int)),
        ensures
            a == n || !is_ws(s@[a as int]),
        decreases n - a,
    {
        if a == n {
            break;
        }
        if !is_whitespace(cs[a]) {
            break;
        }
        assert(s@.subrange(a as int, n as int).drop_first() =~= s@.subrange(a + 1, n as int));
        a = a + 1;
    }
    assert(trim_start(s@) == s@.subrange(a as int, n as int));
    let mut b: usize = n;
    loop
        invariant
            cs@ == s@,
            n == s@.len(),
            a <= b <= n,
            trimmed(s@) == trim_end(s@.subrange(a as int, b as int)),
        ensures
            b == a || !is_ws(s@[b - 1]),
        decreases b - a,
    {
        if b == a {
            break;
        }
        if !is_whitespace(cs[b - 1]) {
            break;
        }
        assert(s@.subrange(a as int, b as int).drop_last() =~= s@.subrange(a as int, b - 1));
        b = b - 1;
    }
    substring(s, a, b)
}

/// `s` without its trailing `c` characters (`str::trim_end_matches(c)`).
pub fn trim_end_matches_char(s: &str, c: char) -> (r: String)
    ensures
        r@ == trim_end_char(s@, c),
{
    let cs = chars_of(s);
    let n = cs.len();
    let mut b: usize = n;
    assert(s@.subrange(0, n as int) =~= s@);
    loop
        invariant
            cs@ == s@,
            n == s@.len(),
            b <= n,
            trim_end_char(s@, c) == trim_end_char(s@.subrange(0, b as int), c),
        ensures
            b == 0 || s@[b - 1] != c,
        decreases b,
    {
        if b == 0 {
            break;
        }
        if cs[b - 1] != c {
            break;
        }
        assert(s@.subrange(0, b as int).drop_last() =~= s@.subrange(0, b - 1));
        b = b - 1;
    }
    substring(s, 0, b)
}

/// `pat` occurs in `s` at index `i`.
fn occurs_at(s: &Vec<char>, pat: &Vec<char>, i: usize) -> (r: bool)
    requires
        i + pat@.len() <= s@.len(),
    ensures
        r == (s@.subrange(i as int, i + pat@.len()) == pat@),
{
    let m = pat.len();
    let mut k: usize = 0;
    while k < m
        invariant
            m == pat@.len(),
            i + m <= s@.len(),
            i + m <= s.len(),
            k <= m,
            forall|j: int| 0 <= j < k ==> s@[i + j] == pat@[j],
        decreases m - k,
    {
        if s[i + k] != pat[k] {
            assert(s@.subrange(i as int, i + m)[k as int] != pat@[k as int]);
            return false;
        }
        k = k + 1;
    }
    assert(s@.subrange(i as int, i + m) =~= pat@);
    true
}

/// The first index at or after `from` where `pat` occurs in `s`.
pub fn find_in(s: &Vec<char>, pat: &Vec<char>, from: usize) -> (r: Option<usize>)
    ensures
        r matches Some(i) ==> find_from(s@, pat@, from as nat) == Some(i as int),
        r is None ==> find_from(s@, pat@, from as nat) is None,
{
    let n = s.len();
    let m = pat.len();
    let mut i: usize = from;
    loop
        invariant
            n == s@.len(),
            m == pat@.len(),
            from <= i,
            find_from(s@, pat@, from as nat) == find_from(s@, pat@, i as nat),
        decreases n + 1 - i,
    {
        if i > n || m > n - i {
            return None;
        }
        if m == 0 || occurs_at(s, pat, i) {
            return Some(i);
        }
        i = i + 1;
    }
}

/// `s` starts with `pat`.
pub fn has_prefix(s: &Vec<char>, pat: &Vec<char>) -> (r: bool)
    ensures
        r == starts_with(s@, pat@),
{
    if pat.len() > s.len() {
        false
    } else {
        occurs_at(s, pat, 0)
    }
}

/// `s` with every leading repetition of `pat` removed
/// (`str::trim_start_matches(pat)`).
pub fn strip_repeated_prefix(s: &str, pat: &str) -> (r: String)
    ensures
        r@ == strip_prefixes(s@, pat@),
{
    let cs = chars_of(s);
    let ps = chars_of(pat);
    let n = cs.len();
    let m = ps.len();
    let mut a: usize = 0;
    assert(s@.subrange(0, n as int) =~= s@);
    loop
        invariant
            cs@ == s@,
            ps@ == pat@,
            n == s@.len(),
            m == pat@.len(),
            a <= n,
            strip_prefixes(s@, pat@) == strip_prefixes(s@.subrange(a as int, n as int), pat@),
        ensures
            !(m > 0 && starts_with(s@.subrange(a as int, n as int), pat@)),
        decreases n - a,
    {
        if m == 0 || m > n - a {
            break;
        }
        if !occurs_at(&cs, &ps, a) {
            assert(!starts_with(s@.subrange(a as int, n as int), pat@)) by {
                assert(s@.subrange(a as int, n as int).subrange(0, m as int) =~= s@.subrange(a as int, a + m));
            }
            break;
        }
        assert(s@.subrange(a as int, n as int).subrange(0, m as int) =~= s@.subrange(a as int, a + m));
        assert(s@.subrange(a as int, n as int).subrange(m as int, n - a) =~= s@.subrange(a + m, n as int));
        a = a + m;
    }
    substring(s, a, n)
}

/// `parts` joined with `sep` between neighbours (`slice::join`).
pub fn join(parts: &Vec<String>, sep: &str) -> (r: String)
    ensures
        r@ == joined(parts@.map_values(|p: String| p@), sep@),
{
    let ghost views = parts@.map_values(|p: String| p@);
    let mut r = String::new();
    let n = parts.len();
    assert(views.take(0) =~= Seq::<Seq<char>>::empty());
    let mut i: usize = 0;
    while i < n
        invariant
            n == parts@.len(),
            views == parts@.map_values(|p: String| p@),
            i <= n,
            r@ == joined(views.take(i as int), sep@),
        decreases n - i,
    {
        assert(views.take(i + 1).drop_last() =~= views.take(i as int));
        if i != 0 {
            r.append(sep);
        } else {
            assert(views.take(1) =~= seq![views[0]]);
        }
        r.append(parts[i].as_str());
        i = i + 1;
    }
    assert(views.take(n as int) =~= views);
    r
}

/// The one-character string of a decimal digit.
fn digit_str(d: usize) -> (r: &'static str)
    requires
        d < 10,
    ensures
        r@ == seq![digit_char(d as nat)],
{
    if d == 0 { proof { reveal_strlit("0"); } "0" }
    else if d == 1 { proof { reveal_strlit("1"); } "1" }
    else if d == 2 { proof { reveal_strlit("2"); } "2" }
    else if d == 3 { proof { reveal_strlit("3"); } "3" }
    else if d == 4 { proof { reveal_strlit("4"); } "4" }
    else if d == 5 { proof { reveal_strlit("5"); } "5" }
    else if d == 6 { proof { reveal_strlit("6"); } "6" }
    else if d == 7 { proof { reveal_strlit("7"); } "7" }
    else if d == 8 { proof { reveal_strlit("8"); } "8" }
    else { proof { reveal_strlit("9"); } "9" }
}

/// The decimal rendering of `n` (`n.to_string()`).
pub fn decimal_string(n: usize) -> (r: String)
    ensures
        r@ == decimal(n as nat),
    decreases n,
{
    if n < 10 {
        String::from_str(digit_str(n))
    } else {
        let mut r = decimal_string(n / 10);
        r.append(digit_str(n % 10));
        r
    }
}

/// Reads an unsigned number no greater than `bound` (see `decimal_within`).
fn parse_bounded(s: &str, bound: usize) -> (r: Option<usize>)
    ensures
        r matches Some(v) ==> decimal_within(s@, bound as nat) == Some(v as nat),
        r is None ==> decimal_within(s@, bound as nat) is None,
{
    let cs = chars_of(s);
    let n = cs.len();
    let start: usize = if n > 0 && cs[0] == '+' { 1 } else { 0 };
    let ghost ds = unsigned_digits(s@);
    assert(ds =~= cs@.subrange(start as int, n as int));
    if start >= n {
        return None;
    }
    let mut v: usize = 0;
    let mut over = false;
    let mut i: usize = start;
    assert(cs@.subrange(start as int, start as int) =~= Seq::<char>::empty());
    while i < n
        invariant
            cs@ == s@,
            n == s@.len(),
            ds == cs@.subrange(start as int, n as int),
            ds == unsigned_digits(s@),
            start <= i <= n,
            forall|j: int| start <= j < i ==> is_digit(#[trigger] cs@[j]),
            !over ==> v == digits_value(cs@.subrange(start as int, i as int)) && v <= bound,
            over ==> digits_value(cs@.subrange(start as int, i as int)) > bound,
        decreases n - i,
    {
        let c = cs[i];
        let code = c as u32;
        if !(48 <= code && code <= 57) {
            assert(!is_digit(c));
            assert(ds[i - start] == c);
            assert(!is_digit(ds[i - start]));
            return None;
        }
        assert(cs@.subrange(start as int, i + 1).drop_last() =~= cs@.subrange(start as int, i as int));
        assert(cs@.subrange(start as int, i + 1).last() == c);
        let d = (code - 48) as u128;
        if !over {
            let next: u128 = (v as u128) * 10 + d;
            if next > bound as u128 {
                over = true;
            } else {
                v = next as usize;
            }
        }
        i = i + 1;
    }
    assert forall|j: int| 0 <= j < ds.len() implies is_digit(#[trigger] ds[j]) by {
        assert(ds[j] == cs@[start + j]);
    }
    if over { None } else { Some(v) }
}

/// Reads a `usize` as `str::parse::<usize>` does.
pub fn parse_usize(s: &str) -> (r: Option<usize>)
    ensures
        r matches Some(v) ==> decimal_within(s@, usize::MAX as nat) == Some(v as nat),
        r is None ==> decimal_within(s@, usize::MAX as nat) is None,
{
    parse_bounded(s, usize::MAX)
}

/// Reads a `u32` as `str::parse::<u32>` does.
pub fn parse_u32(s: &str) -> (r: Option<u32>)
    ensures
        r matches Some(v) ==> decimal_within(s@, u32::MAX as nat) == Some(v as nat),
        r is None ==> decimal_within(s@, u32::MAX as nat) is None,
{
    match parse_bounded(s, 0xffff_ffffusize) {
        Some(v) => Some(v as u32),
        None => None,
    }
}

/// A match found by `find_from` is a real occurrence at or after the start.
pub proof fn lemma_find_from_occurs(s: Seq<char>, pat: Seq<char>, i: nat)
    ensures
        find_from(s, pat, i) matches Some(k) ==> i <= k && k + pat.len() <= s.len()
            && s.subrange(k, k + pat.len()) == pat,
    decreases s.len() - i,
{
    if i + pat.len() > s.len() {
    } else if pat.len() == 0 || s.subrange(i as int, (i + pat.len()) as int) == pat {
        if pat.len() == 0 {
            assert(s.subrange(i as int, i as int) =~= pat);
        }
    } else {
        lemma_find_from_occurs(s, pat, i + 1);
    }
}

/// The pieces of `s` between occurrences of `sep` (`str::split(sep)`).
pub fn split_pieces(s: &str, sep: char) -> (r: Vec<String>)
    ensures
        r@.map_values(|p: String| p@) == split_on(s@, sep),
{
    let cs = chars_of(s);
    let n = cs.len();
    let mut pieces: Vec<String> = Vec::new();
    let mut start: usize = 0;
    let mut i: usize = 0;
    assert(s@.subrange(0, 0) =~= Seq::<char>::empty());
    assert(pieces@.map_values(|p: String| p@).push(s@.subrange(0, 0)) =~= split_on(s@.subrange(0, 0), sep));
    while i < n
        invariant
            cs@ == s@,
            n == s@.len(),
            start <= i <= n,
            split_on(s@.subrange(0, i as int), sep)
                == pieces@.map_values(|p: String| p@).push(s@.subrange(start as int, i as int)),
        decreases n - i,
    {
        let ghost before = pieces@.map_values(|p: String| p@);
        assert(s@.subrange(0, i + 1).drop_last() =~= s@.subrange(0, i as int));
        assert(s@.subrange(0, i + 1).last() == s@[i as int]);
        if cs[i] == sep {
            let piece = substring(s, start, i);
            pieces.push(piece);
            start = i + 1;
            assert(pieces@.map_values(|p: String| p@) =~= before.push(piece@));
            assert(s@.subrange(start as int, i + 1) =~= Seq::<char>::empty());
        } else {
            assert(s@.subrange(start as int, i + 1) =~= s@.subrange(start as int, i as int).push(s@[i as int]));
            assert(before.push(s@.subrange(start as int, i as int)).update(
                before.len() as int, s@.subrange(start as int, i as int).push(s@[i as int]))
                =~= before.push(s@.subrange(start as int, i + 1)));
        }
        i = i + 1;
    }
    let last = substring(s, start, n);
    let ghost before = pieces@.map_values(|p: String| p@);
    pieces.push(last);
    assert(pieces@.map_values(|p: String| p@) =~= before.push(last@));
    assert(s@.subrange(0, n as int) =~= s@);
    pieces
}

/// Every character of `w` is whitespace.
pub open spec fn all_ws(w: Seq<char>) -> bool {
    forall|i: int| 0 <= i < w.len() ==> is_ws(#[trigger] w[i])
}

proof fn lemma_trim_start_skips(w: Seq<char>, x: Seq<char>)
    requires
        all_ws(w),
    ensures
        trim_start(w + x) == trim_start(x),
    decreases w.len(),
{
    if w.len() > 0 {
        assert((w + x)[0] == w[0]);
        assert((w + x).drop_first() =~= w.drop_first() + x);
        assert(all_ws(w.drop_first())) by {
            assert forall|i: int| 0 <= i < w.drop_first().len() implies is_ws(#[trigger] w.drop_first()[i]) by {
                assert(w.drop_first()[i] == w[i + 1]);
            }
        }
        lemma_trim_start_skips(w.drop_first(), x);
    } else {
        assert(w + x =~= x);
    }
}

proof fn lemma_trim_end_skips(x: Seq<char>, w: Seq<char>)
    requires
        all_ws(w),
    ensures
        trim_end(x + w) == trim_end(x),
    decreases w.len(),
{
    if w.len() > 0 {
        assert((x + w).last() == w.last());
        assert((x + w).drop_last() =~= x + w.drop_last());
        assert(all_ws(w.drop_last())) by {
            assert forall|i: int| 0 <= i < w.drop_last().len() implies is_ws(#[trigger] w.drop_last()[i]) by {
                assert(w.drop_last()[i] == w[i]);
            }
        }
        lemma_trim_end_skips(x, w.drop_last());
    } else {
        assert(x + w =~= x);
    }
}

/// Trimming removes exactly the whitespace around a text that starts and
/// ends with other characters, and keeps everything between, line breaks
/// included.
pub proof fn trimming_keeps_the_inside(lead: Seq<char>, s: Seq<char>, trail: Seq<char>)
    requires
        all_ws(lead),
        all_ws(trail),
        s.len() > 0,
        !is_ws(s[0]),
        !is_ws(s.last()),
    ensures
        trimmed(lead + s + trail) == s,
{
    assert(lead + s + trail =~= lead + (s + trail));
    lemma_trim_start_skips(lead, s + trail);
    assert((s + trail)[0] == s[0]);
    assert(trim_start(s + trail) == s + trail);
    lemma_trim_end_skips(s, trail);
    assert(trim_end(s) == s);
}

/// The first occurrence of the character `c` at or after `i` is at `m` when
/// `m` holds `c` and nothing between `i` and `m` does.
pub proof fn lemma_find_char_at(s: Seq<char>, c: char, i: nat, m: int)
    requires
        i <= m < s.len(),
        s[m] == c,
        forall|j: int| i <= j < m ==> s[j] != c,
    ensures
        find_from(s, seq![c], i) == Some(m),
    decreases m - i,
{
    if i < m {
        assert(s.subrange(i as int, (i + 1) as int)[0] == s[i as int]);
        assert(s.subrange(i as int, (i + 1) as int) != seq![c]);
        lemma_find_char_at(s, c, i + 1, m);
    } else {
        assert(s.subrange(i as int, (i + 1) as int) =~= seq![c]);
    }
}

/// The first occurrence of `pat` at or after `i` is at `m` when `pat`
/// occurs at `m` and at no position between `i` and `m`.
pub proof fn lemma_find_at(s: Seq<char>, pat: Seq<char>, i: nat, m: int)
    requires
        pat.len() > 0,
        i <= m,
        m + pat.len() <= s.len(),
        s.subrange(m, m + pat.len()) == pat,
        forall|j: int| i <= j < m ==> #[trigger] s.subrange(j, j + pat.len()) != pat,
    ensures
        find_from(s, pat, i) == Some(m),
    decreases m - i,
{
    if i < m {
        assert(s.subrange(i as int, (i + pat.len()) as int) != pat);
        lemma_find_at(s, pat, i + 1, m);
    }
}

/// No line break at or after `i` means no line break is found there.
pub proof fn lemma_no_char_found(s: Seq<char>, c: char, i: nat)
    requires
        forall|j: int| i <= j < s.len() ==> s[j] != c,
    ensures
        find_from(s, seq![c], i) is None,
    decreases s.len() - i,
{
    if i + 1 <= s.len() {
        assert(s.subrange(i as int, (i + 1) as int)[0] == s[i as int]);
        assert(s.subrange(i as int, (i + 1) as int) != seq![c]);
        lemma_no_char_found(s, c, i + 1);
    }
}

} // verus!
