//! Reading the line-oriented key/value text of `/proc/meminfo` and
//! `/proc/self/status`: lines, whitespace-separated fields and decimal
//! numbers, as `str::lines`, `str::split_whitespace` and `usize::from_str`
//! read them.
use vstd::prelude::*;
use vstd::string::StringExecFns;

verus! {

/// Whether `c` is white space in the sense of `char::is_whitespace` (the
/// Unicode `White_Space` property).
pub open spec fn spec_is_whitespace(c: char) -> bool {
    ||| ('\u{9}' <= c && c <= '\u{d}')
    ||| c == ' '
    ||| c == '\u{85}'
    ||| c == '\u{a0}'
    ||| c == '\u{1680}'
    ||| ('\u{2000}' <= c && c <= '\u{200a}')
    ||| c == '\u{2028}'
    ||| c == '\u{2029}'
    ||| c == '\u{202f}'
    ||| c == '\u{205f}'
    ||| c == '\u{3000}'
}

/// Whether `c` is white space (see `spec_is_whitespace`).
pub fn is_whitespace(c: char) -> (r: bool)
    ensures
        r == spec_is_whitespace(c),
{
    ('\u{9}' <= c && c <= '\u{d}')
        || c == ' '
        || c == '\u{85}'
        || c == '\u{a0}'
        || c == '\u{1680}'
        || ('\u{2000}' <= c && c <= '\u{200a}')
        || c == '\u{2028}'
        || c == '\u{2029}'
        || c == '\u{202f}'
        || c == '\u{205f}'
        || c == '\u{3000}'
}

/// `s` without its leading white space.
pub open spec fn spec_skip_ws(s: Seq<char>) -> Seq<char>
    decreases s.len(),
{
    if s.len() > 0 && spec_is_whitespace(s[0]) { spec_skip_ws(s.skip(1)) } else { s }
}

/// The leading run of `s` that holds no white space.
pub open spec fn spec_take_token(s: Seq<char>) -> Seq<char>
    decreases s.len(),
{
    if s.len() > 0 && !spec_is_whitespace(s[0]) { seq![s[0]] + spec_take_token(s.skip(1)) } else { Seq::empty() }
}

/// The `n`-th whitespace-separated field of `s`, counting from zero
/// (`split_whitespace().nth(n)`).
pub open spec fn spec_nth_field(s: Seq<char>, n: nat) -> Option<Seq<char>>
    decreases s.len(), n,
{
    let a = spec_skip_ws(s);
    if a.len() == 0 {
        None
    } else {
        let t = spec_take_token(a);
        if n == 0 {
            Some(t)
        } else {
            proof { lemma_token_len(a); lemma_skip_ws_len(s); }
            spec_nth_field(a.skip(t.len() as int), (n - 1) as nat)
        }
    }
}

/// Skipping white space never lengthens a text.
pub proof fn lemma_skip_ws_len(s: Seq<char>)
    ensures
        spec_skip_ws(s).len() <= s.len(),
    decreases s.len(),
{
    if s.len() > 0 && spec_is_whitespace(s[0]) {
        lemma_skip_ws_len(s.skip(1));
    }
}

/// A field is a non-empty prefix of a text that starts with a non-space.
pub proof fn lemma_token_len(s: Seq<char>)
    ensures
        spec_take_token(s).len() <= s.len(),
        s.len() > 0 && !spec_is_whitespace(s[0]) ==> spec_take_token(s).len() >= 1,
        forall|i: int| 0 <= i < spec_take_token(s).len() ==> #[trigger] spec_take_token(s)[i] == s[i],
    decreases s.len(),
{
    if s.len() > 0 && !spec_is_whitespace(s[0]) {
        lemma_token_len(s.skip(1));
        let t = spec_take_token(s);
        assert forall|i: int| 0 <= i < t.len() implies #[trigger] t[i] == s[i] by {
            if i > 0 {
                assert(t[i] == spec_take_token(s.skip(1))[i - 1]);
            }
        }
    }
}

/// The decimal value of the digits `d`.
pub open spec fn spec_digits_value(d: Seq<char>) -> nat
    decreases d.len(),
{
    if d.len() == 0 {
        0
    } else {
        spec_digits_value(d.drop_last()) * 10 + ((d.last() as nat) - ('0' as nat)) as nat
    }
}

/// Whether every character of `d` is an ASCII digit.
pub open spec fn spec_all_digits(d: Seq<char>) -> bool {
    forall|i: int| 0 <= i < d.len() ==> '0' <= #[trigger] d[i] && d[i] <= '9'
}

/// What `usize::from_str` gives for `t`: an optional leading `+`, then one
/// or more ASCII digits whose value fits in a `usize`.
pub open spec fn spec_parse_usize(t: Seq<char>) -> Option<usize> {
    let d = if t.len() > 0 && t[0] == '+' { t.skip(1) } else { t };
    if d.len() > 0 && spec_all_digits(d) && spec_digits_value(d) <= usize::MAX {
        Some(spec_digits_value(d) as usize)
    } else {
        None
    }
}

/// Whether `s` begins with `prefix`.
pub open spec fn spec_starts_with(s: Seq<char>, prefix: Seq<char>) -> bool {
    prefix.len() <= s.len() && s.take(prefix.len() as int) == prefix
}

/// The first line of `s`: everything before the first `'\n'`.
pub open spec fn spec_first_line(s: Seq<char>) -> Seq<char>
    decreases s.len(),
{
    if s.len() == 0 || s[0] == '\n' { Seq::empty() } else { seq![s[0]] + spec_first_line(s.skip(1)) }
}

/// The characters of `s` in a vector.
pub fn chars_of(s: &str) -> (v: Vec<char>)
    ensures
        v@ == s@,
{
    let n = s.unicode_len();
    let mut v: Vec<char> = Vec::new();
    let mut i: usize = 0;
    while i < n
        invariant
            n == s@.len(),
            i <= n,
            v@ == s@.take(i as int),
        decreases n - i,
    {
        v.push(s.get_char(i));
        i = i + 1;
        assert(v@ =~= s@.take(i as int));
    }
    assert(s@.take(n as int) =~= s@);
    v
}

/// The index of the first white-space character of `v` at or after `i`
/// and before `hi` (or `hi`).
fn token_end(v: &Vec<char>, i: usize, hi: usize) -> (j: usize)
    requires
        i <= hi <= v@.len(),
    ensures
        i <= j <= hi,
        v@.subrange(i as int, j as int) == spec_take_token(v@.subrange(i as int, hi as int)),
    decreases hi - i,
{
    if i < hi && !is_whitespace(v[i]) {
        let j = token_end(v, i + 1, hi);
        proof {
            let s = v@.subrange(i as int, hi as int);
            assert(s.skip(1) =~= v@.subrange(i + 1, hi as int));
            assert(v@.subrange(i as int, j as int) =~= seq![s[0]] + v@.subrange(i + 1, j as int));
        }
        j
    } else {
        proof {
            assert(v@.subrange(i as int, i as int) =~= Seq::<char>::empty());
        }
        i
    }
}

/// The index of the first non-white-space character of `v` at or after `i`
/// and before `hi` (or `hi`).
fn skip_ws_from(v: &Vec<char>, i: usize, hi: usize) -> (j: usize)
    requires
        i <= hi <= v@.len(),
    ensures
        i <= j <= hi,
        v@.subrange(j as int, hi as int) == spec_skip_ws(v@.subrange(i as int, hi as int)),
    decreases hi - i,
{
    if i < hi && is_whitespace(v[i]) {
        let j = skip_ws_from(v, i + 1, hi);
        proof {
            let s = v@.subrange(i as int, hi as int);
            assert(s.skip(1) =~= v@.subrange(i + 1, hi as int));
        }
        j
    } else {
        i
    }
}

/// The bounds of the `n`-th field of `v[i..hi]`.
fn nth_field(v: &Vec<char>, i: usize, hi: usize, n: usize) -> (r: Option<(usize, usize)>)
    requires
        i <= hi <= v@.len(),
    ensures
        match r {
            Some((a, b)) => a <= b <= hi && spec_nth_field(v@.subrange(i as int, hi as int), n as nat) == Some(v@.subrange(a as int, b as int)),
            None => spec_nth_field(v@.subrange(i as int, hi as int), n as nat) is None,
        },
    decreases hi - i, n,
{
    let a = skip_ws_from(v, i, hi);
    if a == hi {
        return None;
    }
    let b = token_end(v, a, hi);
    if n == 0 {
        return Some((a, b));
    }
    proof {
        let sa = v@.subrange(a as int, hi as int);
        lemma_token_len(sa);
        assert(sa.skip((b - a) as int) =~= v@.subrange(b as int, hi as int));
    }
    nth_field(v, b, hi, n - 1)
}

/// The value of `v[a..b]` as `usize::from_str` reads it.
fn parse_usize_range(v: &Vec<char>, a: usize, b: usize) -> (r: Option<usize>)
    requires
        a <= b <= v@.len(),
    ensures
        r == spec_parse_usize(v@.subrange(a as int, b as int)),
{
    let ghost t = v@.subrange(a as int, b as int);
    let start: usize = if a < b && v[a] == '+' { a + 1 } else { a };
    let ghost d = v@.subrange(start as int, b as int);
    assert(d == (if t.len() > 0 && t[0] == '+' { t.skip(1) } else { t }));
    if start == b {
        return None;
    }
    let mut value: usize = 0;
    let mut k: usize = start;
    while k < b
        invariant
            start <= k <= b <= v@.len(),
            d == v@.subrange(start as int, b as int),
            t == v@.subrange(a as int, b as int),
            d == (if t.len() > 0 && t[0] == '+' { t.skip(1) } else { t }),
            spec_all_digits(v@.subrange(start as int, k as int)),
            value == spec_digits_value(v@.subrange(start as int, k as int)),
        decreases b - k,
    {
        let c = v[k];
        let ghost pre = v@.subrange(start as int, k as int);
        let ghost next = v@.subrange(start as int, k + 1);
        assert(next.drop_last() =~= pre);
        assert(next.last() == c);
        if !('0' <= c && c <= '9') {
            proof {
                assert(!spec_all_digits(d)) by {
                    assert(d[k - start] == c);
                }
            }
            return None;
        }
        let digit: usize = ((c as u32) - ('0' as u32)) as usize;
        if value > (usize::MAX - digit) / 10 {
            proof {
                assert(spec_digits_value(next) == value * 10 + digit);
                assert(value * 10 + digit > usize::MAX) by (nonlinear_arith)
                    requires value > (usize::MAX - digit) / 10, digit <= 9;
                if spec_all_digits(d) {
                    lemma_digits_value_monotone(d, (k + 1 - start) as int);
                    assert(d.take((k + 1 - start) as int) =~= next);
                }
            }
            return None;
        }
        value = value * 10 + digit;
        k = k + 1;
    }
    assert(d =~= v@.subrange(start as int, k as int));
    Some(value)
}

/// What `u64::from_str` gives for `t`: an optional leading `+`, then one or
/// more ASCII digits whose value fits in a `u64`.
pub open spec fn spec_parse_u64(t: Seq<char>) -> Option<u64> {
    let d = if t.len() > 0 && t[0] == '+' { t.skip(1) } else { t };
    if d.len() > 0 && spec_all_digits(d) && spec_digits_value(d) <= u64::MAX {
        Some(spec_digits_value(d) as u64)
    } else {
        None
    }
}

/// The value of `text` as `u64::from_str` reads it.
pub fn parse_u64(text: &str) -> (r: Option<u64>)
    ensures
        r == spec_parse_u64(text@),
{
    let v = chars_of(text);
    let b = v.len();
    let ghost t = v@;
    let start: usize = if 0 < b && v[0] == '+' { 1 } else { 0 };
    let ghost d = v@.subrange(start as int, b as int);
    assert(d =~= (if t.len() > 0 && t[0] == '+' { t.skip(1) } else { t }));
    if start == b {
        return None;
    }
    let mut value: u64 = 0;
    let mut k: usize = start;
    while k < b
        invariant
            start <= k <= b,
            b == v@.len(),
            t == v@,
            t == text@,
            d == v@.subrange(start as int, b as int),
            d == (if t.len() > 0 && t[0] == '+' { t.skip(1) } else { t }),
            spec_all_digits(v@.subrange(start as int, k as int)),
            value == spec_digits_value(v@.subrange(start as int, k as int)),
        decreases b - k,
    {
        let c = v[k];
        let ghost pre = v@.subrange(start as int, k as int);
        let ghost next = v@.subrange(start as int, k + 1);
        assert(next.drop_last() =~= pre);
        assert(next.last() == c);
        if !('0' <= c && c <= '9') {
            proof {
                assert(!spec_all_digits(d)) by {
                    assert(d[k - start] == c);
                }
            }
            return None;
        }
        let digit: u64 = ((c as u32) - ('0' as u32)) as u64;
        if value > (u64::MAX - digit) / 10 {
            proof {
                assert(spec_digits_value(next) == value * 10 + digit);
                assert(value * 10 + digit > u64::MAX) by (nonlinear_arith)
                    requires value > (u64::MAX - digit) / 10, digit <= 9;
                if spec_all_digits(d) {
                    lemma_digits_value_monotone(d, (k + 1 - start) as int);
                    assert(d.take((k + 1 - start) as int) =~= next);
                }
            }
            return None;
        }
        value = value * 10 + digit;
        k = k + 1;
    }
    assert(d =~= v@.subrange(start as int, k as int));
    Some(value)
}

/// A longer run of digits never has a smaller value.
proof fn lemma_digits_value_monotone(d: Seq<char>, k: int)
    requires
        0 <= k <= d.len(),
        spec_all_digits(d),
    ensures
        spec_digits_value(d.take(k)) <= spec_digits_value(d),
    decreases d.len(),
{
    if k < d.len() {
        assert(d.drop_last().take(k) =~= d.take(k));
        lemma_digits_value_monotone(d.drop_last(), k);
    } else {
        assert(d.take(k) =~= d);
    }
}

/// The index of the first `'\n'` of `v` at or after `i` (or the length).
fn line_end(v: &Vec<char>, i: usize) -> (j: usize)
    requires
        i <= v@.len(),
    ensures
        i <= j <= v@.len(),
        v@.subrange(i as int, j as int) == spec_first_line(v@.skip(i as int)),
        j < v@.len() ==> v@[j as int] == '\n',
    decreases v@.len() - i,
{
    if i < v.len() && v[i] != '\n' {
        let j = line_end(v, i + 1);
        proof {
            let s = v@.skip(i as int);
            assert(s.skip(1) =~= v@.skip(i + 1));
            assert(v@.subrange(i as int, j as int) =~= seq![s[0]] + v@.subrange(i + 1, j as int));
        }
        j
    } else {
        proof {
            assert(v@.subrange(i as int, i as int) =~= Seq::<char>::empty());
        }
        i
    }
}

/// Whether `v[i..]` begins with `prefix`.
fn starts_with_at(v: &Vec<char>, i: usize, prefix: &Vec<char>) -> (r: bool)
    requires
        i <= v@.len(),
    ensures
        r == spec_starts_with(v@.skip(i as int), prefix@),
{
    if prefix.len() > v.len() - i {
        return false;
    }
    let mut k: usize = 0;
    while k < prefix.len()
        invariant
            k <= prefix@.len(),
            i <= v.len(),
            prefix.len() <= v.len() - i,
            forall|m: int| 0 <= m < k ==> v@[i + m] == prefix@[m],
        decreases prefix@.len() - k,
    {
        if v[i + k] != prefix[k] {
            proof {
                assert(v@.skip(i as int).take(prefix@.len() as int)[k as int] != prefix@[k as int]);
            }
            return false;
        }
        k = k + 1;
    }
    assert(v@.skip(i as int).take(prefix@.len() as int) =~= prefix@);
    true
}

/// The number in the second field of `line`, as `usize::from_str` reads it.
pub open spec fn spec_second_field_value(line: Seq<char>) -> Option<usize> {
    match spec_nth_field(line, 1) {
        Some(t) => spec_parse_usize(t),
        None => None,
    }
}

/// The value of the first line of `s` that begins with `key` and whose second
/// field is a number; lines that begin with `key` but hold no number are
/// passed over. Lines end at `'\n'`; a `'\r'` before it is white space, so it
/// changes no field.
pub open spec fn spec_keyed_value_any(s: Seq<char>, key: Seq<char>) -> Option<usize>
    decreases s.len(),
{
    let line = spec_first_line(s);
    let here = if spec_starts_with(line, key) { spec_second_field_value(line) } else { None };
    if here is Some {
        here
    } else if line.len() < s.len() {
        proof { lemma_first_line_len(s); }
        spec_keyed_value_any(s.skip(line.len() as int + 1), key)
    } else {
        None
    }
}

/// The value in the second field of the first line of `s` that begins with
/// `key` (`None` when that line holds no number, or no line begins with `key`).
pub open spec fn spec_keyed_value_first(s: Seq<char>, key: Seq<char>) -> Option<usize>
    decreases s.len(),
{
    let line = spec_first_line(s);
    if spec_starts_with(line, key) {
        spec_second_field_value(line)
    } else if line.len() < s.len() {
        proof { lemma_first_line_len(s); }
        spec_keyed_value_first(s.skip(line.len() as int + 1), key)
    } else {
        None
    }
}

/// The first line of a text is no longer than the text.
pub proof fn lemma_first_line_len(s: Seq<char>)
    ensures
        spec_first_line(s).len() <= s.len(),
    decreases s.len(),
{
    if !(s.len() == 0 || s[0] == '\n') {
        lemma_first_line_len(s.skip(1));
    }
}

/// The value of the second field of `v[i..e]`.
fn second_field_value(v: &Vec<char>, i: usize, e: usize) -> (r: Option<usize>)
    requires
        i <= e <= v@.len(),
    ensures
        r == spec_second_field_value(v@.subrange(i as int, e as int)),
{
    match nth_field(v, i, e, 1) {
        Some((a, b)) => parse_usize_range(v, a, b),
        None => None,
    }
}

/// Scans the lines of `v` for `key` (see `spec_keyed_value_any` and
/// `spec_keyed_value_first`); `pass_over` chooses whether a keyed line without
/// a number is passed over.
fn keyed_value(v: &Vec<char>, key: &Vec<char>, pass_over: bool) -> (r: Option<usize>)
    ensures
        pass_over ==> r == spec_keyed_value_any(v@, key@),
        !pass_over ==> r == spec_keyed_value_first(v@, key@),
{
    let mut pos: usize = 0;
    assert(v@.skip(0) =~= v@);
    while pos <= v.len()
        invariant
            pos <= v@.len() + 1,
            pos <= v@.len() ==> (pass_over ==> spec_keyed_value_any(v@, key@) == spec_keyed_value_any(v@.skip(pos as int), key@)),
            pos <= v@.len() ==> (!pass_over ==> spec_keyed_value_first(v@, key@) == spec_keyed_value_first(v@.skip(pos as int), key@)),
            pos > v@.len() ==> (pass_over ==> spec_keyed_value_any(v@, key@) is None),
            pos > v@.len() ==> (!pass_over ==> spec_keyed_value_first(v@, key@) is None),
        decreases v@.len() + 1 - pos,
    {
        let e = line_end(v, pos);
        let ghost s = v@.skip(pos as int);
        let ghost line = spec_first_line(s);
        assert(line == v@.subrange(pos as int, e as int));
        let keyed = starts_with_at(v, pos, key);
        proof {
            assert(v@.subrange(pos as int, e as int).take(key@.len() as int) =~= v@.skip(pos as int).take(key@.len() as int)
                || key@.len() > line.len());
            if key@.len() <= line.len() {
                assert(line.take(key@.len() as int) =~= s.take(key@.len() as int));
            }
        }
        if keyed && key.len() <= e - pos {
            let value = second_field_value(v, pos, e);
            if !pass_over || value.is_some() {
                return value;
            }
        }
        if e == v.len() {
            return None;
        }
        proof {
            assert(s.skip(line.len() as int + 1) =~= v@.skip(e + 1));
        }
        pos = e + 1;
    }
    None
}

/// The available memory in MiB that `/proc/meminfo` reports: the number of
/// the first `MemAvailable:` line that holds one (in KiB) divided by 1024, or
/// 512 when the text could not be read or no such line holds a number.
pub fn available_memory_mb(meminfo: Option<&str>) -> (r: usize)
    ensures
        r == match meminfo {
            Some(text) => match spec_keyed_value_any(text@, "MemAvailable:"@) {
                Some(kb) => kb / 1024,
                None => 512,
            },
            None => 512,
        },
{
    match meminfo {
        Some(text) => {
            let v = chars_of(text);
            let key = chars_of("MemAvailable:");
            match keyed_value(&v, &key, true) {
                Some(kb) => kb / 1024,
                None => 512,
            }
        },
        None => 512,
    }
}

/// The resident set size in KiB that `/proc/self/status` reports: the number
/// on the first line that begins with `VmRSS:`, if it holds one.
pub fn resident_memory_kb(status: &str) -> (r: Option<usize>)
    ensures
        r == spec_keyed_value_first(status@, "VmRSS:"@),
{
    let v = chars_of(status);
    let key = chars_of("VmRSS:");
    keyed_value(&v, &key, false)
}

/// The first line of `s` that begins with `key`.
pub open spec fn spec_line_with(s: Seq<char>, key: Seq<char>) -> Option<Seq<char>>
    decreases s.len(),
{
    let line = spec_first_line(s);
    if spec_starts_with(line, key) {
        Some(line)
    } else if line.len() < s.len() {
        proof { lemma_first_line_len(s); }
        spec_line_with(s.skip(line.len() as int + 1), key)
    } else {
        None
    }
}

/// `s` without its trailing white space.
pub open spec fn spec_trim_end(s: Seq<char>) -> Seq<char>
    decreases s.len(),
{
    if s.len() > 0 && spec_is_whitespace(s.last()) { spec_trim_end(s.drop_last()) } else { s }
}

/// `s` without its leading and trailing white space (`str::trim`).
pub open spec fn spec_trim(s: Seq<char>) -> Seq<char> {
    spec_trim_end(spec_skip_ws(s))
}

/// The index just past the last non-white-space character of `v[i..j]`
/// (or `i`).
fn trim_end_at(v: &Vec<char>, i: usize, j: usize) -> (k: usize)
    requires
        i <= j <= v@.len(),
    ensures
        i <= k <= j,
        v@.subrange(i as int, k as int) == spec_trim_end(v@.subrange(i as int, j as int)),
    decreases j - i,
{
    if i < j && is_whitespace(v[j - 1]) {
        let k = trim_end_at(v, i, j - 1);
        proof {
            assert(v@.subrange(i as int, j as int).drop_last() =~= v@.subrange(i as int, j - 1));
        }
        k
    } else {
        j
    }
}

/// The first line of `text` that begins with `key`, trimmed of white space at
/// both ends.
pub fn trimmed_line_with(text: &str, key: &str) -> (r: Option<String>)
    ensures
        r matches Some(l) ==> spec_line_with(text@, key@) matches Some(line) && l@ == spec_trim(line),
        r is None ==> spec_line_with(text@, key@) is None,
{
    let v = chars_of(text);
    let k = chars_of(key);
    let mut pos: usize = 0;
    assert(v@.skip(0) =~= v@);
    while pos <= v.len()
        invariant
            pos <= v@.len() + 1,
            v@ == text@,
            k@ == key@,
            pos <= v@.len() ==> spec_line_with(v@, k@) == spec_line_with(v@.skip(pos as int), k@),
            pos > v@.len() ==> spec_line_with(v@, k@) is None,
        decreases v@.len() + 1 - pos,
    {
        let e = line_end(&v, pos);
        let ghost s = v@.skip(pos as int);
        let ghost line = spec_first_line(s);
        assert(line == v@.subrange(pos as int, e as int));
        let keyed = starts_with_at(&v, pos, &k);
        proof {
            if k@.len() <= line.len() {
                assert(line.take(k@.len() as int) =~= s.take(k@.len() as int));
            }
        }
        if keyed && k.len() <= e - pos {
            let a = skip_ws_from(&v, pos, e);
            let b = trim_end_at(&v, a, e);
            let out = String::from_str(text.substring_char(a, b));
            return Some(out);
        }
        if e == v.len() {
            return None;
        }
        proof {
            assert(s.skip(line.len() as int + 1) =~= v@.skip(e + 1));
        }
        pos = e + 1;
    }
    None
}

/// The ASCII digit for `d` (below ten).
pub open spec fn spec_digit_char(d: nat) -> char {
    if d == 0 { '0' } else if d == 1 { '1' } else if d == 2 { '2' } else if d == 3 { '3' }
    else if d == 4 { '4' } else if d == 5 { '5' } else if d == 6 { '6' } else if d == 7 { '7' }
    else if d == 8 { '8' } else { '9' }
}

/// The decimal digits of `n`, without leading zeros (`"0"` for zero), as
/// `Display` writes an unsigned integer.
pub open spec fn spec_decimal(n: nat) -> Seq<char>
    decreases n,
{
    if n < 10 { seq![spec_digit_char(n)] } else { spec_decimal(n / 10).push(spec_digit_char(n % 10)) }
}

/// Appends the digit `d` to `s`.
fn push_digit(s: &mut String, d: u64)
    requires
        d < 10,
    ensures
        final(s)@ == old(s)@.push(spec_digit_char(d as nat)),
{
    proof {
        reveal_strlit("0"); reveal_strlit("1"); reveal_strlit("2"); reveal_strlit("3"); reveal_strlit("4");
        reveal_strlit("5"); reveal_strlit("6"); reveal_strlit("7"); reveal_strlit("8"); reveal_strlit("9");
    }
    if d == 0 { s.append("0"); } else if d == 1 { s.append("1"); } else if d == 2 { s.append("2"); }
    else if d == 3 { s.append("3"); } else if d == 4 { s.append("4"); } else if d == 5 { s.append("5"); }
    else if d == 6 { s.append("6"); } else if d == 7 { s.append("7"); } else if d == 8 { s.append("8"); }
    else { s.append("9"); }
    assert(final(s)@ =~= old(s)@.push(spec_digit_char(d as nat)));
}

/// Appends the decimal digits of `n` to `s`.
pub fn push_decimal(s: &mut String, n: u64)
    ensures
        final(s)@ == old(s)@ + spec_decimal(n as nat),
    decreases n,
{
    if n < 10 {
        push_digit(s, n);
        assert(old(s)@.push(spec_digit_char(n as nat)) =~= old(s)@ + seq![spec_digit_char(n as nat)]);
    } else {
        push_decimal(s, n / 10);
        push_digit(s, n % 10);
        assert(s@ =~= old(s)@ + spec_decimal(n as nat));
    }
}

/// The decimal digits of `n` as a string.
pub fn decimal_string(n: u64) -> (r: String)
    ensures
        r@ == spec_decimal(n as nat),
{
    let mut s = String::new();
    push_decimal(&mut s, n);
    assert(s@ =~= spec_decimal(n as nat));
    s
}

/// Whether two texts are the same.
pub fn same_text(a: &str, b: &str) -> (r: bool)
    ensures
        r == (a@ == b@),
{
    let va = chars_of(a);
    let vb = chars_of(b);
    if va.len() != vb.len() {
        return false;
    }
    let mut i: usize = 0;
    while i < va.len()
        invariant
            va@.len() == vb@.len(),
            va@ == a@,
            vb@ == b@,
            i <= va@.len(),
            forall|k: int| 0 <= k < i ==> va@[k] == vb@[k],
        decreases va@.len() - i,
    {
        if va[i] != vb[i] {
            assert(a@[i as int] != b@[i as int]);
            return false;
        }
        i = i + 1;
    }
    assert(va@ =~= vb@);
    true
}

} // verus!
