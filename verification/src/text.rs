use vstd::prelude::*;

verus! {

/// Appends one character to a string (`String::push`).
///
/// Trusted: std documents that `push` appends the given `char` to the end of
/// the string, which is all that is claimed here.
#[verifier::external_body]
pub(crate) fn push_char(s: &mut String, c: char)
    ensures
        final(s)@ == old(s)@.push(c),
{
    s.push(c);
}

/// The uppercase form of `s`, as `str::to_uppercase` computes it from the
/// Unicode case tables.
pub uninterp spec fn uppercase(s: Seq<char>) -> Seq<char>;

/// Uppercases a string (`str::to_uppercase`).
///
/// Trusted: std documents the result as the uppercase equivalent of `s`
/// under the Unicode `Uppercase` property, a function of `s` alone; this
/// is all that is claimed, through the name [`uppercase`].
#[verifier::external_body]
pub(crate) fn to_uppercase(s: &str) -> (r: String)
    ensures
        r@ == uppercase(s@),
{
    s.to_uppercase()
}

/// The characters of a string slice, in order.
pub fn chars_of(s: &str) -> (v: Vec<char>)
    ensures
        v@ == s@,
{
    let mut v: Vec<char> = Vec::new();
    for c in it: s.chars()
        invariant
            v@ == it.seq().take(it.index() as int),
    {
        v.push(c);
    }
    v
}

/// A string holding exactly the given characters.
pub fn string_of(v: &Vec<char>) -> (s: String)
    ensures
        s@ == v@,
{
    let mut s = String::new();
    let mut i: usize = 0;
    while i < v.len()
        invariant
            i <= v.len(),
            s@ == v@.take(i as int),
        decreases v.len() - i,
    {
        push_char(&mut s, v[i]);
        assert(v@.take(i + 1) == v@.take(i as int).push(v@[i as int]));
        i += 1;
    }
    assert(v@.take(v.len() as int) == v@);
    s
}


/// `pat` occurs in `s` starting at index `i`.
pub open spec fn occurs_at(s: Seq<char>, pat: Seq<char>, i: int) -> bool {
    &&& 0 <= i
    &&& i + pat.len() <= s.len()
    &&& s.subrange(i, i + pat.len()) == pat
}

/// `i` is the first index at which `pat` occurs in `s`.
pub open spec fn is_first_occurrence(s: Seq<char>, pat: Seq<char>, i: int) -> bool {
    &&& occurs_at(s, pat, i)
    &&& forall|j: int| 0 <= j < i ==> !occurs_at(s, pat, j)
}

/// `i` is the last index at which `pat` occurs in `s`.
pub open spec fn is_last_occurrence(s: Seq<char>, pat: Seq<char>, i: int) -> bool {
    &&& occurs_at(s, pat, i)
    &&& forall|j: int| i < j <= s.len() ==> !occurs_at(s, pat, j)
}

/// Where `pat` first occurs in `s` (`str::find`), counted in characters.
pub open spec fn find_spec(s: Seq<char>, pat: Seq<char>) -> Option<int> {
    if exists|i: int| occurs_at(s, pat, i) {
        Some(choose|i: int| is_first_occurrence(s, pat, i))
    } else {
        None
    }
}

/// Where `pat` last occurs in `s` (`str::rfind`), counted in characters.
pub open spec fn rfind_spec(s: Seq<char>, pat: Seq<char>) -> Option<int> {
    if exists|i: int| occurs_at(s, pat, i) {
        Some(choose|i: int| is_last_occurrence(s, pat, i))
    } else {
        None
    }
}

/// Whether `pat` occurs anywhere in `s` (`str::contains`).
pub open spec fn contains_spec(s: Seq<char>, pat: Seq<char>) -> bool {
    exists|i: int| occurs_at(s, pat, i)
}

proof fn lemma_first_exists(s: Seq<char>, pat: Seq<char>, w: int)
    requires
        occurs_at(s, pat, w),
    ensures
        exists|i: int| is_first_occurrence(s, pat, i),
    decreases w,
{
    if exists|j: int| 0 <= j < w && occurs_at(s, pat, j) {
        let j = choose|j: int| 0 <= j < w && occurs_at(s, pat, j);
        lemma_first_exists(s, pat, j);
    } else {
        assert(is_first_occurrence(s, pat, w));
    }
}

proof fn lemma_last_exists(s: Seq<char>, pat: Seq<char>, w: int)
    requires
        occurs_at(s, pat, w),
    ensures
        exists|i: int| is_last_occurrence(s, pat, i),
    decreases s.len() - w,
{
    if exists|j: int| w < j <= s.len() && occurs_at(s, pat, j) {
        let j = choose|j: int| w < j <= s.len() && occurs_at(s, pat, j);
        lemma_last_exists(s, pat, j);
    } else {
        assert(is_last_occurrence(s, pat, w));
    }
}

/// What [`find_spec`] gives is the first occurrence.
pub proof fn lemma_find_spec(s: Seq<char>, pat: Seq<char>)
    ensures
        match find_spec(s, pat) {
            Some(i) => is_first_occurrence(s, pat, i),
            None => forall|j: int| !occurs_at(s, pat, j),
        },
{
    if exists|i: int| occurs_at(s, pat, i) {
        let w = choose|i: int| occurs_at(s, pat, i);
        lemma_first_exists(s, pat, w);
    }
}

/// What [`rfind_spec`] gives is the last occurrence.
pub proof fn lemma_rfind_spec(s: Seq<char>, pat: Seq<char>)
    ensures
        match rfind_spec(s, pat) {
            Some(i) => is_last_occurrence(s, pat, i),
            None => forall|j: int| !occurs_at(s, pat, j),
        },
{
    if exists|i: int| occurs_at(s, pat, i) {
        let w = choose|i: int| occurs_at(s, pat, i);
        lemma_last_exists(s, pat, w);
    }
}

/// Whether `pat` occurs in `s` at index `i`.
fn matches_at(s: &Vec<char>, pat: &Vec<char>, i: usize) -> (r: bool)
    requires
        i + pat.len() <= s.len(),
    ensures
        r == occurs_at(s@, pat@, i as int),
{
    let mut k: usize = 0;
    while k < pat.len()
        invariant
            i + pat.len() <= s.len(),
            k <= pat.len(),
            forall|m: int| 0 <= m < k ==> s@[i + m] == pat@[m],
        decreases pat.len() - k,
    {
        if s[i + k] != pat[k] {
            assert(s@.subrange(i as int, i + pat.len())[k as int] != pat@[k as int]);
            return false;
        }
        k += 1;
    }
    assert(s@.subrange(i as int, i + pat.len()) =~= pat@);
    true
}

/// Where `pat` first occurs in `s` at or after index `from`.
pub fn find_from(s: &Vec<char>, pat: &Vec<char>, from: usize) -> (r: Option<usize>)
    ensures
        match r {
            Some(i) => from <= i && occurs_at(s@, pat@, i as int) && forall|j: int|
                from <= j < i ==> !occurs_at(s@, pat@, j),
            None => forall|j: int| from <= j ==> !occurs_at(s@, pat@, j),
        },
{
    if pat.len() > s.len() {
        return None;
    }
    let last: usize = s.len() - pat.len();
    let mut i: usize = from;
    while i <= last
        invariant
            last == s.len() - pat.len(),
            from <= i,
            forall|j: int| from <= j < i ==> !occurs_at(s@, pat@, j),
        decreases last + 1 - i,
    {
        if matches_at(s, pat, i) {
            return Some(i);
        }
        if i == last {
            return None;
        }
        i += 1;
    }
    None
}

/// Where `pat` first occurs in `s` (`str::find`).
pub fn find(s: &Vec<char>, pat: &Vec<char>) -> (r: Option<usize>)
    ensures
        match r {
            Some(i) => find_spec(s@, pat@) == Some(i as int),
            None => find_spec(s@, pat@) is None,
        },
{
    let r = find_from(s, pat, 0);
    match r {
        Some(i) => {
            assert(is_first_occurrence(s@, pat@, i as int));
            let ghost c: int = choose|j: int| is_first_occurrence(s@, pat@, j);
            assert(c == i as int) by {
                if c < i {
                } else if c > i {
                    assert(!occurs_at(s@, pat@, i as int));
                }
            }
        },
        None => {},
    }
    r
}

/// Where `pat` last occurs in `s` (`str::rfind`).
pub fn rfind(s: &Vec<char>, pat: &Vec<char>) -> (r: Option<usize>)
    ensures
        match r {
            Some(i) => rfind_spec(s@, pat@) == Some(i as int),
            None => rfind_spec(s@, pat@) is None,
        },
{
    if pat.len() > s.len() {
        return None;
    }
    let mut i: usize = s.len() - pat.len();
    loop
        invariant
            i <= s.len() - pat.len(),
            forall|j: int| i < j <= s.len() ==> !occurs_at(s@, pat@, j),
        decreases i,
    {
        if matches_at(s, pat, i) {
            let ghost f: int = i as int;
            assert(is_last_occurrence(s@, pat@, f));
            let ghost c: int = choose|j: int| is_last_occurrence(s@, pat@, j);
            assert(c == f) by {
                if c < f {
                    assert(!occurs_at(s@, pat@, f));
                } else if c > f {
                }
            }
            return Some(i);
        }
        if i == 0 {
            return None;
        }
        i -= 1;
    }
}

/// `s` begins with `p` (`str::starts_with`).
pub open spec fn starts_with_spec(s: Seq<char>, p: Seq<char>) -> bool {
    p.len() <= s.len() && s.take(p.len() as int) == p
}

/// Whether `s` begins with `p`.
pub fn starts_with(s: &str, p: &str) -> (r: bool)
    ensures
        r == starts_with_spec(s@, p@),
{
    let v = chars_of(s);
    let w = chars_of(p);
    if w.len() > v.len() {
        return false;
    }
    let r = matches_at(&v, &w, 0);
    assert(v@.subrange(0, w@.len() as int) =~= v@.take(w@.len() as int));
    r
}

/// Whether `pat` occurs in `s` (`str::contains`).
pub fn contains(s: &Vec<char>, pat: &Vec<char>) -> (r: bool)
    ensures
        r == contains_spec(s@, pat@),
{
    find_from(s, pat, 0).is_some()
}


/// Number of bytes that the UTF-8 encoding of `c` takes (`char::len_utf8`).
pub open spec fn char_width(c: char) -> nat {
    if (c as u32) < 0x80 {
        1
    } else if (c as u32) < 0x800 {
        2
    } else if (c as u32) < 0x10000 {
        3
    } else {
        4
    }
}

/// Number of bytes of the UTF-8 encoding of `s` (`str::len`).
pub open spec fn byte_len(s: Seq<char>) -> nat
    decreases s.len(),
{
    if s.len() == 0 {
        0
    } else {
        byte_len(s.drop_last()) + char_width(s.last())
    }
}

/// The byte offset `n` lies on a character boundary of `s`, or past its end:
/// exactly the offsets at which `String::truncate` does not panic.
pub open spec fn truncatable(s: Seq<char>, n: int) -> bool {
    n >= byte_len(s) || exists|k: int| 0 <= k <= s.len() && byte_len(s.take(k)) == n
}

/// What `String::truncate(n)` leaves of `s`: the longest prefix of at most `n` bytes.
pub open spec fn truncate_spec(s: Seq<char>, n: int) -> Seq<char> {
    if n >= byte_len(s) {
        s
    } else {
        s.take(choose|k: int| 0 <= k <= s.len() && byte_len(s.take(k)) == n)
    }
}

/// Byte width of one character, computed.
pub fn char_width_of(c: char) -> (w: usize)
    ensures
        w == char_width(c),
        1 <= w <= 4,
{
    let u: u32 = c as u32;
    if u < 0x80 {
        1
    } else if u < 0x800 {
        2
    } else if u < 0x10000 {
        3
    } else {
        4
    }
}

/// Adding one character to a prefix adds its width.
pub proof fn lemma_byte_len_take_step(s: Seq<char>, k: int)
    requires
        0 <= k < s.len(),
    ensures
        byte_len(s.take(k + 1)) == byte_len(s.take(k)) + char_width(s[k]),
{
    assert(s.take(k + 1).drop_last() =~= s.take(k));
}

/// Longer prefixes take strictly more bytes.
pub proof fn lemma_byte_len_take_strict(s: Seq<char>, k1: int, k2: int)
    requires
        0 <= k1 < k2 <= s.len(),
    ensures
        byte_len(s.take(k1)) < byte_len(s.take(k2)),
    decreases k2 - k1,
{
    lemma_byte_len_take_step(s, k2 - 1);
    if k1 < k2 - 1 {
        lemma_byte_len_take_strict(s, k1, k2 - 1);
    }
}

/// `String::truncate(n)` keeps a prefix of at most `n` bytes: all of `s` if
/// it fits, else exactly `n` bytes of it.
pub proof fn lemma_truncate_spec(s: Seq<char>, n: int)
    requires
        truncatable(s, n),
    ensures
        truncate_spec(s, n).len() <= s.len(),
        truncate_spec(s, n) == s.take(truncate_spec(s, n).len() as int),
        byte_len(truncate_spec(s, n)) <= n,
        byte_len(s) <= n ==> truncate_spec(s, n) == s,
        byte_len(s) > n ==> byte_len(truncate_spec(s, n)) == n,
{
    if n >= byte_len(s) {
        assert(s.take(s.len() as int) =~= s);
    } else {
        let k = choose|k: int| 0 <= k <= s.len() && byte_len(s.take(k)) == n;
        assert(s.take(k).len() == k);
        assert(s.take(k) =~= s.take(s.take(k).len() as int));
    }
}

/// `t` is what keeping at most `n` bytes of `s` leaves: a prefix of `s`,
/// all of it when it fits in `n` bytes, else exactly `n` bytes of it.
pub open spec fn keeps_prefix(s: Seq<char>, t: Seq<char>, n: int) -> bool {
    &&& t.len() <= s.len()
    &&& t == s.take(t.len() as int)
    &&& byte_len(s) <= n ==> t == s
    &&& byte_len(s) > n ==> byte_len(t) == n
}

/// Truncating keeps a prefix in the sense of [`keeps_prefix`].
pub proof fn lemma_truncate_keeps_prefix(s: Seq<char>, n: int)
    requires
        truncatable(s, n),
    ensures
        keeps_prefix(s, truncate_spec(s, n), n),
{
    lemma_truncate_spec(s, n);
}

/// Where `String::truncate(n)` would cut `v[from..]`: how many characters
/// stay, and how many bytes they take; `None` where `n` falls inside a
/// character (where `truncate` panics).
pub fn cut_point(v: &Vec<char>, from: usize, n: usize) -> (r: Option<(usize, usize)>)
    requires
        from <= v.len(),
    ensures
        r is Some <==> truncatable(v@.skip(from as int), n as int),
        r matches Some((k, b)) ==> {
            &&& from + k <= v.len()
            &&& v@.skip(from as int).take(k as int) == truncate_spec(v@.skip(from as int), n as int)
            &&& b == byte_len(truncate_spec(v@.skip(from as int), n as int))
            &&& b <= n
        },
{
    let ghost sv = v@.skip(from as int);
    let mut i: usize = 0;
    let mut acc: usize = 0;
    while from + i < v.len() && acc < n
        invariant
            sv == v@.skip(from as int),
            from + i <= v.len(),
            acc == byte_len(sv.take(i as int)),
            acc <= n,
        decreases v.len() - from - i,
    {
        let w: usize = char_width_of(v[from + i]);
        proof {
            lemma_byte_len_take_step(sv, i as int);
        }
        if w > n - acc {
            proof {
                assert(byte_len(sv.take(i + 1)) > n);
                assert(sv.take(sv.len() as int) =~= sv);
                if i + 1 < sv.len() {
                    lemma_byte_len_take_strict(sv, i + 1, sv.len() as int);
                }
                assert forall|k: int| 0 <= k <= sv.len() implies byte_len(sv.take(k)) != n by {
                    if k < i {
                        lemma_byte_len_take_strict(sv, k, i as int);
                    } else if k > i + 1 {
                        lemma_byte_len_take_strict(sv, i + 1, k);
                    }
                }
            }
            return None;
        }
        acc = acc + w;
        i = i + 1;
    }
    proof {
        assert(sv.take(sv.len() as int) =~= sv);
        if from + i == v.len() {
            assert(byte_len(sv) <= n);
        } else {
            assert(acc == n);
            if n as int >= byte_len(sv) {
                if (i as int) < sv.len() {
                    lemma_byte_len_take_strict(sv, i as int, sv.len() as int);
                }
            }
            let k = choose|k: int| 0 <= k <= sv.len() && byte_len(sv.take(k)) == n;
            if k < i {
                lemma_byte_len_take_strict(sv, k, i as int);
            } else if k > i {
                lemma_byte_len_take_strict(sv, i as int, k);
            }
        }
    }
    Some((i, acc))
}

/// Whether `String::truncate(n)` can shorten `s` without panicking.
pub fn can_truncate(s: &str, n: usize) -> (r: bool)
    ensures
        r == truncatable(s@, n as int),
{
    let v = chars_of(s);
    assert(v@.skip(0) =~= v@);
    cut_point(&v, 0, n).is_some()
}

/// Shortening `s` in place as `String::truncate(n)` does.
pub fn truncate(s: &mut String, n: usize)
    requires
        truncatable(old(s)@, n as int),
    ensures
        final(s)@ == truncate_spec(old(s)@, n as int),
        byte_len(final(s)@) <= n,
{
    let v = chars_of(s.as_str());
    assert(v@.skip(0) =~= v@);
    match cut_point(&v, 0, n) {
        Some((k, _)) => {
            if k < v.len() {
                *s = string_of_prefix(&v, k);
            } else {
                assert(v@.take(k as int) =~= v@);
            }
        },
        None => {},
    }
}

/// A string holding the first `k` characters of `v`.
pub fn string_of_prefix(v: &Vec<char>, k: usize) -> (s: String)
    requires
        k <= v.len(),
    ensures
        s@ == v@.take(k as int),
{
    let mut s = String::new();
    let mut i: usize = 0;
    while i < k
        invariant
            k <= v.len(),
            i <= k,
            s@ == v@.take(i as int),
        decreases k - i,
    {
        push_char(&mut s, v[i]);
        assert(v@.take(i + 1) == v@.take(i as int).push(v@[i as int]));
        i += 1;
    }
    s
}

/// A string holding the characters of `v` from index `a` up to `b`.
pub fn string_of_range(v: &Vec<char>, a: usize, b: usize) -> (s: String)
    requires
        a <= b <= v.len(),
    ensures
        s@ == v@.subrange(a as int, b as int),
{
    let mut s = String::new();
    let mut i: usize = a;
    while i < b
        invariant
            a <= i <= b <= v.len(),
            s@ == v@.subrange(a as int, i as int),
        decreases b - i,
    {
        push_char(&mut s, v[i]);
        assert(v@.subrange(a as int, i + 1) == v@.subrange(a as int, i as int).push(v@[i as int]));
        i += 1;
    }
    s
}


/// `c` has the Unicode `White_Space` property (`char::is_whitespace`, and what
/// `\s` matches in a regular expression).
pub open spec fn is_whitespace(c: char) -> bool {
    let u: u32 = c as u32;
    ||| 0x9 <= u <= 0xD
    ||| u == 0x20
    ||| u == 0x85
    ||| u == 0xA0
    ||| u == 0x1680
    ||| 0x2000 <= u <= 0x200A
    ||| u == 0x2028
    ||| u == 0x2029
    ||| u == 0x202F
    ||| u == 0x205F
    ||| u == 0x3000
}

/// Whether `c` is whitespace.
pub fn is_whitespace_char(c: char) -> (r: bool)
    ensures
        r == is_whitespace(c),
{
    let u: u32 = c as u32;
    (0x9 <= u && u <= 0xD) || u == 0x20 || u == 0x85 || u == 0xA0 || u == 0x1680 || (0x2000 <= u
        && u <= 0x200A) || u == 0x2028 || u == 0x2029 || u == 0x202F || u == 0x205F || u == 0x3000
}

/// `s` without its leading whitespace (`str::trim_start`).
pub open spec fn trim_start_spec(s: Seq<char>) -> Seq<char>
    decreases s.len(),
{
    if s.len() > 0 && is_whitespace(s[0]) {
        trim_start_spec(s.drop_first())
    } else {
        s
    }
}

/// `s` without its trailing whitespace (`str::trim_end`).
pub open spec fn trim_end_spec(s: Seq<char>) -> Seq<char>
    decreases s.len(),
{
    if s.len() > 0 && is_whitespace(s.last()) {
        trim_end_spec(s.drop_last())
    } else {
        s
    }
}

/// `s` without leading and trailing whitespace (`str::trim`).
pub open spec fn trim_spec(s: Seq<char>) -> Seq<char> {
    trim_end_spec(trim_start_spec(s))
}

proof fn lemma_trim_start_skip(s: Seq<char>, a: int)
    requires
        0 <= a <= s.len(),
        forall|i: int| 0 <= i < a ==> is_whitespace(#[trigger] s[i]),
    ensures
        trim_start_spec(s) == trim_start_spec(s.skip(a)),
    decreases a,
{
    if a == 0 {
        assert(s.skip(0) =~= s);
    } else {
        assert(s.drop_first().skip(a - 1) =~= s.skip(a));
        assert forall|i: int| 0 <= i < a - 1 implies is_whitespace(#[trigger] s.drop_first()[i]) by {
            assert(s.drop_first()[i] == s[i + 1]);
        }
        lemma_trim_start_skip(s.drop_first(), a - 1);
    }
}

proof fn lemma_trim_end_take(s: Seq<char>, b: int)
    requires
        0 <= b <= s.len(),
        forall|i: int| b <= i < s.len() ==> is_whitespace(#[trigger] s[i]),
    ensures
        trim_end_spec(s) == trim_end_spec(s.take(b)),
    decreases s.len() - b,
{
    if b == s.len() {
        assert(s.take(b) =~= s);
    } else {
        assert(s.drop_last().take(b) =~= s.take(b));
        assert forall|i: int| b <= i < s.len() - 1 implies is_whitespace(#[trigger] s.drop_last()[i]) by {
            assert(s.drop_last()[i] == s[i]);
        }
        lemma_trim_end_take(s.drop_last(), b);
    }
}

proof fn lemma_trim_start_count(s: Seq<char>) -> (a: int)
    ensures
        0 <= a <= s.len(),
        trim_start_spec(s) == s.skip(a),
        forall|i: int| 0 <= i < a ==> is_whitespace(#[trigger] s[i]),
        a < s.len() ==> !is_whitespace(s[a]),
    decreases s.len(),
{
    if s.len() > 0 && is_whitespace(s[0]) {
        let a = lemma_trim_start_count(s.drop_first());
        assert(s.drop_first().skip(a) =~= s.skip(a + 1));
        assert forall|i: int| 0 <= i < a + 1 implies is_whitespace(#[trigger] s[i]) by {
            if i > 0 {
                assert(s[i] == s.drop_first()[i - 1]);
            }
        }
        a + 1
    } else {
        assert(s.skip(0) =~= s);
        0
    }
}

proof fn lemma_trim_end_count(s: Seq<char>) -> (b: int)
    ensures
        0 <= b <= s.len(),
        trim_end_spec(s) == s.take(b),
        forall|i: int| b <= i < s.len() ==> is_whitespace(#[trigger] s[i]),
        b > 0 ==> !is_whitespace(s[b - 1]),
    decreases s.len(),
{
    if s.len() > 0 && is_whitespace(s.last()) {
        let b = lemma_trim_end_count(s.drop_last());
        assert(s.drop_last().take(b) =~= s.take(b));
        assert forall|i: int| b <= i < s.len() implies is_whitespace(#[trigger] s[i]) by {
            if i < s.len() - 1 {
                assert(s[i] == s.drop_last()[i]);
            }
        }
        b
    } else {
        assert(s.take(s.len() as int) =~= s);
        s.len() as int
    }
}

/// Trimming keeps the piece of `s` between its leading and its trailing
/// whitespace: what is dropped on either side is whitespace, and what is
/// kept, unless empty, neither starts nor ends with whitespace.
pub proof fn lemma_trim(s: Seq<char>)
    ensures
        exists|a: int, b: int|
            {
                &&& 0 <= a <= b <= s.len()
                &&& trim_spec(s) == s.subrange(a, b)
                &&& forall|i: int| 0 <= i < a ==> is_whitespace(#[trigger] s[i])
                &&& forall|i: int| b <= i < s.len() ==> is_whitespace(#[trigger] s[i])
            },
        trim_spec(s).len() > 0 ==> !is_whitespace(trim_spec(s)[0]) && !is_whitespace(
            trim_spec(s).last(),
        ),
{
    let a = lemma_trim_start_count(s);
    let u = s.skip(a);
    let b = lemma_trim_end_count(u);
    assert(u.take(b) =~= s.subrange(a, a + b));
    assert forall|i: int| a + b <= i < s.len() implies is_whitespace(#[trigger] s[i]) by {
        assert(s[i] == u[i - a]);
    }
    if b > 0 {
        assert(trim_spec(s)[0] == s[a]);
        assert(trim_spec(s).last() == u[b - 1]);
    }
}

/// The bounds `(a, b)` such that `v[a..b]` is `v[from..]` trimmed of whitespace.
pub fn trim_bounds(v: &Vec<char>, from: usize) -> (r: (usize, usize))
    requires
        from <= v.len(),
    ensures
        from <= r.0 <= r.1 <= v.len(),
        v@.subrange(r.0 as int, r.1 as int) == trim_spec(v@.skip(from as int)),
{
    let ghost t = v@.skip(from as int);
    let mut a: usize = from;
    while a < v.len() && is_whitespace_char(v[a])
        invariant
            from <= a <= v.len(),
            t == v@.skip(from as int),
            forall|i: int| from <= i < a ==> is_whitespace(#[trigger] v@[i]),
        decreases v.len() - a,
    {
        a += 1;
    }
    proof {
        assert forall|i: int| 0 <= i < a - from implies is_whitespace(#[trigger] t[i]) by {
            assert(t[i] == v@[i + from]);
        }
        lemma_trim_start_skip(t, a - from);
        assert(t.skip(a - from) =~= v@.skip(a as int));
    }
    let ghost u = v@.skip(a as int);
    assert(trim_start_spec(u) == u);
    let mut b: usize = v.len();
    while b > a && is_whitespace_char(v[b - 1])
        invariant
            a <= b <= v.len(),
            u == v@.skip(a as int),
            forall|i: int| b <= i < v.len() ==> is_whitespace(#[trigger] v@[i]),
        decreases b - a,
    {
        b -= 1;
    }
    proof {
        assert forall|i: int| b - a <= i < u.len() implies is_whitespace(#[trigger] u[i]) by {
            assert(u[i] == v@[i + a]);
        }
        lemma_trim_end_take(u, b - a);
        assert(u.take(b - a) =~= v@.subrange(a as int, b as int));
    }
    (a, b)
}

/// The words of `s`: its maximal runs of non-whitespace characters, in
/// order (`str::split_whitespace`).
pub open spec fn words_spec(s: Seq<char>) -> Seq<Seq<char>>
    decreases s.len(),
{
    if s.len() == 0 {
        Seq::empty()
    } else {
        let w = words_spec(s.drop_last());
        let c = s.last();
        if is_whitespace(c) {
            w
        } else if s.len() == 1 || is_whitespace(s[s.len() - 2]) {
            w.push(seq![c])
        } else {
            w.update(w.len() - 1, w.last().push(c))
        }
    }
}

/// The words of `s`, split at whitespace.
pub fn split_whitespace(s: &str) -> (r: Vec<String>)
    ensures
        r.deep_view() == words_spec(s@),
{
    let v = chars_of(s);
    let mut done: Vec<String> = Vec::new();
    let mut start: usize = 0;
    let mut i: usize = 0;
    assert(v@.take(0) =~= Seq::<char>::empty());
    assert(done.deep_view() =~= Seq::<Seq<char>>::empty());
    while i < v.len()
        invariant
            v@ == s@,
            start <= i <= v.len(),
            (i > 0 && !is_whitespace(v@[i - 1])) ==> done.deep_view().push(
                v@.subrange(start as int, i as int),
            ) == words_spec(v@.take(i as int)),
            !(i > 0 && !is_whitespace(v@[i - 1])) ==> done.deep_view() == words_spec(
                v@.take(i as int),
            ),
        decreases v.len() - i,
    {
        let ghost in_word = i > 0 && !is_whitespace(v@[i - 1]);
        let ghost before = done.deep_view();
        let ghost t = v@.take(i + 1);
        assert(t.drop_last() =~= v@.take(i as int));
        assert(t.last() == v@[i as int]);
        if i > 0 {
            assert(t[t.len() - 2] == v@[i - 1]);
        }
        let c = v[i];
        if is_whitespace_char(c) {
            if i > 0 && !is_whitespace_char(v[i - 1]) {
                let w = string_of_range(&v, start, i);
                done.push(w);
                assert(done.deep_view() =~= before.push(v@.subrange(start as int, i as int)));
            }
        } else {
            if i > 0 && !is_whitespace_char(v[i - 1]) {
                assert(v@.subrange(start as int, i + 1) =~= v@.subrange(start as int, i as int).push(c));
                assert(before.push(v@.subrange(start as int, i as int)).update(
                    before.len() as int,
                    v@.subrange(start as int, i as int).push(c),
                ) =~= before.push(v@.subrange(start as int, i + 1)));
            } else {
                start = i;
                assert(v@.subrange(start as int, i + 1) =~= seq![c]);
            }
        }
        i += 1;
    }
    assert(v@.take(v.len() as int) =~= v@);
    if i > 0 && !is_whitespace_char(v[i - 1]) {
        let ghost before = done.deep_view();
        let w = string_of_range(&v, start, i);
        done.push(w);
        assert(done.deep_view() =~= before.push(v@.subrange(start as int, i as int)));
    }
    done
}

/// The words of a text are not empty and hold no whitespace; a text
/// without whitespace is one word (or none, when empty); and whitespace at
/// the end of a text adds no word.
pub proof fn lemma_words(s: Seq<char>, c: char)
    ensures
        forall|k: int|
            0 <= k < words_spec(s).len() ==> (#[trigger] words_spec(s)[k]).len() > 0 && forall|j: int|
                0 <= j < words_spec(s)[k].len() ==> !is_whitespace(#[trigger] words_spec(s)[k][j]),
        (forall|j: int| 0 <= j < s.len() ==> !is_whitespace(#[trigger] s[j])) ==> words_spec(s) == (
        if s.len() == 0 {
            Seq::<Seq<char>>::empty()
        } else {
            seq![s]
        }),
        is_whitespace(c) ==> words_spec(s.push(c)) == words_spec(s),
    decreases s.len(),
{
    assert(s.push(c).drop_last() =~= s);
    if s.len() > 0 {
        let p = s.drop_last();
        lemma_words(p, c);
        let w = words_spec(p);
        let l = s.last();
        if !is_whitespace(l) && !(s.len() == 1 || is_whitespace(s[s.len() - 2])) {
            assert(w.len() > 0) by {
                assert(p.len() > 0 && !is_whitespace(p.last()));
                lemma_words_last(p);
            }
        }
        assert forall|k: int| 0 <= k < words_spec(s).len() implies (#[trigger] words_spec(s)[k]).len() > 0
            && forall|j: int| 0 <= j < words_spec(s)[k].len() ==> !is_whitespace(
            #[trigger] words_spec(s)[k][j],
        ) by {
            if !is_whitespace(l) && !(s.len() == 1 || is_whitespace(s[s.len() - 2])) && k == w.len() - 1 {
                assert(words_spec(s)[k] == w.last().push(l));
                assert forall|j: int| 0 <= j < words_spec(s)[k].len() implies !is_whitespace(
                    #[trigger] words_spec(s)[k][j],
                ) by {
                    if j < w.last().len() {
                        assert(words_spec(s)[k][j] == w[k][j]);
                    }
                }
            }
        }
        if forall|j: int| 0 <= j < s.len() ==> !is_whitespace(#[trigger] s[j]) {
            assert forall|j: int| 0 <= j < p.len() implies !is_whitespace(#[trigger] p[j]) by {
                assert(p[j] == s[j]);
            }
            assert(!is_whitespace(s[s.len() - 1]));
            if p.len() == 0 {
                assert(w =~= Seq::<Seq<char>>::empty());
                assert(seq![l] =~= s);
            } else {
                assert(!is_whitespace(s[s.len() - 2]));
                assert(p.push(l) =~= s);
            }
        }
    }
}

/// A text that ends with a character that is not whitespace has a word.
proof fn lemma_words_last(s: Seq<char>)
    requires
        s.len() > 0,
        !is_whitespace(s.last()),
    ensures
        words_spec(s).len() > 0,
    decreases s.len(),
{
    let p = s.drop_last();
    if !(s.len() == 1 || is_whitespace(s[s.len() - 2])) {
        assert(p.last() == s[s.len() - 2]);
        lemma_words_last(p);
    }
}

/// `s` with every backtick preceded by a backslash (`str::replace("`", "\\`")`).
pub open spec fn escape_backticks_spec(s: Seq<char>) -> Seq<char>
    decreases s.len(),
{
    if s.len() == 0 {
        Seq::empty()
    } else {
        escape_backticks_spec(s.drop_last()) + if s.last() == '`' {
            seq!['\\', '`']
        } else {
            seq![s.last()]
        }
    }
}

/// Escaping works character by character: escaping two texts one after
/// the other gives the escaped texts one after the other; a backtick becomes
/// a backslash and a backtick, and any other character stays as it is.
pub proof fn lemma_escape_backticks_parts(s: Seq<char>, t: Seq<char>, c: char)
    ensures
        escape_backticks_spec(s + t) == escape_backticks_spec(s) + escape_backticks_spec(t),
        escape_backticks_spec(seq![c]) == (if c == '`' {
            seq!['\\', '`']
        } else {
            seq![c]
        }),
        escape_backticks_spec(Seq::<char>::empty()).len() == 0,
    decreases t.len(),
{
    assert(seq![c].drop_last() =~= Seq::<char>::empty());
    assert(seq![c].last() == c);
    assert(Seq::<char>::empty() + seq!['\\', '`'] =~= seq!['\\', '`']);
    assert(Seq::<char>::empty() + seq![c] =~= seq![c]);
    assert(escape_backticks_spec(Seq::<char>::empty()) == Seq::<char>::empty());
    assert(escape_backticks_spec(seq![c]) == escape_backticks_spec(seq![c].drop_last()) + if c
        == '`' {
        seq!['\\', '`']
    } else {
        seq![c]
    });
    if t.len() > 0 {
        lemma_escape_backticks_parts(s, t.drop_last(), c);
        assert((s + t).drop_last() =~= s + t.drop_last());
        assert((s + t).last() == t.last());
    } else {
        assert(s + t =~= s);
    }
}

/// Text without backticks is shown as it is.
pub proof fn lemma_escape_without_backticks(s: Seq<char>)
    requires
        forall|i: int| 0 <= i < s.len() ==> s[i] != '`',
    ensures
        escape_backticks_spec(s) == s,
    decreases s.len(),
{
    if s.len() > 0 {
        lemma_escape_without_backticks(s.drop_last());
        assert(s.drop_last().push(s.last()) =~= s);
    }
}

/// In escaped text every backtick follows a backslash, so the text cannot
/// close the code block that it is shown in.
pub proof fn lemma_escaped_backticks(s: Seq<char>)
    ensures
        forall|i: int|
            0 <= i < escape_backticks_spec(s).len() && #[trigger] escape_backticks_spec(s)[i] == '`'
                ==> i > 0 && escape_backticks_spec(s)[i - 1] == '\\',
    decreases s.len(),
{
    if s.len() > 0 {
        let p = s.drop_last();
        lemma_escaped_backticks(p);
        let e = escape_backticks_spec(s);
        let ep = escape_backticks_spec(p);
        assert forall|i: int| 0 <= i < e.len() && #[trigger] e[i] == '`' implies i > 0 && e[i - 1]
            == '\\' by {
            if i < ep.len() {
                assert(e[i] == ep[i]);
                if i > 0 {
                    assert(e[i - 1] == ep[i - 1]);
                }
            } else if s.last() == '`' {
                if i == ep.len() {
                    assert(e[i] == '\\');
                } else {
                    assert(e[i - 1] == '\\');
                }
            } else {
                assert(e[i] == s.last());
            }
        }
    }
}

/// Escapes every backtick of `s` with a backslash.
pub fn escape_backticks(s: &str) -> (r: String)
    ensures
        r@ == escape_backticks_spec(s@),
{
    let v = chars_of(s);
    let mut r = String::new();
    let mut i: usize = 0;
    while i < v.len()
        invariant
            i <= v.len(),
            v@ == s@,
            r@ == escape_backticks_spec(v@.take(i as int)),
        decreases v.len() - i,
    {
        let ghost before = r@;
        assert(v@.take(i + 1).drop_last() =~= v@.take(i as int));
        if v[i] == '`' {
            push_char(&mut r, '\\');
            push_char(&mut r, '`');
            assert(r@ =~= before + seq!['\\', '`']);
        } else {
            push_char(&mut r, v[i]);
            assert(r@ =~= before + seq![v@[i as int]]);
        }
        i += 1;
    }
    assert(v@.take(v.len() as int) =~= v@);
    r
}


/// The pieces of `s` between occurrences of `sep` (`str::split(sep)`): a string
/// without `sep` is one piece, and each `sep` starts a new, empty piece.
pub open spec fn split_spec(s: Seq<char>, sep: char) -> Seq<Seq<char>>
    decreases s.len(),
{
    if s.len() == 0 {
        seq![Seq::empty()]
    } else {
        let pieces = split_spec(s.drop_last(), sep);
        if s.last() == sep {
            pieces.push(Seq::empty())
        } else {
            pieces.update(pieces.len() - 1, pieces.last().push(s.last()))
        }
    }
}

/// The pieces joined together with `sep` between neighbours (`join`).
pub open spec fn join_spec(pieces: Seq<Seq<char>>, sep: Seq<char>) -> Seq<char>
    decreases pieces.len(),
{
    if pieces.len() == 0 {
        Seq::empty()
    } else if pieces.len() == 1 {
        pieces[0]
    } else {
        join_spec(pieces.drop_last(), sep) + sep + pieces.last()
    }
}

/// `split_spec` never gives an empty list of pieces.
pub proof fn lemma_split_nonempty(s: Seq<char>, sep: char)
    ensures
        split_spec(s, sep).len() >= 1,
    decreases s.len(),
{
    if s.len() > 0 {
        lemma_split_nonempty(s.drop_last(), sep);
    }
}

/// Splitting `a + b`, where `b` holds no separator, extends the last piece of `a` by `b`.
proof fn lemma_split_append_plain(a: Seq<char>, b: Seq<char>, sep: char)
    requires
        !b.contains(sep),
    ensures
        split_spec(a + b, sep) == split_spec(a, sep).update(
            split_spec(a, sep).len() - 1,
            split_spec(a, sep).last() + b,
        ),
    decreases b.len(),
{
    lemma_split_nonempty(a, sep);
    if b.len() == 0 {
        assert(a + b =~= a);
        assert(split_spec(a, sep).last() + b =~= split_spec(a, sep).last());
        assert(split_spec(a, sep).update(split_spec(a, sep).len() - 1, split_spec(a, sep).last())
            =~= split_spec(a, sep));
    } else {
        let b0 = b.drop_last();
        assert(!b0.contains(sep)) by {
            if b0.contains(sep) {
                let i = choose|i: int| 0 <= i < b0.len() && b0[i] == sep;
                assert(b[i] == sep);
            }
        }
        lemma_split_append_plain(a, b0, sep);
        assert((a + b).drop_last() =~= a + b0);
        assert((a + b).last() == b.last());
        assert(b.last() != sep) by {
            assert(b[b.len() - 1] == b.last());
        }
        lemma_split_nonempty(a + b0, sep);
        let pa = split_spec(a, sep);
        assert(split_spec(a + b, sep) =~= pa.update(pa.len() - 1, pa.last() + b)) by {
            assert((pa.last() + b0).push(b.last()) =~= pa.last() + b);
        }
    }
}

/// Joining pieces that hold no separator with that separator, then splitting
/// on it, gives the pieces back.
pub proof fn lemma_split_join(pieces: Seq<Seq<char>>, sep: char)
    requires
        pieces.len() >= 1,
        forall|i: int| 0 <= i < pieces.len() ==> !(#[trigger] pieces[i]).contains(sep),
    ensures
        split_spec(join_spec(pieces, seq![sep]), sep) == pieces,
    decreases pieces.len(),
{
    if pieces.len() == 1 {
        assert(Seq::<char>::empty() + pieces[0] =~= pieces[0]);
        lemma_split_append_plain(Seq::empty(), pieces[0], sep);
        assert(split_spec(Seq::<char>::empty(), sep) == seq![Seq::<char>::empty()]);
        assert(seq![Seq::<char>::empty()].update(0, Seq::<char>::empty() + pieces[0]) =~= pieces);
    } else {
        let init = pieces.drop_last();
        assert forall|i: int| 0 <= i < init.len() implies !(#[trigger] init[i]).contains(sep) by {
            assert(init[i] == pieces[i]);
        }
        lemma_split_join(init, sep);
        let j = join_spec(init, seq![sep]);
        let js = j + seq![sep];
        assert(js.drop_last() =~= j);
        assert(split_spec(js, sep) == init.push(Seq::empty()));
        assert(!pieces.last().contains(sep)) by {
            assert(pieces[pieces.len() - 1] == pieces.last());
        }
        lemma_split_append_plain(js, pieces.last(), sep);
        assert(join_spec(pieces, seq![sep]) == js + pieces.last());
        assert(Seq::<char>::empty() + pieces.last() =~= pieces.last());
        assert(init.push(Seq::empty()).update(init.len() as int, Seq::<char>::empty() + pieces.last())
            =~= pieces);
    }
}

/// Splits `v[a..b]` at every `sep`.
pub fn split_range(v: &Vec<char>, a: usize, b: usize, sep: char) -> (r: Vec<String>)
    requires
        a <= b <= v.len(),
    ensures
        r.deep_view() == split_spec(v@.subrange(a as int, b as int), sep),
{
    let mut done: Vec<String> = Vec::new();
    let mut start: usize = a;
    let mut i: usize = a;
    assert(done.deep_view() =~= Seq::<Seq<char>>::empty());
    assert(v@.subrange(a as int, a as int) =~= Seq::<char>::empty());
    assert(done.deep_view().push(v@.subrange(a as int, a as int)) =~= seq![Seq::<char>::empty()]);
    while i < b
        invariant
            a <= start <= i <= b <= v.len(),
            done.deep_view().push(v@.subrange(start as int, i as int)) == split_spec(
                v@.subrange(a as int, i as int),
                sep,
            ),
        decreases b - i,
    {
        assert(v@.subrange(a as int, i + 1).drop_last() =~= v@.subrange(a as int, i as int));
        assert(v@.subrange(a as int, i + 1).last() == v@[i as int]);
        if v[i] == sep {
            let piece = string_of_range(v, start, i);
            done.push(piece);
            start = i + 1;
            assert(v@.subrange(start as int, i + 1) =~= Seq::<char>::empty());
        } else {
            assert(v@.subrange(start as int, i + 1) =~= v@.subrange(start as int, i as int).push(
                v@[i as int],
            ));
        }
        i += 1;
    }
    let last = string_of_range(v, start, b);
    done.push(last);
    done
}

/// Joins the strings with `sep` between neighbours.
pub fn join(pieces: &Vec<String>, sep: &str) -> (r: String)
    ensures
        r@ == join_spec(pieces.deep_view(), sep@),
{
    let mut r = String::new();
    let mut i: usize = 0;
    while i < pieces.len()
        invariant
            i <= pieces.len(),
            r@ == join_spec(pieces.deep_view().take(i as int), sep@),
        decreases pieces.len() - i,
    {
        let ghost before = r@;
        assert(pieces.deep_view().take(i + 1).drop_last() =~= pieces.deep_view().take(i as int));
        if i > 0 {
            r.append(sep);
        }
        r.append(pieces[i].as_str());
        proof {
            if i == 0 {
                assert(before =~= Seq::<char>::empty());
                assert(r@ =~= pieces.deep_view().take(1)[0]);
            }
        }
        i += 1;
    }
    assert(pieces.deep_view().take(pieces.len() as int) =~= pieces.deep_view());
    r
}


/// The decimal digit character for `d < 10`.
pub open spec fn digit_char(d: nat) -> char {
    if d == 0 {
        '0'
    } else if d == 1 {
        '1'
    } else if d == 2 {
        '2'
    } else if d == 3 {
        '3'
    } else if d == 4 {
        '4'
    } else if d == 5 {
        '5'
    } else if d == 6 {
        '6'
    } else if d == 7 {
        '7'
    } else if d == 8 {
        '8'
    } else {
        '9'
    }
}

/// The digit character for `d < 10`, computed.
fn digit_char_of(d: u64) -> (c: char)
    requires
        d < 10,
    ensures
        c == digit_char(d as nat),
{
    if d == 0 {
        '0'
    } else if d == 1 {
        '1'
    } else if d == 2 {
        '2'
    } else if d == 3 {
        '3'
    } else if d == 4 {
        '4'
    } else if d == 5 {
        '5'
    } else if d == 6 {
        '6'
    } else if d == 7 {
        '7'
    } else if d == 8 {
        '8'
    } else {
        '9'
    }
}

/// `n` written in decimal without leading zeros (`to_string` of an integer).
pub open spec fn decimal_spec(n: nat) -> Seq<char>
    decreases n,
{
    if n < 10 {
        seq![digit_char(n)]
    } else {
        decimal_spec(n / 10).push(digit_char(n % 10))
    }
}

/// `c` is one of `'0'..='9'`.
pub open spec fn is_digit(c: char) -> bool {
    '0' <= c <= '9'
}

/// The value of the decimal digits `d`.
pub open spec fn digits_value(d: Seq<char>) -> nat
    decreases d.len(),
{
    if d.len() == 0 {
        0
    } else {
        digits_value(d.drop_last()) * 10 + ((d.last() as u32) - 48) as nat
    }
}

/// The digits of `s` once an optional leading `+` is dropped.
pub open spec fn unsigned_digits(s: Seq<char>) -> Seq<char> {
    if s.len() > 0 && s[0] == '+' {
        s.drop_first()
    } else {
        s
    }
}

/// What `str::parse::<usize>` gives: an optional `+`, then one or more
/// decimal digits whose value fits in `usize`; anything else is an error.
pub open spec fn parse_usize_spec(s: Seq<char>) -> Option<nat> {
    let d = unsigned_digits(s);
    if d.len() > 0 && (forall|i: int| 0 <= i < d.len() ==> is_digit(#[trigger] d[i]))
        && digits_value(d) <= usize::MAX {
        Some(digits_value(d))
    } else {
        None
    }
}

/// Writes the decimal digits of `n` at the end of `out`.
fn push_decimal(n: u64, out: &mut String)
    ensures
        final(out)@ == old(out)@ + decimal_spec(n as nat),
    decreases n,
{
    if n >= 10 {
        push_decimal(n / 10, out);
    }
    let c = digit_char_of(n % 10);
    push_char(out, c);
    proof {
        if n < 10 {
            assert(n % 10 == n);
        }
    }
}

/// `n` in decimal.
pub fn decimal(n: u64) -> (r: String)
    ensures
        r@ == decimal_spec(n as nat),
{
    let mut r = String::new();
    push_decimal(n, &mut r);
    assert(r@ =~= decimal_spec(n as nat));
    r
}

/// Longer digit prefixes never have a smaller value.
proof fn lemma_digits_value_prefix(d: Seq<char>, k: int)
    requires
        0 <= k <= d.len(),
    ensures
        digits_value(d.take(k)) <= digits_value(d),
    decreases d.len() - k,
{
    if k < d.len() {
        lemma_digits_value_prefix(d, k + 1);
        assert(d.take(k + 1).drop_last() =~= d.take(k));
    } else {
        assert(d.take(k) =~= d);
    }
}

/// Parses `s` as `str::parse::<usize>` does; `None` for every error.
pub fn parse_usize(s: &str) -> (r: Option<usize>)
    ensures
        match r {
            Some(v) => parse_usize_spec(s@) == Some(v as nat),
            None => parse_usize_spec(s@) is None,
        },
{
    let v = chars_of(s);
    let ghost d = unsigned_digits(v@);
    let start: usize = if v.len() > 0 && v[0] == '+' { 1 } else { 0 };
    assert(d =~= v@.skip(start as int));
    if start >= v.len() {
        return None;
    }
    let mut acc: usize = 0;
    let mut i: usize = start;
    while i < v.len()
        invariant
            v@ == s@,
            d == unsigned_digits(v@),
            start <= i <= v.len(),
            start < v.len(),
            d =~= v@.skip(start as int),
            forall|j: int| 0 <= j < i - start ==> is_digit(#[trigger] d[j]),
            acc == digits_value(d.take(i - start)),
        decreases v.len() - i,
    {
        let c = v[i];
        assert(d[i - start] == c);
        if !('0' <= c && c <= '9') {
            return None;
        }
        let dv: usize = (c as u32 - 48) as usize;
        assert(d.take(i + 1 - start).drop_last() =~= d.take(i - start));
        assert(d.take(i + 1 - start).last() == c);
        match acc.checked_mul(10) {
            Some(m) => match m.checked_add(dv) {
                Some(a) => {
                    acc = a;
                },
                None => {
                    proof {
                        lemma_digits_value_prefix(d, i + 1 - start);
                    }
                    return None;
                },
            },
            None => {
                proof {
                    lemma_digits_value_prefix(d, i + 1 - start);
                }
                return None;
            },
        }
        i += 1;
    }
    assert(d.take(v.len() - start) =~= d);
    Some(acc)
}

proof fn lemma_digit_char(d: nat)
    requires
        d < 10,
    ensures
        (digit_char(d) as u32) - 48 == d,
        is_digit(digit_char(d)),
{
}

/// Reading back the decimal text of a number gives the number.
pub proof fn lemma_decimal_value(n: nat)
    ensures
        digits_value(decimal_spec(n)) == n,
        decimal_spec(n).len() > 0,
        forall|i: int| 0 <= i < decimal_spec(n).len() ==> is_digit(#[trigger] decimal_spec(n)[i]),
    decreases n,
{
    lemma_digit_char(n % 10);
    if n >= 10 {
        lemma_decimal_value(n / 10);
        let p = decimal_spec(n / 10);
        assert(decimal_spec(n).drop_last() =~= p);
        assert(decimal_spec(n).last() == digit_char(n % 10));
        assert(digits_value(decimal_spec(n)) == digits_value(p) * 10 + (n % 10));
        assert((n / 10) * 10 + n % 10 == n) by (nonlinear_arith);
        assert forall|i: int| 0 <= i < decimal_spec(n).len() implies is_digit(
            #[trigger] decimal_spec(n)[i],
        ) by {
            if i < p.len() {
                assert(decimal_spec(n)[i] == p[i]);
            }
        }
    } else {
        assert(n % 10 == n);
        assert(decimal_spec(n).drop_last() =~= Seq::<char>::empty());
        assert(digits_value(Seq::<char>::empty()) == 0);
        assert(decimal_spec(n).last() == digit_char(n));
    }
}

/// Parsing the decimal text of any `usize` gives that number back.
pub proof fn lemma_parse_decimal_roundtrip(n: nat)
    requires
        n <= usize::MAX,
    ensures
        parse_usize_spec(decimal_spec(n)) == Some(n),
{
    lemma_decimal_value(n);
    assert(decimal_spec(n)[0] != '+');
    assert(unsigned_digits(decimal_spec(n)) == decimal_spec(n));
}

} // verus!
