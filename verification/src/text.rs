use vstd::prelude::*;

verus! {

/// The characters of `s`, one element per Unicode scalar value.
pub fn chars_of(s: &str) -> (v: Vec<char>)
    ensures
        v@ == s@,
{
    let mut v: Vec<char> = Vec::new();
    for c in it: s.chars()
        invariant
            it.seq() == s@,
            v@ == it.seq().take(it.index() as int),
    {
        v.push(c);
    }
    v
}

/// Unicode `White_Space`: the characters for which `char::is_whitespace` holds.
pub open spec fn is_white_space(c: char) -> bool {
    let n = c as u32;
    ||| 0x09 <= n <= 0x0d
    ||| n == 0x20
    ||| n == 0x85
    ||| n == 0xa0
    ||| n == 0x1680
    ||| 0x2000 <= n <= 0x200a
    ||| n == 0x2028
    ||| n == 0x2029
    ||| n == 0x202f
    ||| n == 0x205f
    ||| n == 0x3000
}

pub fn white_space(c: char) -> (b: bool)
    ensures
        b == is_white_space(c),
{
    let n = c as u32;
    (0x09 <= n && n <= 0x0d) || n == 0x20 || n == 0x85 || n == 0xa0 || n == 0x1680 || (0x2000
        <= n && n <= 0x200a) || n == 0x2028 || n == 0x2029 || n == 0x202f || n == 0x205f || n
        == 0x3000
}

/// ASCII lower case of a character: 'A'..='Z' become 'a'..='z', everything else is kept.
pub open spec fn ascii_lower(c: char) -> char {
    if 'A' as u32 <= c as u32 <= 'Z' as u32 {
        ((c as u32) + 32) as char
    } else {
        c
    }
}

/// `tok` equals the lower-case ASCII word `w` when compared without regard to ASCII case.
pub open spec fn same_word_ignore_case(tok: Seq<char>, w: Seq<char>) -> bool {
    &&& tok.len() == w.len()
    &&& forall|i: int| 0 <= i < tok.len() ==> ascii_lower(#[trigger] tok[i]) == w[i]
}


proof fn char_u32_inj(a: char, b: char)
    requires
        a as u32 == b as u32,
    ensures
        a == b,
{
}

fn lower_code(c: char) -> (r: u32)
    ensures
        r == ascii_lower(c) as u32,
{
    let n = c as u32;
    if 65 <= n && n <= 90 {
        n + 32
    } else {
        n
    }
}

/// Compares `v[a..b]` with the lower-case ASCII word `w`, ignoring ASCII case.
pub fn word_is(v: &Vec<char>, a: usize, b: usize, w: &str) -> (r: bool)
    requires
        a <= b <= v@.len(),
    ensures
        r == same_word_ignore_case(v@.subrange(a as int, b as int), w@),
{
    let wv = chars_of(w);
    if b - a != wv.len() {
        return false;
    }
    let mut i: usize = 0;
    while i < wv.len()
        invariant
            a <= b <= v@.len(),
            b - a == wv@.len(),
            wv@ == w@,
            i <= wv@.len(),
            forall|j: int| 0 <= j < i ==> ascii_lower(#[trigger] v@[a + j]) == wv@[j],
        decreases wv@.len() - i,
    {
        let c = v[a + i];
        if lower_code(c) != wv[i] as u32 {
            assert(ascii_lower(v@[a + i]) != wv@[i as int]);
            assert(v@.subrange(a as int, b as int)[i as int] == v@[a + i]);
            return false;
        }
        proof {
            char_u32_inj(ascii_lower(c), wv@[i as int]);
        }
        i = i + 1;
    }
    assert forall|j: int| 0 <= j < w@.len() implies ascii_lower(
        #[trigger] v@.subrange(a as int, b as int)[j],
    ) == w@[j] by {
        assert(v@.subrange(a as int, b as int)[j] == v@[a + j]);
    }
    true
}


/// First index at or after `i` that does not hold white space (or the end).
pub open spec fn skip_ws(s: Seq<char>, i: int) -> int
    decreases s.len() - i,
{
    if 0 <= i < s.len() && is_white_space(s[i]) {
        skip_ws(s, i + 1)
    } else {
        i
    }
}

/// First index at or after `i` that holds white space (or the end).
pub open spec fn skip_word(s: Seq<char>, i: int) -> int
    decreases s.len() - i,
{
    if 0 <= i < s.len() && !is_white_space(s[i]) {
        skip_word(s, i + 1)
    } else {
        i
    }
}

/// Start and end of the `n`-th white-space separated word of `s` (counting from 0);
/// the start is `s.len()` when `s` has no such word.
pub open spec fn word_span(s: Seq<char>, n: nat) -> (int, int)
    decreases n,
{
    let from = if n == 0 {
        0
    } else {
        word_span(s, (n - 1) as nat).1
    };
    let a = skip_ws(s, from);
    (a, skip_word(s, a))
}

/// The `n`-th item that `str::split_whitespace` yields on `s`, if there is one.
pub open spec fn nth_word(s: Seq<char>, n: nat) -> Option<Seq<char>> {
    let (a, b) = word_span(s, n);
    if a < s.len() {
        Some(s.subrange(a, b))
    } else {
        None
    }
}

pub proof fn lemma_skip_ws_bounds(s: Seq<char>, i: int)
    requires
        0 <= i <= s.len(),
    ensures
        i <= skip_ws(s, i) <= s.len(),
        skip_ws(s, i) < s.len() ==> !is_white_space(s[skip_ws(s, i)]),
        forall|k: int| i <= k < skip_ws(s, i) ==> is_white_space(#[trigger] s[k]),
    decreases s.len() - i,
{
    if i < s.len() && is_white_space(s[i]) {
        lemma_skip_ws_bounds(s, i + 1);
    }
}

pub proof fn lemma_skip_word_bounds(s: Seq<char>, i: int)
    requires
        0 <= i <= s.len(),
    ensures
        i <= skip_word(s, i) <= s.len(),
        skip_word(s, i) < s.len() ==> is_white_space(s[skip_word(s, i)]),
        forall|k: int| i <= k < skip_word(s, i) ==> !is_white_space(#[trigger] s[k]),
    decreases s.len() - i,
{
    if i < s.len() && !is_white_space(s[i]) {
        lemma_skip_word_bounds(s, i + 1);
    }
}

pub proof fn lemma_word_span_bounds(s: Seq<char>, n: nat)
    ensures
        0 <= word_span(s, n).0 <= word_span(s, n).1 <= s.len(),
    decreases n,
{
    if n > 0 {
        lemma_word_span_bounds(s, (n - 1) as nat);
    }
    let from = if n == 0 {
        0
    } else {
        word_span(s, (n - 1) as nat).1
    };
    lemma_skip_ws_bounds(s, from);
    lemma_skip_word_bounds(s, skip_ws(s, from));
}

pub fn skip_ws_from(v: &Vec<char>, i: usize) -> (r: usize)
    requires
        i <= v@.len(),
    ensures
        r == skip_ws(v@, i as int),
        i <= r <= v@.len(),
{
    let mut j = i;
    while j < v.len() && white_space(v[j])
        invariant
            i <= j <= v@.len(),
            skip_ws(v@, j as int) == skip_ws(v@, i as int),
        decreases v@.len() - j,
    {
        j = j + 1;
    }
    j
}

pub fn skip_word_from(v: &Vec<char>, i: usize) -> (r: usize)
    requires
        i <= v@.len(),
    ensures
        r == skip_word(v@, i as int),
        i <= r <= v@.len(),
{
    let mut j = i;
    while j < v.len() && !white_space(v[j])
        invariant
            i <= j <= v@.len(),
            skip_word(v@, j as int) == skip_word(v@, i as int),
        decreases v@.len() - j,
    {
        j = j + 1;
    }
    j
}

/// `skip_ws` and `skip_word` on a stretch of white space `s[from..a]` followed by the word
/// `s[a..b]`.
pub proof fn lemma_word_at(s: Seq<char>, from: int, a: int, b: int)
    requires
        0 <= from <= a < b <= s.len(),
        forall|k: int| from <= k < a ==> is_white_space(#[trigger] s[k]),
        forall|k: int| a <= k < b ==> !is_white_space(#[trigger] s[k]),
        b == s.len() || is_white_space(s[b]),
    ensures
        skip_ws(s, from) == a,
        skip_word(s, a) == b,
    decreases a - from + b,
{
    if from < a {
        lemma_word_at(s, from + 1, a, b);
    } else {
        lemma_skip_word_to(s, a, b);
    }
}

proof fn lemma_skip_word_to(s: Seq<char>, i: int, b: int)
    requires
        0 <= i <= b <= s.len(),
        forall|k: int| i <= k < b ==> !is_white_space(#[trigger] s[k]),
        b == s.len() || is_white_space(s[b]),
    ensures
        skip_word(s, i) == b,
    decreases b - i,
{
    if i < b {
        lemma_skip_word_to(s, i + 1, b);
    }
}

/// The word that starts at the first non-white-space index at or after `from`.
pub fn next_word_span(v: &Vec<char>, from: usize) -> (r: (usize, usize))
    requires
        from <= v@.len(),
    ensures
        r.0 == skip_ws(v@, from as int),
        r.1 == skip_word(v@, r.0 as int),
        from <= r.0 <= r.1 <= v@.len(),
{
    let a = skip_ws_from(v, from);
    let b = skip_word_from(v, a);
    (a, b)
}


/// `p` occurs in `s` starting at index `i`.
pub open spec fn matches_at(s: Seq<char>, p: Seq<char>, i: int) -> bool {
    &&& 0 <= i
    &&& i + p.len() <= s.len()
    &&& s.subrange(i, i + p.len()) == p
}

/// `s` starts with `p` (`str::starts_with`).
pub open spec fn has_prefix(s: Seq<char>, p: Seq<char>) -> bool {
    matches_at(s, p, 0)
}

/// `s` ends with `p` (`str::ends_with`).
pub open spec fn has_suffix(s: Seq<char>, p: Seq<char>) -> bool {
    matches_at(s, p, s.len() - p.len())
}

/// First index `>= i` at which `p` occurs in `s` (`str::find` on `s[i..]`, shifted by `i`).
pub open spec fn find_from(s: Seq<char>, p: Seq<char>, i: int) -> Option<int>
    decreases s.len() + 1 - i,
{
    if i < 0 || i + p.len() > s.len() {
        None
    } else if matches_at(s, p, i) {
        Some(i)
    } else {
        find_from(s, p, i + 1)
    }
}

/// `p` occurs somewhere in `s` (`str::contains`).
pub open spec fn contains(s: Seq<char>, p: Seq<char>) -> bool {
    exists|i: int| matches_at(s, p, i)
}

/// `s` with every trailing copy of `p` removed (`str::trim_end_matches`).
pub open spec fn strip_suffixes(s: Seq<char>, p: Seq<char>) -> Seq<char>
    decreases s.len(),
{
    if p.len() > 0 && has_suffix(s, p) {
        strip_suffixes(s.subrange(0, s.len() - p.len()), p)
    } else {
        s
    }
}

/// Last index `<= j` that ends a run without trailing white space.
pub open spec fn rskip_ws(s: Seq<char>, j: int) -> int
    decreases j,
{
    if 0 < j <= s.len() && is_white_space(s[j - 1]) {
        rskip_ws(s, j - 1)
    } else {
        j
    }
}

/// `s` without leading and trailing white space (`str::trim`).
pub open spec fn trim(s: Seq<char>) -> Seq<char> {
    let a = skip_ws(s, 0);
    let b = rskip_ws(s, s.len() as int);
    if a < b {
        s.subrange(a, b)
    } else {
        Seq::empty()
    }
}

pub proof fn lemma_find_from(s: Seq<char>, p: Seq<char>, i: int)
    requires
        0 <= i,
    ensures
        find_from(s, p, i) matches Some(k) ==> i <= k && matches_at(s, p, k) && forall|j: int|
            i <= j < k ==> !matches_at(s, p, j),
        find_from(s, p, i) is None ==> forall|j: int| i <= j ==> !matches_at(s, p, j),
    decreases s.len() + 1 - i,
{
    if i + p.len() <= s.len() && !matches_at(s, p, i) {
        lemma_find_from(s, p, i + 1);
    }
}

/// Whether `p` occurs in `v` at index `i`.
pub fn matches_at_exec(v: &Vec<char>, p: &Vec<char>, i: usize) -> (r: bool)
    ensures
        r == matches_at(v@, p@, i as int),
{
    if i > v.len() || p.len() > v.len() - i {
        return false;
    }
    let n = v.len();
    let mut k: usize = 0;
    while k < p.len()
        invariant
            n == v@.len(),
            i <= v@.len(),
            i + p@.len() <= v@.len(),
            k <= p@.len(),
            forall|j: int| 0 <= j < k ==> v@[i + j] == p@[j],
        decreases p@.len() - k,
    {
        if v[i + k] != p[k] {
            assert(v@.subrange(i as int, i + p@.len())[k as int] != p@[k as int]);
            return false;
        }
        k = k + 1;
    }
    assert(v@.subrange(i as int, i + p@.len()) =~= p@);
    true
}

/// `find_from` on concrete sequences.
pub fn find_from_exec(v: &Vec<char>, p: &Vec<char>, i: usize) -> (r: Option<usize>)
    ensures
        r matches Some(k) ==> find_from(v@, p@, i as int) == Some(k as int),
        r is None ==> find_from(v@, p@, i as int) is None,
{
    if p.len() > v.len() {
        return None;
    }
    let last = v.len() - p.len();
    if i > last {
        return None;
    }
    let mut j = i;
    loop
        invariant
            last + p@.len() == v@.len(),
            i <= j <= last,
            find_from(v@, p@, j as int) == find_from(v@, p@, i as int),
        decreases last - j,
    {
        if matches_at_exec(v, p, j) {
            return Some(j);
        }
        if j == last {
            assert(find_from(v@, p@, j as int + 1) is None);
            return None;
        }
        j = j + 1;
    }
}

/// End index `e` with `v[..e]` equal to `strip_suffixes(v, p)`.
pub fn strip_suffixes_end(v: &Vec<char>, p: &Vec<char>) -> (e: usize)
    ensures
        e <= v@.len(),
        v@.subrange(0, e as int) == strip_suffixes(v@, p@),
{
    let mut e = v.len();
    if p.len() == 0 {
        assert(v@.subrange(0, e as int) =~= v@);
        return e;
    }
    assert(v@.subrange(0, e as int) =~= v@);
    while e >= p.len()
        invariant
            e <= v@.len(),
            p@.len() > 0,
            strip_suffixes(v@.subrange(0, e as int), p@) == strip_suffixes(v@, p@),
        decreases e,
    {
        let ghost w = v@.subrange(0, e as int);
        let start = e - p.len();
        if !matches_at_exec(v, p, start) {
            assert(!has_suffix(w, p@)) by {
                if has_suffix(w, p@) {
                    assert(v@.subrange(start as int, e as int) =~= w.subrange(
                        start as int,
                        e as int,
                    ));
                }
            }
            return e;
        }
        assert(w.subrange(start as int, e as int) =~= v@.subrange(start as int, e as int));
        assert(w.subrange(0, start as int) =~= v@.subrange(0, start as int));
        e = start;
    }
    let ghost w = v@.subrange(0, e as int);
    assert(!has_suffix(w, p@));
    e
}

/// Bounds `(a, b)` with `v[a..b]` equal to `trim(v)`.
pub fn trim_bounds(v: &Vec<char>) -> (r: (usize, usize))
    ensures
        r.0 <= r.1 <= v@.len(),
        v@.subrange(r.0 as int, r.1 as int) == trim(v@),
{
    let a = skip_ws_from(v, 0);
    let mut b = v.len();
    while b > 0 && white_space(v[b - 1])
        invariant
            b <= v@.len(),
            rskip_ws(v@, b as int) == rskip_ws(v@, v@.len() as int),
        decreases b,
    {
        b = b - 1;
    }
    if a < b {
        (a, b)
    } else {
        assert(v@.subrange(a as int, a as int) =~= Seq::<char>::empty());
        (a, a)
    }
}


/// Whether `p` occurs in `s` (`str::contains`).
pub fn contains_exec(s: &str, p: &str) -> (r: bool)
    ensures
        r == contains(s@, p@),
{
    let v = chars_of(s);
    let pv = chars_of(p);
    let f = find_from_exec(&v, &pv, 0);
    proof {
        lemma_find_from(v@, pv@, 0);
    }
    match f {
        Some(k) => {
            assert(matches_at(s@, p@, k as int));
            true
        },
        None => false,
    }
}

} // verus!
