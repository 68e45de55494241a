//! Reading the subject and the body out of the text of a received mail.
use vstd::prelude::*;
use vstd::string::StrSliceExecFns;
use vstd::string::StringExecFns;

use crate::text::chars_of;
use crate::text::find_from;
use crate::text::find_from_exec;
use crate::text::lemma_find_from;
use crate::text::matches_at;
use crate::text::same_word_ignore_case;
use crate::text::trim;
use crate::text::trim_bounds;
use crate::text::word_is;

verus! {

/// Index of the first `'\n'` at or after `i`, or the end of `s`.
pub open spec fn line_end(s: Seq<char>, i: int) -> int
    decreases s.len() - i,
{
    if 0 <= i < s.len() && s[i] != '\n' {
        line_end(s, i + 1)
    } else {
        i
    }
}

pub proof fn lemma_line_end(s: Seq<char>, i: int)
    requires
        0 <= i <= s.len(),
    ensures
        i <= line_end(s, i) <= s.len(),
        line_end(s, i) < s.len() ==> s[line_end(s, i)] == '\n',
    decreases s.len() - i,
{
    if i < s.len() && s[i] != '\n' {
        lemma_line_end(s, i + 1);
    }
}

/// The line that starts at `i`, as `str::lines` yields it: without its `'\n'` and, when
/// the line ends in `"\r\n"`, without that `'\r'`.
pub open spec fn line_at(s: Seq<char>, i: int) -> Seq<char> {
    let e = line_end(s, i);
    let l = s.subrange(i, e);
    if e < s.len() && l.len() > 0 && l[l.len() - 1] == '\r' {
        l.subrange(0, l.len() - 1)
    } else {
        l
    }
}

/// A line whose first eight characters, in lower case, read `subject:`.
pub open spec fn is_subject_line(l: Seq<char>) -> bool {
    l.len() >= 8 && same_word_ignore_case(l.subrange(0, 8), "subject:"@)
}

/// The subject found in the lines of `s` from index `i` on: the rest of the first subject
/// line after `subject:`, trimmed.
pub open spec fn subject_from(s: Seq<char>, i: int) -> Option<Seq<char>>
    decreases s.len() - i,
{
    if i < 0 || i >= s.len() {
        None
    } else {
        let l = line_at(s, i);
        if is_subject_line(l) {
            Some(trim(l.subrange(8, l.len() as int)))
        } else if line_end(s, i) < s.len() {
            proof {
                lemma_line_end(s, i);
            }
            subject_from(s, line_end(s, i) + 1)
        } else {
            None
        }
    }
}

/// The subject of the mail text `data`, or `No Subject` when no line holds one.
pub open spec fn subject_of(data: Seq<char>) -> Seq<char> {
    match subject_from(data, 0) {
        Some(t) => t,
        None => "No Subject"@,
    }
}

/// The body of the mail text `data`. In a multipart mail (one that holds `--===`) it is
/// the text after the first blank line that follows the first boundary, up to the next
/// boundary; otherwise the text after the header's blank line; `No Body Found` when there
/// is none. The body is trimmed.
pub open spec fn body_of(data: Seq<char>) -> Seq<char> {
    let blank = "\r\n\r\n"@;
    match find_from(data, "--==="@, 0) {
        Some(boundary_start) => {
            let body_start = match find_from(data, blank, boundary_start) {
                Some(p) => p + blank.len(),
                None => data.len() as int,
            };
            let body_end = match find_from(data, "\r\n--==="@, body_start) {
                Some(p) => p,
                None => data.len() as int,
            };
            trim(data.subrange(body_start, body_end))
        },
        None => match find_from(data, blank, 0) {
            Some(headers_end) => trim(data.subrange(headers_end + blank.len(), data.len() as int)),
            None => "No Body Found"@,
        },
    }
}

/// Bounds `(a, b)` with `v[a..b]` equal to `trim(v[lo..hi])`.
fn trim_range(v: &Vec<char>, lo: usize, hi: usize) -> (r: (usize, usize))
    requires
        lo <= hi <= v@.len(),
    ensures
        lo <= r.0 <= r.1 <= hi,
        v@.subrange(r.0 as int, r.1 as int) == trim(v@.subrange(lo as int, hi as int)),
{
    let mut w: Vec<char> = Vec::new();
    let mut k = lo;
    while k < hi
        invariant
            lo <= k <= hi <= v@.len(),
            w@ == v@.subrange(lo as int, k as int),
        decreases hi - k,
    {
        w.push(v[k]);
        assert(w@ =~= v@.subrange(lo as int, k + 1));
        k = k + 1;
    }
    let (a, b) = trim_bounds(&w);
    assert(v@.subrange(lo + a, lo + b) =~= w@.subrange(a as int, b as int));
    (lo + a, lo + b)
}

/// The subject line of a mail: the first line that starts with `subject:` in any case,
/// without that word and trimmed; `No Subject` when there is no such line.
pub fn extract_subject(data: &str) -> (r: String)
    ensures
        r@ == subject_of(data@),
{
    let v = chars_of(data);
    let n = v.len();
    let mut i: usize = 0;
    while i < n
        invariant
            n == v@.len(),
            v@ == data@,
            i <= n,
            subject_from(v@, i as int) == subject_from(v@, 0),
        decreases n - i,
    {
        let mut e = i;
        while e < n && v[e] != '\n'
            invariant
                i <= e <= n,
                n == v@.len(),
                line_end(v@, e as int) == line_end(v@, i as int),
            decreases n - e,
        {
            e = e + 1;
        }
        let mut le = e;
        if e < n && e > i && v[e - 1] == '\r' {
            le = e - 1;
        }
        assert(line_at(v@, i as int) =~= v@.subrange(i as int, le as int));
        if le - i >= 8 && word_is(&v, i, i + 8, "subject:") {
            assert(v@.subrange(i as int, le as int).subrange(0, 8) =~= v@.subrange(
                i as int,
                i + 8,
            ));
            let (a, b) = trim_range(&v, i + 8, le);
            assert(v@.subrange(i as int, le as int).subrange(8, le - i) =~= v@.subrange(
                i + 8,
                le as int,
            ));
            let t = data.substring_char(a, b);
            return t.to_owned();
        }
        proof {
            if le - i >= 8 {
                assert(v@.subrange(i as int, le as int).subrange(0, 8) =~= v@.subrange(
                    i as int,
                    i + 8,
                ));
            }
        }
        if e >= n {
            return String::from_str("No Subject");
        }
        i = e + 1;
    }
    String::from_str("No Subject")
}

/// The body of a mail: in a multipart mail the first part after the boundary `--===`,
/// otherwise everything after the header; trimmed, or `No Body Found`.
pub fn extract_body(data: &str) -> (r: String)
    ensures
        r@ == body_of(data@),
{
    let v = chars_of(data);
    let n = v.len();
    let blank = chars_of("\r\n\r\n");
    let boundary = chars_of("--===");
    let next_boundary = chars_of("\r\n--===");
    proof {
        lemma_find_from(v@, boundary@, 0);
    }
    match find_from_exec(&v, &boundary, 0) {
        Some(boundary_start) => {
            proof {
                lemma_find_from(v@, blank@, boundary_start as int);
            }
            let body_start = match find_from_exec(&v, &blank, boundary_start) {
                Some(p) => p + blank.len(),
                None => n,
            };
            proof {
                lemma_find_from(v@, next_boundary@, body_start as int);
            }
            let body_end = match find_from_exec(&v, &next_boundary, body_start) {
                Some(p) => p,
                None => n,
            };
            let (a, b) = trim_range(&v, body_start, body_end);
            data.substring_char(a, b).to_owned()
        },
        None => {
            proof {
                lemma_find_from(v@, blank@, 0);
            }
            match find_from_exec(&v, &blank, 0) {
                Some(headers_end) => {
                    let (a, b) = trim_range(&v, headers_end + blank.len(), n);
                    data.substring_char(a, b).to_owned()
                },
                None => String::from_str("No Body Found"),
            }
        },
    }
}


/// In a mail text without a multipart boundary, the body is everything after the first
/// blank line (`"\r\n\r\n"`) of the header, trimmed: line breaks inside it stay.
pub proof fn body_is_all_text_after_header(data: Seq<char>, h: int)
    requires
        forall|i: int| !matches_at(data, "--==="@, i),
        matches_at(data, "\r\n\r\n"@, h),
        forall|j: int| 0 <= j < h ==> !matches_at(data, "\r\n\r\n"@, j),
    ensures
        body_of(data) == trim(data.subrange(h + 4, data.len() as int)),
{
    reveal_strlit("\r\n\r\n");
    lemma_find_from(data, "--==="@, 0);
    lemma_find_from(data, "\r\n\r\n"@, 0);
    if let Some(k) = find_from(data, "--==="@, 0) {
        assert(matches_at(data, "--==="@, k));
    }
    match find_from(data, "\r\n\r\n"@, 0) {
        Some(k) => {
            if k < h {
                assert(!matches_at(data, "\r\n\r\n"@, k));
            }
            if k > h {
                assert(!matches_at(data, "\r\n\r\n"@, h));
            }
        },
        None => {
            assert(!matches_at(data, "\r\n\r\n"@, h));
        },
    }
}

/// `i` starts a line of `s`.
pub open spec fn is_line_start(s: Seq<char>, i: int) -> bool {
    0 <= i < s.len() && (i == 0 || s[i - 1] == '\n')
}

proof fn lemma_line_end_at_most(s: Seq<char>, j: int, k: int)
    requires
        0 <= j <= k < s.len(),
        s[k] == '\n',
    ensures
        line_end(s, j) <= k,
    decreases k - j,
{
    if s[j] != '\n' {
        lemma_line_end_at_most(s, j + 1, k);
    }
}

proof fn lemma_subject_from_skips(s: Seq<char>, j: int, i: int)
    requires
        is_line_start(s, j),
        is_line_start(s, i),
        j <= i,
        forall|m: int| j <= m < i && #[trigger] is_line_start(s, m) ==> !is_subject_line(
            line_at(s, m),
        ),
    ensures
        subject_from(s, j) == subject_from(s, i),
    decreases i - j,
{
    if j < i {
        assert(!is_subject_line(line_at(s, j)));
        lemma_line_end_at_most(s, j, i - 1);
        lemma_line_end(s, j);
        let next = line_end(s, j) + 1;
        assert(is_line_start(s, next));
        lemma_subject_from_skips(s, next, i);
    }
}

/// The subject is the whole rest of the first line that starts with `subject:` (in any
/// case) after those eight characters, trimmed, whatever characters it holds.
pub proof fn subject_is_rest_of_first_subject_line(data: Seq<char>, i: int)
    requires
        is_line_start(data, i),
        is_subject_line(line_at(data, i)),
        forall|j: int| 0 <= j < i && #[trigger] is_line_start(data, j) ==> !is_subject_line(
            line_at(data, j),
        ),
    ensures
        subject_of(data) == trim(line_at(data, i).subrange(8, line_at(data, i).len() as int)),
{
    lemma_subject_from_skips(data, 0, i);
}

} // verus!
