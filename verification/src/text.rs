use vstd::prelude::*;
use vstd::slice::slice_index_get;
use vstd::string::StrSliceExecFns;
use vstd::string::StringExecFns;

verus! {

/// Index of the first occurrence of `x` in `s` at or after `from`,
/// or -1 when there is none.
pub open spec fn find_from<T>(s: Seq<T>, x: T, from: int) -> int
    decreases s.len() - from when 0 <= from
{
    if from < 0 || from >= s.len() {
        -1
    } else if s[from] == x {
        from
    } else {
        find_from(s, x, from + 1)
    }
}

/// What `find_from` returns: either -1 and nothing matches from `from` on,
/// or the first matching index at or after `from`.
pub proof fn lemma_find_from<T>(s: Seq<T>, x: T, from: int)
    requires
        0 <= from,
    ensures
        find_from(s, x, from) == -1 ==> forall|j: int| from <= j < s.len() ==> s[j] != x,
        find_from(s, x, from) != -1 ==> {
            let r = find_from(s, x, from);
            &&& from <= r < s.len()
            &&& s[r] == x
            &&& forall|j: int| from <= j < r ==> s[j] != x
        },
    decreases s.len() - from,
{
    if from < s.len() && s[from] != x {
        lemma_find_from(s, x, from + 1);
    }
}

/// Index of the first occurrence of `needle` in `haystack` at or after
/// `start`, if any.
pub fn find_byte(haystack: &[u8], needle: u8, start: usize) -> (r: Option<usize>)
    ensures
        r is Some ==> r->0 == find_from(haystack@, needle, start as int),
        r is None ==> find_from(haystack@, needle, start as int) == -1,
{
    let mut i: usize = start;
    while i < haystack.len()
        invariant
            start <= i,
            forall|j: int| start <= j < i ==> haystack@[j] != needle,
        decreases haystack@.len() - i,
    {
        if *slice_index_get(haystack, i) == needle {
            proof {
                lemma_find_from(haystack@, needle, start as int);
            }
            return Some(i);
        }
        i = i + 1;
    }
    proof {
        lemma_find_from(haystack@, needle, start as int);
    }
    None
}

/// Index of the first occurrence of the character `needle` at or after
/// `start`, if any.
pub fn find_char(s: &str, needle: char, start: usize) -> (r: Option<usize>)
    ensures
        r is Some ==> r->0 == find_from(s@, needle, start as int),
        r is None ==> find_from(s@, needle, start as int) == -1,
{
    let len: usize = s.unicode_len();
    let mut i: usize = start;
    while i < len
        invariant
            start <= i,
            len == s@.len(),
            forall|j: int| start <= j < i ==> s@[j] != needle,
        decreases len - i,
    {
        if s.get_char(i) == needle {
            proof {
                lemma_find_from(s@, needle, start as int);
            }
            return Some(i);
        }
        i = i + 1;
    }
    proof {
        lemma_find_from(s@, needle, start as int);
    }
    None
}

/// Character-wise equality of two string slices.
pub fn str_eq(a: &str, b: &str) -> (r: bool)
    ensures
        r == (a@ == b@),
{
    let sa: String = a.to_owned();
    let sb: String = b.to_owned();
    sa == sb
}

/// `s` begins with the prefix `p`.
pub open spec fn starts_with_spec(s: Seq<char>, p: Seq<char>) -> bool {
    p.len() <= s.len() && s.subrange(0, p.len() as int) == p
}

pub fn str_starts_with(s: &str, p: &str) -> (r: bool)
    ensures
        r == starts_with_spec(s@, p@),
{
    let slen: usize = s.unicode_len();
    let plen: usize = p.unicode_len();
    if plen > slen {
        return false;
    }
    let head: &str = s.substring_char(0, plen);
    str_eq(head, p)
}

/// `s` with every trailing `c` removed.
pub open spec fn trim_end_spec(s: Seq<char>, c: char) -> Seq<char>
    decreases s.len(),
{
    if s.len() > 0 && s[s.len() - 1] == c {
        trim_end_spec(s.drop_last(), c)
    } else {
        s
    }
}

/// `s` with every leading `c` removed.
pub open spec fn trim_start_spec(s: Seq<char>, c: char) -> Seq<char>
    decreases s.len(),
{
    if s.len() > 0 && s[0] == c {
        trim_start_spec(s.subrange(1, s.len() as int), c)
    } else {
        s
    }
}

/// `s` with every leading and trailing `c` removed.
pub open spec fn trim_both_spec(s: Seq<char>, c: char) -> Seq<char> {
    trim_start_spec(trim_end_spec(s, c), c)
}

/// A run of `c` at the tail is exactly what `trim_end_spec` removes.
proof fn lemma_trim_end_at(s: Seq<char>, c: char, k: int)
    requires
        0 <= k <= s.len(),
        forall|j: int| k <= j < s.len() ==> s[j] == c,
        k > 0 ==> s[k - 1] != c,
    ensures
        trim_end_spec(s, c) == s.subrange(0, k),
    decreases s.len(),
{
    if s.len() > k {
        assert(s[s.len() - 1] == c);
        lemma_trim_end_at(s.drop_last(), c, k);
        assert(s.drop_last().subrange(0, k) =~= s.subrange(0, k));
    } else {
        assert(s.subrange(0, k) =~= s);
    }
}

/// A run of `c` at the head is exactly what `trim_start_spec` removes.
proof fn lemma_trim_start_at(s: Seq<char>, c: char, k: int)
    requires
        0 <= k <= s.len(),
        forall|j: int| 0 <= j < k ==> s[j] == c,
        k < s.len() ==> s[k] != c,
    ensures
        trim_start_spec(s, c) == s.subrange(k, s.len() as int),
    decreases s.len(),
{
    if k > 0 {
        assert(s[0] == c);
        let t = s.subrange(1, s.len() as int);
        lemma_trim_start_at(t, c, k - 1);
        assert(t.subrange(k - 1, t.len() as int) =~= s.subrange(k, s.len() as int));
    } else {
        assert(s.subrange(0, s.len() as int) =~= s);
    }
}

/// Largest prefix end `k` such that everything from `k` on is `c`.
fn trim_end_idx(s: &str, c: char) -> (k: usize)
    ensures
        k <= s@.len(),
        s@.subrange(0, k as int) == trim_end_spec(s@, c),
        forall|j: int| k <= j < s@.len() ==> s@[j] == c,
        k > 0 ==> s@[k as int - 1] != c,
{
    let len: usize = s.unicode_len();
    let mut k: usize = len;
    while k > 0
        invariant
            k <= len,
            len == s@.len(),
            forall|j: int| k <= j < s@.len() ==> s@[j] == c,
        decreases k,
    {
        if s.get_char(k - 1) != c {
            proof {
                lemma_trim_end_at(s@, c, k as int);
            }
            return k;
        }
        k = k - 1;
    }
    proof {
        lemma_trim_end_at(s@, c, 0);
    }
    0
}

/// Smallest index `k` bounded by `end` such that everything before `k` is `c`.
/// `end` lets a caller trim the start of an already end-trimmed prefix.
fn trim_start_idx_to(s: &str, c: char, end: usize) -> (k: usize)
    requires
        end <= s@.len(),
    ensures
        k <= end,
        forall|j: int| 0 <= j < k ==> s@[j] == c,
        k < end ==> s@[k as int] != c,
{
    let mut k: usize = 0;
    while k < end
        invariant
            k <= end <= s@.len(),
            forall|j: int| 0 <= j < k ==> s@[j] == c,
        decreases end - k,
    {
        if s.get_char(k) != c {
            return k;
        }
        k = k + 1;
    }
    k
}

/// Whitespace for the purpose of trimming override URLs and query pairs.
pub open spec fn is_space(c: char) -> bool {
    c == ' ' || c == '\t' || c == '\n' || c == '\r' || c == '\u{b}' || c == '\u{c}'
}

fn is_space_char(c: char) -> (r: bool)
    ensures
        r == is_space(c),
{
    c == ' ' || c == '\t' || c == '\n' || c == '\r' || c == '\u{b}' || c == '\u{c}'
}

/// `s` with every trailing whitespace character removed.
pub open spec fn trim_end_ws(s: Seq<char>) -> Seq<char>
    decreases s.len(),
{
    if s.len() > 0 && is_space(s[s.len() - 1]) {
        trim_end_ws(s.drop_last())
    } else {
        s
    }
}

/// `s` with every leading whitespace character removed.
pub open spec fn trim_start_ws(s: Seq<char>) -> Seq<char>
    decreases s.len(),
{
    if s.len() > 0 && is_space(s[0]) {
        trim_start_ws(s.subrange(1, s.len() as int))
    } else {
        s
    }
}

/// `s` with whitespace removed from both ends.
pub open spec fn trim_ws_spec(s: Seq<char>) -> Seq<char> {
    trim_start_ws(trim_end_ws(s))
}

proof fn lemma_trim_end_ws_at(s: Seq<char>, k: int)
    requires
        0 <= k <= s.len(),
        forall|j: int| k <= j < s.len() ==> is_space(s[j]),
        k > 0 ==> !is_space(s[k - 1]),
    ensures
        trim_end_ws(s) == s.subrange(0, k),
    decreases s.len(),
{
    if s.len() > k {
        assert(is_space(s[s.len() - 1]));
        lemma_trim_end_ws_at(s.drop_last(), k);
        assert(s.drop_last().subrange(0, k) =~= s.subrange(0, k));
    } else {
        assert(s.subrange(0, k) =~= s);
    }
}

proof fn lemma_trim_start_ws_at(s: Seq<char>, k: int)
    requires
        0 <= k <= s.len(),
        forall|j: int| 0 <= j < k ==> is_space(s[j]),
        k < s.len() ==> !is_space(s[k]),
    ensures
        trim_start_ws(s) == s.subrange(k, s.len() as int),
    decreases s.len(),
{
    if k > 0 {
        assert(is_space(s[0]));
        let t = s.subrange(1, s.len() as int);
        lemma_trim_start_ws_at(t, k - 1);
        assert(t.subrange(k - 1, t.len() as int) =~= s.subrange(k, s.len() as int));
    } else {
        assert(s.subrange(0, s.len() as int) =~= s);
    }
}

fn trim_ws_end_idx(s: &str) -> (e: usize)
    ensures
        e <= s@.len(),
        forall|j: int| e <= j < s@.len() ==> is_space(s@[j]),
        e > 0 ==> !is_space(s@[e as int - 1]),
{
    let len: usize = s.unicode_len();
    let mut e: usize = len;
    while e > 0
        invariant
            e <= len,
            len == s@.len(),
            forall|j: int| e <= j < s@.len() ==> is_space(s@[j]),
        decreases e,
    {
        if !is_space_char(s.get_char(e - 1)) {
            return e;
        }
        e = e - 1;
    }
    0
}

fn trim_ws_start_idx_to(s: &str, end: usize) -> (k: usize)
    requires
        end <= s@.len(),
    ensures
        k <= end,
        forall|j: int| 0 <= j < k ==> is_space(s@[j]),
        k < end ==> !is_space(s@[k as int]),
{
    let mut k: usize = 0;
    while k < end
        invariant
            k <= end <= s@.len(),
            forall|j: int| 0 <= j < k ==> is_space(s@[j]),
        decreases end - k,
    {
        if !is_space_char(s.get_char(k)) {
            return k;
        }
        k = k + 1;
    }
    k
}

/// The substring of `s` left after trimming whitespace from both ends.
pub fn trim_ws_str<'a>(s: &'a str) -> (r: &'a str)
    ensures
        r@ == trim_ws_spec(s@),
{
    let e: usize = trim_ws_end_idx(s);
    proof {
        lemma_trim_end_ws_at(s@, e as int);
    }
    let k: usize = trim_ws_start_idx_to(s, e);
    proof {
        let t = s@.subrange(0, e as int);
        assert(forall|j: int| 0 <= j < k ==> is_space(t[j]));
        lemma_trim_start_ws_at(t, k as int);
        assert(t.subrange(k as int, t.len() as int) =~= s@.subrange(k as int, e as int));
    }
    s.substring_char(k, e)
}

/// The substring of `s` left after trimming every trailing `c`.
pub fn trim_end_str<'a>(s: &'a str, c: char) -> (r: &'a str)
    ensures
        r@ == trim_end_spec(s@, c),
{
    let k: usize = trim_end_idx(s, c);
    s.substring_char(0, k)
}

/// The substring of `s` left after trimming every leading `c`.
pub fn trim_start_str<'a>(s: &'a str, c: char) -> (r: &'a str)
    ensures
        r@ == trim_start_spec(s@, c),
{
    let len: usize = s.unicode_len();
    let k: usize = trim_start_idx_to(s, c, len);
    proof {
        lemma_trim_start_at(s@, c, k as int);
    }
    s.substring_char(k, len)
}

/// The substring of `s` left after trimming `c` from both ends.
pub fn trim_both_str<'a>(s: &'a str, c: char) -> (r: &'a str)
    ensures
        r@ == trim_both_spec(s@, c),
{
    let e: usize = trim_end_idx(s, c);
    let k: usize = trim_start_idx_to(s, c, e);
    proof {
        let t = s@.subrange(0, e as int);
        assert(forall|j: int| 0 <= j < k ==> t[j] == s@[j]);
        lemma_trim_start_at(t, c, k as int);
        assert(t.subrange(k as int, t.len() as int) =~= s@.subrange(k as int, e as int));
    }
    s.substring_char(k, e)
}

} // verus!
