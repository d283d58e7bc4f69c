//! Character-sequence utilities shared by the codec: first-occurrence search,
//! separator splitting, whitespace trimming and prefix tests.

use vstd::prelude::*;

verus! {

/// Index of the first occurrence of `c` in `s`, or `s.len()` when absent.
pub open spec fn find_in(s: Seq<char>, c: char) -> int
    decreases s.len(),
{
    if s.len() == 0 {
        0
    } else if s[0] == c {
        0
    } else {
        1 + find_in(s.drop_first(), c)
    }
}

pub proof fn lemma_find_in(s: Seq<char>, c: char)
    ensures
        0 <= find_in(s, c) <= s.len(),
        find_in(s, c) < s.len() ==> s[find_in(s, c)] == c,
        forall|j: int| 0 <= j < find_in(s, c) ==> s[j] != c,
    decreases s.len(),
{
    if s.len() > 0 && s[0] != c {
        lemma_find_in(s.drop_first(), c);
        assert forall|j: int| 0 <= j < find_in(s, c) implies s[j] != c by {
            if j > 0 {
                assert(s.drop_first()[j - 1] != c);
            }
        }
    }
}

/// `s` split at every occurrence of `c`; the separators themselves are
/// dropped, and `n` separators yield `n + 1` pieces.
pub open spec fn split_on(s: Seq<char>, c: char) -> Seq<Seq<char>>
    decreases s.len(),
    via split_on_decreases
{
    let i = find_in(s, c);
    if i == s.len() {
        seq![s]
    } else {
        seq![s.subrange(0, i)] + split_on(s.skip(i + 1), c)
    }
}

#[via_fn]
proof fn split_on_decreases(s: Seq<char>, c: char) {
    lemma_find_in(s, c);
}

pub proof fn lemma_split_on_len(s: Seq<char>, c: char)
    ensures
        split_on(s, c).len() >= 1,
    decreases s.len(),
{
    broadcast use vstd::seq_lib::group_seq_properties;

    let i = find_in(s, c);
    lemma_find_in(s, c);
    if i != s.len() {
        lemma_split_on_len(s.skip(i + 1), c);
    }
}

/// Whether `c` counts as whitespace when a response line is trimmed.
pub open spec fn is_ws(c: char) -> bool {
    c == ' ' || c == '\t' || c == '\r' || c == '\n'
}

pub open spec fn trim_front(s: Seq<char>) -> Seq<char>
    decreases s.len(),
{
    if s.len() > 0 && is_ws(s[0]) {
        trim_front(s.drop_first())
    } else {
        s
    }
}

pub open spec fn trim_back(s: Seq<char>) -> Seq<char>
    decreases s.len(),
{
    if s.len() > 0 && is_ws(s.last()) {
        trim_back(s.drop_last())
    } else {
        s
    }
}

/// `s` with leading and trailing whitespace removed.
pub open spec fn trim_spec(s: Seq<char>) -> Seq<char> {
    trim_back(trim_front(s))
}

proof fn lemma_trim_front_skip(s: Seq<char>, a: int)
    requires
        0 <= a <= s.len(),
        forall|j: int| 0 <= j < a ==> is_ws(s[j]),
        a == s.len() || !is_ws(s[a]),
    ensures
        trim_front(s) == s.skip(a),
    decreases a,
{
    if a == 0 {
        assert(s.skip(0) =~= s);
    } else {
        assert(is_ws(s[0]));
        assert(s.drop_first() =~= s.skip(1));
        lemma_trim_front_skip(s.skip(1), a - 1);
        assert(s.skip(1).skip(a - 1) =~= s.skip(a));
    }
}

proof fn lemma_trim_back_take(s: Seq<char>, b: int)
    requires
        0 <= b <= s.len(),
        forall|j: int| b <= j < s.len() ==> is_ws(s[j]),
        b == 0 || !is_ws(s[b - 1]),
    ensures
        trim_back(s) == s.take(b),
    decreases s.len() - b,
{
    if b == s.len() {
        assert(s.take(b) =~= s);
    } else {
        assert(is_ws(s.last()));
        assert(s.drop_last() =~= s.take(s.len() - 1));
        lemma_trim_back_take(s.take(s.len() - 1), b);
        assert(s.take(s.len() - 1).take(b) =~= s.take(b));
    }
}

/// Whether `c` counts as whitespace, executably.
pub fn is_ws_char(c: char) -> (r: bool)
    ensures
        r == is_ws(c),
{
    c == ' ' || c == '\t' || c == '\r' || c == '\n'
}

/// `s` with leading and trailing whitespace removed.
pub fn trim<'a>(s: &'a str) -> (r: &'a str)
    ensures
        r@ == trim_spec(s@),
{
    let n = s.unicode_len();
    let mut a: usize = 0;
    while a < n && is_ws_char(s.get_char(a))
        invariant
            0 <= a <= n,
            n == s@.len(),
            forall|j: int| 0 <= j < a ==> is_ws(s@[j]),
        decreases n - a,
    {
        a = a + 1;
    }
    let mut b: usize = n;
    while b > a && is_ws_char(s.get_char(b - 1))
        invariant
            a <= b <= n,
            n == s@.len(),
            forall|j: int| b <= j < n ==> is_ws(s@[j]),
        decreases b,
    {
        b = b - 1;
    }
    proof {
        lemma_trim_front_skip(s@, a as int);
        let t = s@.skip(a as int);
        lemma_trim_back_take(t, b - a);
        assert(t.take(b - a) =~= s@.subrange(a as int, b as int));
    }
    s.substring_char(a, b)
}

/// First occurrence of `c` in `s` at or after `from`.
pub fn find_char(s: &str, from: usize, c: char) -> (r: Option<usize>)
    requires
        from <= s@.len(),
    ensures
        match r {
            Some(i) => from <= i < s@.len() && s@[i as int] == c && (forall|j: int|
                from <= j < i ==> s@[j] != c),
            None => forall|j: int| from <= j < s@.len() ==> s@[j] != c,
        },
{
    let n = s.unicode_len();
    let mut i: usize = from;
    while i < n
        invariant
            from <= i <= n,
            n == s@.len(),
            forall|j: int| from <= j < i ==> s@[j] != c,
        decreases n - i,
    {
        if s.get_char(i) == c {
            return Some(i);
        }
        i = i + 1;
    }
    None
}

/// Character-wise equality of two strings.
pub fn str_eq(a: &str, b: &str) -> (r: bool)
    ensures
        r == (a@ == b@),
{
    let n = a.unicode_len();
    if n != b.unicode_len() {
        return false;
    }
    let mut i: usize = 0;
    while i < n
        invariant
            0 <= i <= n,
            n == a@.len(),
            n == b@.len(),
            forall|j: int| 0 <= j < i ==> a@[j] == b@[j],
        decreases n - i,
    {
        if a.get_char(i) != b.get_char(i) {
            return false;
        }
        i = i + 1;
    }
    proof {
        assert(a@ =~= b@);
    }
    true
}

/// Whether `p` is a prefix of `s`.
pub fn str_starts_with(s: &str, p: &str) -> (r: bool)
    ensures
        r == p@.is_prefix_of(s@),
{
    let pn = p.unicode_len();
    if pn > s.unicode_len() {
        return false;
    }
    let mut i: usize = 0;
    while i < pn
        invariant
            0 <= i <= pn,
            pn == p@.len(),
            pn <= s@.len(),
            forall|j: int| 0 <= j < i ==> s@[j] == p@[j],
        decreases pn - i,
    {
        if s.get_char(i) != p.get_char(i) {
            proof {
                assert(!p@.is_prefix_of(s@));
            }
            return false;
        }
        i = i + 1;
    }
    proof {
        assert(p@ =~= s@.subrange(0, pn as int));
    }
    true
}

/// Whether `p` is a suffix of `s`.
pub fn str_ends_with(s: &str, p: &str) -> (r: bool)
    ensures
        r == p@.is_suffix_of(s@),
{
    let pn = p.unicode_len();
    let n = s.unicode_len();
    if pn > n {
        return false;
    }
    let mut i: usize = 0;
    while i < pn
        invariant
            0 <= i <= pn,
            pn == p@.len(),
            pn <= n,
            n == s@.len(),
            forall|j: int| 0 <= j < i ==> s@[n - pn + j] == p@[j],
        decreases pn - i,
    {
        if s.get_char(n - pn + i) != p.get_char(i) {
            proof {
                assert(!p@.is_suffix_of(s@));
            }
            return false;
        }
        i = i + 1;
    }
    proof {
        assert(p@ =~= s@.subrange(n - pn, n as int));
    }
    true
}

/// Whether `needle` occurs in `s` as a contiguous substring.
pub open spec fn contains_sub(s: Seq<char>, needle: Seq<char>) -> bool {
    exists|i: int|
        0 <= i <= s.len() - needle.len() && #[trigger] s.subrange(i, i + needle.len()) == needle
}

/// Substring search.
pub fn str_contains(s: &str, needle: &str) -> (r: bool)
    ensures
        r == contains_sub(s@, needle@),
{
    let nn = needle.unicode_len();
    let n = s.unicode_len();
    if nn > n {
        return false;
    }
    let mut i: usize = 0;
    while i <= n - nn
        invariant
            0 <= i <= n - nn + 1,
            nn <= n,
            n == s@.len(),
            nn == needle@.len(),
            forall|k: int| 0 <= k < i ==> #[trigger] s@.subrange(k, k + nn) != needle@,
        decreases n + 1 - i,
    {
        let mut j: usize = 0;
        let mut matched = true;
        while j < nn
            invariant
                0 <= j <= nn,
                i + nn <= n,
                n == s@.len(),
                nn == needle@.len(),
                matched == (forall|k: int| 0 <= k < j ==> s@[i + k] == needle@[k]),
            decreases nn - j,
        {
            if s.get_char(i + j) != needle.get_char(j) {
                matched = false;
                j = nn;
            } else {
                proof {
                    assert(s@[i + j] == needle@[j as int]);
                }
                j = j + 1;
            }
        }
        if matched {
            proof {
                assert(s@.subrange(i as int, i + nn) =~= needle@);
            }
            return true;
        }
        proof {
            if s@.subrange(i as int, i + nn) == needle@ {
                assert(forall|k: int|
                    0 <= k < nn ==> s@[i + k] == #[trigger] s@.subrange(i as int, i + nn)[k]);
            }
        }
        i = i + 1;
    }
    proof {
        assert forall|k: int| 0 <= k <= n - nn implies #[trigger] s@.subrange(k, k + nn) != needle@ by {
            assert(k < i);
        }
    }
    false
}

/// Split `s` at every occurrence of `sep`.
pub fn split_str(s: &str, sep: char) -> (r: Vec<String>)
    ensures
        r@.map_values(|t: String| t@) == split_on(s@, sep),
{
    let mut out: Vec<String> = Vec::new();
    let n = s.unicode_len();
    let mut pos: usize = 0;
    proof {
        assert(out@.map_values(|t: String| t@) =~= Seq::<Seq<char>>::empty());
        assert(s@.skip(0) =~= s@);
    }
    loop
        invariant
            pos <= n,
            n == s@.len(),
            split_on(s@, sep) == out@.map_values(|t: String| t@) + split_on(
                s@.skip(pos as int),
                sep,
            ),
        decreases n - pos,
    {
        let ghost rest = s@.skip(pos as int);
        let ghost done = out@.map_values(|t: String| t@);
        match find_char(s, pos, sep) {
            Some(i) => {
                let piece = s.substring_char(pos, i);
                out.push(piece.to_owned());
                proof {
                    assert(forall|j: int| 0 <= j < rest.len() ==> rest[j] == s@[pos + j]);
                    lemma_find_in(rest, sep);
                    let f = find_in(rest, sep);
                    assert(rest[i - pos] == sep);
                    if f > i - pos {
                        assert(rest[i - pos] != sep);
                    }
                    if f < i - pos {
                        assert(rest[f] == sep);
                        assert(s@[pos + f] != sep);
                    }
                    assert(f == i - pos);
                    assert(split_on(rest, sep) == seq![rest.subrange(0, f)] + split_on(
                        rest.skip(f + 1),
                        sep,
                    ));
                    assert(rest.subrange(0, f) =~= piece@);
                    assert(rest.skip(f + 1) =~= s@.skip(i + 1));
                    assert(out@.map_values(|t: String| t@) =~= done + seq![piece@]);
                    assert((done + seq![piece@]) + split_on(s@.skip(i + 1), sep) =~= done + (
                    seq![piece@] + split_on(s@.skip(i + 1), sep)));
                }
                pos = i + 1;
            },
            None => {
                let piece = s.substring_char(pos, n);
                out.push(piece.to_owned());
                proof {
                    lemma_find_in(rest, sep);
                    assert(find_in(rest, sep) == rest.len());
                    assert(split_on(rest, sep) =~= seq![rest]);
                    assert(piece@ =~= rest);
                    assert(out@.map_values(|t: String| t@) =~= done + seq![rest]);
                    assert(done + seq![rest] =~= done + split_on(rest, sep));
                }
                return out;
            },
        }
    }
}

} // verus!
