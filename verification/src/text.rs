//! Text helpers shared by the library: comparison, search, decimal
//! rendering, and the std calls they rest on.

use vstd::prelude::*;
use vstd::string::*;

verus! {

/// Append one character to a string (`String::push`).
#[verifier::external_body]
pub(crate) fn push_char(s: &mut String, c: char)
    ensures
        final(s)@ == old(s)@.push(c),
{
    s.push(c);
}

/// Whether two string slices hold the same characters.
pub(crate) fn str_eq(a: &str, b: &str) -> (r: bool)
    ensures
        r == (a@ == b@),
{
    let n = a.unicode_len();
    if n != b.unicode_len() {
        return false;
    }
    let mut i: usize = 0;
    while i < n
        invariant
            n == a@.len(),
            n == b@.len(),
            i <= n,
            forall|k: int| 0 <= k < i ==> a@[k] == b@[k],
        decreases n - i,
    {
        if a.get_char(i) != b.get_char(i) {
            return false;
        }
        i += 1;
    }
    assert(a@ == b@);
    true
}

/// What `str::to_lowercase` returns for a string: its Unicode lower-case
/// mapping (which may depend on context, as for a final sigma).
pub uninterp spec fn unicode_lowercase(s: Seq<char>) -> Seq<char>;

/// Unicode lower-case of a string slice (`str::to_lowercase`).
#[verifier::external_body]
pub(crate) fn to_lowercase(s: &str) -> (r: String)
    ensures
        r@ == unicode_lowercase(s@),
{
    s.to_lowercase()
}

/// The decimal digit for a value below ten.
pub open spec fn digit_char(d: nat) -> char {
    if d == 0 { '0' }
    else if d == 1 { '1' }
    else if d == 2 { '2' }
    else if d == 3 { '3' }
    else if d == 4 { '4' }
    else if d == 5 { '5' }
    else if d == 6 { '6' }
    else if d == 7 { '7' }
    else if d == 8 { '8' }
    else { '9' }
}

/// The decimal rendering of a natural number, without leading zeros.
pub open spec fn decimal(n: nat) -> Seq<char>
    decreases n,
{
    if n < 10 {
        seq![digit_char(n)]
    } else {
        decimal(n / 10).push(digit_char(n % 10))
    }
}

fn digit_of(d: usize) -> (c: char)
    requires
        d < 10,
    ensures
        c == digit_char(d as nat),
{
    if d == 0 { '0' }
    else if d == 1 { '1' }
    else if d == 2 { '2' }
    else if d == 3 { '3' }
    else if d == 4 { '4' }
    else if d == 5 { '5' }
    else if d == 6 { '6' }
    else if d == 7 { '7' }
    else if d == 8 { '8' }
    else { '9' }
}

/// Append the decimal rendering of `n` to `s`.
pub fn push_decimal(s: &mut String, n: usize)
    ensures
        final(s)@ == old(s)@ + decimal(n as nat),
    decreases n,
{
    if n < 10 {
        push_char(s, digit_of(n));
        assert(decimal(n as nat) == seq![digit_char(n as nat)]);
        assert(old(s)@.push(digit_char(n as nat)) == old(s)@ + seq![digit_char(n as nat)]);
    } else {
        push_decimal(s, n / 10);
        push_char(s, digit_of(n % 10));
        assert(old(s)@ + decimal(n as nat / 10) + seq![digit_char(n as nat % 10)]
            == old(s)@ + decimal(n as nat));
    }
}

/// Whether `c` occurs in `s`.
pub fn contains_char(s: &str, c: char) -> (r: bool)
    ensures
        r == s@.contains(c),
{
    let n = s.unicode_len();
    let mut i: usize = 0;
    while i < n
        invariant
            n == s@.len(),
            i <= n,
            forall|j: int| 0 <= j < i ==> s@[j] != c,
        decreases n - i,
    {
        if s.get_char(i) == c {
            return true;
        }
        i += 1;
    }
    false
}

/// Whether `needle` occurs in `hay` at position `at`.
pub open spec fn occurs_at(hay: Seq<char>, needle: Seq<char>, at: int) -> bool {
    0 <= at && at + needle.len() <= hay.len() && hay.subrange(at, at + needle.len()) == needle
}

/// Whether `needle` occurs anywhere in `hay`.
pub open spec fn has_substring(hay: Seq<char>, needle: Seq<char>) -> bool {
    exists|at: int| occurs_at(hay, needle, at)
}

/// Whether `needle` occurs in `hay` (`str::contains` with a string pattern).
pub fn contains_str(hay: &str, needle: &str) -> (r: bool)
    ensures
        r == has_substring(hay@, needle@),
{
    let n = hay.unicode_len();
    let m = needle.unicode_len();
    if m > n {
        assert forall|at: int| !occurs_at(hay@, needle@, at) by {}
        return false;
    }
    let mut i: usize = 0;
    while i <= n - m
        invariant
            n == hay@.len(),
            m == needle@.len(),
            m <= n,
            i <= n - m + 1,
            forall|at: int| 0 <= at < i ==> !occurs_at(hay@, needle@, at),
        decreases n - m + 1 - i,
    {
        let mut j: usize = 0;
        let mut same = true;
        while j < m
            invariant
                n == hay@.len(),
                m == needle@.len(),
                i + m <= n,
                j <= m,
                same == (forall|k: int| 0 <= k < j ==> hay@[i + k] == needle@[k]),
            decreases m - j,
        {
            if hay.get_char(i + j) != needle.get_char(j) {
                same = false;
            }
            j += 1;
        }
        if same {
            assert(hay@.subrange(i as int, i + m) =~= needle@);
            assert(occurs_at(hay@, needle@, i as int));
            return true;
        }
        assert(!occurs_at(hay@, needle@, i as int)) by {
            if occurs_at(hay@, needle@, i as int) {
                assert forall|k: int| 0 <= k < m implies hay@[i + k] == needle@[k] by {
                    assert(hay@.subrange(i as int, i + m)[k] == hay@[i + k]);
                }
            }
        }
        i += 1;
    }
    assert forall|at: int| !occurs_at(hay@, needle@, at) by {}
    false
}

/// The characters of each string in a sequence.
pub open spec fn strs_view(s: Seq<String>) -> Seq<Seq<char>> {
    s.map_values(|x: String| x@)
}

/// Copy a list of strings.
pub fn clone_strings(v: &Vec<String>) -> (r: Vec<String>)
    ensures
        strs_view(r@) == strs_view(v@),
{
    let mut out: Vec<String> = Vec::new();
    let mut i: usize = 0;
    while i < v.len()
        invariant
            i <= v.len(),
            strs_view(out@) == strs_view(v@.subrange(0, i as int)),
        decreases v.len() - i,
    {
        out.push(v[i].clone());
        assert(strs_view(v@.subrange(0, i + 1)) == strs_view(v@.subrange(0, i as int)).push(v@[i as int]@));
        i += 1;
    }
    assert(v@.subrange(0, v.len() as int) == v@);
    out
}

/// Whether a list of strings holds `s`.
pub fn strings_contain(v: &Vec<String>, s: &str) -> (r: bool)
    ensures
        r == strs_view(v@).contains(s@),
{
    let mut i: usize = 0;
    while i < v.len()
        invariant
            i <= v.len(),
            forall|j: int| 0 <= j < i ==> strs_view(v@)[j] != s@,
        decreases v.len() - i,
    {
        if str_eq(v[i].as_str(), s) {
            assert(strs_view(v@)[i as int] == s@);
            return true;
        }
        i += 1;
    }
    false
}

/// Copy an optional string.
pub fn clone_opt_string(o: &Option<String>) -> (r: Option<String>)
    ensures
        r == *o,
{
    match o {
        Some(s) => Some(s.clone()),
        None => None,
    }
}

/// The characters of an optional string.
pub open spec fn opt_str_view(o: Option<String>) -> Option<Seq<char>> {
    match o {
        Some(s) => Some(s@),
        None => None,
    }
}

/// The characters of each key and value in a list of string pairs.
pub open spec fn pairs_view(s: Seq<(String, String)>) -> Seq<(Seq<char>, Seq<char>)> {
    s.map_values(|x: (String, String)| (x.0@, x.1@))
}

/// Copy a list of string pairs.
pub fn clone_pairs(v: &Vec<(String, String)>) -> (r: Vec<(String, String)>)
    ensures
        pairs_view(r@) == pairs_view(v@),
{
    let mut out: Vec<(String, String)> = Vec::new();
    let mut i: usize = 0;
    while i < v.len()
        invariant
            i <= v.len(),
            pairs_view(out@) == pairs_view(v@.subrange(0, i as int)),
        decreases v.len() - i,
    {
        out.push((v[i].0.clone(), v[i].1.clone()));
        assert(pairs_view(v@.subrange(0, i + 1)) == pairs_view(v@.subrange(0, i as int)).push(
            (v@[i as int].0@, v@[i as int].1@)));
        i += 1;
    }
    assert(v@.subrange(0, v.len() as int) == v@);
    out
}

/// The value of the first pair whose key is `k`.
pub open spec fn pair_lookup(s: Seq<(Seq<char>, Seq<char>)>, k: Seq<char>) -> Option<Seq<char>>
    decreases s.len(),
{
    if s.len() == 0 {
        None
    } else if s[0].0 == k {
        Some(s[0].1)
    } else {
        pair_lookup(s.drop_first(), k)
    }
}

/// Whether `a` comes before `b` in lexicographic order by code point
/// from position `i` on, the first `i` characters being equal.
pub open spec fn lex_lt_from(a: Seq<char>, b: Seq<char>, i: int) -> bool
    decreases a.len() - i,
{
    if i < 0 || i >= a.len() {
        i >= 0 && i < b.len()
    } else if i >= b.len() {
        false
    } else if a[i] == b[i] {
        lex_lt_from(a, b, i + 1)
    } else {
        (a[i] as u32) < (b[i] as u32)
    }
}

/// Whether `a` comes strictly before `b` in lexicographic order by code
/// point (which is the byte order of their UTF-8 encodings).
pub open spec fn lex_lt(a: Seq<char>, b: Seq<char>) -> bool {
    lex_lt_from(a, b, 0)
}

/// Whether `a` comes strictly before `b`.
pub fn str_lt(a: &str, b: &str) -> (r: bool)
    ensures
        r == lex_lt(a@, b@),
{
    let n = a.unicode_len();
    let m = b.unicode_len();
    let mut i: usize = 0;
    while i < n && i < m && a.get_char(i) == b.get_char(i)
        invariant
            n == a@.len(),
            m == b@.len(),
            i <= n,
            i <= m,
            lex_lt_from(a@, b@, 0) == lex_lt_from(a@, b@, i as int),
        decreases n - i,
    {
        i += 1;
    }
    if i >= n {
        i < m
    } else if i >= m {
        false
    } else {
        (a.get_char(i) as u32) < (b.get_char(i) as u32)
    }
}

/// Insert `x` into a sorted sequence after every element not after it.
pub open spec fn insert_sorted_str(s: Seq<Seq<char>>, x: Seq<char>) -> Seq<Seq<char>>
    decreases s.len(),
{
    if s.len() > 0 && lex_lt(x, s.last()) {
        insert_sorted_str(s.drop_last(), x).push(s.last())
    } else {
        s.push(x)
    }
}

/// The strings in lexicographic order (a stable insertion sort).
pub open spec fn sort_strs(s: Seq<Seq<char>>) -> Seq<Seq<char>>
    decreases s.len(),
{
    if s.len() == 0 {
        s
    } else {
        insert_sorted_str(sort_strs(s.drop_last()), s.last())
    }
}

/// Whether a sequence of strings is in lexicographic order.
pub open spec fn strs_sorted(s: Seq<Seq<char>>) -> bool {
    forall|i: int, j: int| 0 <= i < j < s.len() ==> !lex_lt(#[trigger] s[j], #[trigger] s[i])
}

proof fn lemma_lex_from_asym(a: Seq<char>, b: Seq<char>, i: int)
    requires
        0 <= i,
    ensures
        !(lex_lt_from(a, b, i) && lex_lt_from(b, a, i)),
    decreases a.len() - i,
{
    if i < a.len() && i < b.len() && a[i] == b[i] {
        lemma_lex_from_asym(a, b, i + 1);
    }
}

proof fn lemma_lex_from_total(a: Seq<char>, b: Seq<char>, i: int)
    requires
        0 <= i <= a.len(),
        i <= b.len(),
        a.take(i) == b.take(i),
        a != b,
    ensures
        lex_lt_from(a, b, i) || lex_lt_from(b, a, i),
    decreases a.len() - i,
{
    if i < a.len() && i < b.len() && a[i] == b[i] {
        assert(a.take(i + 1) == a.take(i).push(a[i]));
        assert(b.take(i + 1) == b.take(i).push(b[i]));
        lemma_lex_from_total(a, b, i + 1);
    } else if i == a.len() && i == b.len() {
        assert(a == a.take(i));
        assert(b == b.take(i));
    } else if i < a.len() && i < b.len() {
        vstd::utf8::char_u32_cast(a[i], a[i] as u32);
        vstd::utf8::char_u32_cast(b[i], b[i] as u32);
    }
}

proof fn lemma_lex_from_trans(a: Seq<char>, b: Seq<char>, c: Seq<char>, i: int)
    requires
        0 <= i,
        lex_lt_from(a, b, i),
        lex_lt_from(b, c, i),
    ensures
        lex_lt_from(a, c, i),
    decreases a.len() - i,
{
    if i < a.len() && i < b.len() && i < c.len() && a[i] == b[i] && b[i] == c[i] {
        lemma_lex_from_trans(a, b, c, i + 1);
    }
}

/// Lexicographic order is a strict total order: irreflexive and
/// asymmetric, transitive, and any two different strings are ordered.
pub proof fn lemma_lex_lt_order(a: Seq<char>, b: Seq<char>, c: Seq<char>)
    ensures
        !(lex_lt(a, b) && lex_lt(b, a)),
        !lex_lt(a, a),
        lex_lt(a, b) && lex_lt(b, c) ==> lex_lt(a, c),
        a != b ==> lex_lt(a, b) || lex_lt(b, a),
{
    lemma_lex_from_asym(a, b, 0);
    lemma_lex_from_asym(a, a, 0);
    if lex_lt(a, b) && lex_lt(b, c) {
        lemma_lex_from_trans(a, b, c, 0);
    }
    if a != b {
        assert(a.take(0) == b.take(0));
        lemma_lex_from_total(a, b, 0);
    }
}

proof fn lemma_insert_sorted_str(s: Seq<Seq<char>>, x: Seq<char>)
    requires
        strs_sorted(s),
    ensures
        strs_sorted(insert_sorted_str(s, x)),
        insert_sorted_str(s, x).to_multiset() == s.to_multiset().insert(x),
    decreases s.len(),
{
    broadcast use vstd::seq_lib::group_seq_properties;
    broadcast use vstd::multiset::group_multiset_axioms;
    let r = insert_sorted_str(s, x);
    if s.len() > 0 && lex_lt(x, s.last()) {
        let d = s.drop_last();
        let last = s.last();
        assert(strs_sorted(d));
        lemma_insert_sorted_str(d, x);
        let m = insert_sorted_str(d, x);
        assert(s == d.push(last));
        assert forall|k: int| 0 <= k < m.len() implies !lex_lt(last, #[trigger] m[k]) by {
            assert(m.to_multiset().count(m[k]) > 0);
            if m[k] == x {
                lemma_lex_lt_order(x, last, last);
            } else {
                assert(d.to_multiset().count(m[k]) > 0);
                assert(d.contains(m[k]));
                let t = choose|t: int| 0 <= t < d.len() && d[t] == m[k];
                assert(s[t] == d[t] && s[s.len() - 1] == last);
            }
        }
        assert forall|i: int, j: int| 0 <= i < j < r.len() implies !lex_lt(#[trigger] r[j], #[trigger] r[i]) by {
            if j == r.len() - 1 {
                assert(r[i] == m[i]);
            } else {
                assert(r[i] == m[i] && r[j] == m[j]);
            }
        }
    } else {
        assert forall|i: int, j: int| 0 <= i < j < r.len() implies !lex_lt(#[trigger] r[j], #[trigger] r[i]) by {
            if j == r.len() - 1 {
                assert(r[j] == x && r[i] == s[i]);
                if lex_lt(x, s[i]) {
                    let last = s.last();
                    if i < s.len() - 1 {
                        assert(!lex_lt(s[s.len() - 1], s[i]));
                    }
                    lemma_lex_lt_order(x, s[i], last);
                    lemma_lex_lt_order(s[i], last, x);
                }
            } else {
                assert(r[i] == s[i] && r[j] == s[j]);
            }
        }
    }
}

/// Sorting strings gives them in lexicographic order, with the same
/// strings as often as before; strings without repeats come out strictly
/// ascending.
pub proof fn lemma_sort_strs(s: Seq<Seq<char>>)
    ensures
        strs_sorted(sort_strs(s)),
        sort_strs(s).to_multiset() == s.to_multiset(),
        sort_strs(s).len() == s.len(),
        s.no_duplicates() ==> forall|i: int, j: int| 0 <= i < j < s.len()
            ==> lex_lt(#[trigger] sort_strs(s)[i], #[trigger] sort_strs(s)[j]),
    decreases s.len(),
{
    broadcast use vstd::seq_lib::group_seq_properties;
    broadcast use vstd::multiset::group_multiset_axioms;
    if s.len() > 0 {
        lemma_sort_strs(s.drop_last());
        lemma_insert_sorted_str(sort_strs(s.drop_last()), s.last());
        assert(s == s.drop_last().push(s.last()));
    }
    let r = sort_strs(s);
    assert(r.len() == r.to_multiset().len());
    if s.no_duplicates() {
        s.lemma_multiset_has_no_duplicates();
        assert forall|x: Seq<char>| r.to_multiset().contains(x) implies r.to_multiset().count(x) == 1 by {
            assert(s.to_multiset().contains(x));
        }
        r.lemma_multiset_has_no_duplicates_conv();
        assert forall|i: int, j: int| 0 <= i < j < s.len() implies lex_lt(#[trigger] r[i], #[trigger] r[j]) by {
            lemma_lex_lt_order(r[i], r[j], r[j]);
        }
    }
}

fn insert_string(out: &mut Vec<String>, x: String)
    ensures
        strs_view(final(out)@) == insert_sorted_str(strs_view(old(out)@), x@),
    decreases old(out)@.len(),
{
    let n = out.len();
    if n > 0 && str_lt(x.as_str(), out[n - 1].as_str()) {
        let ghost s = strs_view(out@);
        let last = out.pop().unwrap();
        assert(strs_view(out@) == s.drop_last());
        assert(last@ == s.last());
        insert_string(out, x);
        let ghost mid = strs_view(out@);
        out.push(last);
        assert(strs_view(out@) == mid.push(s.last()));
    } else {
        let ghost s = strs_view(out@);
        let ghost xv = x@;
        out.push(x);
        assert(strs_view(out@) == s.push(xv));
    }
}

/// A sorted copy of a list of strings.
pub fn sorted_strings(v: &Vec<String>) -> (r: Vec<String>)
    ensures
        strs_view(r@) == sort_strs(strs_view(v@)),
{
    let ghost s = strs_view(v@);
    let mut out: Vec<String> = Vec::new();
    let mut i: usize = 0;
    while i < v.len()
        invariant
            i <= v.len(),
            s == strs_view(v@),
            strs_view(out@) == sort_strs(s.take(i as int)),
        decreases v.len() - i,
    {
        assert(s.take(i + 1).drop_last() == s.take(i as int));
        assert(s.take(i + 1).last() == v@[i as int]@);
        insert_string(&mut out, v[i].clone());
        i += 1;
    }
    assert(s.take(v.len() as int) == s);
    out
}

/// A sorted sequence without its repeats: each run of equal strings
/// kept once.
pub open spec fn dedup_adjacent(s: Seq<Seq<char>>) -> Seq<Seq<char>>
    decreases s.len(),
{
    if s.len() == 0 {
        s
    } else {
        let d = dedup_adjacent(s.drop_last());
        if d.len() > 0 && d.last() == s.last() {
            d
        } else {
            d.push(s.last())
        }
    }
}

/// The distinct strings of a list, in lexicographic order.
pub open spec fn sorted_set(s: Seq<Seq<char>>) -> Seq<Seq<char>> {
    dedup_adjacent(sort_strs(s))
}

proof fn lemma_dedup_adjacent(s: Seq<Seq<char>>)
    requires
        strs_sorted(s),
    ensures
        forall|i: int, j: int| 0 <= i < j < dedup_adjacent(s).len()
            ==> lex_lt(#[trigger] dedup_adjacent(s)[i], #[trigger] dedup_adjacent(s)[j]),
        forall|x: Seq<char>| dedup_adjacent(s).contains(x) <==> s.contains(x),
        dedup_adjacent(s).len() == 0 <==> s.len() == 0,
        s.len() > 0 ==> dedup_adjacent(s).last() == s.last(),
    decreases s.len(),
{
    if s.len() > 0 {
        let p = s.drop_last();
        let x = s.last();
        assert(strs_sorted(p));
        lemma_dedup_adjacent(p);
        let d = dedup_adjacent(p);
        let r = dedup_adjacent(s);
        assert(s == p.push(x));
        if d.len() > 0 && d.last() == x {
            assert forall|y: Seq<char>| r.contains(y) <==> s.contains(y) by {
                if s.contains(y) && !p.contains(y) {
                    assert(y == x);
                    assert(d[d.len() - 1] == y);
                }
                if p.contains(y) {
                    let k = choose|k: int| 0 <= k < p.len() && p[k] == y;
                    assert(s[k] == y);
                }
            }
        } else {
            if d.len() > 0 {
                let t = d.last();
                assert(p.len() > 0 && t == p.last());
                assert(!lex_lt(s[s.len() - 1], s[s.len() - 2]));
                lemma_lex_lt_order(t, x, x);
                assert(lex_lt(t, x));
                assert forall|i: int, j: int| 0 <= i < j < r.len() implies lex_lt(#[trigger] r[i], #[trigger] r[j]) by {
                    if j == r.len() - 1 {
                        if i < d.len() - 1 {
                            lemma_lex_lt_order(d[i], t, x);
                        }
                    } else {
                        assert(r[i] == d[i] && r[j] == d[j]);
                    }
                }
            }
            assert forall|y: Seq<char>| r.contains(y) <==> s.contains(y) by {
                if r.contains(y) {
                    let k = choose|k: int| 0 <= k < r.len() && r[k] == y;
                    if k < d.len() {
                        assert(r[k] == d[k]);
                        assert(d.contains(y));
                        assert(p.contains(y));
                        let m = choose|m: int| 0 <= m < p.len() && p[m] == y;
                        assert(s[m] == y);
                    } else {
                        assert(s[s.len() - 1] == y);
                    }
                }
                if s.contains(y) {
                    let k = choose|k: int| 0 <= k < s.len() && s[k] == y;
                    if k < s.len() - 1 {
                        assert(p[k] == y);
                        assert(p.contains(y));
                        let m = choose|m: int| 0 <= m < d.len() && d[m] == y;
                        assert(r[m] == y);
                    } else {
                        assert(r[r.len() - 1] == y);
                    }
                }
            }
        }
    }
}

/// The distinct strings of a list, in order: strictly ascending, holding
/// exactly the strings of the list.
pub proof fn lemma_sorted_set(s: Seq<Seq<char>>)
    ensures
        forall|i: int, j: int| 0 <= i < j < sorted_set(s).len()
            ==> lex_lt(#[trigger] sorted_set(s)[i], #[trigger] sorted_set(s)[j]),
        forall|x: Seq<char>| sorted_set(s).contains(x) <==> s.contains(x),
        sorted_set(s).len() == 0 <==> s.len() == 0,
{
    broadcast use vstd::seq_lib::group_seq_properties;
    lemma_sort_strs(s);
    lemma_dedup_adjacent(sort_strs(s));
    assert forall|x: Seq<char>| sort_strs(s).contains(x) <==> s.contains(x) by {
        vstd::seq_lib::to_multiset_contains(s, x);
        vstd::seq_lib::to_multiset_contains(sort_strs(s), x);
    }
}

/// The distinct strings of a list, in lexicographic order.
pub fn sorted_set_of(v: &Vec<String>) -> (r: Vec<String>)
    ensures
        strs_view(r@) == sorted_set(strs_view(v@)),
{
    let sorted = sorted_strings(v);
    let ghost sv = strs_view(sorted@);
    let mut out: Vec<String> = Vec::new();
    let mut i: usize = 0;
    while i < sorted.len()
        invariant
            i <= sorted.len(),
            sv == strs_view(sorted@),
            strs_view(out@) == dedup_adjacent(sv.take(i as int)),
        decreases sorted.len() - i,
    {
        let ghost before = strs_view(out@);
        assert(sv.take(i + 1).drop_last() == sv.take(i as int));
        assert(sv.take(i + 1).last() == sorted@[i as int]@);
        let n = out.len();
        if n > 0 && str_eq(out[n - 1].as_str(), sorted[i].as_str()) {
            assert(before.last() == out@[n - 1]@);
        } else {
            if n > 0 {
                assert(before.last() == out@[n - 1]@);
            }
            out.push(sorted[i].clone());
            assert(strs_view(out@) == before.push(sorted@[i as int]@));
        }
        i += 1;
    }
    assert(sv.take(sorted.len() as int) == sv);
    out
}

} // verus!
