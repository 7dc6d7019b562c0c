//! HTTP header extension.

use vstd::prelude::*;
use vstd::string::*;

use crate::text::{str_eq, pairs_view, pair_lookup, clone_pairs};

verus! {

/// HTTP request and response headers.
#[derive(Debug, Default)]
pub struct HttpExtension {
    /// Request headers, name to value; a name is looked up at its first
    /// entry.
    pub request_headers: Vec<(String, String)>,
    /// Response headers, name to value.
    pub response_headers: Vec<(String, String)>,
}

/// The headers a header list holds: for each name, the value of its
/// first entry.
pub open spec fn header_value(h: Seq<(String, String)>, name: Seq<char>) -> Option<Seq<char>> {
    pair_lookup(pairs_view(h), name)
}

proof fn lemma_pair_lookup_index(s: Seq<(Seq<char>, Seq<char>)>, k: Seq<char>, i: int)
    requires
        0 <= i < s.len(),
        s[i].0 == k,
        forall|j: int| 0 <= j < i ==> s[j].0 != k,
    ensures
        pair_lookup(s, k) == Some(s[i].1),
    decreases i,
{
    if i > 0 {
        lemma_pair_lookup_index(s.drop_first(), k, i - 1);
    }
}

proof fn lemma_pair_lookup_absent(s: Seq<(Seq<char>, Seq<char>)>, k: Seq<char>)
    requires
        forall|j: int| 0 <= j < s.len() ==> s[j].0 != k,
    ensures
        pair_lookup(s, k) is None,
    decreases s.len(),
{
    if s.len() > 0 {
        lemma_pair_lookup_absent(s.drop_first(), k);
    }
}

proof fn lemma_pair_lookup_update(s: Seq<(Seq<char>, Seq<char>)>, i: int, v: Seq<char>, k: Seq<char>)
    requires
        0 <= i < s.len(),
        s[i].0 != k,
    ensures
        pair_lookup(s.update(i, (s[i].0, v)), k) == pair_lookup(s, k),
    decreases s.len(),
{
    let t = s.update(i, (s[i].0, v));
    if s.len() > 0 && i > 0 {
        assert(t.drop_first() == s.drop_first().update(i - 1, (s[i].0, v)));
        if s[0].0 != k {
            lemma_pair_lookup_update(s.drop_first(), i - 1, v, k);
        }
    } else if i == 0 {
        assert(t.drop_first() == s.drop_first());
    }
}

proof fn lemma_pair_lookup_push(s: Seq<(Seq<char>, Seq<char>)>, e: (Seq<char>, Seq<char>), k: Seq<char>)
    ensures
        pair_lookup(s.push(e), k) == match pair_lookup(s, k) {
            Some(v) => Some(v),
            None => if e.0 == k { Some(e.1) } else { None },
        },
    decreases s.len(),
{
    if s.len() > 0 {
        assert(s.push(e).drop_first() == s.drop_first().push(e));
        assert(s.push(e)[0] == s[0]);
        lemma_pair_lookup_push(s.drop_first(), e, k);
    } else {
        assert(s.push(e).drop_first() =~= Seq::<(Seq<char>, Seq<char>)>::empty());
        assert(s.push(e)[0] == e);
        assert(pair_lookup(Seq::<(Seq<char>, Seq<char>)>::empty(), k) is None);
        assert(pair_lookup(s, k) is None);
    }
}

/// The value of the first header in `h` named `name`.
fn find_header<'a>(h: &'a Vec<(String, String)>, name: &str) -> (r: Option<&'a str>)
    ensures
        match header_value(h@, name@) {
            None => r is None,
            Some(v) => r matches Some(x) && x@ == v,
        },
{
    let ghost s = pairs_view(h@);
    let mut i: usize = 0;
    while i < h.len()
        invariant
            i <= h.len(),
            s == pairs_view(h@),
            forall|j: int| 0 <= j < i ==> s[j].0 != name@,
        decreases h.len() - i,
    {
        if str_eq(h[i].0.as_str(), name) {
            proof {
                lemma_pair_lookup_index(s, name@, i as int);
            }
            return Some(h[i].1.as_str());
        }
        i += 1;
    }
    proof {
        lemma_pair_lookup_absent(s, name@);
    }
    None
}

/// Set header `name` in `h` to `value`: the first entry so named is
/// replaced, or a new one appended.
fn put_header(h: &mut Vec<(String, String)>, name: &str, value: &str)
    ensures
        header_value(final(h)@, name@) == Some(value@),
        forall|n: Seq<char>| n != name@ ==> #[trigger] header_value(final(h)@, n) == header_value(old(h)@, n),
{
    let ghost s = pairs_view(h@);
    let mut i: usize = 0;
    while i < h.len()
        invariant
            i <= h.len(),
            h@ == old(h)@,
            s == pairs_view(h@),
            forall|j: int| 0 <= j < i ==> s[j].0 != name@,
        decreases h.len() - i,
    {
        if str_eq(h[i].0.as_str(), name) {
            let ghost before = h@;
            h.set(i, (String::from_str(name), String::from_str(value)));
            proof {
                let t = pairs_view(h@);
                assert(t == s.update(i as int, (s[i as int].0, value@)));
                lemma_pair_lookup_index(t, name@, i as int);
                assert forall|n: Seq<char>| n != name@ implies #[trigger] header_value(h@, n)
                    == header_value(old(h)@, n) by {
                    lemma_pair_lookup_update(s, i as int, value@, n);
                }
            }
            return;
        }
        i += 1;
    }
    h.push((String::from_str(name), String::from_str(value)));
    proof {
        lemma_pair_lookup_absent(s, name@);
        assert(pairs_view(h@) == s.push((name@, value@)));
        assert forall|n: Seq<char>| true implies #[trigger] header_value(h@, n) == match pair_lookup(s, n) {
            Some(v) => Some(v),
            None => if name@ == n { Some(value@) } else { None },
        } by {
            lemma_pair_lookup_push(s, (name@, value@), n);
        }
    }
}

impl HttpExtension {
    /// No headers.
    pub fn new() -> (h: HttpExtension)
        ensures
            h.request_headers@.len() == 0,
            h.response_headers@.len() == 0,
    {
        HttpExtension { request_headers: Vec::new(), response_headers: Vec::new() }
    }

    /// The value of request header `name`, if set.
    pub fn get_header(&self, name: &str) -> (r: Option<&str>)
        ensures
            match header_value(self.request_headers@, name@) {
                None => r is None,
                Some(v) => r matches Some(x) && x@ == v,
            },
    {
        find_header(&self.request_headers, name)
    }

    /// Set request header `name` to `value`; other headers keep theirs.
    pub fn set_header(&mut self, name: &str, value: &str)
        ensures
            header_value(final(self).request_headers@, name@) == Some(value@),
            forall|n: Seq<char>| n != name@ ==> #[trigger] header_value(final(self).request_headers@, n)
                == header_value(old(self).request_headers@, n),
            final(self).response_headers == old(self).response_headers,
    {
        put_header(&mut self.request_headers, name, value);
    }

    /// The value of response header `name`, if set.
    pub fn get_response_header(&self, name: &str) -> (r: Option<&str>)
        ensures
            match header_value(self.response_headers@, name@) {
                None => r is None,
                Some(v) => r matches Some(x) && x@ == v,
            },
    {
        find_header(&self.response_headers, name)
    }

    /// Set response header `name` to `value`.
    pub fn set_response_header(&mut self, name: &str, value: &str)
        ensures
            header_value(final(self).response_headers@, name@) == Some(value@),
            forall|n: Seq<char>| n != name@ ==> #[trigger] header_value(final(self).response_headers@, n)
                == header_value(old(self).response_headers@, n),
            final(self).request_headers == old(self).request_headers,
    {
        put_header(&mut self.response_headers, name, value);
    }
}

impl Clone for HttpExtension {
    fn clone(&self) -> (r: Self)
        ensures
            pairs_view(r.request_headers@) == pairs_view(self.request_headers@),
            pairs_view(r.response_headers@) == pairs_view(self.response_headers@),
    {
        HttpExtension {
            request_headers: clone_pairs(&self.request_headers),
            response_headers: clone_pairs(&self.response_headers),
        }
    }
}

/// Reading a header gives back what was last written to it; writing
/// one header leaves every other as it was.
pub proof fn lemma_header_read_after_write(before: Seq<(String, String)>, after: Seq<(String, String)>,
    name: Seq<char>, value: Seq<char>, other: Seq<char>)
    requires
        header_value(after, name) == Some(value),
        forall|n: Seq<char>| n != name ==> #[trigger] header_value(after, n) == header_value(before, n),
    ensures
        header_value(after, name) == Some(value),
        other != name ==> header_value(after, other) == header_value(before, other),
{
}

} // verus!
