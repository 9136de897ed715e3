use vstd::prelude::*;

use crate::types::Url;
use vstd::string::StrSliceExecFns;
use vstd::string::StringExecFns;

verus! {

/// Whether `p` is a prefix of `s`.
pub open spec fn str_prefix(s: Seq<char>, p: Seq<char>) -> bool {
    p.len() <= s.len() && s.subrange(0, p.len() as int) == p
}

/// The scheme a short link is published under: plain HTTP for a local
/// development host, HTTPS otherwise.
pub open spec fn scheme_of(domain: Seq<char>) -> Seq<char> {
    if str_prefix(domain, "localhost"@) {
        "http://"@
    } else {
        "https://"@
    }
}

/// The fully qualified short link for code `id` under the public `domain`.
pub open spec fn short_url_of(domain: Seq<char>, id: Seq<char>) -> Seq<char> {
    scheme_of(domain) + domain + "/"@ + id
}

/// Character-for-character string equality.
pub fn str_eq(a: &str, b: &str) -> (r: bool)
    ensures
        r == (a@ == b@),
{
    let alen = a.unicode_len();
    let blen = b.unicode_len();
    if alen != blen {
        return false;
    }
    let mut i: usize = 0;
    while i < alen
        invariant
            alen == a@.len(),
            blen == b@.len(),
            alen == blen,
            i <= alen,
            forall|j: int| 0 <= j < i ==> a@[j] == b@[j],
        decreases alen - i,
    {
        if a.get_char(i) != b.get_char(i) {
            return false;
        }
        i = i + 1;
    }
    proof {
        assert(a@ =~= b@);
    }
    true
}

/// Whether the string `s` starts with `p`.
pub fn has_prefix(s: &str, p: &str) -> (r: bool)
    ensures
        r == str_prefix(s@, p@),
{
    let slen = s.unicode_len();
    let plen = p.unicode_len();
    if plen > slen {
        return false;
    }
    let mut i: usize = 0;
    while i < plen
        invariant
            slen == s@.len(),
            plen == p@.len(),
            plen <= slen,
            i <= plen,
            forall|j: int| 0 <= j < i ==> s@[j] == p@[j],
        decreases plen - i,
    {
        if s.get_char(i) != p.get_char(i) {
            return false;
        }
        i = i + 1;
    }
    proof {
        assert(s@.subrange(0, p@.len() as int) =~= p@);
    }
    true
}

/// Builds the fully qualified short link of a record from the configured
/// public domain.
pub trait BuildUrl {
    spec fn short_url(&self, domain: Seq<char>) -> Seq<char>;

    fn build_url(&self, domain: &str) -> (r: String)
        ensures
            r@ == self.short_url(domain@),
    ;
}

impl BuildUrl for Url {
    open spec fn short_url(&self, domain: Seq<char>) -> Seq<char> {
        short_url_of(domain, self.id@)
    }

    fn build_url(&self, domain: &str) -> (r: String) {
        let scheme: &str = if has_prefix(domain, "localhost") {
            "http://"
        } else {
            "https://"
        };
        let mut out = scheme.to_owned();
        out.append(domain);
        out.append("/");
        out.append(self.id.as_str());
        out
    }
}

} // verus!
