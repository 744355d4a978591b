//! Where the controller lives and how its requests are addressed.
use vstd::prelude::*;

use crate::text::{chars_of, concat, concat3, string_from_range};

verus! {

/// `s` without its trailing `/` characters.
pub open spec fn strip_trailing_slashes(s: Seq<char>) -> Seq<char>
    decreases s.len(),
{
    if s.len() > 0 && s.last() == '/' {
        strip_trailing_slashes(s.drop_last())
    } else {
        s
    }
}

/// The controller's base URL and its optional secret.
pub struct ClashEndpoint {
    base: String,
    secret: Option<String>,
}

pub const VERSION_PATH: &'static str = "/version";

pub const PROXIES_PATH: &'static str = "/proxies";

pub const CONNECTIONS_PATH: &'static str = "/connections";

impl ClashEndpoint {
    pub closed spec fn base_view(&self) -> Seq<char> {
        self.base@
    }

    pub closed spec fn secret_view(&self) -> Option<Seq<char>> {
        match self.secret {
            Some(s) => Some(s@),
            None => None,
        }
    }

    /// An endpoint for `base` (trailing slashes dropped) with `secret`.
    pub fn new(base: &str, secret: Option<String>) -> (r: Self)
        ensures
            r.base_view() == strip_trailing_slashes(base@),
            r.secret_view() == match secret {
                Some(s) => Some(s@),
                None => None::<Seq<char>>,
            },
    {
        let v = chars_of(base);
        let mut end = v.len();
        assert(v@.subrange(0, v.len() as int) =~= v@);
        while end > 0 && v[end - 1] == '/'
            invariant
                end <= v.len(),
                v@ == base@,
                strip_trailing_slashes(base@) == strip_trailing_slashes(v@.subrange(0, end as int)),
            decreases end,
        {
            assert(v@.subrange(0, end as int).drop_last() =~= v@.subrange(0, end - 1));
            end = end - 1;
        }
        ClashEndpoint { base: string_from_range(&v, 0, end), secret }
    }

    /// The base URL, without trailing slashes.
    pub fn base(&self) -> (r: &str)
        ensures
            r@ == self.base_view(),
    {
        self.base.as_str()
    }

    /// The secret sent as a bearer token, if any.
    pub fn secret(&self) -> (r: Option<&String>)
        ensures
            match r {
                Some(s) => self.secret_view() == Some(s@),
                None => self.secret_view() is None,
            },
    {
        match &self.secret {
            Some(s) => Some(s),
            None => None,
        }
    }

    /// The full URL of `path`.
    pub fn url(&self, path: &str) -> (r: String)
        ensures
            r@ == self.base_view() + path@,
    {
        concat(self.base.as_str(), path)
    }
}

/// The path that selects a member of `group`.
pub fn select_path(group: &str) -> (r: String)
    ensures
        r@ == "/proxies/"@ + group@,
{
    concat("/proxies/", group)
}

/// The path that runs a delay test of every member of `group`.
pub fn group_delay_path(group: &str) -> (r: String)
    ensures
        r@ == "/group/"@ + group@
            + "/delay?url=http%3A%2F%2Fwww.gstatic.com%2Fgenerate_204&timeout=3000"@,
{
    concat3("/group/", group, "/delay?url=http%3A%2F%2Fwww.gstatic.com%2Fgenerate_204&timeout=3000")
}

/// A base URL never ends in `/`, so `url(path)` joins it to a `/`-led path
/// without doubling the slash.
pub proof fn law_base_has_no_trailing_slash(s: Seq<char>)
    ensures
        strip_trailing_slashes(s).len() == 0 || strip_trailing_slashes(s).last() != '/',
        strip_trailing_slashes(s).len() <= s.len(),
        strip_trailing_slashes(s) == s.take(strip_trailing_slashes(s).len() as int),
    decreases s.len(),
{
    if s.len() > 0 && s.last() == '/' {
        law_base_has_no_trailing_slash(s.drop_last());
        let t = strip_trailing_slashes(s.drop_last());
        assert(t.len() <= s.drop_last().len());
        assert(s.drop_last().take(t.len() as int) =~= s.take(t.len() as int));
    } else {
        assert(s.take(s.len() as int) =~= s);
    }
}

} // verus!
