//! Splitting the collector's base URI into what the reporter needs:
//! the authority (host, with its port if one is spelled) and the
//! request path.

use vstd::prelude::*;
use vstd::string::StrSliceExecFns;

verus! {

/// Where the reporter sends its reports: the authority to connect to
/// and to name in the `Host` header, and the path of the request line.
#[derive(Debug)]
pub struct CollectorUri {
    pub authority: String,
    pub path: String,
}

impl Clone for CollectorUri {
    fn clone(&self) -> (r: CollectorUri)
        ensures
            r.authority@ == self.authority@,
            r.path@ == self.path@,
    {
        CollectorUri { authority: self.authority.clone(), path: self.path.clone() }
    }
}

/// The number of characters before the first `/`, or the whole length
/// when there is none.
pub open spec fn pre_slash_len(s: Seq<char>) -> int
    decreases s.len(),
{
    if s.len() == 0 || s[0] == '/' {
        0
    } else {
        1 + pre_slash_len(s.skip(1))
    }
}

/// How a collector base URI splits: it must start with `http://` and
/// name a non-empty authority; the path is what follows the authority,
/// or `/` when nothing does.
pub open spec fn split_uri_spec(s: Seq<char>) -> Option<(Seq<char>, Seq<char>)> {
    if s.len() < 7 || s.take(7) != "http://"@ {
        Option::None
    } else {
        let rest = s.skip(7);
        let h = pre_slash_len(rest);
        if h == 0 {
            Option::None
        } else if h == rest.len() {
            Option::Some((rest, "/"@))
        } else {
            Option::Some((rest.take(h), rest.skip(h)))
        }
    }
}

/// Splits a collector base URI, or refuses it when it does not start
/// with `http://` or names no host.
pub fn split_uri(s: &String) -> (r: Option<CollectorUri>)
    ensures
        match r {
            Option::Some(u) => split_uri_spec(s@) == Option::Some((u.authority@, u.path@)),
            Option::None => split_uri_spec(s@) == Option::<(Seq<char>, Seq<char>)>::None,
        },
{
    proof {
        reveal_strlit("http://");
    }
    let n = s.as_str().unicode_len();
    if n < 7 {
        return Option::None;
    }
    let scheme_ok = s.as_str().get_char(0) == 'h' && s.as_str().get_char(1) == 't'
        && s.as_str().get_char(2) == 't' && s.as_str().get_char(3) == 'p' && s.as_str().get_char(4)
        == ':' && s.as_str().get_char(5) == '/' && s.as_str().get_char(6) == '/';
    if !scheme_ok {
        proof {
            assert(s@.take(7) != "http://"@) by {
                reveal_strlit("http://");
                if s@.take(7) == "http://"@ {
                    assert(s@.take(7)[0] == s@[0]);
                    assert(s@.take(7)[1] == s@[1]);
                    assert(s@.take(7)[2] == s@[2]);
                    assert(s@.take(7)[3] == s@[3]);
                    assert(s@.take(7)[4] == s@[4]);
                    assert(s@.take(7)[5] == s@[5]);
                    assert(s@.take(7)[6] == s@[6]);
                    assert(false);
                }
            }
        }
        return Option::None;
    }
    proof {
        assert(s@.take(7) =~= "http://"@);
    }
    let ghost rest = s@.skip(7);
    let mut i: usize = 7;
    proof {
        assert(rest.skip(0) =~= rest);
    }
    while i < n && s.as_str().get_char(i) != '/'
        invariant
            7 <= i <= n,
            n == s@.len(),
            s@.take(7) == "http://"@,
            rest == s@.skip(7),
            pre_slash_len(rest) == (i - 7) + pre_slash_len(rest.skip(i - 7)),
        decreases n - i,
    {
        proof {
            assert(rest.skip(i - 7)[0] == s@[i as int]);
            assert(rest.skip(i - 7).skip(1) =~= rest.skip(i - 7 + 1));
        }
        i += 1;
    }
    proof {
        if i < n {
            assert(rest.skip(i - 7)[0] == s@[i as int]);
        }
        assert(pre_slash_len(rest.skip(i - 7)) == 0);
        assert(pre_slash_len(rest) == i - 7);
    }
    if i == 7 {
        return Option::None;
    }
    let authority = s.as_str().substring_char(7, i).to_owned();
    proof {
        assert(s@.subrange(7, i as int) =~= rest.take(i - 7));
    }
    if i == n {
        let path = "/".to_owned();
        proof {
            assert(rest.take(i - 7) =~= rest);
        }
        Option::Some(CollectorUri { authority, path })
    } else {
        let path = s.as_str().substring_char(i, n).to_owned();
        proof {
            assert(s@.subrange(i as int, n as int) =~= rest.skip(i - 7));
        }
        Option::Some(CollectorUri { authority, path })
    }
}

} // verus!
