use vstd::prelude::*;

verus! {

use crate::errors::CliError;
use crate::text::{chars_to_string, push_str_chars, str_to_chars};

/// The base URL with every trailing slash removed.
pub open spec fn trim_trailing_slashes(s: Seq<char>) -> Seq<char>
    decreases s.len(),
{
    if s.len() > 0 && s[s.len() - 1] == '/' {
        trim_trailing_slashes(s.drop_last())
    } else {
        s
    }
}

/// Issues one authenticated request per call against a fixed base URL with a
/// fixed bearer key. Holds no other state; the transport itself lives with
/// the caller, which hands back the raw status and body.
pub struct ApiClient {
    pub base_url: String,
    pub api_key: String,
}

impl ApiClient {
    /// A client whose base URL is the given one with trailing slashes
    /// stripped, carrying the key unchanged.
    pub fn new(base_url: String, api_key: String) -> (r: ApiClient)
        ensures
            r.base_url@ == trim_trailing_slashes(base_url@),
            r.api_key@ == api_key@,
    {
        let chars = str_to_chars(base_url.as_str());
        let mut end: usize = chars.len();
        proof {
            assert(chars@.subrange(0, end as int) =~= chars@);
        }
        while end > 0 && chars[end - 1] == '/'
            invariant
                end <= chars@.len(),
                trim_trailing_slashes(base_url@) == trim_trailing_slashes(
                    chars@.subrange(0, end as int),
                ),
            decreases end,
        {
            proof {
                let t = chars@.subrange(0, end as int);
                assert(t[t.len() - 1] == '/');
                assert(t.drop_last() =~= chars@.subrange(0, end - 1 as int));
            }
            end = end - 1;
        }
        proof {
            let t = chars@.subrange(0, end as int);
            if end > 0 {
                assert(t[t.len() - 1] != '/');
                assert(trim_trailing_slashes(t) == t);
            } else {
                assert(t =~= Seq::<char>::empty());
                assert(trim_trailing_slashes(t) == t);
            }
        }
        let mut prefix: Vec<char> = Vec::new();
        let mut i: usize = 0;
        while i < end
            invariant
                i <= end,
                end <= chars@.len(),
                prefix@ == chars@.subrange(0, i as int),
            decreases end - i,
        {
            prefix.push(chars[i]);
            i = i + 1;
            proof {
                assert(prefix@ =~= chars@.subrange(0, i as int));
            }
        }
        ApiClient { base_url: chars_to_string(&prefix), api_key }
    }

    /// The absolute URL for a request: the base followed by the given path.
    pub fn request_url(&self, path: &str) -> (r: String)
        ensures
            r@ == self.base_url@ + path@,
    {
        let mut out: Vec<char> = Vec::new();
        push_str_chars(&mut out, self.base_url.as_str());
        push_str_chars(&mut out, path);
        chars_to_string(&out)
    }
}

/// The uniform response gate shared by every operation: a success status
/// passes the body through for decoding; any other status fails with exactly
/// that status and the raw body text, and nothing is decoded.
pub fn check_status(status: u16, body: String) -> (r: Result<String, CliError>)
    ensures
        match r {
            Ok(b) => 200 <= status < 300 && b == body,
            Err(e) => !(200 <= status < 300) && e == (CliError::Request { status, body }),
        },
{
    if 200 <= status && status < 300 {
        Ok(body)
    } else {
        Err(CliError::Request { status, body })
    }
}

} // verus!
