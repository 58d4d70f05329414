//! How a provider request is addressed and retried, and what a failed
//! response is reported as.
use crate::model::is_uuid_text;
use crate::text::{chars_of, concat, decimal, decimal_string, has_suffix, is_white, push_str, range_string, white};
use vstd::prelude::*;

verus! {

/// The credential a connection authenticates with.
#[derive(Debug, Clone, PartialEq, Eq)]
pub enum Credential {
    ApiKey(String),
    Codex { access_token: String, account_id: String },
}

/// `s` without the `/` characters that end it.
pub open spec fn trim_end_slashes(s: Seq<char>) -> Seq<char>
    decreases s.len(),
{
    if s.len() > 0 && s.last() == '/' {
        trim_end_slashes(s.drop_last())
    } else {
        s
    }
}

/// Where a request goes: a Codex credential on a base URL ending in
/// `/codex` sends to its `responses` endpoint; otherwise the base URL.
pub open spec fn url_of(base_url: Seq<char>, codex: bool) -> Seq<char> {
    if codex && has_suffix(base_url, "/codex"@) {
        trim_end_slashes(base_url) + "/responses"@
    } else {
        base_url
    }
}

/// The URL a request is sent to.
pub fn request_url(base_url: &str, credential: &Option<Credential>) -> (r: String)
    ensures
        r@ == url_of(base_url@, credential matches Some(Credential::Codex { .. })),
{
    let codex = match credential {
        Some(Credential::Codex { .. }) => true,
        _ => false,
    };
    let b = chars_of(base_url);
    if codex && crate::text::ends_with(&b, &chars_of("/codex")) {
        let mut k = b.len();
        assert(b@.take(k as int) =~= b@);
        while k > 0 && b[k - 1] == '/'
            invariant
                k <= b@.len(),
                trim_end_slashes(b@) == trim_end_slashes(b@.take(k as int)),
            decreases k,
        {
            assert(b@.take(k as int).drop_last() =~= b@.take(k - 1));
            assert(b@.take(k as int).last() == b@[k - 1]);
            k = k - 1;
        }
        proof {
            if k > 0 {
                assert(b@.take(k as int).last() == b@[k - 1]);
            }
        }
        let mut r = range_string(&b, 0, k);
        assert(r@ =~= b@.take(k as int));
        push_str(&mut r, "/responses");
        r
    } else {
        base_url.to_owned()
    }
}

/// The headers a credential adds to a request: a bearer token for an API
/// key; for Codex the bearer token, the account, the client's identity and
/// version, and a session id.
pub open spec fn credential_headers(c: Option<Credential>, session_id: Seq<char>) -> Seq<(Seq<char>, Seq<char>)> {
    match c {
        Some(Credential::ApiKey(k)) => seq![("Authorization"@, "Bearer "@ + k@)],
        Some(Credential::Codex { access_token, account_id }) => seq![
            ("Authorization"@, "Bearer "@ + access_token@),
            ("ChatGPT-Account-ID"@, account_id@),
            ("originator"@, "codex_cli_rs"@),
            ("openai-beta"@, "responses=experimental"@),
            ("Version"@, "0.144.4"@),
            ("Session_Id"@, session_id),
        ],
        None => Seq::empty(),
    }
}

/// The headers of a request: the credential's, then the connection's own;
/// `session_id` is the fresh id a Codex request carries.
pub fn request_headers(
    credential: &Option<Credential>,
    extra: &Vec<(String, String)>,
    session_id: &str,
) -> (r: Vec<(String, String)>)
    ensures
        crate::config::pair_views(r@) == credential_headers(*credential, session_id@) + crate::config::pair_views(
            extra@,
        ),
{
    let sid = session_id.to_owned();
    let mut r: Vec<(String, String)> = Vec::new();
    match credential {
        Some(Credential::ApiKey(k)) => {
            r.push(("Authorization".to_owned(), concat("Bearer ", k.as_str())));
        },
        Some(Credential::Codex { access_token, account_id }) => {
            r.push(("Authorization".to_owned(), concat("Bearer ", access_token.as_str())));
            r.push(("ChatGPT-Account-ID".to_owned(), account_id.clone()));
            r.push(("originator".to_owned(), "codex_cli_rs".to_owned()));
            r.push(("openai-beta".to_owned(), "responses=experimental".to_owned()));
            r.push(("Version".to_owned(), "0.144.4".to_owned()));
            r.push(("Session_Id".to_owned(), sid.clone()));
        },
        None => {},
    }
    let ghost head = crate::config::pair_views(r@);
    assert(head =~= credential_headers(*credential, sid@));
    let mut i: usize = 0;
    assert(crate::config::pair_views(extra@).take(0) =~= Seq::<(Seq<char>, Seq<char>)>::empty());
    assert(crate::config::pair_views(r@) =~= head + crate::config::pair_views(extra@).take(0));
    while i < extra.len()
        invariant
            i <= extra@.len(),
            crate::config::pair_views(r@) == head + crate::config::pair_views(extra@).take(i as int),
        decreases extra@.len() - i,
    {
        let ghost prev = r@;
        r.push((extra[i].0.clone(), extra[i].1.clone()));
        assert(crate::config::pair_views(r@) =~= crate::config::pair_views(prev).push((extra@[i as int].0@, extra@[i as int].1@)));
        assert(crate::config::pair_views(extra@).take(i + 1) =~= crate::config::pair_views(extra@).take(i as int).push(
            (extra@[i as int].0@, extra@[i as int].1@),
        ));
        i = i + 1;
    }
    assert(crate::config::pair_views(extra@).take(i as int) =~= crate::config::pair_views(extra@));
    r
}

/// How many times a request is retried after its first attempt.
pub open spec fn retries() -> nat {
    2
}

/// What follows a failed attempt: a pause of 50 ms per attempt made before
/// trying again, or giving up after the last retry.
pub fn retry_delay_ms(attempt: usize) -> (r: Option<u64>)
    ensures
        attempt < retries() ==> r == Some((50 * (attempt + 1)) as u64),
        attempt >= retries() ==> r is None,
{
    if attempt < 2 {
        Some(50 * (attempt as u64 + 1))
    } else {
        None
    }
}

/// `s` without leading whitespace.
pub open spec fn trim_start(s: Seq<char>) -> Seq<char>
    decreases s.len(),
{
    if s.len() > 0 && is_white(s[0]) {
        trim_start(s.skip(1))
    } else {
        s
    }
}

/// `s` without trailing whitespace.
pub open spec fn trim_end(s: Seq<char>) -> Seq<char>
    decreases s.len(),
{
    if s.len() > 0 && is_white(s.last()) {
        trim_end(s.drop_last())
    } else {
        s
    }
}

/// `s` without leading or trailing whitespace (`str::trim`).
pub open spec fn trimmed(s: Seq<char>) -> Seq<char> {
    trim_end(trim_start(s))
}

/// The report of a response with a failure status: the status and the
/// trimmed body, cut to its first 2000 characters and `...` where longer.
pub open spec fn status_report(code: u16, body: Seq<char>) -> Seq<char> {
    let t = trimmed(body);
    "HTTP status "@ + decimal(code as nat) + ": "@ + if t.len() > 2000 {
        t.take(2000) + "..."@
    } else {
        t
    }
}

/// The report of a response with a failure status.
pub fn status_message(code: u16, body: &str) -> (m: String)
    ensures
        m@ == status_report(code, body@),
{
    let c = chars_of(body);
    let mut a: usize = 0;
    assert(c@.skip(0) =~= c@);
    while a < c.len() && white(c[a])
        invariant
            a <= c@.len(),
            trim_start(c@) == trim_start(c@.skip(a as int)),
        decreases c@.len() - a,
    {
        assert(c@.skip(a as int)[0] == c@[a as int]);
        assert(c@.skip(a as int).skip(1) =~= c@.skip(a + 1));
        a = a + 1;
    }
    proof {
        if a < c@.len() {
            assert(c@.skip(a as int)[0] == c@[a as int]);
        } else {
            assert(c@.skip(a as int).len() == 0);
        }
    }
    let ghost start = c@.skip(a as int);
    let mut b: usize = c.len();
    assert(start.take((b - a) as int) =~= start);
    while b > a && white(c[b - 1])
        invariant
            a <= b <= c@.len(),
            start == c@.skip(a as int),
            trim_end(start) == trim_end(start.take((b - a) as int)),
        decreases b,
    {
        assert(start.take((b - a) as int).drop_last() =~= start.take((b - 1 - a) as int));
        assert(start.take((b - a) as int).last() == c@[b - 1]);
        b = b - 1;
    }
    proof {
        if b > a {
            assert(start.take((b - a) as int).last() == c@[b - 1]);
        }
    }
    assert(c@.subrange(a as int, b as int) =~= start.take((b - a) as int));
    let mut m = concat("HTTP status ", decimal_string(code as u64).as_str());
    push_str(&mut m, ": ");
    if b - a > 2000 {
        let t = range_string(&c, a, a + 2000);
        assert(t@ =~= trimmed(body@).take(2000));
        push_str(&mut m, t.as_str());
        push_str(&mut m, "...");
    } else {
        let t = range_string(&c, a, b);
        push_str(&mut m, t.as_str());
    }
    m
}

} // verus!
