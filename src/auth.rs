//! The bearer challenge of a registry: the `WWW-Authenticate` header
//! `Bearer realm="…",service="…",scope="…"`.
use vstd::prelude::*;
use vstd::string::StrSliceExecFns;
use vstd::string::StringExecFns;

verus! {

/// Index of the first `"` in `s` at or after `i`, or `-1`.
pub open spec fn next_quote(s: Seq<char>, i: int) -> int
    decreases s.len() - i,
{
    if i < 0 || i >= s.len() {
        -1
    } else if s[i] == '"' {
        i
    } else {
        next_quote(s, i + 1)
    }
}

proof fn lemma_next_quote_bounds(s: Seq<char>, i: int)
    ensures
        next_quote(s, i) == -1 || (i <= next_quote(s, i) < s.len() && s[next_quote(s, i)] == '"'),
    decreases s.len() - i,
{
    if 0 <= i < s.len() && s[i] != '"' {
        lemma_next_quote_bounds(s, i + 1);
    }
}

/// The first quoted value at or after `i` (text before its opening quote
/// is skipped) and the index after its closing quote.
pub open spec fn quoted_from(s: Seq<char>, i: int) -> Option<(Seq<char>, int)> {
    let a = next_quote(s, i);
    if a < 0 {
        None
    } else {
        let b = next_quote(s, a + 1);
        if b < 0 {
            None
        } else {
            Some((s.subrange(a + 1, b), b + 1))
        }
    }
}

/// The three quoted values of a challenge, in order.
pub open spec fn challenge_fields(s: Seq<char>) -> Option<(Seq<char>, Seq<char>, Seq<char>)> {
    match quoted_from(s, 0) {
        None => None,
        Some((realm, i)) => match quoted_from(s, i) {
            None => None,
            Some((service, j)) => match quoted_from(s, j) {
                None => None,
                Some((scope, _)) => Some((realm, service, scope)),
            },
        },
    }
}

/// A parsed bearer challenge.
pub struct WwwAuthenticate {
    pub realm: String,
    pub service: String,
    pub scope: String,
}

/// The header does not hold three quoted values.
#[derive(Debug, PartialEq, Eq, Clone, Copy, Structural)]
pub enum AuthError {
    Malformed,
}

fn find_quote(s: &str, n: usize, from: usize) -> (r: Option<usize>)
    requires
        n == s@.len(),
        from <= n,
    ensures
        match r {
            Some(k) => k == next_quote(s@, from as int) && k < n,
            None => next_quote(s@, from as int) == -1,
        },
{
    let mut i: usize = from;
    while i < n
        invariant
            n == s@.len(),
            from <= i <= n,
            next_quote(s@, from as int) == next_quote(s@, i as int),
        decreases n - i,
    {
        if s.get_char(i) == '"' {
            return Some(i);
        }
        i = i + 1;
    }
    None
}

fn quoted(s: &str, n: usize, from: usize) -> (r: Option<(String, usize)>)
    requires
        n == s@.len(),
        from <= n,
    ensures
        match quoted_from(s@, from as int) {
            Some((v, e)) => r matches Some(p) && p.0@ == v && p.1 == e && p.1 <= n,
            None => r is None,
        },
{
    let a = match find_quote(s, n, from) {
        Some(a) => a,
        None => return None,
    };
    let b = match find_quote(s, n, a + 1) {
        Some(b) => b,
        None => return None,
    };
    proof {
        lemma_next_quote_bounds(s@, a + 1);
    }
    Some((String::from_str(s.substring_char(a + 1, b)), b + 1))
}

impl WwwAuthenticate {
    /// Reads the realm, service and scope of a bearer challenge.
    pub fn parse(input: &str) -> (r: Result<WwwAuthenticate, AuthError>)
        ensures
            match challenge_fields(input@) {
                Some((realm, service, scope)) => r matches Ok(w) && w.realm@ == realm
                    && w.service@ == service && w.scope@ == scope,
                None => r == Err::<WwwAuthenticate, AuthError>(AuthError::Malformed),
            },
    {
        let n = input.unicode_len();
        let (realm, i) = match quoted(input, n, 0) {
            Some(p) => p,
            None => return Err(AuthError::Malformed),
        };
        let (service, j) = match quoted(input, n, i) {
            Some(p) => p,
            None => return Err(AuthError::Malformed),
        };
        let (scope, _) = match quoted(input, n, j) {
            Some(p) => p,
            None => return Err(AuthError::Malformed),
        };
        Ok(WwwAuthenticate { realm, service, scope })
    }
}

} // verus!
