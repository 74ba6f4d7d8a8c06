//! Decisions around the hosting service: the clone URL that carries the
//! token, and how a failed fetch or clone is reported.
use vstd::prelude::*;

use crate::text::{chars_of, concat_chars, has_infix, has_prefix, matches_at, string_from_chars};

verus! {

/// Why fetching a repository's metadata failed.
#[derive(Clone, Debug)]
pub enum FetchError {
    /// The token was rejected.
    Unauthorized,
    /// The token may not read the repository.
    Forbidden,
    /// No such repository, or not visible with the token.
    NotFound,
    /// Any other status, with the response body.
    Other { status: u16, body: String },
}

/// Why cloning a repository failed.
#[derive(Clone, Debug)]
pub enum CloneError {
    /// The credentials were refused.
    AuthFailure,
    /// Anything else, with the tool's error output.
    Failed { message: String },
}

/// The error for a metadata request that ended with a non-success `status`.
pub fn fetch_error(status: u16, body: String) -> (r: FetchError)
    ensures
        status == 401 ==> r is Unauthorized,
        status == 403 ==> r is Forbidden,
        status == 404 ==> r is NotFound,
        status != 401 && status != 403 && status != 404 ==> (r matches FetchError::Other {
            status: s,
            body: b,
        } && s == status && b@ == body@),
{
    if status == 401 {
        FetchError::Unauthorized
    } else if status == 403 {
        FetchError::Forbidden
    } else if status == 404 {
        FetchError::NotFound
    } else {
        FetchError::Other { status, body }
    }
}

/// A clone's error output names a credentials problem.
pub open spec fn is_auth_failure(stderr: Seq<char>) -> bool {
    has_infix(stderr, "Authentication failed"@) || has_infix(stderr, "access denied"@)
}

/// The error for a clone that failed with the error output `stderr`.
pub fn classify_clone_failure(stderr: &str) -> (r: CloneError)
    ensures
        is_auth_failure(stderr@) ==> r is AuthFailure,
        !is_auth_failure(stderr@) ==> (r matches CloneError::Failed { message: m } && m@
            == stderr@),
{
    let s = chars_of(stderr);
    let a = chars_of("Authentication failed");
    let d = chars_of("access denied");
    if crate::text::contains(s.as_slice(), a.as_slice()) || crate::text::contains(
        s.as_slice(),
        d.as_slice(),
    ) {
        CloneError::AuthFailure
    } else {
        CloneError::Failed { message: string_from_chars(&s) }
    }
}

/// `s` with every occurrence of the non-empty `from`, found left to right
/// without overlap, replaced by `to`.
pub open spec fn replace_all(s: Seq<char>, from: Seq<char>, to: Seq<char>) -> Seq<char>
    decreases s.len(),
{
    if from.len() == 0 || s.len() < from.len() {
        s
    } else if has_prefix(s, from) {
        to + replace_all(s.skip(from.len() as int), from, to)
    } else {
        seq![s[0]] + replace_all(s.skip(1), from, to)
    }
}

/// The clone URL with the token spliced in: a URL on the public host
/// (`https://github.com/...`) gets `https://{token}@github.com/` in place of
/// each occurrence of that prefix; any other URL is left as it is.
pub open spec fn authenticated_url(url: Seq<char>, token: Seq<char>) -> Seq<char> {
    if has_prefix(url, "https://github.com/"@) {
        replace_all(url, "https://github.com/"@, "https://"@ + token + "@github.com/"@)
    } else {
        url
    }
}

/// `s` with every occurrence of the non-empty `from` replaced by `to`.
fn replace_chars(s: &Vec<char>, from: &Vec<char>, to: &Vec<char>) -> (r: Vec<char>)
    requires
        from@.len() > 0,
    ensures
        r@ == replace_all(s@, from@, to@),
{
    let mut out: Vec<char> = Vec::new();
    let mut i: usize = 0;
    proof {
        assert(s@.skip(0) =~= s@);
        assert(out@ + s@ =~= s@);
    }
    while i < s.len()
        invariant
            i <= s.len(),
            from@.len() > 0,
            out@ + replace_all(s@.skip(i as int), from@, to@) == replace_all(s@, from@, to@),
        decreases s.len() - i,
    {
        let ghost rest = s@.skip(i as int);
        if from.len() <= s.len() - i && matches_at(s.as_slice(), from.as_slice(), i) {
            proof {
                assert(rest.subrange(0, from@.len() as int) =~= s@.subrange(
                    i as int,
                    i + from@.len(),
                ));
                assert(rest.skip(from@.len() as int) =~= s@.skip(i + from@.len()));
            }
            let mut k: usize = 0;
            let ghost out0 = out@;
            while k < to.len()
                invariant
                    k <= to.len(),
                    out@ == out0 + to@.take(k as int),
                decreases to.len() - k,
            {
                out.push(to[k]);
                k = k + 1;
                proof {
                    assert(out@ =~= out0 + to@.take(k as int));
                }
            }
            proof {
                assert(to@.take(k as int) =~= to@);
                assert(out@ + replace_all(s@.skip(i + from@.len()), from@, to@) =~= out0
                    + replace_all(rest, from@, to@));
            }
            i = i + from.len();
        } else {
            proof {
                if rest.len() >= from@.len() {
                    assert(rest.subrange(0, from@.len() as int) =~= s@.subrange(
                        i as int,
                        i + from@.len(),
                    ));
                    assert(!has_prefix(rest, from@));
                }
                assert(rest.skip(1) =~= s@.skip(i + 1));
                assert(rest[0] == s@[i as int]);
            }
            let ghost out0 = out@;
            out.push(s[i]);
            proof {
                assert(out@ + replace_all(s@.skip(i + 1), from@, to@) =~= out0 + replace_all(
                    rest,
                    from@,
                    to@,
                ));
            }
            i = i + 1;
        }
    }
    proof {
        assert(s@.skip(i as int) =~= Seq::<char>::empty());
        assert(out@ =~= out@ + Seq::<char>::empty());
    }
    out
}

/// The clone URL with the token spliced in, for cloning private
/// repositories.
pub fn authenticated_clone_url(clone_url: &str, token: &str) -> (r: String)
    ensures
        r@ == authenticated_url(clone_url@, token@),
{
    let url = chars_of(clone_url);
    let host = chars_of("https://github.com/");
    proof {
        reveal_strlit("https://github.com/");
    }
    if !crate::text::starts_with(url.as_slice(), host.as_slice()) {
        return string_from_chars(&url);
    }
    let scheme = chars_of("https://");
    let tok = chars_of(token);
    let tail = chars_of("@github.com/");
    let with_token = concat_chars(&concat_chars(&scheme, &tok), &tail);
    let out = replace_chars(&url, &host, &with_token);
    string_from_chars(&out)
}

} // verus!
