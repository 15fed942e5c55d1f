use vstd::prelude::*;
use vstd::string::StrSliceExecFns;
use vstd::string::StringExecFns;

use crate::error::CliError;
use crate::text::lemma_trim_shape;
use crate::text::trim_spec;
use crate::text::trim_str;

verus! {

/// The scheme prefix `http://`.
pub open spec fn http_prefix() -> Seq<char> {
    seq!['h', 't', 't', 'p', ':', '/', '/']
}

/// The scheme prefix `https://`.
pub open spec fn https_prefix() -> Seq<char> {
    seq!['h', 't', 't', 'p', 's', ':', '/', '/']
}

pub open spec fn starts_with(s: Seq<char>, p: Seq<char>) -> bool {
    s.len() >= p.len() && s.subrange(0, p.len() as int) == p
}

/// The sequence with every trailing `/` removed.
pub open spec fn strip_trailing_slashes(s: Seq<char>) -> Seq<char>
    decreases s.len(),
{
    if s.len() > 0 && s.last() == '/' {
        strip_trailing_slashes(s.drop_last())
    } else {
        s
    }
}

/// A base URL is acceptable when, after trimming and slash-stripping, it
/// still carries an `http://` or `https://` scheme.
pub open spec fn normalized_base(s: Seq<char>) -> Seq<char> {
    strip_trailing_slashes(trim_spec(s))
}

pub open spec fn has_scheme(s: Seq<char>) -> bool {
    starts_with(s, http_prefix()) || starts_with(s, https_prefix())
}

fn has_prefix_http(s: &str) -> (b: bool)
    ensures
        b == starts_with(s@, http_prefix()),
{
    let n: usize = s.unicode_len();
    let r = n >= 7 && s.get_char(0) == 'h' && s.get_char(1) == 't' && s.get_char(2) == 't'
        && s.get_char(3) == 'p' && s.get_char(4) == ':' && s.get_char(5) == '/' && s.get_char(6)
        == '/';
    proof {
        if r {
            assert(s@.subrange(0, 7) =~= http_prefix());
        } else if s@.len() >= 7 && s@.subrange(0, 7) == http_prefix() {
            assert(s@[0] == http_prefix()[0]);
            assert(s@[1] == http_prefix()[1]);
            assert(s@[2] == http_prefix()[2]);
            assert(s@[3] == http_prefix()[3]);
            assert(s@[4] == http_prefix()[4]);
            assert(s@[5] == http_prefix()[5]);
            assert(s@[6] == http_prefix()[6]);
        }
    }
    r
}

fn has_prefix_https(s: &str) -> (b: bool)
    ensures
        b == starts_with(s@, https_prefix()),
{
    let n: usize = s.unicode_len();
    let r = n >= 8 && s.get_char(0) == 'h' && s.get_char(1) == 't' && s.get_char(2) == 't'
        && s.get_char(3) == 'p' && s.get_char(4) == 's' && s.get_char(5) == ':' && s.get_char(6)
        == '/' && s.get_char(7) == '/';
    proof {
        if r {
            assert(s@.subrange(0, 8) =~= https_prefix());
        } else if s@.len() >= 8 && s@.subrange(0, 8) == https_prefix() {
            assert(s@[0] == https_prefix()[0]);
            assert(s@[1] == https_prefix()[1]);
            assert(s@[2] == https_prefix()[2]);
            assert(s@[3] == https_prefix()[3]);
            assert(s@[4] == https_prefix()[4]);
            assert(s@[5] == https_prefix()[5]);
            assert(s@[6] == https_prefix()[6]);
            assert(s@[7] == https_prefix()[7]);
        }
    }
    r
}

/// Removes every trailing `/` from a string.
fn strip_slashes_str(s: &str) -> (r: String)
    ensures
        r@ == strip_trailing_slashes(s@),
{
    let n: usize = s.unicode_len();
    proof {
        assert(s@.subrange(0, n as int) =~= s@);
    }
    let mut b: usize = n;
    while b > 0 && s.get_char(b - 1) == '/'
        invariant
            n == s@.len(),
            0 <= b <= n,
            strip_trailing_slashes(s@) == strip_trailing_slashes(s@.subrange(0, b as int)),
        decreases b,
    {
        proof {
            assert(s@.subrange(0, b as int).drop_last() =~= s@.subrange(0, b as int - 1));
        }
        b = b - 1;
    }
    proof {
        assert(strip_trailing_slashes(s@) =~= s@.subrange(0, b as int));
    }
    let piece = s.substring_char(0, b);
    String::from_str(piece)
}

/// Validates and normalizes a user-supplied base URL: surrounding
/// whitespace and trailing slashes are removed, and the result must carry
/// an `http://` or `https://` scheme.
pub fn normalize_base_url(input: String) -> (r: Result<String, CliError>)
    ensures
        trim_spec(input@).len() == 0 ==> (r matches Err(e) && e is InvalidServer),
        trim_spec(input@).len() > 0 && !has_scheme(normalized_base(input@)) ==> (r matches Err(e)
            && e is InvalidServer),
        trim_spec(input@).len() > 0 && has_scheme(normalized_base(input@)) ==> (r matches Ok(u)
            && u@ == normalized_base(input@)),
{
    let trimmed = trim_str(input.as_str());
    if trimmed.as_str().unicode_len() == 0 {
        return Err(CliError::InvalidServer(String::from_str("server URL cannot be empty")));
    }
    let without_trailing = strip_slashes_str(trimmed.as_str());
    if !(has_prefix_http(without_trailing.as_str()) || has_prefix_https(
        without_trailing.as_str(),
    )) {
        return Err(
            CliError::InvalidServer(
                String::from_str("server URL must start with http:// or https://"),
            ),
        );
    }
    Ok(without_trailing)
}

/// What an optional secret normalizes to: its trimmed text, or absence
/// when nothing but whitespace was supplied.
pub open spec fn secret_spec(v: Option<String>) -> Option<Seq<char>> {
    match v {
        Option::None => Option::None,
        Option::Some(s) => if trim_spec(s@).len() == 0 {
            Option::None
        } else {
            Option::Some(trim_spec(s@))
        },
    }
}

/// Trims an optional secret; a value that is empty after trimming is
/// treated as absent.
pub fn normalize_optional_secret(value: Option<String>) -> (r: Option<String>)
    ensures
        match r {
            Some(t) => secret_spec(value) == Option::Some(t@),
            None => secret_spec(value) is None,
        },
{
    match value {
        Option::None => Option::None,
        Option::Some(raw) => {
            let normalized = trim_str(raw.as_str());
            if normalized.as_str().unicode_len() == 0 {
                Option::None
            } else {
                Option::Some(normalized)
            }
        },
    }
}

/// A request path with `/` forced in front.
pub open spec fn normalized_path_spec(p: Seq<char>) -> Seq<char> {
    if p.len() > 0 && p[0] == '/' {
        p
    } else {
        seq!['/'] + p
    }
}

/// Ensures a request path begins with `/`.
pub fn normalize_path(path: &str) -> (r: String)
    ensures
        r@ == normalized_path_spec(path@),
{
    let n: usize = path.unicode_len();
    if n > 0 && path.get_char(0) == '/' {
        String::from_str(path)
    } else {
        let r = String::from_str("/").concat(path);
        proof {
            reveal_strlit("/");
            assert(r@ =~= seq!['/'] + path@);
        }
        r
    }
}

/// Derives the WebSocket endpoint from a normalized base URL:
/// `http` maps to `ws`, `https` to `wss`, and the fixed path `/ws` is
/// appended.  A base without a recognized scheme only gains the suffix.
pub fn websocket_url(base_url: &str) -> (r: String)
    ensures
        starts_with(base_url@, http_prefix()) ==> r@ == seq!['w', 's', ':', '/', '/']
            + base_url@.skip(7) + seq!['/', 'w', 's'],
        !starts_with(base_url@, http_prefix()) && starts_with(base_url@, https_prefix()) ==> r@
            == seq!['w', 's', 's', ':', '/', '/'] + base_url@.skip(8) + seq!['/', 'w', 's'],
        !starts_with(base_url@, http_prefix()) && !starts_with(base_url@, https_prefix()) ==> r@
            == base_url@ + seq!['/', 'w', 's'],
{
    let n: usize = base_url.unicode_len();
    if has_prefix_http(base_url) {
        let host = base_url.substring_char(7, n);
        let r = String::from_str("ws://").concat(host).concat("/ws");
        proof {
            reveal_strlit("ws://");
            reveal_strlit("/ws");
            assert(r@ =~= seq!['w', 's', ':', '/', '/'] + base_url@.skip(7) + seq!['/', 'w', 's']);
        }
        r
    } else if has_prefix_https(base_url) {
        let host = base_url.substring_char(8, n);
        let r = String::from_str("wss://").concat(host).concat("/ws");
        proof {
            reveal_strlit("wss://");
            reveal_strlit("/ws");
            assert(r@ =~= seq!['w', 's', 's', ':', '/', '/'] + base_url@.skip(8) + seq![
                '/',
                'w',
                's',
            ]);
        }
        r
    } else {
        let r = String::from_str(base_url).concat("/ws");
        proof {
            reveal_strlit("/ws");
            assert(r@ =~= base_url@ + seq!['/', 'w', 's']);
        }
        r
    }
}

/// A normalized base URL never ends with `/` and keeps the scheme the
/// input carried after trimming.
pub proof fn lemma_normalized_base_shape(s: Seq<char>)
    ensures
        normalized_base(s).len() > 0 ==> normalized_base(s).last() != '/',
        normalized_base(s).len() <= trim_spec(s).len() <= s.len(),
        forall|i: int|
            0 <= i < normalized_base(s).len() ==> normalized_base(s)[i] == trim_spec(s)[i],
{
    lemma_trim_shape(s);
    lemma_strip_slashes_shape(trim_spec(s));
}

proof fn lemma_strip_slashes_shape(s: Seq<char>)
    ensures
        strip_trailing_slashes(s).len() > 0 ==> strip_trailing_slashes(s).last() != '/',
        strip_trailing_slashes(s).len() <= s.len(),
        forall|i: int|
            0 <= i < strip_trailing_slashes(s).len() ==> strip_trailing_slashes(s)[i] == s[i],
    decreases s.len(),
{
    if s.len() > 0 && s.last() == '/' {
        lemma_strip_slashes_shape(s.drop_last());
        assert forall|i: int| 0 <= i < strip_trailing_slashes(s).len() implies strip_trailing_slashes(
            s,
        )[i] == s[i] by {
            assert(strip_trailing_slashes(s)[i] == s.drop_last()[i]);
        }
    }
}

} // verus!
