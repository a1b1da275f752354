//! Request routing rules: how one inbound request is classified and whether
//! it may upgrade to a websocket.
//!
//! The HTTP machinery itself lives with the caller; it hands these functions
//! the request path and the relevant header values as plain strings and gets
//! plain decisions back. A path with exactly one `/` names a room: a
//! four-byte segment is a room code to connect to, the segment `CREATE`
//! asks for a new room, and anything else — like any other path shape — is
//! invalid.

use vstd::prelude::*;
use vstd::string::StrSliceExecFns;
use vstd::string::StringExecFns;
use vstd::utf8::encode_utf8;

use crate::registry::Registry;

verus! {

/// How one inbound request is classified: join the room with this code,
/// create a new room, or neither.
#[derive(Debug, PartialEq, Eq)]
pub enum ClientConfig {
    Connect(String),
    Create,
    Invalid,
}

/// The path's one and only '/' stands at position `i`.
pub open spec fn splits_once_at(p: Seq<char>, i: int) -> bool {
    &&& 0 <= i < p.len()
    &&& p[i] == '/'
    &&& forall|j: int| 0 <= j < p.len() && j != i ==> p[j] != '/'
}

/// What a request path means. The segment after the path's single '/' is
/// measured in bytes of its encoding, as a room code's length is.
pub open spec fn classify_spec(p: Seq<char>, cfg: ClientConfig) -> bool {
    if exists|i: int| splits_once_at(p, i) {
        let i = choose|i: int| splits_once_at(p, i);
        let seg = p.subrange(i + 1, p.len() as int);
        if encode_utf8(seg).len() == 4 {
            cfg matches ClientConfig::Connect(code) && code@ == seg
        } else if seg == "CREATE"@ {
            cfg == ClientConfig::Create
        } else {
            cfg == ClientConfig::Invalid
        }
    } else {
        cfg == ClientConfig::Invalid
    }
}

/// Classify one request path.
pub fn classify_path(path: &str) -> (cfg: ClientConfig)
    ensures
        classify_spec(path@, cfg),
{
    let n = path.unicode_len();
    let mut found: bool = false;
    let mut dup: bool = false;
    let mut first: usize = 0;
    let mut i: usize = 0;
    while i < n
        invariant
            n == path@.len(),
            i <= n,
            !found ==> !dup && forall|j: int| 0 <= j < i ==> path@[j] != '/',
            found ==> first < i && path@[first as int] == '/' && forall|j: int|
                0 <= j < first ==> path@[j] != '/',
            found && !dup ==> forall|j: int| first < j < i ==> path@[j] != '/',
            dup ==> found && exists|j: int| first < j < i && path@[j] == '/',
        decreases n - i,
    {
        if path.get_char(i) == '/' {
            if found {
                dup = true;
            } else {
                found = true;
                first = i;
            }
        }
        i = i + 1;
    }
    if !found {
        assert(forall|k: int| !splits_once_at(path@, k));
        return ClientConfig::Invalid;
    }
    if dup {
        proof {
            let j = choose|j: int| first < j < n && path@[j] == '/';
            assert forall|k: int| !splits_once_at(path@, k) by {
                if splits_once_at(path@, k) {
                    if k != first as int {
                        assert(path@[first as int] != '/');
                    } else {
                        assert(path@[j] != '/');
                    }
                }
            }
        }
        return ClientConfig::Invalid;
    }
    proof {
        assert(splits_once_at(path@, first as int));
        let c = choose|k: int| splits_once_at(path@, k);
        if c != first as int {
            assert(path@[first as int] != '/');
        }
    }
    let seg = path.substring_char(first + 1, n);
    if seg.as_bytes().len() == 4 {
        ClientConfig::Connect(seg.to_owned())
    } else if String::from_str(seg) == String::from_str("CREATE") {
        ClientConfig::Create
    } else {
        ClientConfig::Invalid
    }
}

/// ASCII lowercase folding of one character's codepoint.
pub open spec fn fold_ascii(c: char) -> u32 {
    if 65 <= c as u32 && c as u32 <= 90 {
        (c as u32 + 32) as u32
    } else {
        c as u32
    }
}

/// Equality up to ASCII case: same length, characters pairwise equal after
/// folding.
pub open spec fn eq_ignore_ascii(a: Seq<char>, b: Seq<char>) -> bool {
    a.len() == b.len() && forall|i: int| 0 <= i < a.len() ==> fold_ascii(a[i]) == fold_ascii(b[i])
}

/// Fold one character and compare.
fn chars_eq_fold(a: char, b: char) -> (r: bool)
    ensures
        r == (fold_ascii(a) == fold_ascii(b)),
{
    let x = a as u32;
    let xf = if 65 <= x && x <= 90 {
        x + 32
    } else {
        x
    };
    let y = b as u32;
    let yf = if 65 <= y && y <= 90 {
        y + 32
    } else {
        y
    };
    xf == yf
}

/// Compare two strings up to ASCII case.
pub fn str_eq_ignore_ascii_case(a: &str, b: &str) -> (r: bool)
    ensures
        r == eq_ignore_ascii(a@, b@),
{
    let na = a.unicode_len();
    let nb = b.unicode_len();
    if na != nb {
        return false;
    }
    let mut i: usize = 0;
    while i < na
        invariant
            na == a@.len(),
            na == b@.len(),
            i <= na,
            forall|k: int| 0 <= k < i ==> fold_ascii(a@[k]) == fold_ascii(b@[k]),
        decreases na - i,
    {
        if !chars_eq_fold(a.get_char(i), b.get_char(i)) {
            return false;
        }
        i = i + 1;
    }
    true
}

/// A separator in a `Connection` header's token list.
pub open spec fn is_sep(c: char) -> bool {
    c == ' ' || c == ','
}

/// `s[i..j]` is one token of the header: a run free of separators bounded
/// by separators or by the header's ends.
pub open spec fn token_at(s: Seq<char>, i: int, j: int) -> bool {
    &&& 0 <= i <= j <= s.len()
    &&& (forall|k: int| i <= k < j ==> !is_sep(s[k]))
    &&& (i == 0 || is_sep(s[i - 1]))
    &&& (j == s.len() || is_sep(s[j]))
}

/// Some token of the header equals `word` up to ASCII case.
pub open spec fn has_token(s: Seq<char>, word: Seq<char>) -> bool {
    exists|i: int, j: int| token_at(s, i, j) && eq_ignore_ascii(s.subrange(i, j), word)
}

/// Whether this character separates header tokens.
fn is_sep_char(c: char) -> (r: bool)
    ensures
        r == is_sep(c),
{
    c == ' ' || c == ','
}

/// A token's start is forced by its end: in `token_at`, `j` determines `i`.
proof fn lemma_token_start_unique(s: Seq<char>, i1: int, i2: int, j: int)
    requires
        token_at(s, i1, j),
        token_at(s, i2, j),
    ensures
        i1 == i2,
{
    if i1 < i2 {
        assert(!is_sep(s[i2 - 1]));
    }
    if i2 < i1 {
        assert(!is_sep(s[i1 - 1]));
    }
}

/// Whether any token of the header — split at spaces and commas — equals
/// `word` up to ASCII case, the way a `Connection` header is searched for
/// its `Upgrade` token.
pub fn header_has_token(h: &str, word: &str) -> (r: bool)
    ensures
        r == has_token(h@, word@),
{
    let n = h.unicode_len();
    let mut start: usize = 0;
    let mut i: usize = 0;
    while i < n
        invariant
            n == h@.len(),
            start <= i <= n,
            start == 0 || is_sep(h@[start as int - 1]),
            forall|k: int| start <= k < i ==> !is_sep(h@[k]),
            forall|i0: int, j0: int|
                token_at(h@, i0, j0) && j0 < i ==> !eq_ignore_ascii(h@.subrange(i0, j0), word@),
        decreases n - i,
    {
        if is_sep_char(h.get_char(i)) {
            let sub = h.substring_char(start, i);
            if str_eq_ignore_ascii_case(sub, word) {
                proof {
                    assert(token_at(h@, start as int, i as int));
                }
                return true;
            }
            proof {
                assert forall|i0: int, j0: int|
                    token_at(h@, i0, j0) && j0 < i + 1 implies !eq_ignore_ascii(
                    h@.subrange(i0, j0),
                    word@,
                ) by {
                    if j0 == i as int {
                        assert(token_at(h@, start as int, i as int));
                        lemma_token_start_unique(h@, i0, start as int, j0);
                    }
                }
            }
            start = i + 1;
        }
        i = i + 1;
    }
    let sub = h.substring_char(start, n);
    if str_eq_ignore_ascii_case(sub, word) {
        proof {
            assert(token_at(h@, start as int, n as int));
        }
        return true;
    }
    proof {
        assert forall|i0: int, j0: int| token_at(h@, i0, j0) implies !eq_ignore_ascii(
            h@.subrange(i0, j0),
            word@,
        ) by {
            if j0 == n as int {
                assert(token_at(h@, start as int, n as int));
                lemma_token_start_unique(h@, i0, start as int, j0);
            }
        }
    }
    false
}

/// Whether a classified request may upgrade to a websocket: the
/// classification must have succeeded, the request must be a GET over at
/// least HTTP/1.1, the `Connection` header must list an `Upgrade` token,
/// the `Upgrade` header must name `websocket` up to case, the websocket
/// version must be exactly 13, and a key must be present.
pub fn should_upgrade(
    cfg: &ClientConfig,
    is_get: bool,
    http11: bool,
    connection: Option<&String>,
    upgrade: Option<&String>,
    version: Option<&String>,
    has_key: bool,
) -> (r: bool)
    ensures
        r == ({
            &&& !(cfg matches ClientConfig::Invalid)
            &&& is_get
            &&& http11
            &&& connection matches Some(c) && has_token(c@, "Upgrade"@)
            &&& upgrade matches Some(u) && eq_ignore_ascii(u@, "websocket"@)
            &&& version matches Some(v) && v@ == "13"@
            &&& has_key
        }),
{
    let cfg_ok = match cfg {
        ClientConfig::Invalid => false,
        _ => true,
    };
    let conn_ok = match connection {
        Some(c) => header_has_token(c.as_str(), "Upgrade"),
        None => false,
    };
    let upg_ok = match upgrade {
        Some(u) => str_eq_ignore_ascii_case(u.as_str(), "websocket"),
        None => false,
    };
    let ver_ok = match version {
        Some(v) => *v == String::from_str("13"),
        None => false,
    };
    cfg_ok && is_get && http11 && conn_ok && upg_ok && ver_ok && has_key
}

/// The plain-HTTP answer for a request that does not upgrade: the status
/// code and body of the room info query. A connect path answers with the
/// room's name or reports that there is no such room; an invalid path gets
/// the usage text; a create path that did not upgrade is told to provide a
/// valid token.
pub fn info_response(cfg: &ClientConfig, reg: &Registry) -> (r: (u16, String))
    requires
        reg.wf(),
    ensures
        match cfg {
            ClientConfig::Connect(code) => {
                if reg.has_code(code@) {
                    r.0 == 200 && r.1@ == reg.name_of(code@)
                } else {
                    r.0 == 404 && r.1@ == "Game not found"@
                }
            },
            ClientConfig::Create => r.0 == 200 && r.1@ == "Provide a valid token."@,
            ClientConfig::Invalid => r.0 == 400,
        },
{
    match cfg {
        ClientConfig::Connect(code) => {
            match reg.room_name(code) {
                Some(name) => (200, name),
                None => (404, "Game not found".to_owned()),
            }
        },
        ClientConfig::Create => (200, "Provide a valid token.".to_owned()),
        ClientConfig::Invalid => (
            400,
            "Either connect to a room or create one by connecting with a Websocket here.\n\n    GET to /ROOM will fetch information about the room\n    Connect to /ROOM will try to connect to the room\n    Connect to /CREATE will create a room".to_owned(),
        ),
    }
}

} // verus!
