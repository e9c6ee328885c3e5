//! The parts of a web socket address, and the text of the opening
//! handshake.

use vstd::prelude::*;
use vstd::string::StrSliceExecFns;
use vstd::string::StringExecFns;

verus! {

/// Whether `://` stands at index `i` of `url`.
pub open spec fn scheme_separator_at(url: Seq<char>, i: int) -> bool {
    0 <= i && i + 3 <= url.len() && url[i] == ':' && url[i + 1] == '/' && url[i + 2] == '/'
}

/// Whether `url` holds `://`.
pub open spec fn has_scheme(url: Seq<char>) -> bool {
    exists|i: int| scheme_separator_at(url, i)
}

/// The first index at or after `from` at which `://` stands in `url`, or
/// the length of `url` when there is none.
pub open spec fn scheme_end_from(url: Seq<char>, from: int) -> int
    decreases url.len() - from,
{
    if from < 0 || from >= url.len() {
        url.len() as int
    } else if scheme_separator_at(url, from) {
        from
    } else {
        scheme_end_from(url, from + 1)
    }
}

/// The first index at or after `from` at which `text` holds `/`, or the
/// length of `text` when there is none.
pub open spec fn slash_from(text: Seq<char>, from: int) -> int
    decreases text.len() - from,
{
    if from < 0 || from >= text.len() {
        text.len() as int
    } else if text[from] == '/' {
        from
    } else {
        slash_from(text, from + 1)
    }
}

/// The scheme of `url`: what stands before the first `://`.
pub open spec fn uri_scheme(url: Seq<char>) -> Seq<char> {
    url.subrange(0, scheme_end_from(url, 0))
}

/// What follows the first `://` of `url`.
pub open spec fn uri_after_scheme(url: Seq<char>) -> Seq<char> {
    url.subrange(scheme_end_from(url, 0) + 3, url.len() as int)
}

/// The authority of `url`: what stands between the first `://` and the
/// first `/` after it, or the end.
pub open spec fn uri_authority(url: Seq<char>) -> Seq<char> {
    let after = uri_after_scheme(url);
    after.subrange(0, slash_from(after, 0))
}

/// What follows the first `/` after the authority of `url`; empty when
/// there is no such `/`.
pub open spec fn uri_rest(url: Seq<char>) -> Seq<char> {
    let after = uri_after_scheme(url);
    let slash = slash_from(after, 0);
    if slash < after.len() {
        after.subrange(slash + 1, after.len() as int)
    } else {
        Seq::empty()
    }
}

proof fn lemma_scheme_end_from(url: Seq<char>, from: int, i: int)
    requires
        0 <= from <= i <= url.len(),
        forall|k: int| from <= k < i ==> !scheme_separator_at(url, k),
        i < url.len() ==> scheme_separator_at(url, i),
    ensures
        scheme_end_from(url, from) == i,
    decreases i - from,
{
    if from < i {
        lemma_scheme_end_from(url, from + 1, i);
    }
}

proof fn lemma_slash_from(text: Seq<char>, from: int, i: int)
    requires
        0 <= from <= i <= text.len(),
        forall|k: int| from <= k < i ==> text[k] != '/',
        i < text.len() ==> text[i] == '/',
    ensures
        slash_from(text, from) == i,
    decreases i - from,
{
    if from < i {
        lemma_slash_from(text, from + 1, i);
    }
}

/// The index of the first `://` in `url`, if there is one.
pub fn find_scheme_end(url: &str) -> (end: Option<usize>)
    ensures
        match end {
            Some(i) => has_scheme(url@) && i == scheme_end_from(url@, 0) && i + 3 <= url@.len(),
            None => !has_scheme(url@),
        },
{
    let len = url.unicode_len();
    let mut i: usize = 0;
    while i < len
        invariant
            i <= len,
            len == url@.len(),
            forall|k: int| 0 <= k < i ==> !scheme_separator_at(url@, k),
        decreases len - i,
    {
        if len - i >= 3 && url.get_char(i) == ':' && url.get_char(i + 1) == '/' && url.get_char(i + 2)
            == '/' {
            proof {
                assert(scheme_separator_at(url@, i as int));
                lemma_scheme_end_from(url@, 0, i as int);
            }
            return Some(i);
        }
        i += 1;
    }
    proof {
        assert forall|k: int| !scheme_separator_at(url@, k) by {}
    }
    None
}

/// Splits `url` into its scheme, its authority and the rest: the scheme
/// ends at the first `://`, the authority at the first `/` after that.
pub fn extract_uri(url: &str) -> (parts: (&str, &str, &str))
    requires
        has_scheme(url@),
    ensures
        parts.0@ == uri_scheme(url@),
        parts.1@ == uri_authority(url@),
        parts.2@ == uri_rest(url@),
{
    let len = url.unicode_len();
    let end = find_scheme_end(url).unwrap();
    let scheme = url.substring_char(0, end);
    let after = url.substring_char(end + 3, len);
    let after_len = len - (end + 3);
    let mut slash: usize = 0;
    while slash < after_len
        invariant
            slash <= after_len,
            after_len == after@.len(),
            forall|k: int| 0 <= k < slash ==> after@[k] != '/',
        ensures
            slash < after_len ==> after@[slash as int] == '/',
        decreases after_len - slash,
    {
        if after.get_char(slash) == '/' {
            break ;
        }
        slash += 1;
    }
    proof {
        lemma_slash_from(after@, 0, slash as int);
    }
    if slash < after_len {
        (scheme, after.substring_char(0, slash), after.substring_char(slash + 1, after_len))
    } else {
        proof {
            reveal_strlit("");
            assert(after@.subrange(0, after@.len() as int) =~= after@);
            assert(""@ =~= Seq::<char>::empty());
        }
        (scheme, after, "")
    }
}

/// The request that opens a web socket to `path` on `host`.
pub fn connect_request(host: &str, path: &str) -> (request: String)
    ensures
        request@ == "GET /"@ + path@ + " HTTP/1.1\r\nHost: "@ + host@
            + "\r\nConnection: Upgrade\r\nUpgrade: websocket\r\nSec-WebSocket-Version: 13\r\nSec-WebSocket-Key: dGhlIHNhbXBsZSBub25jZQ==\r\n\r\n"@,
{
    let mut request = String::from_str("GET /");
    request.append(path);
    request.append(" HTTP/1.1\r\nHost: ");
    request.append(host);
    request.append(
        "\r\nConnection: Upgrade\r\nUpgrade: websocket\r\nSec-WebSocket-Version: 13\r\nSec-WebSocket-Key: dGhlIHNhbXBsZSBub25jZQ==\r\n\r\n",
    );
    request
}

/// Whether the first line of the answer says that the server switches to
/// the web socket protocol.
pub fn upgrade_accepted(connect_string: &str) -> (r: bool)
    ensures
        r == (connect_string@ == "HTTP/1.1 101 Switching Protocols"@),
{
    let answer = String::from_str(connect_string);
    let expected = String::from_str("HTTP/1.1 101 Switching Protocols");
    answer == expected
}

/// Whether `: ` stands at index `i` of `line`.
pub open spec fn header_separator_at(line: Seq<char>, i: int) -> bool {
    0 <= i && i + 2 <= line.len() && line[i] == ':' && line[i + 1] == ' '
}

/// The first index at or after `from` at which `: ` stands in `line`, or
/// the length of `line` when there is none.
pub open spec fn header_separator_from(line: Seq<char>, from: int) -> int
    decreases line.len() - from,
{
    if from < 0 || from >= line.len() {
        line.len() as int
    } else if header_separator_at(line, from) {
        from
    } else {
        header_separator_from(line, from + 1)
    }
}

proof fn lemma_header_separator_from(line: Seq<char>, from: int, i: int)
    requires
        0 <= from <= i <= line.len(),
        forall|k: int| from <= k < i ==> !header_separator_at(line, k),
        i < line.len() ==> header_separator_at(line, i),
    ensures
        header_separator_from(line, from) == i,
    decreases i - from,
{
    if from < i {
        lemma_header_separator_from(line, from + 1, i);
    }
}

/// Splits a header line at its first `: ` into key and value; none when the
/// line holds no `: `.
pub fn split_header(line: &str) -> (parts: Option<(&str, &str)>)
    ensures
        match parts {
            Some((key, value)) => {
                let at = header_separator_from(line@, 0);
                &&& at < line@.len()
                &&& key@ == line@.subrange(0, at)
                &&& value@ == line@.subrange(at + 2, line@.len() as int)
            },
            None => header_separator_from(line@, 0) == line@.len(),
        },
{
    let len = line.unicode_len();
    let mut i: usize = 0;
    while i < len
        invariant
            i <= len,
            len == line@.len(),
            forall|k: int| 0 <= k < i ==> !header_separator_at(line@, k),
        decreases len - i,
    {
        if len - i >= 2 && line.get_char(i) == ':' && line.get_char(i + 1) == ' ' {
            proof {
                assert(header_separator_at(line@, i as int));
                lemma_header_separator_from(line@, 0, i as int);
            }
            return Some((line.substring_char(0, i), line.substring_char(i + 2, len)));
        }
        i += 1;
    }
    proof {
        lemma_header_separator_from(line@, 0, i as int);
    }
    None
}

} // verus!
