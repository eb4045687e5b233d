//! Transactions over HTTP.
use crate::crypto::{
    blake2b256, blake2b256_digest, hex_bytes, hex_decode, hex_text, law_hex_roundtrip,
    lemma_hex_text,
};
use crate::text::{begins_with, chars_of, has_prefix, lossy_text, read_lossy, text_of};
use crate::tx_hash::short_hash;
use crate::tx_socket_server::{list_items, list_text};
use crate::wire::copy_range;
use vstd::prelude::*;
use vstd::string::*;
use vstd::utf8::{decode_utf8, encode_utf8, valid_utf8};

verus! {

/// White space as Unicode defines it.
pub open spec fn is_white(c: char) -> bool {
    let u = c as u32;
    ||| 9 <= u <= 13
    ||| u == 32
    ||| u == 0x85
    ||| u == 0xa0
    ||| u == 0x1680
    ||| 0x2000 <= u <= 0x200a
    ||| u == 0x2028
    ||| u == 0x2029
    ||| u == 0x202f
    ||| u == 0x205f
    ||| u == 0x3000
}

/// `s` without white space in front.
pub open spec fn trimmed_start(s: Seq<char>) -> Seq<char>
    decreases s.len(),
{
    if s.len() > 0 && is_white(s[0]) {
        trimmed_start(s.drop_first())
    } else {
        s
    }
}

/// `s` without white space at its end.
pub open spec fn trimmed_end(s: Seq<char>) -> Seq<char>
    decreases s.len(),
{
    if s.len() > 0 && is_white(s.last()) {
        trimmed_end(s.drop_last())
    } else {
        s
    }
}

/// `s` without any `0x` in front.
pub open spec fn without_0x(s: Seq<char>) -> Seq<char>
    decreases s.len(),
{
    if s.len() >= 2 && s[0] == '0' && s[1] == 'x' {
        without_0x(s.subrange(2, s.len() as int))
    } else {
        s
    }
}

/// A hexadecimal digit.
pub open spec fn is_hex_char(c: char) -> bool {
    let u = c as u32;
    48 <= u <= 57 || 65 <= u <= 70 || 97 <= u <= 102
}

/// The pattern `p` stands in `s` at `i`.
pub open spec fn stands_at(s: Seq<char>, p: Seq<char>, i: int) -> bool {
    0 <= i && i + p.len() <= s.len() && s.subrange(i, i + p.len()) == p
}

/// Where `p` first stands in `s` from `i` on.
pub open spec fn find_from(s: Seq<char>, p: Seq<char>, i: int) -> Option<int>
    decreases s.len() + 1 - i,
{
    if i < 0 || i > s.len() {
        None
    } else if stands_at(s, p, i) {
        Some(i)
    } else {
        find_from(s, p, i + 1)
    }
}

/// The number of bytes that a character takes.
pub open spec fn char_width(c: char) -> int {
    let u = c as u32;
    if u < 0x80 {
        1
    } else if u < 0x800 {
        2
    } else if u < 0x10000 {
        3
    } else {
        4
    }
}

/// The place two bytes after `i`, if a character starts there.
pub open spec fn two_bytes_on(s: Seq<char>, i: int) -> Option<int> {
    if i + 1 <= s.len() && char_width(s[i]) == 2 {
        Some(i + 1)
    } else if i + 2 <= s.len() && char_width(s[i]) == 1 && char_width(s[i + 1]) == 1 {
        Some(i + 2)
    } else {
        None
    }
}

/// Where the body of a request starts: four bytes after the start of the
/// blank line, or at the start without one. None if no character starts
/// there.
pub open spec fn body_start(s: Seq<char>) -> Option<int> {
    match find_from(s, seq!['\r', '\n', '\r', '\n'], 0) {
        Some(i) => Some(i + 4),
        None => match find_from(s, seq!['\n', '\n'], 0) {
            Some(i) => two_bytes_on(s, i + 2),
            None => Some(0),
        },
    }
}

/// The body is given in hexadecimal.
pub open spec fn is_hex_body(body: Seq<char>) -> bool {
    begins_with(body, seq!['0', 'x']) || forall|i: int|
        0 <= i < body.len() ==> is_hex_char(#[trigger] body[i])
}

/// The transaction that a body gives: its bytes in hexadecimal, or the text
/// itself. A body that only looks like hexadecimal is taken as it is.
pub open spec fn body_bytes(body: Seq<char>) -> Seq<u8> {
    let trimmed = trimmed_end(trimmed_start(body));
    if is_hex_body(body) {
        match hex_bytes(encode_utf8(without_0x(trimmed))) {
            Some(b) => b,
            None => encode_utf8(body),
        }
    } else {
        encode_utf8(trimmed)
    }
}

fn white(c: char) -> (b: bool)
    ensures
        b == is_white(c),
{
    let u: u32 = c as u32;
    (9 <= u && u <= 13) || u == 32 || u == 0x85 || u == 0xa0 || u == 0x1680 || (0x2000 <= u && u
        <= 0x200a) || u == 0x2028 || u == 0x2029 || u == 0x202f || u == 0x205f || u == 0x3000
}

/// Removes white space from both ends.
pub fn trim(s: &str) -> (r: String)
    ensures
        r@ == trimmed_end(trimmed_start(s@)),
{
    let v = chars_of(s);
    let mut from: usize = 0;
    assert(s@.subrange(0, s@.len() as int) =~= s@);
    while from < v.len() && white(v[from])
        invariant
            from <= v@.len(),
            v@ == s@,
            trimmed_start(s@) == trimmed_start(s@.subrange(from as int, s@.len() as int)),
        decreases v.len() - from,
    {
        proof {
            let part = s@.subrange(from as int, s@.len() as int);
            assert(part.drop_first() =~= s@.subrange(from + 1, s@.len() as int));
            assert(part[0] == v@[from as int]);
        }
        from += 1;
    }
    let ghost start = s@.subrange(from as int, s@.len() as int);
    proof {
        if start.len() > 0 {
            assert(start[0] == v@[from as int]);
        }
        assert(trimmed_start(s@) == start);
    }
    let mut to: usize = v.len();
    while to > from && white(v[to - 1])
        invariant
            from <= to <= v@.len(),
            v@ == s@,
            trimmed_end(start) == trimmed_end(s@.subrange(from as int, to as int)),
        decreases to,
    {
        proof {
            let part = s@.subrange(from as int, to as int);
            assert(part.drop_last() =~= s@.subrange(from as int, to - 1));
            assert(part.last() == v@[to - 1]);
        }
        to -= 1;
    }
    proof {
        let part = s@.subrange(from as int, to as int);
        if part.len() > 0 {
            assert(part.last() == v@[to - 1]);
        }
    }
    text_of(&v, from, to)
}

/// Removes every `0x` in front.
pub fn trim_0x(s: &str) -> (r: String)
    ensures
        r@ == without_0x(s@),
{
    let v = chars_of(s);
    let mut from: usize = 0;
    assert(s@.subrange(0, s@.len() as int) =~= s@);
    while v.len() - from >= 2 && v[from] == '0' && v[from + 1] == 'x'
        invariant
            from <= v@.len(),
            v@ == s@,
            without_0x(s@) == without_0x(s@.subrange(from as int, s@.len() as int)),
        decreases v.len() - from,
    {
        proof {
            let part = s@.subrange(from as int, s@.len() as int);
            assert(part[0] == v@[from as int] && part[1] == v@[from + 1]);
            assert(part.subrange(2, part.len() as int) =~= s@.subrange(from + 2, s@.len() as int));
        }
        from += 2;
    }
    proof {
        let part = s@.subrange(from as int, s@.len() as int);
        if part.len() >= 2 {
            assert(part[0] == v@[from as int] && part[1] == v@[from + 1]);
        }
    }
    text_of(&v, from, v.len())
}

fn find(v: &Vec<char>, p: &Vec<char>) -> (r: Option<usize>)
    requires
        p@.len() > 0,
    ensures
        match r {
            Some(i) => find_from(v@, p@, 0) == Some(i as int) && i + p@.len() <= v@.len(),
            None => find_from(v@, p@, 0) is None,
        },
{
    let mut i: usize = 0;
    while i < v.len()
        invariant
            i <= v@.len(),
            p@.len() > 0,
            find_from(v@, p@, 0) == find_from(v@, p@, i as int),
        decreases v.len() - i,
    {
        let mut j: usize = 0;
        while j < p.len() && j < v.len() - i && v[i + j] == p[j]
            invariant
                i < v@.len(),
                j <= p@.len(),
                i + j <= v@.len(),
                forall|k: int| 0 <= k < j ==> v@[i + k] == p@[k],
            decreases p.len() - j,
        {
            j += 1;
        }
        if j == p.len() {
            assert(v@.subrange(i as int, i + p@.len()) =~= p@);
            return Some(i);
        }
        proof {
            if stands_at(v@, p@, i as int) {
                assert(v@.subrange(i as int, i + p@.len())[j as int] == p@[j as int]);
            }
        }
        i += 1;
    }
    proof {
        assert(!stands_at(v@, p@, v@.len() as int));
        assert(find_from(v@, p@, (v@.len() + 1) as int) is None);
    }
    None
}

fn width(c: char) -> (w: u32)
    ensures
        w == char_width(c),
{
    let u: u32 = c as u32;
    if u < 0x80 {
        1
    } else if u < 0x800 {
        2
    } else if u < 0x10000 {
        3
    } else {
        4
    }
}

/// Where the body of a request starts, see [`body_start`].
pub fn find_body(request: &str) -> (r: Option<usize>)
    ensures
        match r {
            Some(i) => body_start(request@) == Some(i as int) && i <= request@.len(),
            None => body_start(request@) is None,
        },
{
    let v = chars_of(request);
    let mut crlf: Vec<char> = Vec::new();
    crlf.push('\r');
    crlf.push('\n');
    crlf.push('\r');
    crlf.push('\n');
    assert(crlf@ =~= seq!['\r', '\n', '\r', '\n']);
    let n: usize = v.len();
    match find(&v, &crlf) {
        Some(i) => {
            assert(i + 4 <= n);
            Some(i + 4)
        },
        None => {
            let mut lf: Vec<char> = Vec::new();
            lf.push('\n');
            lf.push('\n');
            assert(lf@ =~= seq!['\n', '\n']);
            match find(&v, &lf) {
                Some(i) => {
                    assert(i + 2 <= n);
                    let at: usize = i + 2;
                    if v.len() - at >= 1 && width(v[at]) == 2 {
                        Some(at + 1)
                    } else if v.len() - at >= 2 && width(v[at]) == 1 && width(v[at + 1]) == 1 {
                        Some(at + 2)
                    } else {
                        None
                    }
                },
                None => Some(0),
            }
        },
    }
}

fn all_hex(s: &str) -> (b: bool)
    ensures
        b == forall|i: int| 0 <= i < s@.len() ==> is_hex_char(#[trigger] s@[i]),
{
    let v = chars_of(s);
    let mut i: usize = 0;
    while i < v.len()
        invariant
            i <= v@.len(),
            v@ == s@,
            forall|j: int| 0 <= j < i ==> is_hex_char(#[trigger] s@[j]),
        decreases v.len() - i,
    {
        let u: u32 = v[i] as u32;
        if !((48 <= u && u <= 57) || (65 <= u && u <= 70) || (97 <= u && u <= 102)) {
            assert(!is_hex_char(s@[i as int]));
            return false;
        }
        i += 1;
    }
    true
}

/// The transaction that a body gives, see [`body_bytes`].
pub fn transaction_of(body: &str) -> (r: Vec<u8>)
    ensures
        r@ == body_bytes(body@),
{
    proof {
        reveal_strlit("0x");
        assert("0x"@ =~= seq!['0', 'x']);
    }
    let trimmed = trim(body);
    if has_prefix(body, "0x") || all_hex(body) {
        let digits = trim_0x(trimmed.as_str());
        match hex_decode(digits.as_str().as_bytes()) {
            Some(b) => b,
            None => {
                let raw = body.as_bytes();
                let r = copy_range(raw, 0, raw.len());
                assert(r@ =~= encode_utf8(body@));
                r
            },
        }
    } else {
        let raw = trimmed.as_str().as_bytes();
        let r = copy_range(raw, 0, raw.len());
        assert(r@ =~= encode_utf8(trimmed@));
        r
    }
}

/// A request to submit a transaction, or another one.
pub enum RpcRequest {
    /// The transaction, and the hash by which it is followed.
    Submit { tx_data: Vec<u8>, tx_hash: String },
    /// There is nothing at that address.
    NotFound,
}

/// The text by which a transaction is followed: the first eight bytes of a
/// digest, in hexadecimal. The digest has 32 bytes.
pub fn follow_hash(digest: &[u8]) -> (s: String)
    requires
        digest@.len() >= 8,
    ensures
        s@ == hex_text(digest@.subrange(0, 8)),
{
    short_hash(digest)
}

/// Whether a request asks to submit a transaction.
pub open spec fn is_submit(request: Seq<char>) -> bool {
    begins_with(request, "POST /submit"@)
}

/// `r` is what a request asks for: the transaction in its body is submitted,
/// and followed by its hash.
pub open spec fn asks_for(request: Seq<char>, r: RpcRequest) -> bool {
    match r {
        RpcRequest::Submit { tx_data, tx_hash } => {
            let body = request.subrange(body_start(request)->Some_0, request.len() as int);
            &&& is_submit(request)
            &&& tx_data@ == body_bytes(body)
            &&& tx_hash@ == hex_text(blake2b256(body_bytes(body)).subrange(0, 8))
        },
        RpcRequest::NotFound => !is_submit(request),
    }
}

/// Reads the text of a request.
pub fn read_request(request: &str) -> (r: RpcRequest)
    requires
        is_submit(request@) ==> body_start(request@) is Some,
    ensures
        asks_for(request@, r),
{
    if !has_prefix(request, "POST /submit") {
        return RpcRequest::NotFound;
    }
    let start: usize = match find_body(request) {
        Some(i) => i,
        None => 0,
    };
    let v = chars_of(request);
    let body = text_of(&v, start, v.len());
    let tx_data = transaction_of(body.as_str());
    let digest = blake2b256_digest(tx_data.as_slice());
    let tx_hash = follow_hash(digest.as_slice());
    RpcRequest::Submit { tx_data, tx_hash }
}

/// Reads a request as it comes. One that asks to submit a transaction and has
/// no body is dropped.
pub fn read_request_bytes(bytes: &[u8]) -> (r: Option<RpcRequest>)
    ensures
        r is None <==> is_submit(lossy_text(bytes@)) && body_start(lossy_text(bytes@)) is None,
        r matches Some(x) ==> asks_for(lossy_text(bytes@), x),
        valid_utf8(bytes@) ==> lossy_text(bytes@) == decode_utf8(bytes@),
{
    let request = read_lossy(bytes);
    if has_prefix(request.as_str(), "POST /submit") && find_body(request.as_str()).is_none() {
        return None;
    }
    Some(read_request(request.as_str()))
}

/// The answer where there is nothing at an address.
pub fn not_found_response() -> (s: String)
    ensures
        s@ == "HTTP/1.1 404 Not Found\r\n\r\n"@,
{
    String::from_str("HTTP/1.1 404 Not Found\r\n\r\n")
}

/// The answer of a node that is not ready.
pub fn not_ready_response(reason: &str) -> (s: String)
    ensures
        s@ == "HTTP/1.1 503 Service Unavailable\r\nContent-Type: application/json\r\n\r\n{\"success\":false,\"error\":\"Node not ready to accept transactions: "@
            + reason@ + "\"}"@,
{
    let mut s = String::from_str(
        "HTTP/1.1 503 Service Unavailable\r\nContent-Type: application/json\r\n\r\n{\"success\":false,\"error\":\"Node not ready to accept transactions: ",
    );
    s.append(reason);
    s.append("\"}");
    s
}

/// The answer to a transaction that the consensus took.
pub fn submitted_response(tx_hash: &str, block_ref: &str, indices: &Vec<u16>) -> (s: String)
    ensures
        s@ == "HTTP/1.1 200 OK\r\nContent-Type: application/json\r\n\r\n{\"success\":true,\"tx_hash\":\""@
            + tx_hash@ + "\",\"block_ref\":\""@ + block_ref@ + "\",\"indices\":"@ + ("["@
            + list_items(indices@) + "]"@) + "}"@,
{
    let mut s = String::from_str(
        "HTTP/1.1 200 OK\r\nContent-Type: application/json\r\n\r\n{\"success\":true,\"tx_hash\":\"",
    );
    s.append(tx_hash);
    s.append("\",\"block_ref\":\"");
    s.append(block_ref);
    s.append("\",\"indices\":");
    s.append(list_text(indices).as_str());
    s.append("}");
    s
}

/// The answer to a transaction that the consensus did not take.
pub fn failed_response(error: &str) -> (s: String)
    ensures
        s@ == "HTTP/1.1 500 Internal Server Error\r\nContent-Type: application/json\r\n\r\n{\"success\":false,\"error\":\""@
            + error@ + "\"}"@,
{
    let mut s = String::from_str(
        "HTTP/1.1 500 Internal Server Error\r\nContent-Type: application/json\r\n\r\n{\"success\":false,\"error\":\"",
    );
    s.append(error);
    s.append("\"}");
    s
}

proof fn lemma_no_white(s: Seq<char>)
    requires
        forall|i: int| 0 <= i < s.len() ==> !is_white(#[trigger] s[i]),
    ensures
        trimmed_end(trimmed_start(s)) == s,
{
    if s.len() > 0 {
        assert(!is_white(s[0]));
        assert(!is_white(s[s.len() - 1]));
    }
}

proof fn lemma_plain_hex_body(tx: Seq<u8>)
    ensures
        body_bytes(hex_text(tx)) == tx,
        without_0x(hex_text(tx)) == hex_text(tx),
        forall|i: int|
            0 <= i < hex_text(tx).len() ==> !is_white(#[trigger] hex_text(tx)[i]) && is_hex_char(
                hex_text(tx)[i],
            ),
{
    let h = hex_text(tx);
    lemma_hex_text(tx);
    law_hex_roundtrip(tx);
    assert forall|i: int| 0 <= i < h.len() implies !is_white(#[trigger] h[i]) && is_hex_char(
        h[i],
    ) by {}
    lemma_no_white(h);
    assert(without_0x(h) == h);
}

proof fn lemma_marked_hex_body(tx: Seq<u8>)
    ensures
        body_bytes("0x"@ + hex_text(tx)) == tx,
{
    reveal_strlit("0x");
    let h = hex_text(tx);
    let m = "0x"@ + h;
    lemma_plain_hex_body(tx);
    law_hex_roundtrip(tx);
    assert forall|i: int| 0 <= i < m.len() implies !is_white(#[trigger] m[i]) by {
        if i >= 2 {
            assert(m[i] == h[i - 2]);
        }
    }
    lemma_no_white(m);
    assert(m[0] == '0' && m[1] == 'x');
    assert(m.subrange(0, 2) =~= seq!['0', 'x']);
    assert(m.subrange(2, m.len() as int) =~= h);
    assert(without_0x(m) == without_0x(h));
    assert(begins_with(m, seq!['0', 'x']));
}

/// A transaction that is sent in hexadecimal, with `0x` in front or without,
/// arrives as it is.
pub proof fn law_hex_body_roundtrip(tx: Seq<u8>)
    ensures
        body_bytes(hex_text(tx)) == tx,
        body_bytes("0x"@ + hex_text(tx)) == tx,
{
    lemma_plain_hex_body(tx);
    lemma_marked_hex_body(tx);
}

/// A pattern is found where it first stands: it stands there, and nowhere
/// before; where it is not found it stands nowhere.
pub proof fn law_first_place_is_found(s: Seq<char>, p: Seq<char>, i: int)
    requires
        0 <= i,
    ensures
        match find_from(s, p, i) {
            Some(j) => i <= j && j + p.len() <= s.len() && s.subrange(j, j + p.len()) == p
                && forall|k: int| i <= k < j ==> !#[trigger] stands_at(s, p, k),
            None => forall|k: int| i <= k ==> !#[trigger] stands_at(s, p, k),
        },
    decreases s.len() + 1 - i,
{
    if i <= s.len() && !stands_at(s, p, i) {
        law_first_place_is_found(s, p, i + 1);
    }
}

/// The body of a request is what follows the first blank line.
pub proof fn law_body_follows_blank_line(request: Seq<char>, blank: Seq<char>, n: int)
    requires
        blank == seq!['\r', '\n', '\r', '\n'],
        0 <= n <= request.len() - 4,
        request.subrange(n, n + 4) == blank,
        forall|k: int| 0 <= k < n ==> #[trigger] request.subrange(k, k + 4) != blank,
    ensures
        body_start(request) == Some(n + 4),
{
    law_first_place_is_found(request, blank, 0);
    assert(stands_at(request, blank, n));
}

/// White space at both ends of a body is left out and nothing else: what is left
/// neither begins nor ends with white space, and only white space is missing.
pub proof fn law_only_white_is_trimmed(s: Seq<char>)
    ensures
        ({
            let t = trimmed_end(trimmed_start(s));
            &&& t.len() > 0 ==> !is_white(t[0]) && !is_white(t.last())
            &&& exists|i: int|
                0 <= i && i + t.len() <= s.len() && #[trigger] s.subrange(i, i + t.len()) == t && (
                forall|k: int| 0 <= k < i ==> is_white(#[trigger] s[k])) && (forall|k: int|
                    i + t.len() <= k < s.len() ==> is_white(#[trigger] s[k]))
        }),
{
    lemma_trimmed_start(s);
    let m = trimmed_start(s);
    let i = s.len() - m.len();
    lemma_trimmed_end(m);
    let t = trimmed_end(m);
    assert(s.subrange(i, i + t.len()) =~= t) by {
        assert forall|k: int| 0 <= k < t.len() implies s.subrange(i, i + t.len())[k] == t[k] by {
            assert(m.subrange(0, t.len() as int)[k] == m[k]);
            assert(s.subrange(i, s.len() as int)[k] == s[i + k]);
        }
    }
    assert forall|k: int| i + t.len() <= k < s.len() implies is_white(#[trigger] s[k]) by {
        assert(s.subrange(i, s.len() as int)[k - i] == s[k]);
        assert(is_white(m[k - i]));
    }
    if t.len() > 0 {
        assert(t[0] == m.subrange(0, t.len() as int)[0]);
        assert(t[0] == m[0]);
    }
}

proof fn lemma_trimmed_start(s: Seq<char>)
    ensures
        trimmed_start(s).len() <= s.len(),
        s.subrange(s.len() - trimmed_start(s).len(), s.len() as int) == trimmed_start(s),
        forall|k: int| 0 <= k < s.len() - trimmed_start(s).len() ==> is_white(#[trigger] s[k]),
        trimmed_start(s).len() > 0 ==> !is_white(trimmed_start(s)[0]),
    decreases s.len(),
{
    if s.len() > 0 && is_white(s[0]) {
        let t = s.drop_first();
        lemma_trimmed_start(t);
        let m = trimmed_start(s);
        assert(s.subrange(s.len() - m.len(), s.len() as int) =~= t.subrange(
            t.len() - m.len(),
            t.len() as int,
        ));
        assert forall|k: int| 0 <= k < s.len() - m.len() implies is_white(#[trigger] s[k]) by {
            if k > 0 {
                assert(t[k - 1] == s[k]);
            }
        }
    } else {
        assert(s.subrange(0, s.len() as int) =~= s);
    }
}

proof fn lemma_trimmed_end(s: Seq<char>)
    ensures
        trimmed_end(s).len() <= s.len(),
        s.subrange(0, trimmed_end(s).len() as int) == trimmed_end(s),
        forall|k: int| trimmed_end(s).len() <= k < s.len() ==> is_white(#[trigger] s[k]),
        trimmed_end(s).len() > 0 ==> !is_white(trimmed_end(s).last()),
    decreases s.len(),
{
    if s.len() > 0 && is_white(s.last()) {
        let t = s.drop_last();
        lemma_trimmed_end(t);
        let m = trimmed_end(s);
        assert(s.subrange(0, m.len() as int) =~= t.subrange(0, m.len() as int));
        assert forall|k: int| m.len() <= k < s.len() implies is_white(#[trigger] s[k]) by {
            if k < t.len() {
                assert(t[k] == s[k]);
            } else {
                assert(s[s.len() - 1] == s.last());
            }
        }
    } else {
        assert(s.subrange(0, s.len() as int) =~= s);
    }
}

/// A body that is not given in hexadecimal is submitted as the bytes of its
/// text, without the white space around it.
pub proof fn law_plain_body_is_its_text(body: Seq<char>, k: int)
    requires
        0 <= k < body.len(),
        body[0] != '0',
        !(48 <= body[k] as u32 <= 57 || 65 <= body[k] as u32 <= 70 || 97 <= body[k] as u32 <= 102),
    ensures
        body_bytes(body) == encode_utf8(trimmed_end(trimmed_start(body))),
{
    if begins_with(body, seq!['0', 'x']) {
        assert(body.subrange(0, 2)[0] == body[0]);
    }
    assert(!is_hex_char(body[k]));
}

/// A body is taken for hexadecimal by the digits that hexadecimal is read by, of
/// either case.
pub proof fn law_hex_digits_of_a_body(c: char)
    requires
        c as u32 <= 127,
    ensures
        is_hex_char(c) <==> crate::crypto::hex_nibble(c as u8) is Some,
        '0' <= c <= '9' ==> crate::crypto::hex_nibble(c as u8) == Some(c as int - '0' as int),
        'a' <= c <= 'f' ==> crate::crypto::hex_nibble(c as u8) == Some(c as int - 'a' as int + 10),
        'A' <= c <= 'F' ==> crate::crypto::hex_nibble(c as u8) == Some(c as int - 'A' as int + 10),
{
}

/// A character takes as many bytes as its encoding has.
pub proof fn law_width_is_encoded_length(c: char)
    ensures
        encode_utf8(seq![c]).len() == char_width(c),
{
    reveal_with_fuel(encode_utf8, 2);
    assert(seq![c].drop_first() =~= Seq::<char>::empty());
}

} // verus!
