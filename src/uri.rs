use vstd::prelude::*;
use vstd::string::StringSliceAdditionalSpecFns;
use vstd::utf8::*;

verus! {

broadcast use vstd::string::group_string_axioms;

/// The NDEF capability/lock bytes that open every message written by this driver.
pub const TLV_HEADER: [u8; 5] = [0x01, 0x03, 0xA0, 0x0C, 0x34];

/// Tag of the NDEF message TLV.
pub const TLV_NDEF_MESSAGE: u8 = 0x03;

/// Record header: message begin, message end, short record, well-known type.
pub const TLV_NDEF_RECORD: u8 = 0xD1;

/// Length of the record type field.
pub const TLV_NDEF_MESSAGE_TYPE_LEN: u8 = 1;

/// Record type of a URI record (`'U'`).
pub const TLV_NDEF_RECORD_TYPE: u8 = 0x55;

/// Terminator TLV.
pub const TLV_TERMINATOR: u8 = 0xFE;

/// The longest payload whose length plus four still fits in the message length byte.
pub const MAX_URI_PAYLOAD_LEN: usize = 251;

/// The URI prefix that an abbreviation code stands for; code 0 abbreviates nothing.
pub open spec fn uri_prefix(code: u8) -> Seq<u8> {
    if code == 0x01 {
        // "http://www."
        seq![0x68, 0x74, 0x74, 0x70, 0x3A, 0x2F, 0x2F, 0x77, 0x77, 0x77, 0x2E]
    } else if code == 0x02 {
        // "https://www."
        seq![0x68, 0x74, 0x74, 0x70, 0x73, 0x3A, 0x2F, 0x2F, 0x77, 0x77, 0x77, 0x2E]
    } else if code == 0x03 {
        // "http://"
        seq![0x68, 0x74, 0x74, 0x70, 0x3A, 0x2F, 0x2F]
    } else if code == 0x04 {
        // "https://"
        seq![0x68, 0x74, 0x74, 0x70, 0x73, 0x3A, 0x2F, 0x2F]
    } else if code == 0x05 {
        // "tel:"
        seq![0x74, 0x65, 0x6C, 0x3A]
    } else if code == 0x06 {
        // "mailto:"
        seq![0x6D, 0x61, 0x69, 0x6C, 0x74, 0x6F, 0x3A]
    } else {
        Seq::empty()
    }
}

pub open spec fn has_prefix(s: Seq<u8>, p: Seq<u8>) -> bool {
    p.len() <= s.len() && s.subrange(0, p.len() as int) == p
}

/// The abbreviation code chosen for a URL, by the precedence
/// `https://www.`, `http://www.`, `https://`, `http://`, `tel:`, `mailto:`.
pub open spec fn prefix_code(url: Seq<u8>) -> u8 {
    if has_prefix(url, uri_prefix(0x02)) {
        0x02
    } else if has_prefix(url, uri_prefix(0x01)) {
        0x01
    } else if has_prefix(url, uri_prefix(0x04)) {
        0x04
    } else if has_prefix(url, uri_prefix(0x03)) {
        0x03
    } else if has_prefix(url, uri_prefix(0x05)) {
        0x05
    } else if has_prefix(url, uri_prefix(0x06)) {
        0x06
    } else {
        0x00
    }
}

/// The URL with its abbreviated prefix removed.
pub open spec fn stripped_url(url: Seq<u8>) -> Seq<u8> {
    url.subrange(uri_prefix(prefix_code(url)).len() as int, url.len() as int)
}

/// The URI record payload: the abbreviation code, then the rest of the URL.
pub open spec fn uri_payload(url: Seq<u8>) -> Seq<u8> {
    seq![prefix_code(url)] + stripped_url(url)
}

/// The bytes written to the tag for a URL: header, message TLV, the URI record and
/// the terminator.
pub open spec fn ndef_message(url: Seq<u8>) -> Seq<u8> {
    let payload = uri_payload(url);
    TLV_HEADER@ + seq![
        TLV_NDEF_MESSAGE,
        (payload.len() + 4) as u8,
        TLV_NDEF_RECORD,
        TLV_NDEF_MESSAGE_TYPE_LEN,
        payload.len() as u8,
        TLV_NDEF_RECORD_TYPE,
    ] + payload + seq![TLV_TERMINATOR]
}

proof fn lemma_prefixes_are_ascii(code: u8)
    ensures
        forall|j: int| 0 <= j < uri_prefix(code).len() ==> #[trigger] uri_prefix(code)[j] < 0x80,
        uri_prefix(code).len() <= 12,
{
}

/// The payload is the URL less at most eleven prefix bytes, plus the code byte.
pub proof fn lemma_payload_len(url: Seq<u8>)
    ensures
        url.len() - 11 <= uri_payload(url).len() <= url.len() + 1,
{
    lemma_prefixes_are_ascii(prefix_code(url));
}

/// A byte position that only ASCII bytes precede is a character boundary.
proof fn lemma_ascii_prefix_is_boundary(bytes: Seq<u8>, n: int)
    requires
        valid_utf8(bytes),
        0 <= n <= bytes.len(),
        forall|j: int| 0 <= j < n ==> #[trigger] bytes[j] < 0x80,
    ensures
        is_char_boundary(bytes, n),
    decreases n,
{
    if n > 0 {
        let rest = pop_first_scalar(bytes);
        assert(length_of_first_scalar(bytes) == 1);
        assert forall|j: int| 0 <= j < n - 1 implies #[trigger] rest[j] < 0x80 by {
            assert(rest[j] == bytes[j + 1]);
        }
        lemma_ascii_prefix_is_boundary(rest, n - 1);
    }
}

/// The bytes of the prefix that an abbreviation code stands for.
fn prefix_bytes(code: u8) -> (r: Vec<u8>)
    ensures
        r@ == uri_prefix(code),
{
    let r = if code == 0x01 {
        // "http://www."
        vec![0x68, 0x74, 0x74, 0x70, 0x3A, 0x2F, 0x2F, 0x77, 0x77, 0x77, 0x2E]
    } else if code == 0x02 {
        // "https://www."
        vec![0x68, 0x74, 0x74, 0x70, 0x73, 0x3A, 0x2F, 0x2F, 0x77, 0x77, 0x77, 0x2E]
    } else if code == 0x03 {
        // "http://"
        vec![0x68, 0x74, 0x74, 0x70, 0x3A, 0x2F, 0x2F]
    } else if code == 0x04 {
        // "https://"
        vec![0x68, 0x74, 0x74, 0x70, 0x73, 0x3A, 0x2F, 0x2F]
    } else if code == 0x05 {
        // "tel:"
        vec![0x74, 0x65, 0x6C, 0x3A]
    } else if code == 0x06 {
        // "mailto:"
        vec![0x6D, 0x61, 0x69, 0x6C, 0x74, 0x6F, 0x3A]
    } else {
        Vec::new()
    };
    assert(r@ =~= uri_prefix(code));
    r
}

fn starts_with_code(s: &[u8], code: u8) -> (r: bool)
    ensures
        r == has_prefix(s@, uri_prefix(code)),
{
    let p = prefix_bytes(code);
    if p.len() > s.len() {
        return false;
    }
    let mut i: usize = 0;
    while i < p.len()
        invariant
            p@ == uri_prefix(code),
            p@.len() <= s@.len(),
            i <= p@.len(),
            forall|j: int| 0 <= j < i ==> s@[j] == p@[j],
        decreases p@.len() - i,
    {
        if s[i] != p[i] {
            return false;
        }
        i = i + 1;
    }
    assert(s@.subrange(0, p@.len() as int) =~= p@);
    true
}

/// Replaces a recognised URI prefix by its one-byte abbreviation code.
pub fn strip_uri_prefix(url: &str) -> (r: (u8, &str))
    ensures
        r.0 == prefix_code(url.spec_bytes()),
        r.1.spec_bytes() == stripped_url(url.spec_bytes()),
{
    let bytes = url.as_bytes();
    let code: u8 = if starts_with_code(bytes, 0x02) {
        0x02
    } else if starts_with_code(bytes, 0x01) {
        0x01
    } else if starts_with_code(bytes, 0x04) {
        0x04
    } else if starts_with_code(bytes, 0x03) {
        0x03
    } else if starts_with_code(bytes, 0x05) {
        0x05
    } else if starts_with_code(bytes, 0x06) {
        0x06
    } else {
        0x00
    };
    let n = prefix_bytes(code).len();
    proof {
        let b = url.spec_bytes();
        lemma_prefixes_are_ascii(code);
        encode_utf8_valid_utf8(url@);
        assert forall|j: int| 0 <= j < n implies #[trigger] b[j] < 0x80 by {
            assert(b[j] == b.subrange(0, n as int)[j]);
        }
        lemma_ascii_prefix_is_boundary(b, n as int);
    }
    let (_, rest) = url.split_at(n);
    (code, rest)
}

/// The URI record payload for a URL: the abbreviation code, then the rest of the URL.
pub fn url_to_msgtlv_payload(url: &str) -> (r: Vec<u8>)
    ensures
        r@ == uri_payload(url.spec_bytes()),
{
    let (prefix, stripped) = strip_uri_prefix(url);
    let mut rs = vec![prefix];
    let tail = stripped.as_bytes();
    let mut i: usize = 0;
    while i < tail.len()
        invariant
            rs@ == seq![prefix] + tail@.subrange(0, i as int),
            i <= tail@.len(),
        decreases tail@.len() - i,
    {
        rs.push(tail[i]);
        i = i + 1;
        assert(rs@ =~= seq![prefix] + tail@.subrange(0, i as int));
    }
    assert(tail@.subrange(0, i as int) =~= tail@);
    rs
}

/// The bytes to write to the tag's user memory for a URL.
pub fn url_to_write_bytes(url: &str) -> (r: Vec<u8>)
    requires
        uri_payload(url.spec_bytes()).len() <= MAX_URI_PAYLOAD_LEN,
    ensures
        r@ == ndef_message(url.spec_bytes()),
        r@.len() == uri_payload(url.spec_bytes()).len() + 12,
{
    let payload = url_to_msgtlv_payload(url);
    let len = payload.len() as u8;
    let mut rs: Vec<u8> = Vec::with_capacity(TLV_HEADER.len() + 6 + payload.len() + 1);
    let mut i: usize = 0;
    while i < TLV_HEADER.len()
        invariant
            rs@ == TLV_HEADER@.subrange(0, i as int),
            i <= 5,
        decreases 5 - i,
    {
        rs.push(TLV_HEADER[i]);
        i = i + 1;
        assert(rs@ =~= TLV_HEADER@.subrange(0, i as int));
    }
    rs.push(TLV_NDEF_MESSAGE);
    rs.push(len + 4);
    rs.push(TLV_NDEF_RECORD);
    rs.push(TLV_NDEF_MESSAGE_TYPE_LEN);
    rs.push(len);
    rs.push(TLV_NDEF_RECORD_TYPE);
    let ghost framed = rs@;
    let mut j: usize = 0;
    while j < payload.len()
        invariant
            rs@ == framed + payload@.subrange(0, j as int),
            j <= payload@.len(),
        decreases payload@.len() - j,
    {
        rs.push(payload[j]);
        j = j + 1;
        assert(rs@ =~= framed + payload@.subrange(0, j as int));
    }
    rs.push(TLV_TERMINATOR);
    assert(payload@.subrange(0, j as int) =~= payload@);
    assert(rs@ =~= ndef_message(url.spec_bytes()));
    rs
}

} // verus!
