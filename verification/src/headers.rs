//! Header-offset artifacts: where the logging header's name and value sit in
//! the baseline HTTP request.
//!
//! The baseline request is `GET / HTTP/1.1` followed by the canonical Host,
//! User-agent and Accept headers and the configured logging header. Walking
//! the header list while summing `name + ": " + value + CRLF` lengths yields
//! the byte offset of the header name and of its value within the HTTP
//! payload. The header list itself is produced by the `http` crate's request
//! builder, which stores names lowercased; the offset fold over the returned
//! pairs is verified exactly.

use vstd::prelude::*;

verus! {

/// Length of the request line `GET / HTTP/1.1` plus its CRLF.
pub const REQUEST_LINE_LEN: usize = 16;

/// One header of the baseline request: its (lowercased) name and the byte
/// length of its value.
pub struct HeaderPair {
    pub name: String,
    pub value_len: usize,
}

/// What `str::to_lowercase` returns; the result depends on the characters
/// alone.
pub uninterp spec fn lower_of(s: Seq<char>) -> Seq<char>;

/// The decimal-ASCII codes of a character sequence.
pub open spec fn ascii_codes(s: Seq<char>) -> Seq<u8> {
    Seq::new(s.len(), |i: int| s[i] as u8)
}

/// Every character lies in the ASCII range.
pub open spec fn all_ascii(s: Seq<char>) -> bool {
    forall|i: int| 0 <= i < s.len() ==> (#[trigger] s[i]) < '\u{80}'
}

/// Characters valid in a configured header name: ASCII letters, digits and
/// hyphens.
pub open spec fn header_key_chars(s: Seq<char>) -> bool {
    &&& s.len() >= 1
    &&& forall|i: int|
        0 <= i < s.len() ==> (('a' <= #[trigger] s[i] <= 'z') || ('A' <= s[i] <= 'Z') || ('0'
            <= s[i] <= '9') || s[i] == '-')
}

/// Relies on str::to_lowercase: the lowercased form of the input.
#[verifier::external_body]
fn lowercase(s: &str) -> (r: String)
    ensures
        r@ == lower_of(s@),
{
    s.to_lowercase()
}

/// Relies on ascii_converter::string_to_decimals: every character of an
/// all-ASCII string maps to its decimal code, in order; a string with any
/// non-ASCII character yields an error.
#[verifier::external_body]
fn string_decimals(s: &str) -> (r: Option<Vec<u8>>)
    ensures
        (r is Some) <==> all_ascii(s@),
        r matches Some(v) ==> v@ == ascii_codes(s@),
{
    match ascii_converter::string_to_decimals(s) {
        Ok(v) => Some(v),
        Err(_) => None,
    }
}

/// Relies on http's request builder and header map: appending the three
/// canonical headers and the configured one yields a map of four values,
/// iterated as four (name, value) pairs; names are stored lowercased, so
/// one pair carries the lowercased configured name with the 7-byte
/// placeholder value. A name that is not a valid header token makes the
/// builder fail, which surfaces as `None`; letters, digits and hyphens are
/// always valid.
#[verifier::external_body]
fn baseline_header_pairs(payloadkey: &str) -> (r: Option<Vec<HeaderPair>>)
    ensures
        r matches Some(v) ==> v@.len() == 4,
        header_key_chars(payloadkey@) ==> r is Some,
        r matches Some(v) ==> (forall|i: int|
            0 <= i < v@.len() ==> (#[trigger] v@[i]).value_len <= 14 && v@[i].name@.len()
                <= payloadkey@.len() + 10),
        header_key_chars(payloadkey@) ==> (r matches Some(v) ==> (exists|i: int|
            0 <= i < v@.len() && (#[trigger] v@[i]).name@ == lower_of(payloadkey@)
                && v@[i].value_len == 7)),
{
    let req = http::Request::builder()
        .header("Host", "127.0.0.1:8080")
        .header("User-agent", "curl/7.81.0")
        .header("Accept", "*/*")
        .header(payloadkey, "payload");
    req.headers_ref().map(|hm| {
        hm.iter().map(|(k, v)| HeaderPair { name: k.to_string(), value_len: v.len() }).collect()
    })
}

/// The offset fold from pair `i` on: `hdrlen` bytes precede pair `i`, and
/// `(nameoff, valueoff)` hold the offsets recorded so far for the header
/// whose name equals `key`.
pub open spec fn offsets_from(
    ps: Seq<HeaderPair>,
    key: Seq<char>,
    i: int,
    hdrlen: int,
    nameoff: int,
    valueoff: int,
) -> (int, int)
    decreases ps.len() - i,
{
    if i < 0 || i >= ps.len() {
        (nameoff, valueoff)
    } else {
        let p = ps[i];
        let hit = p.name@ == key;
        offsets_from(
            ps,
            key,
            i + 1,
            hdrlen + p.name@.len() + p.value_len + 4,
            if hit {
                hdrlen
            } else {
                nameoff
            },
            if hit {
                hdrlen + 2 + p.name@.len()
            } else {
                valueoff
            },
        )
    }
}

/// Offsets of the header named `key` within the baseline request made of
/// the pairs `ps`: `(0, 0)` when no pair matches.
pub open spec fn header_offsets_spec(ps: Seq<HeaderPair>, key: Seq<char>) -> (int, int) {
    offsets_from(ps, key, 0, REQUEST_LINE_LEN as int, 0, 0)
}

/// Walks the header pairs and returns the name and value offsets of the
/// header named `key_lower`; the executable mirror of
/// `header_offsets_spec`.
pub fn header_offsets(pairs: &Vec<HeaderPair>, key_lower: &String) -> (r: (usize, usize))
    requires
        pairs@.len() <= 8,
        forall|i: int|
            0 <= i < pairs@.len() ==> (#[trigger] pairs@[i]).name@.len() <= 1024
                && pairs@[i].value_len <= 1024,
    ensures
        (r.0 as int, r.1 as int) == header_offsets_spec(pairs@, key_lower@),
{
    let n = pairs.len();
    let mut hdrlen: usize = REQUEST_LINE_LEN;
    let mut nameoff: usize = 0;
    let mut valueoff: usize = 0;
    let mut i: usize = 0;
    while i < n
        invariant
            n == pairs@.len(),
            n <= 8,
            i <= n,
            forall|k: int|
                0 <= k < pairs@.len() ==> (#[trigger] pairs@[k]).name@.len() <= 1024
                    && pairs@[k].value_len <= 1024,
            hdrlen <= REQUEST_LINE_LEN + i * 2052,
            valueoff <= REQUEST_LINE_LEN + n * 2052 + 1026,
            nameoff <= REQUEST_LINE_LEN + n * 2052,
            header_offsets_spec(pairs@, key_lower@) == offsets_from(
                pairs@,
                key_lower@,
                i as int,
                hdrlen as int,
                nameoff as int,
                valueoff as int,
            ),
        decreases n - i,
    {
        let p = &pairs[i];
        let name_len = p.name.as_str().unicode_len();
        if p.name == *key_lower {
            nameoff = hdrlen;
            valueoff = hdrlen + 2 + name_len;
        }
        hdrlen = hdrlen + name_len + p.value_len + 4;
        i = i + 1;
    }
    (nameoff, valueoff)
}

/// Name and value offsets of the configured logging header within the
/// baseline request built around `payloadkey`.
///
/// The header pairs come from the request builder, whose iteration order is
/// not promised, so the result is pinned only as the offset fold over some
/// four-pair list; for a valid key that list carries the lowercased key
/// with its placeholder value. An invalid header name yields `(0, 0)`.
pub fn get_template_header_offset(payloadkey: &str) -> (r: (usize, usize))
    requires
        payloadkey@.len() <= 255,
    ensures
        r == (0usize, 0usize) || (exists|ps: Seq<HeaderPair>|
            ps.len() == 4 && (r.0 as int, r.1 as int) == header_offsets_spec(
                ps,
                lower_of(payloadkey@),
            )),
        header_key_chars(payloadkey@) ==> (exists|ps: Seq<HeaderPair>|
            ps.len() == 4 && (exists|i: int|
                0 <= i < 4 && (#[trigger] ps[i]).name@ == lower_of(payloadkey@) && ps[i].value_len
                    == 7) && (r.0 as int, r.1 as int) == header_offsets_spec(
                ps,
                lower_of(payloadkey@),
            )),
{
    match baseline_header_pairs(payloadkey) {
        None => (0, 0),
        Some(pairs) => {
            let key_lower = lowercase(payloadkey);
            let r = header_offsets(&pairs, &key_lower);
            proof {
                assert(pairs@.len() == 4 && (r.0 as int, r.1 as int) == header_offsets_spec(
                    pairs@,
                    lower_of(payloadkey@),
                ));
            }
            r
        },
    }
}

/// Offsets of the default `X-Api-Version` logging header within the
/// baseline request, clamped to the byte-sized artifact format; a fold
/// result outside one byte yields `(0, 0)`.
pub fn get_default_header_offset() -> (r: (u8, u8))
    ensures
        exists|ps: Seq<HeaderPair>|
            ps.len() == 4 && (exists|i: int|
                0 <= i < 4 && (#[trigger] ps[i]).name@ == lower_of("X-Api-Version"@)
                    && ps[i].value_len == 7) && ({
                let o = header_offsets_spec(ps, lower_of("X-Api-Version"@));
                if o.0 <= 255 && o.1 <= 255 {
                    r.0 == o.0 && r.1 == o.1
                } else {
                    r == (0u8, 0u8)
                }
            }),
{
    proof {
        reveal_strlit("X-Api-Version");
        assert(header_key_chars("X-Api-Version"@));
    }
    let off = get_template_header_offset("X-Api-Version");
    if off.0 <= 255 && off.1 <= 255 {
        (off.0 as u8, off.1 as u8)
    } else {
        (0, 0)
    }
}

/// The two loader artifacts for the configured logging header (the default
/// `X-Api-Version` when none is given): the `[name length, name offset]`
/// pair and the decimal-ASCII byte sequence of the name.
#[allow(non_snake_case)]
pub fn __config_logger_payload(payloadkey: Option<&str>) -> (r: (Vec<u8>, Vec<u8>))
    requires
        payloadkey matches Some(k) ==> header_key_chars(k@) && k@.len() <= 255,
    ensures
        r.0@.len() == 2,
        payloadkey matches Some(k) ==> r.0@[0] == k@.len() as u8 && r.1@ == ascii_codes(k@),
        payloadkey is None ==> r.0@[0] == 13 && r.1@ == ascii_codes("X-Api-Version"@),
{
    match payloadkey {
        None => {
            proof {
                reveal_strlit("X-Api-Version");
                assert(header_key_chars("X-Api-Version"@));
            }
            let off = get_default_header_offset();
            let mut art: Vec<u8> = Vec::new();
            art.push(13);
            art.push(off.0);
            let seqb = match string_decimals("X-Api-Version") {
                Some(v) => v,
                None => Vec::new(),
            };
            (art, seqb)
        },
        Some(k) => {
            let off = get_template_header_offset(k);
            let off_byte: u8 = if off.0 <= 255 {
                off.0 as u8
            } else {
                0
            };
            let klen = k.unicode_len();
            let mut art: Vec<u8> = Vec::new();
            art.push(klen as u8);
            art.push(off_byte);
            let seqb = match string_decimals(k) {
                Some(v) => v,
                None => Vec::new(),
            };
            (art, seqb)
        },
    }
}

} // verus!
