//! The signature header: how a delivery is signed, and how a receiver reads
//! the header back and decides.
//!
//! The header is `t=<ts>,v1=<hex>[,v1=<hex>]`: the time, and one HMAC-SHA256
//! over `"<ts>.<body>"` for each secret in force. The time is inside what is
//! signed; several codes cover the overlap while a secret is rotated.

use crate::digest::{
    hex_decode, hex_encode, hex_of, hex_round_trip, hmac_matches, hmac_of, hmac_sha256,
    lemma_hex_chars, unhex, utf8,
};
use crate::text::{
    decimal_i64, decimal_of, decimal_round_trip, is_digit, is_white, lemma_decimal_nat,
    lemma_split_append, lemma_split_once_at, lemma_split_plain, lemma_trim_solid, parse_i64,
    parse_i64_of, same, split, split_of, split_once, split_once_of, texts, trim, trim_of,
};
use vstd::prelude::*;

verus! {

/// A header is taken as fresh within this many seconds of its time.
pub const TOLERANCE_SECS: i64 = 300;

/// What is signed: the time in decimal, a dot, the body.
pub open spec fn signed_content(ts: int, body: Seq<u8>) -> Seq<u8> {
    utf8(decimal_of(ts)) + seq![46u8] + body
}

/// The code of a body under one secret.
pub open spec fn code_of(secret: Seq<char>, ts: int, body: Seq<u8>) -> Seq<char> {
    hex_of(hmac_sha256(utf8(secret), signed_content(ts, body)))
}

/// The header for a time, a body and the secrets in force.
pub open spec fn header_of(secrets: Seq<Seq<char>>, ts: int, body: Seq<u8>) -> Seq<char>
    decreases secrets.len(),
{
    if secrets.len() == 0 {
        "t="@ + decimal_of(ts)
    } else {
        header_of(secrets.drop_last(), ts, body) + ",v1="@ + code_of(secrets.last(), ts, body)
    }
}

/// The texts of borrowed strings.
pub open spec fn strs(s: Seq<&str>) -> Seq<Seq<char>> {
    s.map_values(|t: &str| t@)
}

/// The bytes that are signed for a time and a body.
pub fn content(ts: i64, body: &[u8]) -> (r: Vec<u8>)
    ensures
        r@ == signed_content(ts as int, body@),
{
    let mut out: Vec<u8> = Vec::new();
    let stamp = decimal_i64(ts);
    out.extend_from_slice(stamp.as_str().as_bytes());
    out.push(46);
    out.extend_from_slice(body);
    assert(out@ =~= signed_content(ts as int, body@));
    out
}

/// Signs a body: the time, then one code for each secret.
pub fn sign(secrets: &[&str], ts: i64, body: &[u8]) -> (r: String)
    ensures
        r@ == header_of(strs(secrets@), ts as int, body@),
{
    let preimage = content(ts, body);
    let mut header = "t=".to_owned();
    let stamp = decimal_i64(ts);
    header.append(stamp.as_str());
    let mut i: usize = 0;
    assert(strs(secrets@).take(0) =~= Seq::empty());
    while i < secrets.len()
        invariant
            i <= secrets@.len(),
            preimage@ == signed_content(ts as int, body@),
            header@ == header_of(strs(secrets@).take(i as int), ts as int, body@),
        decreases secrets@.len() - i,
    {
        let code = hmac_of(secrets[i].as_bytes(), preimage.as_slice());
        let text = hex_encode(code.as_slice());
        header.append(",v1=");
        header.append(text.as_str());
        proof {
            let next = strs(secrets@).take(i + 1);
            assert(next.drop_last() =~= strs(secrets@).take(i as int));
            assert(next.last() == secrets@[i as int]@);
        }
        i += 1;
    }
    assert(strs(secrets@).take(i as int) =~= strs(secrets@));
    header
}

// --- reading a header ---

/// A value of the header: as it stands, or without the white space around it.
pub open spec fn value_of(v: Seq<char>, trimmed: bool) -> Seq<char> {
    if trimmed {
        trim_of(v)
    } else {
        v
    }
}

/// The time a header carries: that of its last `t` part, where it is a number.
pub open spec fn timestamp_of(parts: Seq<Seq<char>>, trimmed: bool) -> Option<int>
    decreases parts.len(),
{
    if parts.len() == 0 {
        None
    } else {
        match split_once_of(parts.last(), '=') {
            Some((k, v)) => if k == "t"@ {
                parse_i64_of(value_of(v, trimmed))
            } else {
                timestamp_of(parts.drop_last(), trimmed)
            },
            None => timestamp_of(parts.drop_last(), trimmed),
        }
    }
}

/// The codes a header carries, in order.
pub open spec fn codes_of(parts: Seq<Seq<char>>, trimmed: bool) -> Seq<Seq<char>>
    decreases parts.len(),
{
    if parts.len() == 0 {
        Seq::empty()
    } else {
        let before = codes_of(parts.drop_last(), trimmed);
        match split_once_of(parts.last(), '=') {
            Some((k, v)) => if k == "v1"@ {
                before.push(value_of(v, trimmed))
            } else {
                before
            },
            None => before,
        }
    }
}

/// What a header says.
pub struct SignatureHeader {
    /// The time it was signed at, where it carries one.
    pub timestamp: Option<i64>,
    /// The codes it carries.
    pub codes: Vec<String>,
}

impl SignatureHeader {
    /// Whether this is what the header says.
    pub open spec fn reads(&self, header: Seq<char>, trimmed: bool) -> bool {
        let parts = split_of(header, ',');
        &&& match self.timestamp {
            Some(ts) => timestamp_of(parts, trimmed) == Some(ts as int),
            None => timestamp_of(parts, trimmed) is None,
        }
        &&& texts(self.codes@) == codes_of(parts, trimmed)
    }
}

/// Reads a header into its time and its codes; parts of other names, and
/// parts without a name, are passed over.
pub fn read_header(header: &str, trimmed: bool) -> (r: SignatureHeader)
    ensures
        r.reads(header@, trimmed),
{
    proof {
        reveal_strlit("t");
        reveal_strlit("v1");
        assert("t"@.len() != "v1"@.len());
    }
    let parts = split(header, ',');
    let ghost all = texts(parts@);
    let mut timestamp: Option<i64> = None;
    let mut codes: Vec<String> = Vec::new();
    let mut i: usize = 0;
    assert(all.take(0) =~= Seq::empty());
    assert(texts(codes@) =~= Seq::empty());
    while i < parts.len()
        invariant
            i <= parts@.len(),
            all == texts(parts@),
            "t"@ != "v1"@,
            match timestamp {
                Some(ts) => timestamp_of(all.take(i as int), trimmed) == Some(ts as int),
                None => timestamp_of(all.take(i as int), trimmed) is None,
            },
            texts(codes@) == codes_of(all.take(i as int), trimmed),
        decreases parts@.len() - i,
    {
        proof {
            assert(all.take(i + 1).drop_last() =~= all.take(i as int));
            assert(all.take(i + 1).last() == parts@[i as int]@);
        }
        match split_once(parts[i].as_str(), '=') {
            Some((name, value)) => {
                let value = if trimmed {
                    trim(value.as_str())
                } else {
                    value
                };
                if same(name.as_str(), "t") {
                    timestamp = parse_i64(value.as_str());
                } else if same(name.as_str(), "v1") {
                    let ghost before = codes@;
                    codes.push(value);
                    assert(texts(codes@) =~= texts(before).push(value@));
                }
            },
            None => {},
        }
        i += 1;
    }
    assert(all.take(i as int) =~= all);
    SignatureHeader { timestamp, codes }
}

/// Whether some code of a header is the body's code under the secret.
pub open spec fn code_accepted(
    codes: Seq<Seq<char>>,
    secret: Seq<char>,
    ts: int,
    body: Seq<u8>,
) -> bool {
    exists|i: int|
        0 <= i < codes.len() && unhex(#[trigger] codes[i]) == Some(
            hmac_sha256(utf8(secret), signed_content(ts, body)),
        )
}

/// Whether some code, decoded, is the body's code under the secret.
pub fn any_code_matches(codes: &Vec<String>, secret: &str, ts: i64, body: &[u8]) -> (r: bool)
    ensures
        r == code_accepted(texts(codes@), secret@, ts as int, body@),
{
    let preimage = content(ts, body);
    let mut i: usize = 0;
    while i < codes.len()
        invariant
            i <= codes@.len(),
            preimage@ == signed_content(ts as int, body@),
            forall|j: int|
                0 <= j < i ==> unhex(#[trigger] texts(codes@)[j]) != Some(
                    hmac_sha256(utf8(secret@), preimage@),
                ),
        decreases codes@.len() - i,
    {
        if let Some(code) = hex_decode(codes[i].as_str()) {
            if hmac_matches(secret.as_bytes(), preimage.as_slice(), code.as_slice()) {
                assert(unhex(texts(codes@)[i as int]) == Some(code@));
                return true;
            }
        }
        assert(texts(codes@)[i as int] == codes@[i as int]@);
        i += 1;
    }
    false
}

/// Whether a time is within the tolerance of now.
pub open spec fn fresh(now: int, ts: int) -> bool {
    -TOLERANCE_SECS <= now - ts <= TOLERANCE_SECS
}

/// Whether the time is within the tolerance of now, before or after.
pub fn is_fresh(now: i64, ts: i64) -> (r: bool)
    ensures
        r == fresh(now as int, ts as int),
{
    let age: i128 = now as i128 - ts as i128;
    -(TOLERANCE_SECS as i128) <= age && age <= TOLERANCE_SECS as i128
}

// --- what a receiver makes of a header ---

/// The outcome of a receiver's check.
pub struct SigCheck {
    /// Some code of the header is the body's.
    pub valid: bool,
    /// How long ago the header was signed, in seconds, where it carries a time.
    pub age: Option<i128>,
}

/// Checks a header against a body with the receiver's secret: the codes are
/// compared as they stand, in lower-case hexadecimal.
pub fn verify_at(secret: &str, header: &str, body: &[u8], now: i64) -> (r: SigCheck)
    ensures
        ({
            let parts = split_of(header@, ',');
            match timestamp_of(parts, false) {
                Some(ts) => {
                    &&& r.valid == codes_of(parts, false).contains(code_of(secret@, ts, body@))
                    &&& r.age == Some((now - ts) as i128)
                },
                None => !r.valid && r.age is None,
            }
        }),
{
    let read = read_header(header, false);
    match read.timestamp {
        None => SigCheck { valid: false, age: None },
        Some(ts) => {
            let preimage = content(ts, body);
            let code = hmac_of(secret.as_bytes(), preimage.as_slice());
            let expected = hex_encode(code.as_slice());
            let ghost codes = texts(read.codes@);
            let mut valid = false;
            let mut i: usize = 0;
            while i < read.codes.len()
                invariant
                    i <= read.codes@.len(),
                    codes == texts(read.codes@),
                    valid == exists|j: int| 0 <= j < i && #[trigger] codes[j] == expected@,
                decreases read.codes@.len() - i,
            {
                assert(codes[i as int] == read.codes@[i as int]@);
                if same(read.codes[i].as_str(), expected.as_str()) {
                    valid = true;
                }
                i += 1;
            }
            assert(valid == codes.contains(expected@)) by {
                if codes.contains(expected@) {
                    let j = choose|j: int| 0 <= j < codes.len() && codes[j] == expected@;
                    assert(codes[j] == expected@);
                }
            }
            SigCheck { valid, age: Some(now as i128 - ts as i128) }
        },
    }
}

// --- a signed header is read back as it was written ---

proof fn lemma_decimal_solid(ts: int)
    ensures
        forall|i: int|
            0 <= i < decimal_of(ts).len() ==> {
                let c = #[trigger] decimal_of(ts)[i];
                !is_white(c) && c != ',' && c != '='
            },
{
    let d = decimal_of(ts);
    let n = if ts < 0 {
        (-ts) as nat
    } else {
        ts as nat
    };
    lemma_decimal_nat(n);
    assert forall|i: int| 0 <= i < d.len() implies {
        let c = #[trigger] d[i];
        !is_white(c) && c != ',' && c != '='
    } by {
        if ts < 0 && i > 0 {
            assert(d[i] == crate::text::decimal_nat(n)[i - 1]);
            assert(is_digit(d[i]));
        } else if ts >= 0 {
            assert(is_digit(d[i]));
        }
    }
}

/// The parts of a header that was signed: the time, then one code for each
/// secret.
proof fn lemma_header_parts(secrets: Seq<Seq<char>>, ts: int, body: Seq<u8>, trimmed: bool)
    requires
        i64::MIN <= ts <= i64::MAX,
    ensures
        ({
            let parts = split_of(header_of(secrets, ts, body), ',');
            &&& timestamp_of(parts, trimmed) == Some(ts)
            &&& codes_of(parts, trimmed) == secrets.map_values(
                |s: Seq<char>| code_of(s, ts, body),
            )
        }),
    decreases secrets.len(),
{
    reveal_strlit("t=");
    reveal_strlit("t");
    reveal_strlit("v1");
    reveal_strlit(",v1=");
    assert("t"@ != "v1"@) by {
        assert("t"@.len() != "v1"@.len());
    }
    let h = header_of(secrets, ts, body);
    let parts = split_of(h, ',');
    lemma_decimal_solid(ts);
    if secrets.len() == 0 {
        let d = decimal_of(ts);
        assert(h =~= "t"@ + seq!['='] + d);
        assert(!h.contains(',')) by {
            assert forall|i: int| 0 <= i < h.len() implies h[i] != ',' by {
                if i >= 2 {
                    assert(h[i] == d[i - 2]);
                }
            }
        }
        lemma_split_plain(h, ',');
        lemma_split_once_at("t"@, '=', d);
        assert(parts.last() == h);
        lemma_trim_solid(d);
        decimal_round_trip(ts);
        assert(parts.drop_last() =~= Seq::empty());
        assert(codes_of(parts.drop_last(), trimmed) =~= Seq::empty());
        assert(codes_of(parts, trimmed) =~= Seq::empty());
        assert(secrets.map_values(|s: Seq<char>| code_of(s, ts, body)) =~= Seq::empty());
    } else {
        let before = secrets.drop_last();
        lemma_header_parts(before, ts, body, trimmed);
        let code = code_of(secrets.last(), ts, body);
        lemma_hex_chars(hmac_sha256(utf8(secrets.last()), signed_content(ts, body)));
        let tail = "v1"@ + seq!['='] + code;
        let h0 = header_of(before, ts, body);
        assert(h =~= h0 + seq![','] + tail);
        assert(!tail.contains(',')) by {
            assert forall|i: int| 0 <= i < tail.len() implies tail[i] != ',' by {
                if i >= 3 {
                    assert(tail[i] == code[i - 3]);
                }
            }
        }
        lemma_split_append(h0, ',', tail);
        assert(parts == split_of(h0, ',').push(tail));
        assert(parts.drop_last() =~= split_of(h0, ','));
        assert(!"v1"@.contains('='));
        lemma_split_once_at("v1"@, '=', code);
        lemma_trim_solid(code);
        assert(secrets.map_values(|s: Seq<char>| code_of(s, ts, body))
            =~= before.map_values(|s: Seq<char>| code_of(s, ts, body)).push(code));
    }
}

/// A header signed with several secrets is valid to a receiver that holds any
/// one of them, and tells it the time it was signed at.
pub proof fn signed_header_is_valid(
    secrets: Seq<Seq<char>>,
    i: int,
    ts: int,
    body: Seq<u8>,
)
    requires
        0 <= i < secrets.len(),
        i64::MIN <= ts <= i64::MAX,
    ensures
        ({
            let parts = split_of(header_of(secrets, ts, body), ',');
            &&& timestamp_of(parts, false) == Some(ts)
            &&& codes_of(parts, false).contains(code_of(secrets[i], ts, body))
        }),
{
    lemma_header_parts(secrets, ts, body, false);
    let codes = codes_of(split_of(header_of(secrets, ts, body), ','), false);
    assert(codes[i] == code_of(secrets[i], ts, body));
}

/// A header signed with several secrets is accepted by whoever decodes its
/// codes and holds any one of the secrets.
pub proof fn signed_header_is_accepted(
    secrets: Seq<Seq<char>>,
    i: int,
    ts: int,
    body: Seq<u8>,
)
    requires
        0 <= i < secrets.len(),
        i64::MIN <= ts <= i64::MAX,
    ensures
        ({
            let parts = split_of(header_of(secrets, ts, body), ',');
            &&& timestamp_of(parts, true) == Some(ts)
            &&& code_accepted(codes_of(parts, true), secrets[i], ts, body)
        }),
{
    lemma_header_parts(secrets, ts, body, true);
    let codes = codes_of(split_of(header_of(secrets, ts, body), ','), true);
    let code = hmac_sha256(utf8(secrets[i]), signed_content(ts, body));
    hex_round_trip(code);
    assert(codes[i] == code_of(secrets[i], ts, body));
    assert(unhex(codes[i]) == Some(code));
}

/// A header is fresh within five minutes of its time, before or after, and not
/// beyond.
pub proof fn headers_stay_fresh_for_five_minutes(now: int, ts: int)
    ensures
        fresh(now, ts) <==> (now - ts <= 300 && ts - now <= 300),
{
}

/// A header tells its receiver the time of its signing and holds one code for
/// each secret, in their order, and none besides.
pub proof fn header_has_a_code_for_each_secret(
    secrets: Seq<Seq<char>>,
    ts: int,
    body: Seq<u8>,
    trimmed: bool,
)
    requires
        i64::MIN <= ts <= i64::MAX,
    ensures
        ({
            let parts = split_of(header_of(secrets, ts, body), ',');
            &&& timestamp_of(parts, trimmed) == Some(ts)
            &&& codes_of(parts, trimmed).len() == secrets.len()
            &&& forall|i: int|
                0 <= i < secrets.len() ==> unhex(#[trigger] codes_of(parts, trimmed)[i]) == Some(
                    hmac_sha256(utf8(secrets[i]), signed_content(ts, body)),
                )
        }),
{
    lemma_header_parts(secrets, ts, body, trimmed);
    let codes = codes_of(split_of(header_of(secrets, ts, body), ','), trimmed);
    assert forall|i: int| 0 <= i < secrets.len() implies unhex(#[trigger] codes[i]) == Some(
        hmac_sha256(utf8(secrets[i]), signed_content(ts, body)),
    ) by {
        hex_round_trip(hmac_sha256(utf8(secrets[i]), signed_content(ts, body)));
        assert(codes[i] == code_of(secrets[i], ts, body));
    }
}

/// What is signed ends with the whole body, behind the time and a full stop.
pub proof fn time_and_body_are_signed(ts: int, body: Seq<u8>)
    ensures
        ({
            let signed = signed_content(ts, body);
            let n = signed.len() - body.len();
            &&& n >= 1
            &&& signed.skip(n) == body
            &&& signed[n - 1] == '.' as u8
            &&& signed.take(n - 1) == utf8(decimal_of(ts))
        }),
{
    let signed = signed_content(ts, body);
    let n = signed.len() - body.len();
    assert(signed.skip(n) =~= body);
    assert(signed.take(n - 1) =~= utf8(decimal_of(ts)));
}

/// A header that carries no code of the body under the secret is not accepted,
/// whatever else it carries.
pub proof fn foreign_codes_are_refused(
    codes: Seq<Seq<char>>,
    secret: Seq<char>,
    ts: int,
    body: Seq<u8>,
)
    requires
        forall|i: int|
            0 <= i < codes.len() ==> unhex(#[trigger] codes[i]) != Some(
                hmac_sha256(utf8(secret), signed_content(ts, body)),
            ),
    ensures
        !code_accepted(codes, secret, ts, body),
{
}

/// A header that is read has the time and the codes that stand in it, in order: a
/// part named `t` is the time, where it is a number, and the last of them counts; a
/// part named `v1` is a code; any other is passed over.
pub proof fn header_parts_are_read_by_name(
    h: SignatureHeader,
    header: Seq<char>,
    trimmed: bool,
    parts: Seq<Seq<char>>,
    name: Seq<char>,
    value: Seq<char>,
)
    requires
        h.reads(header, trimmed),
        !name.contains('='),
    ensures
        h.timestamp matches Some(ts) ==> timestamp_of(split_of(header, ','), trimmed) == Some(
            ts as int,
        ),
        h.timestamp is None ==> timestamp_of(split_of(header, ','), trimmed) is None,
        texts(h.codes@) == codes_of(split_of(header, ','), trimmed),
        ({
            let more = parts.push(name + seq!['='] + value);
            let read = if trimmed {
                trim_of(value)
            } else {
                value
            };
            &&& name == "t"@ ==> timestamp_of(more, trimmed) == parse_i64_of(read) && codes_of(
                more,
                trimmed,
            ) == codes_of(parts, trimmed)
            &&& name == "v1"@ ==> codes_of(more, trimmed) == codes_of(parts, trimmed).push(read)
                && timestamp_of(more, trimmed) == timestamp_of(parts, trimmed)
            &&& name != "t"@ && name != "v1"@ ==> codes_of(more, trimmed) == codes_of(
                parts,
                trimmed,
            ) && timestamp_of(more, trimmed) == timestamp_of(parts, trimmed)
        }),
{
    let part = name + seq!['='] + value;
    let more = parts.push(part);
    assert(more.drop_last() =~= parts);
    assert(more.last() == part);
    crate::text::lemma_split_once_at(name, '=', value);
    reveal_strlit("t");
    reveal_strlit("v1");
    assert("t"@.len() == 1 && "v1"@.len() == 2);
}

} // verus!
