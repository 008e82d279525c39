//! Base64 (standard alphabet, `=` padding) for byte payloads in text messages.

use vstd::prelude::*;
use vstd::utf8::encode_utf8;

use crate::text::push_char;

verus! {

/// The ASCII code of the alphabet letter for a six-bit value.
pub open spec fn b64_letter(v: u8) -> u8 {
    if v < 26 {
        (65 + v) as u8
    } else if v < 52 {
        (97 + (v - 26)) as u8
    } else if v < 62 {
        (48 + (v - 52)) as u8
    } else if v == 62 {
        43u8
    } else {
        47u8
    }
}

/// The six-bit value of an alphabet letter, or -1 for any other byte.
pub open spec fn b64_value(c: u8) -> int {
    if 65 <= c <= 90 {
        c - 65
    } else if 97 <= c <= 122 {
        c - 71
    } else if 48 <= c <= 57 {
        c + 4
    } else if c == 43 {
        62
    } else if c == 47 {
        63
    } else {
        -1
    }
}

/// The four letters for a group of three bytes.
pub open spec fn quad3(a: u8, b: u8, c: u8) -> Seq<u8> {
    seq![
        b64_letter(a >> 2),
        b64_letter((((a & 3) << 4) | (b >> 4)) as u8),
        b64_letter((((b & 15) << 2) | (c >> 6)) as u8),
        b64_letter(c & 63),
    ]
}

/// The ASCII codes that `encode` writes for some bytes.
pub open spec fn encode_spec(d: Seq<u8>) -> Seq<u8>
    decreases d.len(),
{
    if d.len() == 0 {
        seq![]
    } else if d.len() == 1 {
        seq![b64_letter(d[0] >> 2), b64_letter(((d[0] & 3) << 4) as u8), 61u8, 61u8]
    } else if d.len() == 2 {
        seq![
            b64_letter(d[0] >> 2),
            b64_letter((((d[0] & 3) << 4) | (d[1] >> 4)) as u8),
            b64_letter(((d[1] & 15) << 2) as u8),
            61u8,
        ]
    } else {
        quad3(d[0], d[1], d[2]) + encode_spec(d.skip(3))
    }
}

/// The bytes with every trailing `=` removed.
pub open spec fn trim_padding(b: Seq<u8>) -> Seq<u8>
    decreases b.len(),
{
    if b.len() > 0 && b.last() == 61 {
        trim_padding(b.drop_last())
    } else {
        b
    }
}

/// The six-bit values of the alphabet letters among the bytes, in order;
/// other bytes are skipped.
pub open spec fn letter_values(b: Seq<u8>) -> Seq<u8>
    decreases b.len(),
{
    if b.len() == 0 {
        seq![]
    } else if b64_value(b.last()) >= 0 {
        letter_values(b.drop_last()).push(b64_value(b.last()) as u8)
    } else {
        letter_values(b.drop_last())
    }
}

/// The bytes that groups of (up to) four six-bit values stand for.
pub open spec fn decode_values(v: Seq<u8>) -> Seq<u8>
    decreases v.len(),
{
    if v.len() <= 1 {
        seq![]
    } else if v.len() == 2 {
        seq![((v[0] << 2) | (v[1] >> 4)) as u8]
    } else if v.len() == 3 {
        seq![((v[0] << 2) | (v[1] >> 4)) as u8, ((v[1] << 4) | (v[2] >> 2)) as u8]
    } else {
        seq![
            ((v[0] << 2) | (v[1] >> 4)) as u8,
            ((v[1] << 4) | (v[2] >> 2)) as u8,
            ((v[2] << 6) | v[3]) as u8,
        ] + decode_values(v.skip(4))
    }
}

/// The bytes `decode` returns for text whose UTF-8 encoding is `b`.
pub open spec fn decode_spec(b: Seq<u8>) -> Seq<u8> {
    decode_values(letter_values(trim_padding(b)))
}

/// The text of a sequence of ASCII codes.
pub open spec fn ascii_text(b: Seq<u8>) -> Seq<char> {
    b.map_values(|x: u8| x as char)
}

/// Base64 decoding error.
#[derive(Debug)]
pub struct DecodeError;

impl DecodeError {
    /// The error's message.
    pub fn message(&self) -> (r: &'static str)
        ensures
            r@ == "base64 decode error"@,
    {
        "base64 decode error"
    }
}

/// The alphabet letter for a six-bit value.
fn letter(v: u8) -> (c: u8)
    requires
        v < 64,
    ensures
        c == b64_letter(v),
        c < 128,
{
    if v < 26 {
        65 + v
    } else if v < 52 {
        97 + (v - 26)
    } else if v < 62 {
        48 + (v - 52)
    } else if v == 62 {
        43
    } else {
        47
    }
}

proof fn lemma_sextets(a: u8, b: u8, c: u8)
    ensures
        a >> 2 < 64,
        (((a & 3) << 4) | (b >> 4)) < 64,
        (((b & 15) << 2) | (c >> 6)) < 64,
        c & 63 < 64,
        ((a & 3) << 4) < 64,
        ((b & 15) << 2) < 64,
{
    assert(a >> 2 < 64) by (bit_vector);
    assert((((a & 3) << 4) | (b >> 4)) < 64) by (bit_vector);
    assert((((b & 15) << 2) | (c >> 6)) < 64) by (bit_vector);
    assert(c & 63 < 64) by (bit_vector);
    assert(((a & 3) << 4) < 64) by (bit_vector);
    assert(((b & 15) << 2) < 64) by (bit_vector);
}

/// Appends the letters of `codes` to `s`.
fn push_codes(s: &mut String, Ghost(codes): Ghost<Seq<u8>>, c0: u8, c1: u8, c2: u8, c3: u8)
    requires
        codes == seq![c0, c1, c2, c3],
        c0 < 128 && c1 < 128 && c2 < 128 && c3 < 128,
    ensures
        final(s)@ == old(s)@ + ascii_text(codes),
{
    push_char(s, c0 as char);
    push_char(s, c1 as char);
    push_char(s, c2 as char);
    push_char(s, c3 as char);
    assert(s@ =~= old(s)@ + ascii_text(codes));
}

proof fn lemma_encode_skip(d: Seq<u8>, i: int)
    requires
        0 <= i,
        i + 3 <= d.len(),
    ensures
        encode_spec(d.skip(i)) == quad3(d[i], d[i + 1], d[i + 2]) + encode_spec(d.skip(i + 3)),
{
    let t = d.skip(i);
    assert(t.skip(3) =~= d.skip(i + 3));
}

/// Encodes bytes as base64 text with `=` padding.
pub fn encode(data: &[u8]) -> (r: String)
    ensures
        r@ == ascii_text(encode_spec(data@)),
        encode_utf8(r@) == encode_spec(data@),
{
    let n = data.len();
    let mut out = String::new();
    let mut i: usize = 0;
    proof {
        assert(data@.skip(0) =~= data@);
    }
    while n - i >= 3
        invariant
            n == data@.len(),
            i <= n,
            ascii_text(encode_spec(data@)) =~= out@ + ascii_text(encode_spec(data@.skip(i as int))),
        decreases n - i,
    {
        let a = data[i];
        let b = data[i + 1];
        let c = data[i + 2];
        proof {
            lemma_sextets(a, b, c);
            lemma_encode_skip(data@, i as int);
        }
        let ghost q = quad3(a, b, c);
        let c0 = letter(a >> 2);
        let c1 = letter(((a & 3) << 4) | (b >> 4));
        let c2 = letter(((b & 15) << 2) | (c >> 6));
        let c3 = letter(c & 63);
        push_codes(&mut out, Ghost(q), c0, c1, c2, c3);
        proof {
            assert(ascii_text(q + encode_spec(data@.skip(i + 3))) =~= ascii_text(q) + ascii_text(
                encode_spec(data@.skip(i + 3)),
            ));
        }
        i = i + 3;
    }
    let rest = n - i;
    let ghost tail = data@.skip(i as int);
    if rest == 1 {
        let a = data[i];
        proof {
            lemma_sextets(a, 0, 0);
        }
        let ghost q = encode_spec(tail);
        let c0 = letter(a >> 2);
        let c1 = letter((a & 3) << 4);
        push_codes(&mut out, Ghost(q), c0, c1, 61, 61);
    } else if rest == 2 {
        let a = data[i];
        let b = data[i + 1];
        proof {
            lemma_sextets(a, b, 0);
        }
        let ghost q = encode_spec(tail);
        let c0 = letter(a >> 2);
        let c1 = letter(((a & 3) << 4) | (b >> 4));
        let c2 = letter((b & 15) << 2);
        push_codes(&mut out, Ghost(q), c0, c1, c2, 61);
    } else {
        assert(tail.len() == 0);
        assert(ascii_text(encode_spec(tail)) =~= Seq::<char>::empty());
    }
    proof {
        lemma_encode_ascii(data@);
        vstd::utf8::is_ascii_chars_encode_utf8(out@);
        assert(encode_utf8(out@) =~= encode_spec(data@));
    }
    out
}

proof fn lemma_encode_ascii(d: Seq<u8>)
    ensures
        forall|k: int| 0 <= k < encode_spec(d).len() ==> #[trigger] encode_spec(d)[k] < 128,
        vstd::utf8::is_ascii_chars(ascii_text(encode_spec(d))),
    decreases d.len(),
{
    if d.len() >= 3 {
        lemma_sextets(d[0], d[1], d[2]);
        lemma_encode_ascii(d.skip(3));
    } else if d.len() == 2 {
        lemma_sextets(d[0], d[1], 0);
    } else if d.len() == 1 {
        lemma_sextets(d[0], 0, 0);
    }
    let e = ascii_text(encode_spec(d));
    assert forall|k: int| 0 <= k < e.len() implies '\0' <= #[trigger] e[k] <= '\u{7f}' by {
        assert(encode_spec(d)[k] < 128);
    }
}


/// The six-bit value of a byte if it is an alphabet letter, else -1.
fn letter_value(c: u8) -> (v: i32)
    ensures
        v == b64_value(c),
{
    if 65 <= c && c <= 90 {
        (c - 65) as i32
    } else if 97 <= c && c <= 122 {
        (c - 71) as i32
    } else if 48 <= c && c <= 57 {
        (c + 4) as i32
    } else if c == 43 {
        62
    } else if c == 47 {
        63
    } else {
        -1
    }
}

proof fn lemma_decode_values_skip(v: Seq<u8>, j: int)
    requires
        0 <= j,
        j + 4 <= v.len(),
    ensures
        decode_values(v.skip(j)) == seq![
            ((v[j] << 2) | (v[j + 1] >> 4)) as u8,
            ((v[j + 1] << 4) | (v[j + 2] >> 2)) as u8,
            ((v[j + 2] << 6) | v[j + 3]) as u8,
        ] + decode_values(v.skip(j + 4)),
{
    assert(v.skip(j).skip(4) =~= v.skip(j + 4));
}

/// Decodes base64 text. Padding at the end is ignored, and so is every
/// character outside the alphabet; a final group of one value yields
/// nothing. Decoding never fails.
pub fn decode(s: &str) -> (r: Result<Vec<u8>, DecodeError>)
    ensures
        r matches Ok(v) && v@ == decode_spec(encode_utf8(s@)),
{
    let b = s.as_bytes();
    let ghost bs = b@;
    let mut end = b.len();
    proof {
        assert(bs.subrange(0, end as int) =~= bs);
    }
    while end > 0 && b[end - 1] == 61
        invariant
            end <= bs.len(),
            b@ == bs,
            trim_padding(bs) == trim_padding(bs.subrange(0, end as int)),
        decreases end,
    {
        proof {
            assert(bs.subrange(0, end as int).drop_last() =~= bs.subrange(0, end - 1));
        }
        end = end - 1;
    }
    let ghost t = bs.subrange(0, end as int);
    assert(trim_padding(t) == t);
    let mut vals: Vec<u8> = Vec::new();
    let mut i: usize = 0;
    proof {
        assert(t.subrange(0, 0) =~= Seq::<u8>::empty());
    }
    while i < end
        invariant
            end <= bs.len(),
            b@ == bs,
            t == bs.subrange(0, end as int),
            i <= end,
            vals@ == letter_values(t.subrange(0, i as int)),
        decreases end - i,
    {
        let v = letter_value(b[i]);
        proof {
            assert(t.subrange(0, i + 1).drop_last() =~= t.subrange(0, i as int));
        }
        if v >= 0 {
            vals.push(v as u8);
        }
        i = i + 1;
    }
    proof {
        assert(t.subrange(0, end as int) =~= t);
    }
    let m = vals.len();
    let mut out: Vec<u8> = Vec::new();
    let mut j: usize = 0;
    proof {
        assert(vals@.skip(0) =~= vals@);
    }
    while m - j >= 4
        invariant
            m == vals@.len(),
            j <= m,
            decode_values(vals@) =~= out@ + decode_values(vals@.skip(j as int)),
        decreases m - j,
    {
        let v0 = vals[j];
        let v1 = vals[j + 1];
        let v2 = vals[j + 2];
        let v3 = vals[j + 3];
        proof {
            lemma_decode_values_skip(vals@, j as int);
        }
        out.push((v0 << 2) | (v1 >> 4));
        out.push((v1 << 4) | (v2 >> 2));
        out.push((v2 << 6) | v3);
        j = j + 4;
    }
    let ghost tail = vals@.skip(j as int);
    if m - j == 2 {
        let v0 = vals[j];
        let v1 = vals[j + 1];
        out.push((v0 << 2) | (v1 >> 4));
    } else if m - j == 3 {
        let v0 = vals[j];
        let v1 = vals[j + 1];
        let v2 = vals[j + 2];
        out.push((v0 << 2) | (v1 >> 4));
        out.push((v1 << 4) | (v2 >> 2));
    }
    proof {
        assert(decode_values(vals@) =~= out@);
    }
    Ok(out)
}

/// The six-bit values that `encode` turns into letters (no padding).
pub open spec fn sextets(d: Seq<u8>) -> Seq<u8>
    decreases d.len(),
{
    if d.len() == 0 {
        seq![]
    } else if d.len() == 1 {
        seq![d[0] >> 2, ((d[0] & 3) << 4) as u8]
    } else if d.len() == 2 {
        seq![d[0] >> 2, (((d[0] & 3) << 4) | (d[1] >> 4)) as u8, ((d[1] & 15) << 2) as u8]
    } else {
        seq![
            d[0] >> 2,
            (((d[0] & 3) << 4) | (d[1] >> 4)) as u8,
            (((d[1] & 15) << 2) | (d[2] >> 6)) as u8,
            d[2] & 63,
        ] + sextets(d.skip(3))
    }
}

/// The `=` signs that close the encoding of `n` bytes.
pub open spec fn padding_of(n: nat) -> Seq<u8> {
    if n % 3 == 1 {
        seq![61u8, 61u8]
    } else if n % 3 == 2 {
        seq![61u8]
    } else {
        seq![]
    }
}

proof fn lemma_sextets_small(d: Seq<u8>)
    ensures
        forall|k: int| 0 <= k < sextets(d).len() ==> #[trigger] sextets(d)[k] < 64,
        d.len() > 0 ==> sextets(d).len() > 0,
    decreases d.len(),
{
    if d.len() >= 3 {
        lemma_sextets(d[0], d[1], d[2]);
        lemma_sextets_small(d.skip(3));
        let sx = sextets(d);
        let rest = sextets(d.skip(3));
        assert forall|k: int| 0 <= k < sx.len() implies #[trigger] sx[k] < 64 by {
            if k >= 4 {
                assert(sx[k] == rest[k - 4]);
            }
        }
    } else if d.len() == 2 {
        lemma_sextets(d[0], d[1], 0);
    } else if d.len() == 1 {
        lemma_sextets(d[0], 0, 0);
    }
}

proof fn lemma_encode_split(d: Seq<u8>)
    ensures
        encode_spec(d) == sextets(d).map_values(|v: u8| b64_letter(v)) + padding_of(d.len()),
    decreases d.len(),
{
    let f = |v: u8| b64_letter(v);
    if d.len() >= 3 {
        lemma_encode_split(d.skip(3));
        let head = seq![
            d[0] >> 2,
            (((d[0] & 3) << 4) | (d[1] >> 4)) as u8,
            (((d[1] & 15) << 2) | (d[2] >> 6)) as u8,
            d[2] & 63,
        ];
        assert((head + sextets(d.skip(3))).map_values(f) =~= head.map_values(f) + sextets(d.skip(3)).map_values(f));
        assert(head.map_values(f) =~= quad3(d[0], d[1], d[2]));
        assert(padding_of(d.len()) == padding_of(d.skip(3).len()));
        assert(encode_spec(d) =~= sextets(d).map_values(f) + padding_of(d.len()));
    } else {
        assert(encode_spec(d) =~= sextets(d).map_values(f) + padding_of(d.len()));
    }
}

proof fn lemma_letter_not_pad(v: u8)
    requires
        v < 64,
    ensures
        b64_letter(v) != 61,
        b64_value(b64_letter(v)) == v,
{
}

proof fn lemma_trim_concat(a: Seq<u8>, b: Seq<u8>)
    requires
        trim_padding(b).len() > 0,
    ensures
        trim_padding(a + b) == a + trim_padding(b),
    decreases b.len(),
{
    if b.len() > 0 && b.last() == 61 {
        assert((a + b).drop_last() =~= a + b.drop_last());
        lemma_trim_concat(a, b.drop_last());
    } else {
        assert(b.len() > 0);
        assert((a + b).last() == b.last());
    }
}

proof fn lemma_trim_pads(x: Seq<u8>, p: Seq<u8>)
    requires
        x.len() > 0,
        x.last() != 61,
        forall|k: int| 0 <= k < p.len() ==> #[trigger] p[k] == 61,
    ensures
        trim_padding(x + p) == x,
    decreases p.len(),
{
    if p.len() == 0 {
        assert(x + p =~= x);
    } else {
        assert((x + p).drop_last() =~= x + p.drop_last());
        lemma_trim_pads(x, p.drop_last());
    }
}

proof fn lemma_letter_values_concat(a: Seq<u8>, b: Seq<u8>)
    ensures
        letter_values(a + b) == letter_values(a) + letter_values(b),
    decreases b.len(),
{
    if b.len() == 0 {
        assert(a + b =~= a);
        assert(letter_values(a) + letter_values(b) =~= letter_values(a));
    } else {
        assert((a + b).drop_last() =~= a + b.drop_last());
        lemma_letter_values_concat(a, b.drop_last());
        assert(letter_values(a) + letter_values(b.drop_last()).push(b64_value(b.last()) as u8)
            =~= (letter_values(a) + letter_values(b.drop_last())).push(b64_value(b.last()) as u8));
    }
}

proof fn lemma_letter_values_of_letters(s: Seq<u8>)
    requires
        forall|k: int| 0 <= k < s.len() ==> #[trigger] s[k] < 64,
    ensures
        letter_values(s.map_values(|v: u8| b64_letter(v))) == s,
    decreases s.len(),
{
    let f = |v: u8| b64_letter(v);
    if s.len() > 0 {
        let m = s.map_values(f);
        assert(m.drop_last() =~= s.drop_last().map_values(f));
        lemma_letter_values_of_letters(s.drop_last());
        lemma_letter_not_pad(s.last());
        assert(letter_values(m) =~= s);
    } else {
        assert(s.map_values(f) =~= Seq::<u8>::empty());
    }
}

proof fn lemma_decode_groups(d: Seq<u8>)
    ensures
        decode_values(sextets(d)) == d,
    decreases d.len(),
{
    if d.len() >= 3 {
        let (a, b, c) = (d[0], d[1], d[2]);
        let v0 = a >> 2;
        let v1 = (((a & 3) << 4) | (b >> 4)) as u8;
        let v2 = (((b & 15) << 2) | (c >> 6)) as u8;
        let v3 = c & 63;
        assert(((v0 << 2) | (v1 >> 4)) as u8 == a) by (bit_vector)
            requires
                v0 == a >> 2,
                v1 == (((a & 3) << 4) | (b >> 4)) as u8,
        ;
        assert(((v1 << 4) | (v2 >> 2)) as u8 == b) by (bit_vector)
            requires
                v1 == (((a & 3) << 4) | (b >> 4)) as u8,
                v2 == (((b & 15) << 2) | (c >> 6)) as u8,
        ;
        assert(((v2 << 6) | v3) as u8 == c) by (bit_vector)
            requires
                v2 == (((b & 15) << 2) | (c >> 6)) as u8,
                v3 == c & 63,
        ;
        let sx = sextets(d);
        assert(sx.skip(4) =~= sextets(d.skip(3)));
        lemma_decode_groups(d.skip(3));
        assert(decode_values(sx) =~= d);
    } else if d.len() == 2 {
        let (a, b) = (d[0], d[1]);
        let v0 = a >> 2;
        let v1 = (((a & 3) << 4) | (b >> 4)) as u8;
        let v2 = ((b & 15) << 2) as u8;
        assert(((v0 << 2) | (v1 >> 4)) as u8 == a) by (bit_vector)
            requires
                v0 == a >> 2,
                v1 == (((a & 3) << 4) | (b >> 4)) as u8,
        ;
        assert(((v1 << 4) | (v2 >> 2)) as u8 == b) by (bit_vector)
            requires
                v1 == (((a & 3) << 4) | (b >> 4)) as u8,
                v2 == ((b & 15) << 2) as u8,
        ;
        assert(decode_values(sextets(d)) =~= d);
    } else if d.len() == 1 {
        let a = d[0];
        let v0 = a >> 2;
        let v1 = ((a & 3) << 4) as u8;
        assert(((v0 << 2) | (v1 >> 4)) as u8 == a) by (bit_vector)
            requires
                v0 == a >> 2,
                v1 == ((a & 3) << 4) as u8,
        ;
        assert(decode_values(sextets(d)) =~= d);
    } else {
        assert(decode_values(sextets(d)) =~= d);
    }
}

/// Decoding what was encoded gives the bytes back, for every byte string.
pub proof fn law_base64_roundtrip(d: Seq<u8>)
    ensures
        decode_spec(encode_spec(d)) == d,
{
    let f = |v: u8| b64_letter(v);
    let sx = sextets(d);
    let letters = sx.map_values(f);
    lemma_encode_split(d);
    lemma_sextets_small(d);
    lemma_letter_values_of_letters(sx);
    lemma_decode_groups(d);
    let p = padding_of(d.len());
    assert forall|k: int| 0 <= k < p.len() implies #[trigger] p[k] == 61 by {}
    if d.len() == 0 {
        assert(letters =~= Seq::<u8>::empty());
        assert(encode_spec(d) =~= Seq::<u8>::empty());
    } else {
        lemma_letter_not_pad(sx.last());
        assert(letters.last() == f(sx.last()));
        lemma_trim_pads(letters, p);
    }
}
/// The standard base64 alphabet of RFC 4648: the letter for value `v` is
/// the character at `v`.
pub open spec fn standard_alphabet() -> Seq<char> {
    "ABCDEFGHIJKLMNOPQRSTUVWXYZabcdefghijklmnopqrstuvwxyz0123456789+/"@
}

/// Encoding writes the letters of the standard alphabet, and decoding reads
/// each of them back as its value.
pub proof fn law_standard_alphabet(v: u8)
    requires
        v < 64,
    ensures
        b64_letter(v) as char == standard_alphabet()[v as int],
        b64_value(b64_letter(v)) == v,
{
    reveal_strlit("ABCDEFGHIJKLMNOPQRSTUVWXYZabcdefghijklmnopqrstuvwxyz0123456789+/");
}

} // verus!
