//! Text building blocks: decimal rendering, percent-encoding and parsing.
use vstd::prelude::*;

verus! {

/// The ASCII decimal digit for `d`.
pub open spec fn digit_char(d: nat) -> char {
    (('0' as nat) + d) as char
}

/// The decimal rendering of `n`, most significant digit first, with no
/// leading zeros.
pub open spec fn decimal_of(n: nat) -> Seq<char>
    decreases n,
{
    if n < 10 {
        seq![digit_char(n)]
    } else {
        decimal_of(n / 10).push(digit_char(n % 10))
    }
}

/// Renders `n` in decimal.
pub fn decimal(n: u64) -> (r: String)
    ensures
        r@ == decimal_of(n as nat),
    decreases n,
{
    proof {
        reveal_strlit("0123456789");
    }
    let d: usize = (n % 10) as usize;
    let piece = "0123456789".substring_ascii(d, d + 1);
    assert(piece@ == seq![digit_char(d as nat)]);
    if n < 10 {
        piece.to_owned()
    } else {
        let mut head = decimal(n / 10);
        head.append(piece);
        head
    }
}


/// ASCII letters and digits: the bytes that a query keeps as they are.
pub open spec fn is_alnum_byte(b: u8) -> bool {
    (48 <= b <= 57) || (65 <= b <= 90) || (97 <= b <= 122)
}

/// The character that the ASCII byte `b` stands for.
pub open spec fn byte_char(b: u8) -> char {
    (b as nat) as char
}

/// The uppercase hexadecimal digit for `d < 16`.
pub open spec fn hex_char(d: nat) -> char {
    if d < 10 {
        digit_char(d)
    } else {
        (('A' as nat) + d - 10) as char
    }
}

/// The value of an uppercase hexadecimal digit.
pub open spec fn hex_value(c: char) -> nat {
    if '0' <= c <= '9' {
        ((c as nat) - ('0' as nat)) as nat
    } else if 'A' <= c <= 'F' {
        ((c as nat) - ('A' as nat) + 10) as nat
    } else {
        0
    }
}

/// How one byte appears in an encoded query: itself if it is a letter or a
/// digit, else `%` and its two-digit uppercase hexadecimal value.
pub open spec fn percent_byte(b: u8) -> Seq<char> {
    if is_alnum_byte(b) {
        seq![byte_char(b)]
    } else {
        seq!['%', hex_char((b / 16) as nat), hex_char((b % 16) as nat)]
    }
}

/// Percent-encoding of a byte string, byte by byte.
pub open spec fn percent_encode(bytes: Seq<u8>) -> Seq<char>
    decreases bytes.len(),
{
    if bytes.len() == 0 {
        seq![]
    } else {
        percent_byte(bytes[0]) + percent_encode(bytes.drop_first())
    }
}

/// Undoes percent-encoding: `%` and two hexadecimal digits give one byte,
/// any other character gives its own code.
pub open spec fn percent_decode(s: Seq<char>) -> Seq<u8>
    decreases s.len(),
{
    if s.len() == 0 {
        seq![]
    } else if s[0] == '%' && s.len() >= 3 {
        seq![(hex_value(s[1]) * 16 + hex_value(s[2])) as u8] + percent_decode(s.subrange(3, s.len() as int))
    } else {
        seq![(s[0] as nat) as u8] + percent_decode(s.drop_first())
    }
}

/// The characters that may appear in an encoded query.
pub open spec fn is_query_char(c: char) -> bool {
    ('0' <= c <= '9') || ('A' <= c <= 'Z') || ('a' <= c <= 'z') || c == '%'
}

/// The encoded form of a query text: its UTF-8 bytes, percent-encoded.
pub open spec fn encoded_query(q: Seq<char>) -> Seq<char> {
    percent_encode(vstd::utf8::encode_utf8(q))
}

proof fn lemma_percent_encode_concat(a: Seq<u8>, b: Seq<u8>)
    ensures
        percent_encode(a + b) == percent_encode(a) + percent_encode(b),
    decreases a.len(),
{
    if a.len() == 0 {
        assert(a + b =~= b);
    } else {
        assert((a + b).drop_first() =~= a.drop_first() + b);
        lemma_percent_encode_concat(a.drop_first(), b);
    }
}

proof fn lemma_percent_encode_push(a: Seq<u8>, x: u8)
    ensures
        percent_encode(a.push(x)) == percent_encode(a) + percent_byte(x),
{
    assert(a.push(x) =~= a + seq![x]);
    lemma_percent_encode_concat(a, seq![x]);
    assert(seq![x].drop_first() =~= Seq::<u8>::empty());
    assert(percent_encode(Seq::<u8>::empty()) =~= Seq::<char>::empty());
    assert(percent_encode(seq![x]) =~= percent_byte(x));
}

/// Decoding an encoded byte string gives the bytes back.
pub proof fn lemma_percent_round_trip(bytes: Seq<u8>)
    ensures
        percent_decode(percent_encode(bytes)) == bytes,
    decreases bytes.len(),
{
    if bytes.len() > 0 {
        let b = bytes[0];
        let rest = percent_encode(bytes.drop_first());
        let s = percent_encode(bytes);
        lemma_percent_round_trip(bytes.drop_first());
        if is_alnum_byte(b) {
            assert(s.drop_first() =~= rest);
            assert(((byte_char(b) as nat) as u8) == b);
        } else {
            assert(s.subrange(3, s.len() as int) =~= rest);
            assert(hex_value(hex_char((b / 16) as nat)) == b / 16);
            assert(hex_value(hex_char((b % 16) as nat)) == b % 16);
            assert((b / 16) * 16 + b % 16 == b);
        }
        assert(percent_decode(s) =~= bytes);
    }
}

/// Every character of an encoded byte string is a letter, a digit or `%`.
pub proof fn lemma_percent_alphabet(bytes: Seq<u8>)
    ensures
        forall|i: int| 0 <= i < percent_encode(bytes).len() ==> is_query_char(#[trigger] percent_encode(bytes)[i]),
    decreases bytes.len(),
{
    if bytes.len() > 0 {
        lemma_percent_alphabet(bytes.drop_first());
        let b = bytes[0];
        let p = percent_byte(b);
        let rest = percent_encode(bytes.drop_first());
        assert(forall|i: int| 0 <= i < p.len() ==> is_query_char(#[trigger] p[i]));
        assert forall|i: int| 0 <= i < percent_encode(bytes).len() implies is_query_char(
            #[trigger] percent_encode(bytes)[i],
        ) by {
            if i >= p.len() {
                assert(percent_encode(bytes)[i] == rest[i - p.len()]);
            }
        }
    }
}

/// Encoding a query and decoding the result, then reading the bytes as
/// UTF-8, gives the query text back; the encoded text uses letters, digits
/// and `%` only.
pub proof fn lemma_query_round_trip(q: Seq<char>)
    ensures
        vstd::utf8::decode_utf8(percent_decode(encoded_query(q))) == q,
        forall|i: int| 0 <= i < encoded_query(q).len() ==> is_query_char(#[trigger] encoded_query(q)[i]),
{
    lemma_percent_round_trip(vstd::utf8::encode_utf8(q));
    vstd::utf8::encode_utf8_decode_utf8(q);
    lemma_percent_alphabet(vstd::utf8::encode_utf8(q));
}

/// The one-character text for an ASCII letter or digit.
fn alnum_str(b: u8) -> (r: &'static str)
    requires
        is_alnum_byte(b),
    ensures
        r@ == seq![byte_char(b)],
{
    proof {
        reveal_strlit("0123456789");
        reveal_strlit("ABCDEFGHIJKLMNOPQRSTUVWXYZ");
        reveal_strlit("abcdefghijklmnopqrstuvwxyz");
    }
    if b <= 57 {
        let k: usize = (b - 48) as usize;
        "0123456789".substring_ascii(k, k + 1)
    } else if b <= 90 {
        let k: usize = (b - 65) as usize;
        "ABCDEFGHIJKLMNOPQRSTUVWXYZ".substring_ascii(k, k + 1)
    } else {
        let k: usize = (b - 97) as usize;
        "abcdefghijklmnopqrstuvwxyz".substring_ascii(k, k + 1)
    }
}

/// The one-character text for the hexadecimal digit `d`.
fn hex_str(d: u8) -> (r: &'static str)
    requires
        d < 16,
    ensures
        r@ == seq![hex_char(d as nat)],
{
    proof {
        reveal_strlit("0123456789ABCDEF");
    }
    let k: usize = d as usize;
    "0123456789ABCDEF".substring_ascii(k, k + 1)
}

/// Percent-encodes the UTF-8 bytes of a query: letters and digits stay,
/// every other byte becomes `%` and two uppercase hexadecimal digits.
pub fn encode_query(q: &str) -> (r: String)
    ensures
        r@ == encoded_query(q@),
{
    let bytes = q.as_bytes();
    let mut out = String::new();
    let mut i: usize = 0;
    while i < bytes.len()
        invariant
            bytes@ == vstd::utf8::encode_utf8(q@),
            i <= bytes@.len(),
            out@ == percent_encode(bytes@.subrange(0, i as int)),
        decreases bytes@.len() - i,
    {
        let b = bytes[i];
        proof {
            assert(bytes@.subrange(0, i + 1) =~= bytes@.subrange(0, i as int).push(b));
            lemma_percent_encode_push(bytes@.subrange(0, i as int), b);
        }
        if (48 <= b && b <= 57) || (65 <= b && b <= 90) || (97 <= b && b <= 122) {
            out.append(alnum_str(b));
        } else {
            out.append("%");
            proof {
                reveal_strlit("%");
            }
            out.append(hex_str(b / 16));
            out.append(hex_str(b % 16));
            assert(out@ =~= percent_encode(bytes@.subrange(0, i as int)) + percent_byte(b));
        }
        i = i + 1;
    }
    assert(bytes@.subrange(0, bytes@.len() as int) =~= bytes@);
    out
}


/// Whether every character of `s` is an ASCII digit.
pub open spec fn all_digits(s: Seq<char>) -> bool {
    forall|i: int| 0 <= i < s.len() ==> '0' <= #[trigger] s[i] <= '9'
}

/// The number that a string of ASCII digits writes in decimal.
pub open spec fn digits_value(s: Seq<char>) -> nat
    decreases s.len(),
{
    if s.len() == 0 {
        0
    } else {
        digits_value(s.drop_last()) * 10 + ((s.last() as nat) - ('0' as nat)) as nat
    }
}

/// `s` without a leading `+`, if it has one.
pub open spec fn unsigned_digits(s: Seq<char>) -> Seq<char> {
    if s.len() > 0 && s[0] == '+' {
        s.drop_first()
    } else {
        s
    }
}

/// What `u64::from_str_radix(s, 10)` accepts: an optional `+`, then one or
/// more ASCII digits whose value fits in a `u64`.
pub open spec fn parse_decimal_spec(s: Seq<char>) -> Option<u64> {
    let d = unsigned_digits(s);
    if d.len() > 0 && all_digits(d) && digits_value(d) <= u64::MAX {
        Some(digits_value(d) as u64)
    } else {
        None
    }
}

proof fn lemma_digits_value_prefix(d: Seq<char>, i: int)
    requires
        all_digits(d),
        0 <= i <= d.len(),
    ensures
        digits_value(d.subrange(0, i)) <= digits_value(d),
    decreases d.len(),
{
    if i < d.len() {
        assert(d.drop_last().subrange(0, i) =~= d.subrange(0, i));
        lemma_digits_value_prefix(d.drop_last(), i);
    } else {
        assert(d.subrange(0, i) =~= d);
    }
}

/// Parses a decimal unsigned integer as `u64::from_str_radix(s, 10)` does.
pub fn parse_decimal(s: &str) -> (r: Option<u64>)
    ensures
        r == parse_decimal_spec(s@),
{
    let n = s.unicode_len();
    if n == 0 {
        return None;
    }
    let start: usize = if s.get_char(0) == '+' {
        1
    } else {
        0
    };
    let ghost d = unsigned_digits(s@);
    assert(d =~= s@.subrange(start as int, n as int));
    if start == n {
        return None;
    }
    let mut v: u64 = 0;
    let mut i: usize = start;
    while i < n
        invariant
            n == s@.len(),
            start <= i <= n,
            d == unsigned_digits(s@),
            d =~= s@.subrange(start as int, n as int),
            all_digits(d.subrange(0, i - start)),
            v as nat == digits_value(d.subrange(0, i - start)),
        decreases n - i,
    {
        let c = s.get_char(i);
        if !('0' <= c && c <= '9') {
            assert(!all_digits(d)) by {
                assert(d[i - start] == c);
            }
            assert(parse_decimal_spec(s@) == None::<u64>);
            return None;
        }
        let dv: u64 = (c as u32 - 48) as u64;
        let ghost next = d.subrange(0, i - start + 1);
        assert(next.drop_last() =~= d.subrange(0, i - start));
        assert(all_digits(next));
        if v > (u64::MAX - dv) / 10 {
            proof {
                assert(digits_value(next) > u64::MAX) by (nonlinear_arith)
                    requires
                        digits_value(next) == v * 10 + dv,
                        v > (u64::MAX - dv) / 10,
                        dv <= 9,
                ;
                if all_digits(d) {
                    lemma_digits_value_prefix(d, i - start + 1);
                }
                assert(!(all_digits(d) && digits_value(d) <= u64::MAX));
                assert(parse_decimal_spec(s@) == None::<u64>);
            }
            return None;
        }
        assert(v * 10 + dv <= u64::MAX) by (nonlinear_arith)
            requires
                v <= (u64::MAX - dv) / 10,
                dv <= 9,
        ;
        v = v * 10 + dv;
        i = i + 1;
    }
    assert(d.subrange(0, n - start) =~= d);
    Some(v)
}

/// `s` cut at every occurrence of `sep`, as `str::split` with a character
/// pattern cuts it: `k` separators give `k + 1` pieces.
pub open spec fn split_spec(s: Seq<char>, sep: char) -> Seq<Seq<char>>
    decreases s.len(),
{
    if s.len() == 0 {
        seq![Seq::<char>::empty()]
    } else {
        let parts = split_spec(s.drop_last(), sep);
        if s.last() == sep {
            parts.push(Seq::<char>::empty())
        } else {
            parts.update(parts.len() - 1, parts.last().push(s.last()))
        }
    }
}

proof fn lemma_split_nonempty(s: Seq<char>, sep: char)
    ensures
        split_spec(s, sep).len() >= 1,
    decreases s.len(),
{
    if s.len() > 0 {
        lemma_split_nonempty(s.drop_last(), sep);
    }
}

/// Cuts `s` at every occurrence of `sep`.
pub fn split_on(s: &str, sep: char) -> (r: Vec<String>)
    ensures
        r@.map_values(|p: String| p@) == split_spec(s@, sep),
{
    let n = s.unicode_len();
    let mut parts: Vec<String> = Vec::new();
    let mut cur = String::new();
    let mut i: usize = 0;
    while i < n
        invariant
            n == s@.len(),
            i <= n,
            parts@.map_values(|p: String| p@).push(cur@) == split_spec(s@.subrange(0, i as int), sep),
        decreases n - i,
    {
        let c = s.get_char(i);
        let ghost prev = split_spec(s@.subrange(0, i as int), sep);
        proof {
            lemma_split_nonempty(s@.subrange(0, i as int), sep);
            assert(s@.subrange(0, i + 1).drop_last() =~= s@.subrange(0, i as int));
        }
        if c == sep {
            parts.push(cur);
            cur = String::new();
            assert(parts@.map_values(|p: String| p@).push(cur@) =~= prev.push(Seq::<char>::empty()));
        } else {
            let piece = s.substring_char(i, i + 1);
            assert(piece@ =~= seq![c]);
            let ghost before = cur@;
            assert(prev.last() == before);
            cur.append(piece);
            assert(cur@ =~= before.push(c));
            assert(parts@.map_values(|p: String| p@).push(cur@) =~= prev.update(
                prev.len() - 1,
                prev.last().push(c),
            ));
        }
        i = i + 1;
    }
    parts.push(cur);
    assert(s@.subrange(0, n as int) =~= s@);
    assert(parts@.map_values(|p: String| p@) =~= split_spec(s@, sep));
    parts
}

} // verus!
