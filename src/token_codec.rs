use vstd::prelude::*;
use crate::error::{ErrorCodes, OAuth2Error};
use crate::token_keeper::{opt_view, RecordView, TokenRecord};

verus! {

// The text of a token file.  A string is written as its length in
// characters, as sixteen lower-case hexadecimal digits, followed by its
// characters; an absent optional value is the letter `n`, a present one the
// letter `s` followed by the value; a time is sixteen hexadecimal digits.
// The fields come in this order: access token, refresh token, token type,
// expiry, identity token.

/// The hexadecimal digit of a value below sixteen.
pub open spec fn hex_char(d: u64) -> char {
    if d == 0 { '0' } else if d == 1 { '1' } else if d == 2 { '2' } else if d == 3 { '3' }
    else if d == 4 { '4' } else if d == 5 { '5' } else if d == 6 { '6' } else if d == 7 { '7' }
    else if d == 8 { '8' } else if d == 9 { '9' } else if d == 10 { 'a' } else if d == 11 { 'b' }
    else if d == 12 { 'c' } else if d == 13 { 'd' } else if d == 14 { 'e' } else { 'f' }
}

/// The value of a lower-case hexadecimal digit.
pub open spec fn digit_value(c: char) -> Option<u64> {
    if c == '0' { Some(0u64) } else if c == '1' { Some(1u64) } else if c == '2' { Some(2u64) }
    else if c == '3' { Some(3u64) } else if c == '4' { Some(4u64) } else if c == '5' { Some(5u64) }
    else if c == '6' { Some(6u64) } else if c == '7' { Some(7u64) } else if c == '8' { Some(8u64) }
    else if c == '9' { Some(9u64) } else if c == 'a' { Some(10u64) } else if c == 'b' { Some(11u64) }
    else if c == 'c' { Some(12u64) } else if c == 'd' { Some(13u64) } else if c == 'e' { Some(14u64) }
    else if c == 'f' { Some(15u64) } else { None }
}

/// The `i`-th group of four bits of `n`, the most significant first.
pub open spec fn nibble(n: u64, i: int) -> u64 {
    (n >> ((60 - 4 * i) as u64)) & 15
}

/// A number as sixteen hexadecimal digits.
pub open spec fn hex16(n: u64) -> Seq<char> {
    Seq::new(16, |i: int| hex_char(nibble(n, i)))
}

/// The value of the first `k` digits of `s`, if they are all digits.
pub open spec fn hex_prefix(s: Seq<char>, k: nat) -> Option<u64>
    decreases k,
{
    if k == 0 {
        Some(0u64)
    } else {
        match (hex_prefix(s, (k - 1) as nat), digit_value(s[k - 1])) {
            (Some(a), Some(d)) => Some((a << 4u64) | d),
            _ => None,
        }
    }
}

pub open spec fn enc_str(s: Seq<char>) -> Seq<char> {
    hex16(s.len() as u64) + s
}

pub open spec fn enc_opt(o: Option<Seq<char>>) -> Seq<char> {
    match o {
        Some(s) => seq!['s'] + enc_str(s),
        None => seq!['n'],
    }
}

pub open spec fn enc_time(o: Option<u64>) -> Seq<char> {
    match o {
        Some(n) => seq!['s'] + hex16(n),
        None => seq!['n'],
    }
}

/// The text of a token record.
pub open spec fn encode(r: RecordView) -> Seq<char> {
    enc_str(r.access_token) + enc_opt(r.refresh_token) + enc_str(r.token_type) + enc_time(r.expires_at)
        + enc_opt(r.id_token)
}

/// The number written at position `p`.
pub open spec fn dec_num(s: Seq<char>, p: int) -> Option<u64> {
    if 0 <= p && p + 16 <= s.len() {
        hex_prefix(s.subrange(p, p + 16), 16)
    } else {
        None
    }
}

/// The string written at position `p`, and the position after it.
pub open spec fn dec_str(s: Seq<char>, p: int) -> Option<(Seq<char>, int)> {
    match dec_num(s, p) {
        Some(n) => if p + 16 + n <= s.len() {
            Some((s.subrange(p + 16, p + 16 + n), p + 16 + n))
        } else {
            None
        },
        None => None,
    }
}

pub open spec fn dec_opt(s: Seq<char>, p: int) -> Option<(Option<Seq<char>>, int)> {
    if 0 <= p < s.len() && s[p] == 'n' {
        Some((None, p + 1))
    } else if 0 <= p < s.len() && s[p] == 's' {
        match dec_str(s, p + 1) {
            Some((v, q)) => Some((Some(v), q)),
            None => None,
        }
    } else {
        None
    }
}

pub open spec fn dec_time(s: Seq<char>, p: int) -> Option<(Option<u64>, int)> {
    if 0 <= p < s.len() && s[p] == 'n' {
        Some((None, p + 1))
    } else if 0 <= p < s.len() && s[p] == 's' {
        match dec_num(s, p + 1) {
            Some(n) => Some((Some(n), p + 17)),
            None => None,
        }
    } else {
        None
    }
}

/// The record that a text holds, if it holds exactly one.
pub open spec fn decode(s: Seq<char>) -> Option<RecordView> {
    match dec_str(s, 0) {
        Some((access, p1)) => match dec_opt(s, p1) {
            Some((refresh, p2)) => match dec_str(s, p2) {
                Some((token_type, p3)) => match dec_time(s, p3) {
                    Some((expires_at, p4)) => match dec_opt(s, p4) {
                        Some((id_token, p5)) => if p5 == s.len() {
                            Some(
                                RecordView {
                                    access_token: access,
                                    refresh_token: refresh,
                                    token_type,
                                    expires_at,
                                    id_token,
                                },
                            )
                        } else {
                            None
                        },
                        None => None,
                    },
                    None => None,
                },
                None => None,
            },
            None => None,
        },
        None => None,
    }
}

proof fn lemma_digit_round_trip(d: u64)
    requires
        d < 16,
    ensures
        digit_value(hex_char(d)) == Some(d),
{
}

proof fn lemma_nibble_small(n: u64, i: int)
    requires
        0 <= i < 16,
    ensures
        nibble(n, i) < 16,
{
    let s = (60 - 4 * i) as u64;
    assert((n >> s) & 15 < 16) by (bit_vector);
}

proof fn lemma_hex_prefix(n: u64, k: nat)
    requires
        1 <= k <= 16,
    ensures
        hex_prefix(hex16(n), k) == Some(n >> ((64 - 4 * k) as u64)),
    decreases k,
{
    let s = (64 - 4 * k) as u64;
    lemma_nibble_small(n, k - 1);
    lemma_digit_round_trip(nibble(n, k - 1));
    assert(hex16(n)[k - 1] == hex_char(nibble(n, k - 1)));
    if k == 1 {
        assert(hex_prefix(hex16(n), 0) == Some(0u64));
        assert(((0u64 << 4u64) | ((n >> 60u64) & 15)) == n >> 60u64) by (bit_vector);
    } else {
        lemma_hex_prefix(n, (k - 1) as nat);
        let t = (s + 4) as u64;
        assert(t == (64 - 4 * (k - 1)) as u64);
        assert(s <= 56);
        assert(((n >> t) << 4u64) | ((n >> s) & 15) == n >> s) by (bit_vector)
            requires
                t == s + 4,
                s <= 56,
        ;
    }
}

/// Sixteen hexadecimal digits give back their number.
pub proof fn lemma_hex_round_trip(n: u64)
    ensures
        hex_prefix(hex16(n), 16) == Some(n),
{
    lemma_hex_prefix(n, 16);
    assert(n >> 0u64 == n) by (bit_vector);
}

proof fn lemma_dec_num(s: Seq<char>, p: int, n: u64)
    requires
        0 <= p,
        p + 16 <= s.len(),
        s.subrange(p, p + 16) == hex16(n),
    ensures
        dec_num(s, p) == Some(n),
{
    lemma_hex_round_trip(n);
}

proof fn lemma_dec_str(s: Seq<char>, p: int, x: Seq<char>)
    requires
        0 <= p,
        x.len() <= u64::MAX,
        p + enc_str(x).len() <= s.len(),
        s.subrange(p, p + enc_str(x).len()) == enc_str(x),
    ensures
        dec_str(s, p) == Some((x, p + enc_str(x).len())),
{
    assert(s.subrange(p, p + 16) =~= hex16(x.len() as u64)) by {
        assert forall|i: int| 0 <= i < 16 implies #[trigger] s.subrange(p, p + 16)[i] == hex16(x.len() as u64)[i] by {
            assert(s.subrange(p, p + enc_str(x).len())[i] == enc_str(x)[i]);
        }
    }
    lemma_dec_num(s, p, x.len() as u64);
    assert(s.subrange(p + 16, p + 16 + x.len()) =~= x) by {
        assert forall|i: int| 0 <= i < x.len() implies #[trigger] s.subrange(p + 16, p + 16 + x.len())[i] == x[i] by {
            assert(s.subrange(p, p + enc_str(x).len())[16 + i] == enc_str(x)[16 + i]);
        }
    }
}

proof fn lemma_dec_opt(s: Seq<char>, p: int, o: Option<Seq<char>>)
    requires
        0 <= p,
        o matches Some(x) ==> x.len() <= u64::MAX,
        p + enc_opt(o).len() <= s.len(),
        s.subrange(p, p + enc_opt(o).len()) == enc_opt(o),
    ensures
        dec_opt(s, p) == Some((o, p + enc_opt(o).len())),
{
    assert(s[p] == s.subrange(p, p + enc_opt(o).len())[0]);
    if let Some(x) = o {
        assert(s.subrange(p + 1, p + 1 + enc_str(x).len()) =~= enc_str(x)) by {
            assert forall|i: int| 0 <= i < enc_str(x).len() implies
                #[trigger] s.subrange(p + 1, p + 1 + enc_str(x).len())[i] == enc_str(x)[i] by {
                assert(s.subrange(p, p + enc_opt(o).len())[1 + i] == enc_opt(o)[1 + i]);
            }
        }
        lemma_dec_str(s, p + 1, x);
    }
}

proof fn lemma_dec_time(s: Seq<char>, p: int, o: Option<u64>)
    requires
        0 <= p,
        p + enc_time(o).len() <= s.len(),
        s.subrange(p, p + enc_time(o).len()) == enc_time(o),
    ensures
        dec_time(s, p) == Some((o, p + enc_time(o).len())),
{
    assert(s[p] == s.subrange(p, p + enc_time(o).len())[0]);
    if let Some(n) = o {
        assert(s.subrange(p + 1, p + 17) =~= hex16(n)) by {
            assert forall|i: int| 0 <= i < 16 implies #[trigger] s.subrange(p + 1, p + 17)[i] == hex16(n)[i] by {
                assert(s.subrange(p, p + enc_time(o).len())[1 + i] == enc_time(o)[1 + i]);
            }
        }
        lemma_dec_num(s, p + 1, n);
    }
}

/// The strings of a record are short enough to have their length written.
pub open spec fn encodable(r: RecordView) -> bool {
    &&& r.access_token.len() <= u64::MAX
    &&& r.token_type.len() <= u64::MAX
    &&& (r.refresh_token matches Some(x) ==> x.len() <= u64::MAX)
    &&& (r.id_token matches Some(x) ==> x.len() <= u64::MAX)
}

/// Saving a record and reading it back gives the same record, the absolute
/// expiry included.
pub proof fn lemma_round_trip(r: RecordView)
    requires
        encodable(r),
    ensures
        decode(encode(r)) == Some(r),
{
    let a = enc_str(r.access_token);
    let b = enc_opt(r.refresh_token);
    let c = enc_str(r.token_type);
    let d = enc_time(r.expires_at);
    let e = enc_opt(r.id_token);
    let s = encode(r);
    let p1 = a.len() as int;
    let p2 = p1 + b.len();
    let p3 = p2 + c.len();
    let p4 = p3 + d.len();
    let p5 = p4 + e.len();
    assert(s =~= a + b + c + d + e);
    assert(s.subrange(0, p1) =~= a);
    assert(s.subrange(p1, p2) =~= b);
    assert(s.subrange(p2, p3) =~= c);
    assert(s.subrange(p3, p4) =~= d);
    assert(s.subrange(p4, p5) =~= e);
    lemma_dec_str(s, 0, r.access_token);
    lemma_dec_opt(s, p1, r.refresh_token);
    lemma_dec_str(s, p2, r.token_type);
    lemma_dec_time(s, p3, r.expires_at);
    lemma_dec_opt(s, p4, r.id_token);
}

proof fn lemma_hex_prefix_fails_on(s: Seq<char>, k: nat, m: nat)
    requires
        k <= m,
        hex_prefix(s, k) is None,
    ensures
        hex_prefix(s, m) is None,
    decreases m - k,
{
    if k < m {
        lemma_hex_prefix_fails_on(s, k, (m - 1) as nat);
    }
}

fn digit_of(c: char) -> (r: Option<u64>)
    ensures
        r == digit_value(c),
{
    match c {
        '0' => Some(0),
        '1' => Some(1),
        '2' => Some(2),
        '3' => Some(3),
        '4' => Some(4),
        '5' => Some(5),
        '6' => Some(6),
        '7' => Some(7),
        '8' => Some(8),
        '9' => Some(9),
        'a' => Some(10),
        'b' => Some(11),
        'c' => Some(12),
        'd' => Some(13),
        'e' => Some(14),
        'f' => Some(15),
        _ => None,
    }
}

fn push_hex16(out: &mut String, n: u64)
    ensures
        final(out)@ == old(out)@ + hex16(n),
{
    let digits = "0123456789abcdef";
    proof {
        reveal_strlit("0123456789abcdef");
    }
    let ghost start = out@;
    let mut i: u64 = 0;
    while i < 16
        invariant
            i <= 16,
            digits@ == "0123456789abcdef"@,
            digits@.len() == 16,
            out@ == start + hex16(n).subrange(0, i as int),
        decreases 16 - i,
    {
        let d = (n >> (60 - 4 * i)) & 15;
        proof {
            lemma_nibble_small(n, i as int);
            assert(d == nibble(n, i as int));
            reveal_strlit("0123456789abcdef");
        }
        let c = digits.substring_char(d as usize, d as usize + 1);
        proof {
            assert(digits@[d as int] == hex_char(d));
            assert(c@ =~= seq![hex_char(d)]);
            assert(hex16(n).subrange(0, i + 1) =~= hex16(n).subrange(0, i as int).push(hex_char(d)));
        }
        out.append(c);
        i = i + 1;
    }
    proof {
        assert(hex16(n).subrange(0, 16) =~= hex16(n));
    }
}

fn push_str_field(out: &mut String, s: &String)
    ensures
        final(out)@ == old(out)@ + enc_str(s@),
        s@.len() <= u64::MAX,
{
    let n = s.as_str().unicode_len();
    push_hex16(out, n as u64);
    out.append(s.as_str());
    proof {
        assert(final(out)@ =~= old(out)@ + enc_str(s@));
    }
}

fn push_opt_field(out: &mut String, o: &Option<String>)
    ensures
        final(out)@ == old(out)@ + enc_opt(opt_view(*o)),
        *o matches Some(s) ==> s@.len() <= u64::MAX,
{
    match o {
        Some(s) => {
            let tag = "s";
            proof {
                reveal_strlit("s");
            }
            out.append(tag);
            push_str_field(out, s);
            proof {
                assert(final(out)@ =~= old(out)@ + enc_opt(opt_view(*o)));
            }
        },
        None => {
            let tag = "n";
            proof {
                reveal_strlit("n");
            }
            out.append(tag);
            proof {
                assert(final(out)@ =~= old(out)@ + enc_opt(opt_view(*o)));
            }
        },
    }
}

fn push_time_field(out: &mut String, o: Option<u64>)
    ensures
        final(out)@ == old(out)@ + enc_time(o),
{
    match o {
        Some(n) => {
            let tag = "s";
            proof {
                reveal_strlit("s");
            }
            out.append(tag);
            push_hex16(out, n);
            proof {
                assert(final(out)@ =~= old(out)@ + enc_time(o));
            }
        },
        None => {
            let tag = "n";
            proof {
                reveal_strlit("n");
            }
            out.append(tag);
            proof {
                assert(final(out)@ =~= old(out)@ + enc_time(o));
            }
        },
    }
}

/// The text under which a token record is saved.  Every record it takes
/// can be written, so the text reads back as the same record.
pub fn encode_record(record: &TokenRecord) -> (r: String)
    ensures
        r@ == encode(record.view()),
        encodable(record.view()),
{
    let mut out = String::new();
    push_str_field(&mut out, &record.access_token);
    push_opt_field(&mut out, &record.refresh_token);
    push_str_field(&mut out, &record.token_type);
    push_time_field(&mut out, record.expires_at);
    push_opt_field(&mut out, &record.id_token);
    proof {
        assert(out@ =~= encode(record.view()));
    }
    out
}

fn read_hex16(text: &str, len: usize, p: usize) -> (r: Option<u64>)
    requires
        len == text@.len(),
    ensures
        r == dec_num(text@, p as int),
{
    if p > len || len - p < 16 {
        return None;
    }
    let ghost sub = text@.subrange(p as int, p + 16);
    let mut acc: u64 = 0;
    let mut k: usize = 0;
    while k < 16
        invariant
            k <= 16,
            p + 16 <= len,
            len == text@.len(),
            sub == text@.subrange(p as int, p + 16),
            hex_prefix(sub, k as nat) == Some(acc),
        decreases 16 - k,
    {
        let c = text.get_char(p + k);
        assert(sub[k as int] == c);
        match digit_of(c) {
            Some(d) => {
                acc = (acc << 4u64) | d;
            },
            None => {
                proof {
                    lemma_hex_prefix_fails_on(sub, (k + 1) as nat, 16);
                }
                return None;
            },
        }
        k = k + 1;
    }
    Some(acc)
}

fn read_str(text: &str, len: usize, p: usize) -> (r: Option<(String, usize)>)
    requires
        len == text@.len(),
    ensures
        match dec_str(text@, p as int) {
            Some((v, q)) => r matches Some((s, q2)) && s@ == v && q2 == q,
            None => r is None,
        },
{
    match read_hex16(text, len, p) {
        Some(n) => {
            let start = p + 16;
            if (n as u128) > ((len - start) as u128) {
                return None;
            }
            let end = start + n as usize;
            let s = text.substring_char(start, end).to_owned();
            Some((s, end))
        },
        None => None,
    }
}

fn read_opt(text: &str, len: usize, p: usize) -> (r: Option<(Option<String>, usize)>)
    requires
        len == text@.len(),
    ensures
        match dec_opt(text@, p as int) {
            Some((v, q)) => r matches Some((o, q2)) && opt_view(o) == v && q2 == q,
            None => r is None,
        },
{
    if p >= len {
        return None;
    }
    let c = text.get_char(p);
    if c == 'n' {
        Some((None, p + 1))
    } else if c == 's' {
        match read_str(text, len, p + 1) {
            Some((s, q)) => Some((Some(s), q)),
            None => None,
        }
    } else {
        None
    }
}

fn read_time(text: &str, len: usize, p: usize) -> (r: Option<(Option<u64>, usize)>)
    requires
        len == text@.len(),
    ensures
        match dec_time(text@, p as int) {
            Some((v, q)) => r matches Some((o, q2)) && o == v && q2 == q,
            None => r is None,
        },
{
    if p >= len {
        return None;
    }
    let c = text.get_char(p);
    if c == 'n' {
        Some((None, p + 1))
    } else if c == 's' {
        match read_hex16(text, len, p + 1) {
            Some(n) => Some((Some(n), p + 17)),
            None => None,
        }
    } else {
        None
    }
}

/// Reads a token record back from its text; any text that is not exactly
/// one record is a serialization error.
pub fn decode_record(text: &str) -> (r: Result<TokenRecord, OAuth2Error>)
    ensures
        match decode(text@) {
            Some(v) => r matches Ok(rec) && rec.view() == v,
            None => r matches Err(e) && e.error_code == ErrorCodes::SerializationError,
        },
{
    let len = text.unicode_len();
    let parsed = match read_str(text, len, 0) {
        Some((access_token, p1)) => match read_opt(text, len, p1) {
            Some((refresh_token, p2)) => match read_str(text, len, p2) {
                Some((token_type, p3)) => match read_time(text, len, p3) {
                    Some((expires_at, p4)) => match read_opt(text, len, p4) {
                        Some((id_token, p5)) => if p5 == len {
                            Some(TokenRecord { access_token, refresh_token, token_type, expires_at, id_token })
                        } else {
                            None
                        },
                        None => None,
                    },
                    None => None,
                },
                None => None,
            },
            None => None,
        },
        None => None,
    };
    match parsed {
        Some(record) => Ok(record),
        None => Err(OAuth2Error::new(ErrorCodes::SerializationError, String::from_str("Corrupt token file."))),
    }
}

} // verus!
