//! Decimal text for the numeric wasm kinds: parsing argument tokens and
//! rendering result values, with a proved round trip.
//!
//! Tokens follow standard numeric text: an optional sign (`+` or `-`
//! for the signed kinds, only `+` for the unsigned bit-pattern kinds)
//! followed by one or more decimal digits, with the value in range for
//! the kind.

use vstd::prelude::*;

verus! {

/// Whether a character is a decimal digit.
pub open spec fn is_dec_digit(c: char) -> bool {
    '0' as int <= c as int && c as int <= '9' as int
}

/// The numeric value of a decimal digit character.
pub open spec fn digit_val(c: char) -> int {
    c as int - '0' as int
}

/// Whether a character sequence consists of decimal digits only.
pub open spec fn all_dec_digits(s: Seq<char>) -> bool {
    forall|i: int| 0 <= i < s.len() ==> is_dec_digit(#[trigger] s[i])
}

/// The value of a digit sequence read as a decimal numeral.
pub open spec fn dec_val(s: Seq<char>) -> int
    decreases s.len(),
{
    if s.len() == 0 {
        0
    } else {
        dec_val(s.drop_last()) * 10 + digit_val(s.last())
    }
}

/// The digit character for a value below ten.
pub open spec fn dec_digit_char(d: int) -> char {
    if d == 0 {
        '0'
    } else if d == 1 {
        '1'
    } else if d == 2 {
        '2'
    } else if d == 3 {
        '3'
    } else if d == 4 {
        '4'
    } else if d == 5 {
        '5'
    } else if d == 6 {
        '6'
    } else if d == 7 {
        '7'
    } else if d == 8 {
        '8'
    } else {
        '9'
    }
}

/// The decimal numeral of a nonnegative value: no sign, no leading
/// zero except for the value zero itself.
pub open spec fn dec_seq_of(n: nat) -> Seq<char>
    decreases n,
{
    if n < 10 {
        seq![dec_digit_char(n as int)]
    } else {
        dec_seq_of(n / 10).push(dec_digit_char((n % 10) as int))
    }
}

/// The decimal numeral of a signed value: a leading `-` for a negative
/// value, the plain numeral otherwise.
pub open spec fn dec_seq_of_int(n: int) -> Seq<char> {
    if n < 0 {
        seq!['-'] + dec_seq_of((-n) as nat)
    } else {
        dec_seq_of(n as nat)
    }
}

/// A digit sequence has a nonnegative value.
pub proof fn lemma_dec_val_nonneg(s: Seq<char>)
    requires
        all_dec_digits(s),
    ensures
        dec_val(s) >= 0,
    decreases s.len(),
{
    if s.len() > 0 {
        assert(all_dec_digits(s.drop_last())) by {
            assert(forall|i: int|
                0 <= i < s.len() - 1 ==> s.drop_last()[i] == #[trigger] s[i]);
        }
        lemma_dec_val_nonneg(s.drop_last());
    }
}

/// The numeral of a value consists of digits, is nonempty, and reads
/// back to the value itself.
pub proof fn lemma_dec_seq_of_reads_back(n: nat)
    ensures
        dec_seq_of(n).len() >= 1,
        all_dec_digits(dec_seq_of(n)),
        dec_val(dec_seq_of(n)) == n,
    decreases n,
{
    if n < 10 {
        let s = dec_seq_of(n);
        assert(s.len() == 1);
        assert(s.drop_last() =~= Seq::<char>::empty());
        assert(dec_val(Seq::<char>::empty()) == 0);
        assert(dec_val(s) == digit_val(s.last()));
    } else {
        lemma_dec_seq_of_reads_back(n / 10);
        let p = dec_seq_of(n / 10);
        let c = dec_digit_char((n % 10) as int);
        let s = p.push(c);
        assert(s.drop_last() =~= p);
        assert(s.last() == c);
        assert(digit_val(c) == n % 10);
        assert(all_dec_digits(s)) by {
            assert(forall|i: int| 0 <= i < p.len() ==> s[i] == #[trigger] p[i]);
        }
        assert(dec_val(s) == dec_val(p) * 10 + digit_val(c));
        assert(dec_val(p) * 10 + n % 10 == n) by {
            assert(dec_val(p) == n / 10);
            assert((n / 10) * 10 + n % 10 == n) by (nonlinear_arith);
        }
    }
}

/// Reading a prefix of a digit sequence never exceeds reading the
/// whole of it.
pub proof fn lemma_dec_val_prefix_le(s: Seq<char>, i: int)
    requires
        all_dec_digits(s),
        0 <= i <= s.len(),
    ensures
        dec_val(s.subrange(0, i)) <= dec_val(s),
    decreases s.len() - i,
{
    if i == s.len() {
        assert(s.subrange(0, i) =~= s);
    } else {
        let t = s.subrange(0, i + 1);
        lemma_dec_val_prefix_le(s, i + 1);
        assert(t.drop_last() =~= s.subrange(0, i));
        assert(all_dec_digits(s.subrange(0, i))) by {
            assert(forall|j: int|
                0 <= j < i ==> s.subrange(0, i)[j] == #[trigger] s[j]);
        }
        lemma_dec_val_nonneg(s.subrange(0, i));
        assert(dec_val(t) == dec_val(s.subrange(0, i)) * 10 + digit_val(t.last()));
        assert(dec_val(s.subrange(0, i)) * 10 >= dec_val(s.subrange(0, i))) by (nonlinear_arith)
            requires dec_val(s.subrange(0, i)) >= 0;
        assert(digit_val(t.last()) >= 0);
    }
}

/// Reads the digit run `s[from..]` as an unsigned decimal numeral.
/// Returns its value when the run is nonempty, all digits, and fits in
/// sixty-four bits; returns nothing otherwise.
pub fn parse_dec_digits(s: &str, from: usize) -> (r: Option<u64>)
    requires
        from <= s@.len(),
    ensures
        ({
            let body = s@.subrange(from as int, s@.len() as int);
            match r {
                Some(v) => body.len() >= 1 && all_dec_digits(body) && dec_val(body) == v,
                None => !(body.len() >= 1 && all_dec_digits(body) && dec_val(body)
                    <= u64::MAX),
            }
        }),
{
    let len = s.unicode_len();
    let ghost body = s@.subrange(from as int, s@.len() as int);
    if from == len {
        return None;
    }
    let mut acc: u64 = 0;
    let mut i = from;
    while i < len
        invariant
            from <= i <= len,
            len == s@.len(),
            body == s@.subrange(from as int, s@.len() as int),
            forall|j: int| from <= j < i ==> is_dec_digit(#[trigger] s@[j]),
            acc == dec_val(s@.subrange(from as int, i as int)),
        decreases len - i,
    {
        let c = s.get_char(i);
        let cv = c as u32;
        if cv < 48 || cv > 57 {
            assert(!is_dec_digit(s@[i as int]));
            assert(body[i - from] == s@[i as int]);
            return None;
        }
        assert(is_dec_digit(s@[i as int]));
        let d = (cv - 48) as u64;
        assert(d == digit_val(s@[i as int]));
        let ghost pre = s@.subrange(from as int, i as int);
        let ghost ext = s@.subrange(from as int, i + 1 as int);
        proof {
            assert(ext.drop_last() =~= pre);
            assert(ext.last() == s@[i as int]);
            assert(dec_val(ext) == dec_val(pre) * 10 + digit_val(s@[i as int]));
        }
        let step = match acc.checked_mul(10) {
            Some(m) => m.checked_add(d),
            None => None,
        };
        match step {
            Some(v) => {
                acc = v;
            },
            None => {
                proof {
                    assert(dec_val(ext) > u64::MAX);
                    if all_dec_digits(body) {
                        assert(ext =~= body.subrange(0, i + 1 - from));
                        lemma_dec_val_prefix_le(body, i + 1 - from);
                    }
                }
                return None;
            },
        }
        i = i + 1;
    }
    proof {
        assert(s@.subrange(from as int, i as int) =~= body);
        assert(all_dec_digits(body)) by {
            assert(forall|j: int|
                0 <= j < body.len() ==> body[j] == #[trigger] s@[j + from]);
        }
    }
    Some(acc)
}

/// The token with one leading `+` removed: the magnitude text of an
/// unsigned token.
pub open spec fn unsigned_body(s: Seq<char>) -> Seq<char> {
    if s.len() >= 1 && s[0] == '+' {
        s.subrange(1, s.len() as int)
    } else {
        s
    }
}

/// The token with one leading `+` or `-` removed: the magnitude text
/// of a signed token.
pub open spec fn signed_body(s: Seq<char>) -> Seq<char> {
    if s.len() >= 1 && (s[0] == '+' || s[0] == '-') {
        s.subrange(1, s.len() as int)
    } else {
        s
    }
}

/// Whether a signed token carries a leading minus sign.
pub open spec fn signed_neg(s: Seq<char>) -> bool {
    s.len() >= 1 && s[0] == '-'
}

/// What standard parsing of an unsigned 64-bit decimal token yields.
pub open spec fn spec_parse_u64(s: Seq<char>) -> Option<u64> {
    let b = unsigned_body(s);
    if b.len() >= 1 && all_dec_digits(b) && dec_val(b) <= u64::MAX {
        Some(dec_val(b) as u64)
    } else {
        None
    }
}

/// What standard parsing of an unsigned 32-bit decimal token yields.
pub open spec fn spec_parse_u32(s: Seq<char>) -> Option<u32> {
    let b = unsigned_body(s);
    if b.len() >= 1 && all_dec_digits(b) && dec_val(b) <= u32::MAX {
        Some(dec_val(b) as u32)
    } else {
        None
    }
}

/// What standard parsing of a signed 64-bit decimal token yields.
pub open spec fn spec_parse_i64(s: Seq<char>) -> Option<i64> {
    let b = signed_body(s);
    if b.len() >= 1 && all_dec_digits(b) {
        if signed_neg(s) {
            if -dec_val(b) >= i64::MIN {
                Some((-dec_val(b)) as i64)
            } else {
                None
            }
        } else {
            if dec_val(b) <= i64::MAX {
                Some(dec_val(b) as i64)
            } else {
                None
            }
        }
    } else {
        None
    }
}

/// What standard parsing of a signed 32-bit decimal token yields.
pub open spec fn spec_parse_i32(s: Seq<char>) -> Option<i32> {
    let b = signed_body(s);
    if b.len() >= 1 && all_dec_digits(b) {
        if signed_neg(s) {
            if -dec_val(b) >= i32::MIN {
                Some((-dec_val(b)) as i32)
            } else {
                None
            }
        } else {
            if dec_val(b) <= i32::MAX {
                Some(dec_val(b) as i32)
            } else {
                None
            }
        }
    } else {
        None
    }
}

/// Parses an unsigned 64-bit decimal token.
pub fn parse_u64_token(s: &str) -> (r: Option<u64>)
    ensures
        r == spec_parse_u64(s@),
{
    let len = s.unicode_len();
    let start: usize = if len >= 1 && s.get_char(0) == '+' {
        1
    } else {
        0
    };
    proof {
        assert(s@.subrange(start as int, s@.len() as int) =~= unsigned_body(s@));
    }
    parse_dec_digits(s, start)
}

/// Parses an unsigned 32-bit decimal token.
pub fn parse_u32_token(s: &str) -> (r: Option<u32>)
    ensures
        r == spec_parse_u32(s@),
{
    let len = s.unicode_len();
    let start: usize = if len >= 1 && s.get_char(0) == '+' {
        1
    } else {
        0
    };
    proof {
        assert(s@.subrange(start as int, s@.len() as int) =~= unsigned_body(s@));
    }
    match parse_dec_digits(s, start) {
        Some(v) => if v <= 0xffff_ffff {
            Some(v as u32)
        } else {
            None
        },
        None => None,
    }
}

/// Parses a signed decimal token into its sign and 64-bit magnitude.
fn parse_signed_magnitude(s: &str) -> (r: Option<(bool, u64)>)
    ensures
        ({
            let b = signed_body(s@);
            match r {
                Some((neg, m)) => neg == signed_neg(s@) && b.len() >= 1 && all_dec_digits(b)
                    && dec_val(b) == m,
                None => !(b.len() >= 1 && all_dec_digits(b) && dec_val(b) <= u64::MAX),
            }
        }),
{
    let len = s.unicode_len();
    let mut neg = false;
    let mut start: usize = 0;
    if len >= 1 {
        let c = s.get_char(0);
        if c == '+' {
            start = 1;
        } else if c == '-' {
            neg = true;
            start = 1;
        }
    }
    proof {
        assert(s@.subrange(start as int, s@.len() as int) =~= signed_body(s@));
    }
    match parse_dec_digits(s, start) {
        Some(m) => Some((neg, m)),
        None => None,
    }
}

/// Parses a signed 64-bit decimal token.
pub fn parse_i64_token(s: &str) -> (r: Option<i64>)
    ensures
        r == spec_parse_i64(s@),
{
    match parse_signed_magnitude(s) {
        Some((neg, m)) => {
            if neg {
                if m <= 9223372036854775807 {
                    Some(-(m as i64))
                } else if m == 9223372036854775808 {
                    Some(i64::MIN)
                } else {
                    None
                }
            } else {
                if m <= 9223372036854775807 {
                    Some(m as i64)
                } else {
                    None
                }
            }
        },
        None => None,
    }
}

/// Parses a signed 32-bit decimal token.
pub fn parse_i32_token(s: &str) -> (r: Option<i32>)
    ensures
        r == spec_parse_i32(s@),
{
    match parse_signed_magnitude(s) {
        Some((neg, m)) => {
            if neg {
                if m <= 2147483648 {
                    Some((0 - (m as i64)) as i32)
                } else {
                    None
                }
            } else {
                if m <= 2147483647 {
                    Some(m as i32)
                } else {
                    None
                }
            }
        },
        None => None,
    }
}

/// The one-character text of a digit value below ten.
pub fn digit_str(d: u64) -> (r: &'static str)
    requires
        d < 10,
    ensures
        r@ == seq![dec_digit_char(d as int)],
{
    proof {
        reveal_strlit("0");
        reveal_strlit("1");
        reveal_strlit("2");
        reveal_strlit("3");
        reveal_strlit("4");
        reveal_strlit("5");
        reveal_strlit("6");
        reveal_strlit("7");
        reveal_strlit("8");
        reveal_strlit("9");
    }
    let r: &'static str = if d == 0 {
        "0"
    } else if d == 1 {
        "1"
    } else if d == 2 {
        "2"
    } else if d == 3 {
        "3"
    } else if d == 4 {
        "4"
    } else if d == 5 {
        "5"
    } else if d == 6 {
        "6"
    } else if d == 7 {
        "7"
    } else if d == 8 {
        "8"
    } else {
        "9"
    };
    proof {
        assert(r@ =~= seq![dec_digit_char(d as int)]);
    }
    r
}

/// Renders an unsigned 64-bit value as its decimal numeral.
pub fn u64_to_dec(n: u64) -> (r: String)
    ensures
        r@ == dec_seq_of(n as nat),
    decreases n,
{
    if n < 10 {
        String::from_str(digit_str(n))
    } else {
        let mut r = u64_to_dec(n / 10);
        let d = digit_str(n % 10);
        r.append(d);
        proof {
            assert(n as nat / 10 == (n / 10) as nat);
            assert(n as nat % 10 == (n % 10) as nat);
            assert(r@ =~= dec_seq_of((n / 10) as nat).push(dec_digit_char((n % 10) as int)));
        }
        r
    }
}

/// Renders an unsigned 128-bit value as its decimal numeral.
pub fn u128_to_dec(n: u128) -> (r: String)
    ensures
        r@ == dec_seq_of(n as nat),
    decreases n,
{
    if n < 10 {
        String::from_str(digit_str(n as u64))
    } else {
        let mut r = u128_to_dec(n / 10);
        let d = digit_str((n % 10) as u64);
        r.append(d);
        proof {
            assert(n as nat / 10 == (n / 10) as nat);
            assert(n as nat % 10 == (n % 10) as nat);
            assert(r@ =~= dec_seq_of((n / 10) as nat).push(dec_digit_char((n % 10) as int)));
        }
        r
    }
}

/// Renders a signed 64-bit value as its decimal numeral.
pub fn i64_to_dec(n: i64) -> (r: String)
    ensures
        r@ == dec_seq_of_int(n as int),
{
    if n >= 0 {
        u64_to_dec(n as u64)
    } else {
        let mag = (-(n as i128)) as u64;
        let mut r = String::from_str("-");
        let digits = u64_to_dec(mag);
        r.append(digits.as_str());
        proof {
            reveal_strlit("-");
            assert(r@ =~= seq!['-'] + dec_seq_of((-(n as int)) as nat));
        }
        r
    }
}

/// Renders a signed 32-bit value as its decimal numeral.
pub fn i32_to_dec(n: i32) -> (r: String)
    ensures
        r@ == dec_seq_of_int(n as int),
{
    i64_to_dec(n as i64)
}

/// Round trip for unsigned 64-bit values: the rendered numeral parses
/// back to the value itself.
pub proof fn lemma_u64_round_trip(n: u64)
    ensures
        spec_parse_u64(dec_seq_of(n as nat)) == Some(n),
{
    lemma_dec_seq_of_reads_back(n as nat);
    let s = dec_seq_of(n as nat);
    assert(is_dec_digit(s[0]));
    assert(s[0] != '+');
    assert(unsigned_body(s) == s);
}

/// Round trip for unsigned 32-bit values: the rendered numeral parses
/// back to the value itself.
pub proof fn lemma_u32_round_trip(b: u32)
    ensures
        spec_parse_u32(dec_seq_of(b as nat)) == Some(b),
{
    lemma_dec_seq_of_reads_back(b as nat);
    let s = dec_seq_of(b as nat);
    assert(is_dec_digit(s[0]));
    assert(s[0] != '+');
    assert(unsigned_body(s) == s);
}

/// Round trip for signed 64-bit values: the rendered numeral parses
/// back to the value itself.
pub proof fn lemma_i64_round_trip(n: i64)
    ensures
        spec_parse_i64(dec_seq_of_int(n as int)) == Some(n),
{
    let s = dec_seq_of_int(n as int);
    if n >= 0 {
        lemma_dec_seq_of_reads_back(n as nat);
        assert(is_dec_digit(s[0]));
        assert(s[0] != '+' && s[0] != '-');
        assert(signed_body(s) == s);
        assert(!signed_neg(s));
    } else {
        let m = (-(n as int)) as nat;
        lemma_dec_seq_of_reads_back(m);
        let d = dec_seq_of(m);
        assert(s == seq!['-'] + d);
        assert(s[0] == '-');
        assert(signed_neg(s));
        assert(signed_body(s) =~= d);
    }
}

/// Round trip for signed 32-bit values: the rendered numeral parses
/// back to the value itself.
pub proof fn lemma_i32_round_trip(n: i32)
    ensures
        spec_parse_i32(dec_seq_of_int(n as int)) == Some(n),
{
    let s = dec_seq_of_int(n as int);
    if n >= 0 {
        lemma_dec_seq_of_reads_back(n as nat);
        assert(is_dec_digit(s[0]));
        assert(s[0] != '+' && s[0] != '-');
        assert(signed_body(s) == s);
        assert(!signed_neg(s));
    } else {
        let m = (-(n as int)) as nat;
        lemma_dec_seq_of_reads_back(m);
        let d = dec_seq_of(m);
        assert(s == seq!['-'] + d);
        assert(s[0] == '-');
        assert(signed_neg(s));
        assert(signed_body(s) =~= d);
    }
}

} // verus!
