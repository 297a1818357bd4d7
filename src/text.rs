//! Text forms: hex strings, `0x`-prefixed addresses and quantities, and the
//! decimal account index at the end of a derivation path string.
use vstd::prelude::*;
use vstd::string::*;

use crate::error::WalletError;

verus! {

/// The lowercase hex digit of a value below 16.
pub open spec fn hex_char(d: u8) -> char {
    if d < 10 {
        (48 + d) as char
    } else {
        (87 + d) as char
    }
}

/// Two lowercase hex digits per byte, most significant first.
pub open spec fn hex_lower(b: Seq<u8>) -> Seq<char>
    decreases b.len(),
{
    if b.len() == 0 {
        Seq::empty()
    } else {
        hex_lower(b.drop_last()).push(hex_char(b.last() / 16)).push(hex_char(b.last() % 16))
    }
}

/// The value of one hex digit, either case.
pub open spec fn hex_value(c: u8) -> Option<u8> {
    if 48 <= c <= 57 {
        Some((c - 48) as u8)
    } else if 97 <= c <= 102 {
        Some((c - 87) as u8)
    } else if 65 <= c <= 70 {
        Some((c - 55) as u8)
    } else {
        None
    }
}

/// The bytes that a string of hex digit pairs spells, if it is one.
pub open spec fn hex_decoded(s: Seq<u8>) -> Option<Seq<u8>>
    decreases s.len(),
{
    if s.len() % 2 != 0 {
        None
    } else if s.len() == 0 {
        Some(Seq::empty())
    } else {
        match (hex_decoded(s.subrange(0, s.len() - 2)), hex_value(s[s.len() - 2]), hex_value(s[s.len() - 1])) {
            (Some(p), Some(h), Some(l)) => Some(p.push((h * 16 + l) as u8)),
            _ => None,
        }
    }
}

/// Relies on `hex::encode`: two lowercase digits per byte.
#[verifier::external_body]
fn hex_encode(data: &[u8]) -> (r: String)
    ensures
        r@ == hex_lower(data@),
{
    hex::encode(data)
}

/// Relies on `hex::decode`: it accepts an even number of digits of either
/// case and refuses anything else.
#[verifier::external_body]
fn hex_decode(data: &[u8]) -> (r: Option<Vec<u8>>)
    ensures
        match r {
            Some(v) => hex_decoded(data@) == Some(v@),
            None => hex_decoded(data@) is None,
        },
{
    hex::decode(data).ok()
}

/// Relies on `String::push`: the character is appended.
#[verifier::external_body]
fn push_char(s: &mut String, c: char)
    ensures
        final(s)@ == old(s)@.push(c),
{
    s.push(c)
}

/// `0x` as characters.
pub open spec fn hex_prefix() -> Seq<char> {
    seq!['0', 'x']
}

/// The display form of an address: `0x` and its lowercase hex digits.
pub open spec fn address_text(addr: Seq<u8>) -> Seq<char> {
    hex_prefix() + hex_lower(addr)
}

/// Renders bytes as `0x` followed by lowercase hex digits.
pub fn to_prefixed_hex(data: &[u8]) -> (r: String)
    ensures
        r@ == address_text(data@),
{
    let mut out = String::new();
    push_char(&mut out, '0');
    push_char(&mut out, 'x');
    let digits = hex_encode(data);
    out.append(digits.as_str());
    assert(out@ =~= address_text(data@));
    out
}

/// The bytes after an optional leading `0x`.
pub open spec fn strip_hex_prefix(s: Seq<u8>) -> Seq<u8> {
    if s.len() >= 2 && s[0] == 48 && s[1] == 120 {
        s.subrange(2, s.len() as int)
    } else {
        s
    }
}

/// The 20 bytes a recipient text names, if it names 20 bytes.
pub open spec fn recipient_bytes(s: Seq<u8>) -> Option<Seq<u8>> {
    match hex_decoded(strip_hex_prefix(s)) {
        Some(b) => if b.len() == 20 { Some(b) } else { None },
        None => None,
    }
}

/// A copy of `s` from `start` on.
fn tail(s: &[u8], start: usize) -> (r: Vec<u8>)
    requires
        start <= s@.len(),
    ensures
        r@ == s@.subrange(start as int, s@.len() as int),
{
    let mut out: Vec<u8> = Vec::new();
    let mut i: usize = start;
    while i < s.len()
        invariant
            start <= i <= s@.len(),
            out@ == s@.subrange(start as int, i as int),
        decreases s@.len() - i,
    {
        out.push(s[i]);
        i = i + 1;
        assert(out@ =~= s@.subrange(start as int, i as int));
    }
    out
}

/// The bytes of `s` after an optional leading `0x`.
fn without_prefix(s: &[u8]) -> (r: Vec<u8>)
    ensures
        r@ == strip_hex_prefix(s@),
{
    if s.len() >= 2 && s[0] == 48 && s[1] == 120 {
        tail(s, 2)
    } else {
        tail(s, 0)
    }
}

/// Parses a recipient address: 40 hex digits, with or without `0x`.
pub fn parse_recipient(recipient: &str) -> (r: Result<[u8; 20], WalletError>)
    ensures
        match r {
            Ok(a) => recipient_bytes(recipient.spec_bytes()) == Some(a@),
            Err(e) => recipient_bytes(recipient.spec_bytes()) is None && e == WalletError::AddressFormat,
        },
{
    let digits = without_prefix(recipient.as_bytes());
    match hex_decode(digits.as_slice()) {
        Some(b) => {
            if b.len() != 20 {
                return Err(WalletError::AddressFormat);
            }
            let a: [u8; 20] = [
                b[0], b[1], b[2], b[3], b[4], b[5], b[6], b[7], b[8], b[9],
                b[10], b[11], b[12], b[13], b[14], b[15], b[16], b[17], b[18], b[19],
            ];
            proof {
                broadcast use vstd::array::group_array_axioms;
            }
            assert(a@ =~= b@);
            Ok(a)
        },
        None => Err(WalletError::AddressFormat),
    }
}

/// The value of a run of hex digits, most significant first, if it is one.
pub open spec fn hex_number(s: Seq<u8>) -> Option<nat>
    decreases s.len(),
{
    if s.len() == 0 {
        Some(0)
    } else {
        match (hex_number(s.drop_last()), hex_value(s.last())) {
            (Some(p), Some(d)) => Some((p * 16 + d) as nat),
            _ => None,
        }
    }
}

/// The quantity a node reports: `0x` and at least one hex digit, below 2^128.
pub open spec fn quantity_value(s: Seq<u8>) -> Option<u128> {
    if s.len() >= 3 && s[0] == 48 && s[1] == 120 {
        match hex_number(s.subrange(2, s.len() as int)) {
            Some(v) => if v <= u128::MAX { Some(v as u128) } else { None },
            None => None,
        }
    } else {
        None
    }
}

proof fn lemma_hex_number_prefix_none(s: Seq<u8>, n: int)
    requires
        0 <= n <= s.len(),
        hex_number(s.subrange(0, n)) is None,
    ensures
        hex_number(s) is None,
    decreases s.len() - n,
{
    if n < s.len() {
        assert(s.subrange(0, n + 1).drop_last() =~= s.subrange(0, n));
        lemma_hex_number_prefix_none(s, n + 1);
    } else {
        assert(s.subrange(0, n) =~= s);
    }
}

proof fn lemma_hex_number_grows(s: Seq<u8>, n: int, m: int)
    requires
        0 <= n <= m <= s.len(),
        hex_number(s.subrange(0, m)) is Some,
    ensures
        hex_number(s.subrange(0, n)) is Some,
        hex_number(s.subrange(0, n))->Some_0 <= hex_number(s.subrange(0, m))->Some_0,
    decreases m - n,
{
    if n < m {
        assert(s.subrange(0, m).drop_last() =~= s.subrange(0, m - 1));
        lemma_hex_number_grows(s, n, m - 1);
    }
}

/// Parses a `0x`-prefixed hex quantity, as a ledger node reports balances
/// and gas prices.
pub fn parse_quantity(text: &str) -> (r: Result<u128, WalletError>)
    ensures
        match r {
            Ok(v) => quantity_value(text.spec_bytes()) == Some(v),
            Err(e) => quantity_value(text.spec_bytes()) is None && e == WalletError::InputFormat,
        },
{
    let s = text.as_bytes();
    if !(s.len() >= 3 && s[0] == 48 && s[1] == 120) {
        return Err(WalletError::InputFormat);
    }
    let digits = tail(s, 2);
    let ghost d = digits@;
    let mut value: u128 = 0;
    let mut i: usize = 0;
    assert(d.subrange(0, 0) =~= Seq::<u8>::empty());
    while i < digits.len()
        invariant
            i <= d.len(),
            d == digits@,
            text.spec_bytes().len() >= 3,
            text.spec_bytes()[0] == 48,
            text.spec_bytes()[1] == 120,
            d == text.spec_bytes().subrange(2, text.spec_bytes().len() as int),
            hex_number(d.subrange(0, i as int)) == Some(value as nat),
        decreases d.len() - i,
    {
        assert(d.subrange(0, i + 1).drop_last() =~= d.subrange(0, i as int));
        let c = digits[i];
        let v: u8 = if 48 <= c && c <= 57 {
            c - 48
        } else if 97 <= c && c <= 102 {
            c - 87
        } else if 65 <= c && c <= 70 {
            c - 55
        } else {
            proof {
                assert(d.subrange(0, i + 1).last() == c);
                assert(hex_value(c) is None);
                lemma_hex_number_prefix_none(d, i as int + 1);
            }
            return Err(WalletError::InputFormat);
        };
        if value > (u128::MAX - v as u128) / 16 {
            proof {
                let vv = v as nat;
                let cur = value as nat;
                assert(cur * 16 + vv > u128::MAX) by (nonlinear_arith)
                    requires
                        cur > (u128::MAX - vv) / 16,
                        vv < 16,
                ;
                assert(d.subrange(0, i + 1).last() == c);
                assert(hex_value(c) == Some(v));
                assert(hex_number(d.subrange(0, i + 1)) == Some(cur * 16 + vv));
                match hex_number(d) {
                    Some(total) => {
                        assert(d.subrange(0, d.len() as int) =~= d);
                        lemma_hex_number_grows(d, i as int + 1, d.len() as int);
                    },
                    None => {},
                }
            }
            return Err(WalletError::InputFormat);
        }
        value = value * 16 + v as u128;
        i = i + 1;
    }
    assert(d.subrange(0, i as int) =~= d);
    Ok(value)
}

/// The decimal digit character of a value below 10.
pub open spec fn digit_char(d: nat) -> char {
    (48 + d) as char
}

/// The decimal form of `n`, without leading zeros.
pub open spec fn decimal(n: nat) -> Seq<char>
    decreases n,
{
    if n < 10 {
        seq![digit_char(n)]
    } else {
        decimal(n / 10).push(digit_char(n % 10))
    }
}

/// Appends the decimal form of `n`.
fn push_decimal(s: &mut String, n: u64)
    ensures
        final(s)@ == old(s)@ + decimal(n as nat),
    decreases n,
{
    if n >= 10 {
        push_decimal(s, n / 10);
    }
    let d: u8 = (n % 10) as u8;
    push_char(s, (48u8 + d) as char);
    assert(final(s)@ =~= old(s)@ + decimal(n as nat));
}

/// The decimal form of `n` as a string.
pub fn decimal_string(n: u64) -> (r: String)
    ensures
        r@ == decimal(n as nat),
{
    let mut s = String::new();
    push_decimal(&mut s, n);
    assert(s@ =~= decimal(n as nat));
    s
}

/// The characters after the last `/` (all of them when there is none).
pub open spec fn last_segment(s: Seq<char>) -> Seq<char>
    decreases s.len(),
{
    if s.len() == 0 {
        s
    } else if s.last() == '/' {
        Seq::empty()
    } else {
        last_segment(s.drop_last()).push(s.last())
    }
}

/// Whether `c` is a decimal digit.
pub open spec fn is_digit(c: char) -> bool {
    '0' <= c <= '9'
}

/// The value of a run of decimal digits, most significant first.
pub open spec fn decimal_value(s: Seq<char>) -> nat
    decreases s.len(),
{
    if s.len() == 0 {
        0
    } else {
        (decimal_value(s.drop_last()) * 10 + (s.last() as nat - 48)) as nat
    }
}

/// The index a path string ends with: a non-empty run of decimal digits after
/// the last `/`, whose value fits in 32 bits.
pub open spec fn path_index(path: Seq<char>) -> Option<u32> {
    let seg = last_segment(path);
    if seg.len() > 0 && (forall|i: int| 0 <= i < seg.len() ==> is_digit(#[trigger] seg[i])) && decimal_value(seg) <= u32::MAX {
        Some(decimal_value(seg) as u32)
    } else {
        None
    }
}

/// A non-empty run of decimal digits whose value fits in 32 bits.
pub open spec fn index_digits(seg: Seq<char>) -> bool {
    seg.len() > 0 && (forall|i: int| 0 <= i < seg.len() ==> is_digit(#[trigger] seg[i])) && decimal_value(seg) <= u32::MAX
}

proof fn lemma_last_segment_from(s: Seq<char>, k: int, m: int)
    requires
        0 <= k <= m <= s.len(),
        k == 0 || s[k - 1] == '/',
        forall|j: int| k <= j < m ==> s[j] != '/',
    ensures
        last_segment(s.subrange(0, m)) == s.subrange(k, m),
    decreases m - k,
{
    if m == k {
        if k > 0 {
            assert(s.subrange(0, m).last() == '/');
        }
        assert(s.subrange(k, m) =~= Seq::<char>::empty());
    } else {
        lemma_last_segment_from(s, k, m - 1);
        assert(s.subrange(0, m).drop_last() =~= s.subrange(0, m - 1));
        assert(s.subrange(k, m) =~= s.subrange(k, m - 1).push(s[m - 1]));
    }
}

proof fn lemma_decimal_value_grows(s: Seq<char>, n: int, m: int)
    requires
        0 <= n <= m <= s.len(),
        forall|i: int| 0 <= i < s.len() ==> is_digit(#[trigger] s[i]),
    ensures
        decimal_value(s.subrange(0, n)) <= decimal_value(s.subrange(0, m)),
    decreases m - n,
{
    if n < m {
        assert(s.subrange(0, m).drop_last() =~= s.subrange(0, m - 1));
        lemma_decimal_value_grows(s, n, m - 1);
    }
}

/// Reads the account index at the end of a derivation path string.
pub fn index_from_path(path: &str) -> (r: Option<u32>)
    ensures
        r == path_index(path@),
{
    let len = path.unicode_len();
    let ghost s = path@;
    let mut k: usize = len;
    while k > 0 && path.get_char(k - 1) != '/'
        invariant
            k <= len,
            len == s.len(),
            s == path@,
            forall|j: int| k <= j < len ==> s[j] != '/',
        decreases k,
    {
        k = k - 1;
    }
    proof {
        lemma_last_segment_from(s, k as int, len as int);
        assert(s.subrange(0, len as int) =~= s);
    }
    let ghost seg = s.subrange(k as int, len as int);
    if k == len {
        return None;
    }
    let mut value: u64 = 0;
    let mut i: usize = k;
    assert(seg.subrange(0, 0) =~= Seq::<char>::empty());
    while i < len
        invariant
            k <= i <= len,
            len == s.len(),
            s == path@,
            seg == s.subrange(k as int, len as int),
            last_segment(s) == seg,
            forall|j: int| 0 <= j < i - k ==> is_digit(#[trigger] seg[j]),
            decimal_value(seg.subrange(0, i - k)) == value as nat,
            value <= u32::MAX,
        decreases len - i,
    {
        let c = path.get_char(i);
        assert(seg[i - k] == c);
        if !('0' <= c && c <= '9') {
            return None;
        }
        assert(seg.subrange(0, i - k + 1).drop_last() =~= seg.subrange(0, i - k));
        let d: u64 = (c as u32 - 48) as u64;
        value = value * 10 + d;
        if value > 0xFFFF_FFFF {
            proof {
                assert(forall|j: int| 0 <= j < i + 1 - k ==> is_digit(#[trigger] seg[j]));
                if forall|j: int| 0 <= j < seg.len() ==> is_digit(#[trigger] seg[j]) {
                    lemma_decimal_value_grows(seg, i + 1 - k, seg.len() as int);
                    assert(seg.subrange(0, seg.len() as int) =~= seg);
                }
            }
            return None;
        }
        i = i + 1;
    }
    assert(seg.subrange(0, i - k) =~= seg);
    Some(value as u32)
}

/// The text of a derivation path: `m`, then `/` and the decimal index of
/// each step, with `'` after a hardened one.
pub open spec fn path_text(steps: Seq<crate::derivation::ChildIndex>) -> Seq<char>
    decreases steps.len(),
{
    if steps.len() == 0 {
        seq!['m']
    } else {
        let rest = path_text(steps.drop_last()).push('/') + decimal(steps.last().index as nat);
        if steps.last().hardened {
            rest.push('\'')
        } else {
            rest
        }
    }
}

/// Renders a derivation path as text.
pub fn path_string(steps: &[crate::derivation::ChildIndex]) -> (r: String)
    ensures
        r@ == path_text(steps@),
{
    let mut out = String::new();
    push_char(&mut out, 'm');
    let mut i: usize = 0;
    assert(steps@.subrange(0, 0) =~= Seq::<crate::derivation::ChildIndex>::empty());
    while i < steps.len()
        invariant
            i <= steps@.len(),
            out@ == path_text(steps@.subrange(0, i as int)),
        decreases steps@.len() - i,
    {
        assert(steps@.subrange(0, i + 1).drop_last() =~= steps@.subrange(0, i as int));
        push_char(&mut out, '/');
        push_decimal(&mut out, steps[i].index as u64);
        if steps[i].hardened {
            push_char(&mut out, '\'');
        }
        i = i + 1;
    }
    assert(steps@.subrange(0, i as int) =~= steps@);
    out
}

proof fn lemma_decimal_digits(n: nat)
    ensures
        decimal(n).len() > 0,
        forall|i: int| 0 <= i < decimal(n).len() ==> is_digit(#[trigger] decimal(n)[i]),
        decimal_value(decimal(n)) == n,
    decreases n,
{
    assert(digit_char(n % 10) as nat == 48 + n % 10);
    if n >= 10 {
        lemma_decimal_digits(n / 10);
        assert(decimal(n).drop_last() =~= decimal(n / 10));
        assert((n / 10) * 10 + n % 10 == n) by (nonlinear_arith);
        assert(decimal(n).last() == digit_char(n % 10));
        assert(decimal_value(decimal(n)) == decimal_value(decimal(n / 10)) * 10 + (digit_char(n % 10) as nat - 48));
    } else {
        assert(decimal(n).drop_last() =~= Seq::<char>::empty());
        assert(n % 10 == n);
        assert(decimal(n).last() == digit_char(n));
        assert(decimal_value(decimal(n)) == decimal_value(Seq::<char>::empty()) * 10 + (digit_char(n) as nat - 48));
    }
}

proof fn lemma_last_segment_after_slash(a: Seq<char>, b: Seq<char>)
    requires
        forall|i: int| 0 <= i < b.len() ==> b[i] != '/',
    ensures
        last_segment(a.push('/') + b) == b,
    decreases b.len(),
{
    if b.len() == 0 {
        assert(a.push('/') + b =~= a.push('/'));
    } else {
        lemma_last_segment_after_slash(a, b.drop_last());
        assert((a.push('/') + b).drop_last() =~= a.push('/') + b.drop_last());
        assert(b.drop_last().push(b.last()) =~= b);
    }
}

/// The index read back from the text of a path that ends in a non-hardened
/// step is that step's index.
pub proof fn lemma_path_index_of_text(steps: Seq<crate::derivation::ChildIndex>, index: u32)
    ensures
        path_index(path_text(steps.push(crate::derivation::ChildIndex { index, hardened: false }))) == Some(index),
{
    let last = crate::derivation::ChildIndex { index, hardened: false };
    let full = steps.push(last);
    assert(full.drop_last() =~= steps);
    lemma_decimal_digits(index as nat);
    let b = decimal(index as nat);
    assert forall|i: int| 0 <= i < b.len() implies b[i] != '/' by {
        assert(is_digit(b[i]));
    }
    lemma_last_segment_after_slash(path_text(steps), b);
}

/// The amount a text spells: a non-empty run of decimal digits whose value
/// fits in 128 bits.
pub open spec fn amount_value(s: Seq<char>) -> Option<u128> {
    if s.len() > 0 && (forall|i: int| 0 <= i < s.len() ==> is_digit(#[trigger] s[i])) && decimal_value(s) <= u128::MAX {
        Some(decimal_value(s) as u128)
    } else {
        None
    }
}

/// Parses a non-negative whole amount of wei written in decimal.
pub fn parse_amount(text: &str) -> (r: Result<u128, WalletError>)
    ensures
        match r {
            Ok(v) => amount_value(text@) == Some(v),
            Err(e) => amount_value(text@) is None && e == WalletError::AmountFormat,
        },
{
    let len = text.unicode_len();
    let ghost s = text@;
    if len == 0 {
        return Err(WalletError::AmountFormat);
    }
    let mut value: u128 = 0;
    let mut i: usize = 0;
    assert(s.subrange(0, 0) =~= Seq::<char>::empty());
    while i < len
        invariant
            i <= len,
            len == s.len(),
            s == text@,
            forall|j: int| 0 <= j < i ==> is_digit(#[trigger] s[j]),
            decimal_value(s.subrange(0, i as int)) == value as nat,
        decreases len - i,
    {
        let c = text.get_char(i);
        if !('0' <= c && c <= '9') {
            return Err(WalletError::AmountFormat);
        }
        assert(s.subrange(0, i + 1).drop_last() =~= s.subrange(0, i as int));
        let d: u128 = (c as u32 - 48) as u128;
        if value > (u128::MAX - d) / 10 {
            proof {
                let dd = d as nat;
                let cur = value as nat;
                assert(cur * 10 + dd > u128::MAX) by (nonlinear_arith)
                    requires
                        cur > (u128::MAX - dd) / 10,
                        dd < 10,
                ;
                assert(decimal_value(s.subrange(0, i + 1)) == cur * 10 + dd);
                if forall|j: int| 0 <= j < s.len() ==> is_digit(#[trigger] s[j]) {
                    lemma_decimal_value_grows(s, i + 1, s.len() as int);
                    assert(s.subrange(0, s.len() as int) =~= s);
                }
            }
            return Err(WalletError::AmountFormat);
        }
        value = value * 10 + d;
        i = i + 1;
    }
    assert(s.subrange(0, i as int) =~= s);
    Ok(value)
}

} // verus!
