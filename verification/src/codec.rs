//! The identifier codec: conversions between each backend's native window
//! identifier representation and the canonical 64-bit identifier used
//! everywhere above the adapter layer.
//!
//! Native representations are strings: hexadecimal with a `0x` prefix
//! (zero-padded to eight digits for the tabular tool, minimal for the
//! JSON compositor's addresses) or minimal decimal.  Parsing follows one
//! policy: a `0x`-prefixed string is read base-16, an all-digit string
//! base-10, any other string of hexadecimal digits base-16; everything
//! else — and any value that overflows 64 bits — maps to the sentinel
//! `0`, which is reserved as "invalid, never a real window".

use vstd::arithmetic::div_mod::lemma_fundamental_div_mod;
use vstd::prelude::*;

verus! {

/// Canonical window identifiers are 64-bit; the value `0` is reserved
/// as "invalid, never a real window", and the enumerators drop every
/// record whose identifier resolves to it.
pub open spec fn valid_window_id(id: u64) -> bool {
    id != 0
}

pub open spec fn is_dec_digit(c: char) -> bool {
    '0' as int <= c as int && c as int <= '9' as int
}

pub open spec fn is_hex_digit(c: char) -> bool {
    ||| is_dec_digit(c)
    ||| 'a' as int <= c as int && c as int <= 'f' as int
    ||| 'A' as int <= c as int && c as int <= 'F' as int
}

pub open spec fn hex_digit_val(c: char) -> nat {
    if is_dec_digit(c) {
        (c as int - '0' as int) as nat
    } else if 'a' as int <= c as int && c as int <= 'f' as int {
        (c as int - 'a' as int + 10) as nat
    } else if 'A' as int <= c as int && c as int <= 'F' as int {
        (c as int - 'A' as int + 10) as nat
    } else {
        0
    }
}

pub open spec fn all_dec(s: Seq<char>) -> bool {
    forall|i: int| 0 <= i < s.len() ==> is_dec_digit(#[trigger] s[i])
}

pub open spec fn all_hex(s: Seq<char>) -> bool {
    forall|i: int| 0 <= i < s.len() ==> is_hex_digit(#[trigger] s[i])
}

/// Numeric value of a digit string read base-16.
pub open spec fn hex_val(s: Seq<char>) -> nat
    decreases s.len(),
{
    if s.len() == 0 {
        0
    } else {
        hex_val(s.drop_last()) * 16 + hex_digit_val(s.last())
    }
}

/// Numeric value of a digit string read base-10.
pub open spec fn dec_val(s: Seq<char>) -> nat
    decreases s.len(),
{
    if s.len() == 0 {
        0
    } else {
        dec_val(s.drop_last()) * 10 + hex_digit_val(s.last())
    }
}

/// Base-16 reading of a whole string: `0` when empty, not all
/// hexadecimal digits, or too large for 64 bits.
pub open spec fn hex_parse(s: Seq<char>) -> u64 {
    if s.len() > 0 && all_hex(s) && hex_val(s) <= u64::MAX {
        hex_val(s) as u64
    } else {
        0
    }
}

/// Base-10 reading of a whole string, under the same failure policy.
pub open spec fn dec_parse(s: Seq<char>) -> u64 {
    if s.len() > 0 && all_dec(s) && dec_val(s) <= u64::MAX {
        dec_val(s) as u64
    } else {
        0
    }
}

/// The canonical identifier denoted by a native identifier string.
pub open spec fn canonical_id_spec(s: Seq<char>) -> u64 {
    if s.len() >= 2 && s[0] == '0' && s[1] == 'x' {
        hex_parse(s.subrange(2, s.len() as int))
    } else if s.len() > 0 && all_dec(s) {
        dec_parse(s)
    } else if s.len() > 0 && all_hex(s) {
        hex_parse(s)
    } else {
        0
    }
}

/// The lowercase hexadecimal digit for a value below 16.
pub open spec fn hex_char(d: nat) -> char {
    if d == 0 {
        '0'
    } else if d == 1 {
        '1'
    } else if d == 2 {
        '2'
    } else if d == 3 {
        '3'
    } else if d == 4 {
        '4'
    } else if d == 5 {
        '5'
    } else if d == 6 {
        '6'
    } else if d == 7 {
        '7'
    } else if d == 8 {
        '8'
    } else if d == 9 {
        '9'
    } else if d == 10 {
        'a'
    } else if d == 11 {
        'b'
    } else if d == 12 {
        'c'
    } else if d == 13 {
        'd'
    } else if d == 14 {
        'e'
    } else {
        'f'
    }
}

/// Minimal lowercase hexadecimal digit string of `n`.
pub open spec fn to_hex_min(n: nat) -> Seq<char>
    decreases n,
{
    if n < 16 {
        seq![hex_char(n)]
    } else {
        to_hex_min(n / 16).push(hex_char(n % 16))
    }
}

/// Minimal decimal digit string of `n`.
pub open spec fn to_dec_min(n: nat) -> Seq<char>
    decreases n,
{
    if n < 10 {
        seq![hex_char(n)]
    } else {
        to_dec_min(n / 10).push(hex_char(n % 10))
    }
}

pub open spec fn zero_chars(k: nat) -> Seq<char> {
    Seq::new(k, |i: int| '0')
}

/// Zero-pads a digit string on the left to at least eight digits.
pub open spec fn pad8(s: Seq<char>) -> Seq<char> {
    if s.len() >= 8 {
        s
    } else {
        zero_chars((8 - s.len()) as nat) + s
    }
}

/// The tabular tool's native form: `0x` plus eight-or-more lowercase
/// hexadecimal digits.
pub open spec fn native_hex_padded(id: u64) -> Seq<char> {
    seq!['0', 'x'] + pad8(to_hex_min(id as nat))
}

/// The JSON compositor's native address form: `0x` plus minimal
/// lowercase hexadecimal digits.
pub open spec fn native_hex_address(id: u64) -> Seq<char> {
    seq!['0', 'x'] + to_hex_min(id as nat)
}

/// The decimal backends' native form: minimal decimal digits.
pub open spec fn native_decimal(id: u64) -> Seq<char> {
    to_dec_min(id as nat)
}

pub proof fn lemma_hex_char_props(d: nat)
    requires
        d < 16,
    ensures
        is_hex_digit(hex_char(d)),
        hex_digit_val(hex_char(d)) == d,
        d < 10 ==> is_dec_digit(hex_char(d)),
        d >= 10 ==> !is_dec_digit(hex_char(d)),
        d > 0 ==> hex_char(d) != '0',
        hex_char(d) != 'x',
{
}

/// The minimal digit strings denote the number they were built from,
/// hold only digits, and never start with a superfluous zero.
pub proof fn lemma_to_hex_min_props(n: nat)
    ensures
        all_hex(to_hex_min(n)),
        to_hex_min(n).len() >= 1,
        hex_val(to_hex_min(n)) == n,
        n >= 1 ==> to_hex_min(n)[0] != '0',
        n == 0 <==> to_hex_min(n) == seq!['0'],
    decreases n,
{
    if n < 16 {
        lemma_hex_char_props(n);
        assert(to_hex_min(n).drop_last() =~= Seq::<char>::empty());
        assert(hex_val(Seq::<char>::empty()) == 0);
        assert(to_hex_min(n).last() == hex_char(n));
        if n >= 1 {
            assert(to_hex_min(n)[0] == hex_char(n));
        }
        if n == 0 {
            assert(to_hex_min(0) =~= seq!['0']);
        } else {
            assert(to_hex_min(n)[0] != '0');
            assert(to_hex_min(n) != seq!['0']);
        }
    } else {
        lemma_fundamental_div_mod(n as int, 16);
        lemma_to_hex_min_props(n / 16);
        lemma_hex_char_props(n % 16);
        let t = to_hex_min(n / 16).push(hex_char(n % 16));
        assert(to_hex_min(n) == t);
        assert(t.drop_last() =~= to_hex_min(n / 16));
        assert(t.last() == hex_char(n % 16));
        assert(hex_val(t) == hex_val(t.drop_last()) * 16 + hex_digit_val(t.last()));
        assert(hex_val(t) == (n / 16) * 16 + (n % 16));
        assert((n / 16) * 16 + (n % 16) == n);
        assert(t[0] == to_hex_min(n / 16)[0]);
        assert(n / 16 >= 1) by {
            assert(n >= 16);
        }
        assert(t != seq!['0']) by {
            assert(t[0] != '0');
        }
    }
}

pub proof fn lemma_to_dec_min_props(n: nat)
    ensures
        all_dec(to_dec_min(n)),
        to_dec_min(n).len() >= 1,
        dec_val(to_dec_min(n)) == n,
        n >= 1 ==> to_dec_min(n)[0] != '0',
    decreases n,
{
    if n < 10 {
        lemma_hex_char_props(n);
        assert(to_dec_min(n).drop_last() =~= Seq::<char>::empty());
        assert(dec_val(Seq::<char>::empty()) == 0);
        assert(to_dec_min(n).last() == hex_char(n));
        if n >= 1 {
            assert(to_dec_min(n)[0] == hex_char(n));
        }
    } else {
        lemma_fundamental_div_mod(n as int, 10);
        lemma_to_dec_min_props(n / 10);
        lemma_hex_char_props(n % 10);
        let t = to_dec_min(n / 10).push(hex_char(n % 10));
        assert(to_dec_min(n) == t);
        assert(t.drop_last() =~= to_dec_min(n / 10));
        assert(t.last() == hex_char(n % 10));
        assert(dec_val(t) == dec_val(t.drop_last()) * 10 + hex_digit_val(t.last()));
        assert(dec_val(t) == (n / 10) * 10 + (n % 10));
        assert((n / 10) * 10 + (n % 10) == n);
        assert(t[0] == to_dec_min(n / 10)[0]);
    }
}

/// Leading zeros do not change the base-16 value of a digit string.
pub proof fn lemma_hex_val_leading_zeros(k: nat, t: Seq<char>)
    ensures
        hex_val(zero_chars(k) + t) == hex_val(t),
    decreases t.len(),
{
    if t.len() == 0 {
        assert(zero_chars(k) + t =~= zero_chars(k));
        lemma_hex_val_zeros(k);
    } else {
        assert((zero_chars(k) + t).drop_last() =~= zero_chars(k) + t.drop_last());
        assert((zero_chars(k) + t).last() == t.last());
        lemma_hex_val_leading_zeros(k, t.drop_last());
    }
}

pub proof fn lemma_hex_val_zeros(k: nat)
    ensures
        hex_val(zero_chars(k)) == 0,
    decreases k,
{
    if k > 0 {
        assert(zero_chars(k).drop_last() =~= zero_chars((k - 1) as nat));
        assert(zero_chars(k).last() == '0');
        lemma_hex_val_zeros((k - 1) as nat);
    } else {
        assert(zero_chars(0) =~= Seq::<char>::empty());
    }
}

/// Parsing the padded hexadecimal native form of a canonical identifier
/// yields that identifier: the codec is lossless for this family.
pub proof fn lemma_canonical_of_native_hex_padded(id: u64)
    ensures
        canonical_id_spec(native_hex_padded(id)) == id,
{
    let h = to_hex_min(id as nat);
    lemma_to_hex_min_props(id as nat);
    let p = pad8(h);
    let s = native_hex_padded(id);
    if h.len() >= 8 {
        assert(p == h);
    } else {
        assert(forall|i: int| 0 <= i < p.len() ==> is_hex_digit(#[trigger] p[i])) by {
            assert(forall|i: int|
                0 <= i < 8 - h.len() ==> #[trigger] p[i] == '0' && is_hex_digit('0'));
            assert(forall|i: int|
                8 - h.len() <= i < p.len() ==> #[trigger] p[i] == h[i - (8 - h.len())]);
        }
        lemma_hex_val_leading_zeros((8 - h.len()) as nat, h);
    }
    assert(s.len() >= 2 && s[0] == '0' && s[1] == 'x');
    assert(s.subrange(2, s.len() as int) =~= p);
    assert(hex_val(p) == id);
}

/// Parsing the minimal hexadecimal address form of a canonical
/// identifier yields that identifier.
pub proof fn lemma_canonical_of_native_hex_address(id: u64)
    ensures
        canonical_id_spec(native_hex_address(id)) == id,
{
    let h = to_hex_min(id as nat);
    lemma_to_hex_min_props(id as nat);
    let s = native_hex_address(id);
    assert(s.len() >= 2 && s[0] == '0' && s[1] == 'x');
    assert(s.subrange(2, s.len() as int) =~= h);
}

/// Parsing the decimal native form of a canonical identifier yields
/// that identifier.
pub proof fn lemma_canonical_of_native_decimal(id: u64)
    ensures
        canonical_id_spec(native_decimal(id)) == id,
{
    let s = to_dec_min(id as nat);
    lemma_to_dec_min_props(id as nat);
    if s.len() >= 2 {
        assert(is_dec_digit(s[1]));
        assert(s[1] != 'x');
    }
    assert(s.len() > 0 && all_dec(s));
}

/// Round trip for every valid identifier string of the padded
/// hexadecimal family: a string this backend produced parses back to
/// the identifier that prints as that same string.
pub proof fn lemma_hex_padded_round_trip(s: Seq<char>)
    requires
        exists|id: u64| s == native_hex_padded(id),
    ensures
        native_hex_padded(canonical_id_spec(s)) == s,
{
    let id = choose|id: u64| s == native_hex_padded(id);
    lemma_canonical_of_native_hex_padded(id);
}

/// Round trip for every valid identifier string of the minimal
/// hexadecimal address family.
pub proof fn lemma_hex_address_round_trip(s: Seq<char>)
    requires
        exists|id: u64| s == native_hex_address(id),
    ensures
        native_hex_address(canonical_id_spec(s)) == s,
{
    let id = choose|id: u64| s == native_hex_address(id);
    lemma_canonical_of_native_hex_address(id);
}

/// Round trip for every valid identifier string of the decimal family.
pub proof fn lemma_decimal_round_trip(s: Seq<char>)
    requires
        exists|id: u64| s == native_decimal(id),
    ensures
        native_decimal(canonical_id_spec(s)) == s,
{
    let id = choose|id: u64| s == native_decimal(id);
    lemma_canonical_of_native_decimal(id);
}

fn is_dec_digit_char(c: char) -> (r: bool)
    ensures
        r == is_dec_digit(c),
{
    let u = c as u32;
    48 <= u && u <= 57
}

fn is_hex_digit_char(c: char) -> (r: bool)
    ensures
        r == is_hex_digit(c),
{
    let u = c as u32;
    (48 <= u && u <= 57) || (97 <= u && u <= 102) || (65 <= u && u <= 70)
}

fn hex_digit_val_char(c: char) -> (d: u64)
    requires
        is_hex_digit(c),
    ensures
        d == hex_digit_val(c),
        d < 16,
{
    let u = c as u32;
    if 48 <= u && u <= 57 {
        (u - 48) as u64
    } else if 97 <= u && u <= 102 {
        (u - 97 + 10) as u64
    } else {
        (u - 65 + 10) as u64
    }
}

/// If a digit string's value already exceeds the 64-bit range, so does
/// the value of any extension of it.
proof fn lemma_digit_val_extend_monotone(s: Seq<char>, i: int, j: int)
    requires
        0 <= i <= j <= s.len(),
    ensures
        hex_val(s.subrange(0, j)) >= hex_val(s.subrange(0, i)),
        dec_val(s.subrange(0, j)) >= dec_val(s.subrange(0, i)),
    decreases j - i,
{
    if i < j {
        lemma_digit_val_extend_monotone(s, i, j - 1);
        assert(s.subrange(0, j).drop_last() =~= s.subrange(0, j - 1));
    }
}

/// Reads the characters of `s` from position `from` on as a base-16
/// number under the whole-string failure policy.
fn parse_hex_from(s: &str, from: usize) -> (r: u64)
    requires
        from <= s@.len(),
    ensures
        r == hex_parse(s@.subrange(from as int, s@.len() as int)),
{
    let n = s.unicode_len();
    let ghost t = s@.subrange(from as int, s@.len() as int);
    if from == n {
        return 0;
    }
    let mut acc: u64 = 0;
    let mut over: bool = false;
    let mut i: usize = from;
    while i < n
        invariant
            from <= i <= n,
            n == s@.len(),
            t == s@.subrange(from as int, s@.len() as int),
            forall|k: int| 0 <= k < i - from ==> is_hex_digit(#[trigger] t[k]),
            !over ==> acc == hex_val(t.subrange(0, i - from)),
            over ==> hex_val(t.subrange(0, i - from)) > u64::MAX,
        decreases n - i,
    {
        let c = s.get_char(i);
        proof {
            assert(t[i - from] == s@[i as int]);
        }
        if !is_hex_digit_char(c) {
            return 0;
        }
        let d = hex_digit_val_char(c);
        proof {
            assert(t.subrange(0, i - from + 1).drop_last() =~= t.subrange(0, i - from));
            assert(t.subrange(0, i - from + 1).last() == t[i - from]);
        }
        if !over {
            match acc.checked_mul(16) {
                Some(m) => {
                    match m.checked_add(d) {
                        Some(v) => {
                            acc = v;
                        },
                        None => {
                            over = true;
                        },
                    }
                },
                None => {
                    over = true;
                },
            }
        }
        i += 1;
    }
    proof {
        assert(t.subrange(0, t.len() as int) =~= t);
    }
    if over {
        0
    } else {
        acc
    }
}

/// Reads the whole of `s` as a base-10 number under the whole-string
/// failure policy.
fn parse_dec_all(s: &str) -> (r: u64)
    ensures
        r == dec_parse(s@),
{
    let n = s.unicode_len();
    if n == 0 {
        return 0;
    }
    let mut acc: u64 = 0;
    let mut over: bool = false;
    let mut i: usize = 0;
    while i < n
        invariant
            i <= n,
            n == s@.len(),
            forall|k: int| 0 <= k < i ==> is_dec_digit(#[trigger] s@[k]),
            !over ==> acc == dec_val(s@.subrange(0, i as int)),
            over ==> dec_val(s@.subrange(0, i as int)) > u64::MAX,
        decreases n - i,
    {
        let c = s.get_char(i);
        if !is_dec_digit_char(c) {
            return 0;
        }
        let d = hex_digit_val_char(c);
        proof {
            assert(s@.subrange(0, i + 1).drop_last() =~= s@.subrange(0, i as int));
            assert(s@.subrange(0, i + 1).last() == s@[i as int]);
        }
        if !over {
            match acc.checked_mul(10) {
                Some(m) => {
                    match m.checked_add(d) {
                        Some(v) => {
                            acc = v;
                        },
                        None => {
                            over = true;
                        },
                    }
                },
                None => {
                    over = true;
                },
            }
        }
        i += 1;
    }
    proof {
        assert(s@.subrange(0, n as int) =~= s@);
    }
    if over {
        0
    } else {
        acc
    }
}

fn all_dec_str(s: &str) -> (r: bool)
    ensures
        r == all_dec(s@),
{
    let n = s.unicode_len();
    let mut i: usize = 0;
    while i < n
        invariant
            i <= n,
            n == s@.len(),
            forall|k: int| 0 <= k < i ==> is_dec_digit(#[trigger] s@[k]),
        decreases n - i,
    {
        if !is_dec_digit_char(s.get_char(i)) {
            return false;
        }
        i += 1;
    }
    true
}

/// The canonical 64-bit identifier denoted by a backend's native
/// identifier string; `0` for anything malformed or out of range.
pub fn canonical_id(s: &str) -> (r: u64)
    ensures
        r == canonical_id_spec(s@),
{
    let n = s.unicode_len();
    proof {
        assert(s@.subrange(0, s@.len() as int) =~= s@);
    }
    if n >= 2 && s.get_char(0) == '0' && s.get_char(1) == 'x' {
        parse_hex_from(s, 2)
    } else if n > 0 && all_dec_str(s) {
        parse_dec_all(s)
    } else if n > 0 {
        parse_hex_from(s, 0)
    } else {
        0
    }
}

fn hex_char_exec(d: u64) -> (c: char)
    requires
        d < 16,
    ensures
        c == hex_char(d as nat),
{
    if d == 0 {
        '0'
    } else if d == 1 {
        '1'
    } else if d == 2 {
        '2'
    } else if d == 3 {
        '3'
    } else if d == 4 {
        '4'
    } else if d == 5 {
        '5'
    } else if d == 6 {
        '6'
    } else if d == 7 {
        '7'
    } else if d == 8 {
        '8'
    } else if d == 9 {
        '9'
    } else if d == 10 {
        'a'
    } else if d == 11 {
        'b'
    } else if d == 12 {
        'c'
    } else if d == 13 {
        'd'
    } else if d == 14 {
        'e'
    } else {
        'f'
    }
}

/// The minimal lowercase hexadecimal digits of `n`, most significant
/// first.
fn hex_digits_min(n: u64) -> (r: Vec<char>)
    ensures
        r@ == to_hex_min(n as nat),
{
    let mut digits: Vec<char> = Vec::new();
    let mut m = n;
    loop
        invariant
            to_hex_min(n as nat) == to_hex_min(m as nat) + digits@,
        ensures
            m < 16,
            to_hex_min(n as nat) == to_hex_min(m as nat) + digits@,
        decreases m,
    {
        proof {
            assert(to_hex_min(m as nat) == to_hex_min((m / 16) as nat).push(
                hex_char((m % 16) as nat),
            ) || m < 16);
        }
        if m < 16 {
            break ;
        }
        let d = hex_char_exec(m % 16);
        digits.insert(0, d);
        proof {
            assert(to_hex_min((m / 16) as nat).push(hex_char((m % 16) as nat)) + digits@.subrange(
                1,
                digits@.len() as int,
            ) =~= to_hex_min((m / 16) as nat) + digits@);
        }
        m = m / 16;
    }
    let d = hex_char_exec(m);
    digits.insert(0, d);
    proof {
        assert(to_hex_min(m as nat) + digits@.subrange(1, digits@.len() as int) =~= seq![
            hex_char(m as nat),
        ] + digits@.subrange(1, digits@.len() as int));
        assert(to_hex_min(n as nat) =~= digits@);
    }
    digits
}

/// The minimal decimal digits of `n`, most significant first.
fn dec_digits_min(n: u64) -> (r: Vec<char>)
    ensures
        r@ == to_dec_min(n as nat),
{
    let mut digits: Vec<char> = Vec::new();
    let mut m = n;
    loop
        invariant
            to_dec_min(n as nat) == to_dec_min(m as nat) + digits@,
        ensures
            m < 10,
            to_dec_min(n as nat) == to_dec_min(m as nat) + digits@,
        decreases m,
    {
        if m < 10 {
            break ;
        }
        let d = hex_char_exec(m % 10);
        digits.insert(0, d);
        proof {
            assert(to_dec_min((m / 10) as nat).push(hex_char((m % 10) as nat)) + digits@.subrange(
                1,
                digits@.len() as int,
            ) =~= to_dec_min((m / 10) as nat) + digits@);
        }
        m = m / 10;
    }
    let d = hex_char_exec(m);
    digits.insert(0, d);
    proof {
        assert(to_dec_min(m as nat) + digits@.subrange(1, digits@.len() as int) =~= seq![
            hex_char(m as nat),
        ] + digits@.subrange(1, digits@.len() as int));
        assert(to_dec_min(n as nat) =~= digits@);
    }
    digits
}

fn string_of_chars(prefix0x: bool, pad_to8: bool, digits: Vec<char>) -> (r: String)
    requires
        pad_to8 ==> prefix0x,
    ensures
        prefix0x && pad_to8 ==> r@ == seq!['0', 'x'] + pad8(digits@),
        prefix0x && !pad_to8 ==> r@ == seq!['0', 'x'] + digits@,
        !prefix0x && !pad_to8 ==> r@ == digits@,
{
    let mut s = String::new();
    if prefix0x {
        crate::text::push_char(&mut s, '0');
        crate::text::push_char(&mut s, 'x');
        proof {
            assert(s@ =~= seq!['0', 'x']);
        }
    }
    if pad_to8 && digits.len() < 8 {
        let mut k = digits.len();
        while k < 8
            invariant
                digits@.len() <= k <= 8,
                s@ =~= seq!['0', 'x'] + zero_chars((k - digits@.len()) as nat),
            decreases 8 - k,
        {
            crate::text::push_char(&mut s, '0');
            proof {
                assert(s@ =~= seq!['0', 'x'] + zero_chars((k + 1 - digits@.len()) as nat));
            }
            k += 1;
        }
    }
    let ghost base = s@;
    let mut j: usize = 0;
    while j < digits.len()
        invariant
            j <= digits@.len(),
            s@ =~= base + digits@.subrange(0, j as int),
        decreases digits@.len() - j,
    {
        crate::text::push_char(&mut s, digits[j]);
        proof {
            assert(base + digits@.subrange(0, j + 1) =~= (base + digits@.subrange(0, j as int)).push(
                digits@[j as int],
            ));
        }
        j += 1;
    }
    proof {
        assert(digits@.subrange(0, digits@.len() as int) =~= digits@);
        if pad_to8 && digits@.len() < 8 {
            assert(base + digits@ =~= seq!['0', 'x'] + (zero_chars((8 - digits@.len()) as nat)
                + digits@));
        }
    }
    s
}

/// The padded hexadecimal native form, `0x` plus at least eight
/// lowercase digits, as the tabular tool prints window identifiers.
pub fn format_hex_padded(id: u64) -> (r: String)
    ensures
        r@ == native_hex_padded(id),
{
    let digits = hex_digits_min(id);
    string_of_chars(true, true, digits)
}

/// The minimal hexadecimal address form, `0x` plus lowercase digits, as
/// the JSON compositor prints window addresses.
pub fn format_hex_address(id: u64) -> (r: String)
    ensures
        r@ == native_hex_address(id),
{
    let digits = hex_digits_min(id);
    let r = string_of_chars(true, false, digits);
    proof {
        if to_hex_min(id as nat).len() >= 8 {
            assert(pad8(to_hex_min(id as nat)) == to_hex_min(id as nat));
        }
    }
    r
}

/// The minimal decimal native form.
pub fn format_decimal(id: u64) -> (r: String)
    ensures
        r@ == native_decimal(id),
{
    let digits = dec_digits_min(id);
    string_of_chars(false, false, digits)
}

/// The unsigned 32-bit value denoted by a decimal digit string, absent
/// when the string is empty, not all digits, or out of range.
pub open spec fn u32_of_str(s: Seq<char>) -> Option<u32> {
    if s.len() > 0 && all_dec(s) && dec_val(s) <= u32::MAX {
        Some(dec_val(s) as u32)
    } else {
        None
    }
}

/// The signed 32-bit value denoted by a decimal digit string with an
/// optional leading minus sign.
pub open spec fn i32_of_str(s: Seq<char>) -> Option<i32> {
    if s.len() >= 1 && s[0] == '-' {
        let d = s.subrange(1, s.len() as int);
        if d.len() > 0 && all_dec(d) && dec_val(d) <= 0x8000_0000 {
            Some((-(dec_val(d) as int)) as i32)
        } else {
            None
        }
    } else {
        if s.len() > 0 && all_dec(s) && dec_val(s) <= i32::MAX {
            Some(dec_val(s) as i32)
        } else {
            None
        }
    }
}

/// Reads the characters of `s` from position `from` on as a base-10
/// number, reporting emptiness, a non-digit, or 64-bit overflow as
/// `None`.
pub(crate) fn dec_value_from(s: &str, from: usize) -> (r: Option<u64>)
    requires
        from <= s@.len(),
    ensures
        ({
            let t = s@.subrange(from as int, s@.len() as int);
            match r {
                Some(v) => t.len() > 0 && all_dec(t) && dec_val(t) == v,
                None => !(t.len() > 0 && all_dec(t) && dec_val(t) <= u64::MAX),
            }
        }),
{
    let n = s.unicode_len();
    let ghost t = s@.subrange(from as int, s@.len() as int);
    if from == n {
        return None;
    }
    let mut acc: u64 = 0;
    let mut i: usize = from;
    while i < n
        invariant
            from <= i <= n,
            n == s@.len(),
            t == s@.subrange(from as int, s@.len() as int),
            forall|k: int| 0 <= k < i - from ==> is_dec_digit(#[trigger] t[k]),
            acc == dec_val(t.subrange(0, i - from)),
        decreases n - i,
    {
        let c = s.get_char(i);
        proof {
            assert(t[i - from] == s@[i as int]);
        }
        if !is_dec_digit_char(c) {
            return None;
        }
        let d = hex_digit_val_char(c);
        proof {
            assert(t.subrange(0, i - from + 1).drop_last() =~= t.subrange(0, i - from));
            assert(t.subrange(0, i - from + 1).last() == t[i - from]);
        }
        match acc.checked_mul(10) {
            Some(m) => {
                match m.checked_add(d) {
                    Some(v) => {
                        acc = v;
                    },
                    None => {
                        proof {
                            lemma_digit_val_extend_monotone(t, i - from + 1, t.len() as int);
                            assert(t.subrange(0, t.len() as int) =~= t);
                        }
                        return None;
                    },
                }
            },
            None => {
                proof {
                    lemma_digit_val_extend_monotone(t, i - from + 1, t.len() as int);
                    assert(t.subrange(0, t.len() as int) =~= t);
                }
                return None;
            },
        }
        i += 1;
    }
    proof {
        assert(t.subrange(0, t.len() as int) =~= t);
    }
    Some(acc)
}

/// Parses an unsigned decimal 32-bit value, as monitor dimensions are
/// written.
pub fn parse_u32(s: &str) -> (r: Option<u32>)
    ensures
        r == u32_of_str(s@),
{
    proof {
        assert(s@.subrange(0, s@.len() as int) =~= s@);
    }
    match dec_value_from(s, 0) {
        Some(v) => {
            if v <= 0xffff_ffff {
                Some(v as u32)
            } else {
                None
            }
        },
        None => None,
    }
}

/// Parses a signed decimal 32-bit value, as monitor origins and window
/// geometry are written.
pub fn parse_i32(s: &str) -> (r: Option<i32>)
    ensures
        r == i32_of_str(s@),
{
    let n = s.unicode_len();
    proof {
        assert(s@.subrange(0, s@.len() as int) =~= s@);
    }
    if n >= 1 && s.get_char(0) == '-' {
        match dec_value_from(s, 1) {
            Some(v) => {
                if v <= 0x8000_0000 {
                    Some((-(v as i64)) as i32)
                } else {
                    None
                }
            },
            None => None,
        }
    } else {
        match dec_value_from(s, 0) {
            Some(v) => {
                if v <= 0x7fff_ffff {
                    Some(v as i32)
                } else {
                    None
                }
            },
            None => None,
        }
    }
}

/// Decimal rendering of a possibly negative coordinate.
pub open spec fn decimal_of_int(v: int) -> Seq<char> {
    if v >= 0 {
        to_dec_min(v as nat)
    } else {
        seq!['-'] + to_dec_min((-v) as nat)
    }
}

/// Renders a signed coordinate in decimal, with a leading minus sign
/// when negative.
pub fn format_decimal_i64(v: i64) -> (r: String)
    ensures
        r@ == decimal_of_int(v as int),
{
    if v >= 0 {
        format_decimal(v as u64)
    } else {
        let mut s = String::new();
        crate::text::push_char(&mut s, '-');
        let m: u64 = if v == i64::MIN {
            9223372036854775808u64
        } else {
            (-v) as u64
        };
        let rest = format_decimal(m);
        s.append(rest.as_str());
        proof {
            assert(s@ =~= seq!['-'] + to_dec_min(m as nat));
        }
        s
    }
}

} // verus!
