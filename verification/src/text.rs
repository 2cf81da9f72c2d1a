//! Numbers written as text, and the order of strings.

use vstd::prelude::*;
use vstd::string::*;
use vstd::utf8::*;

verus! {

/// The digit of value `d` (below 16), in lower case.
pub open spec fn digit_char(d: nat) -> char {
    if d < 10 {
        (('0' as u32) + d) as char
    } else {
        (('a' as u32) + (d - 10)) as char
    }
}

/// `n` in decimal, without leading zeros.
pub open spec fn decimal(n: nat) -> Seq<char>
    decreases n,
{
    if n < 10 {
        seq![digit_char(n)]
    } else {
        decimal(n / 10).push(digit_char(n % 10))
    }
}

/// The lowest `width` hexadecimal digits of `n`, leading zeros kept.
pub open spec fn hex(n: nat, width: nat) -> Seq<char>
    decreases width,
{
    if width == 0 {
        Seq::empty()
    } else {
        hex(n / 16, (width - 1) as nat).push(digit_char(n % 16))
    }
}

/// The digit of value `d`, as a one-character string.
fn digit(d: u64) -> (text: &'static str)
    requires
        d < 16,
    ensures
        text@ == seq![digit_char(d as nat)],
{
    proof {
        reveal_strlit("0");
        reveal_strlit("1");
        reveal_strlit("2");
        reveal_strlit("3");
        reveal_strlit("4");
        reveal_strlit("5");
        reveal_strlit("6");
        reveal_strlit("7");
        reveal_strlit("8");
        reveal_strlit("9");
        reveal_strlit("a");
        reveal_strlit("b");
        reveal_strlit("c");
        reveal_strlit("d");
        reveal_strlit("e");
        reveal_strlit("f");
    }
    match d {
        0 => "0",
        1 => "1",
        2 => "2",
        3 => "3",
        4 => "4",
        5 => "5",
        6 => "6",
        7 => "7",
        8 => "8",
        9 => "9",
        10 => "a",
        11 => "b",
        12 => "c",
        13 => "d",
        14 => "e",
        _ => "f",
    }
}

/// Writes `n` in decimal.
pub fn to_decimal(n: u64) -> (text: String)
    ensures
        text@ == decimal(n as nat),
    decreases n,
{
    if n < 10 {
        digit(n).to_owned()
    } else {
        let mut text = to_decimal(n / 10);
        text.append(digit(n % 10));
        text
    }
}

/// Writes the lowest `width` hexadecimal digits of `n`.
pub fn to_hex(n: u64, width: usize) -> (text: String)
    ensures
        text@ == hex(n as nat, width as nat),
    decreases width,
{
    if width == 0 {
        String::new()
    } else {
        let mut text = to_hex(n / 16, width - 1);
        text.append(digit(n % 16));
        text
    }
}

/// A number in decimal is read digit by digit: below ten it is one character,
/// that many places after `0`, and ten times a number and a digit more is the
/// number followed by the digit.
pub proof fn decimal_goes_by_digits(q: nat, d: nat)
    requires
        d < 10,
    ensures
        decimal(d).len() == 1,
        decimal(d)[0] as u32 == '0' as u32 + d,
        q > 0 ==> decimal(10 * q + d) == decimal(q) + decimal(d),
{
    if q > 0 {
        assert((10 * q + d) / 10 == q);
        assert((10 * q + d) % 10 == d);
        assert(decimal(10 * q + d) =~= decimal(q) + decimal(d));
    }
}

/// A number in hexadecimal is read digit by digit: below sixteen it is one
/// character, from `0` to `9` and then from `a` to `f`, and sixteen times a
/// number and a digit more is the number in one place less, followed by the
/// digit.
pub proof fn hex_goes_by_digits(q: nat, d: nat, width: nat)
    requires
        d < 16,
    ensures
        hex(q, 0).len() == 0,
        hex(d, 1).len() == 1,
        d < 10 ==> hex(d, 1)[0] as u32 == '0' as u32 + d,
        d >= 10 ==> hex(d, 1)[0] as u32 == 'a' as u32 + d - 10,
        hex(16 * q + d, width + 1) == hex(q, width) + hex(d, 1),
{
    reveal_with_fuel(hex, 2);
    assert((16 * q + d) / 16 == q);
    assert((16 * q + d) % 16 == d);
    assert(hex(16 * q + d, width + 1) =~= hex(q, width) + hex(d, 1));
}

/// Two different numbers are written differently in decimal.
pub proof fn decimal_is_injective(m: nat, n: nat)
    requires
        decimal(m) == decimal(n),
    ensures
        m == n,
    decreases m,
{
    lemma_decimal_len(m);
    lemma_decimal_len(n);
    assert(decimal(m).last() == digit_char(m % 10));
    assert(decimal(n).last() == digit_char(n % 10));
    if m >= 10 {
        assert(decimal(m).drop_last() =~= decimal(m / 10));
        assert(decimal(n).drop_last() =~= decimal(n / 10));
        decimal_is_injective(m / 10, n / 10);
    }
}

proof fn lemma_decimal_len(n: nat)
    ensures
        decimal(n).len() >= 1,
        n >= 10 <==> decimal(n).len() >= 2,
    decreases n,
{
    if n >= 10 {
        lemma_decimal_len(n / 10);
    }
}

/// Sixteen hexadecimal digits tell two `u64` numbers apart.
pub proof fn hex_is_injective(m: u64, n: u64)
    requires
        hex(m as nat, 16) == hex(n as nat, 16),
    ensures
        m == n,
{
    assert(vstd::arithmetic::power::pow(16, 16) == 0x1_0000_0000_0000_0000) by {
        reveal_with_fuel(vstd::arithmetic::power::pow, 17);
    }
    lemma_hex_injective(m as nat, n as nat, 16);
}

proof fn lemma_hex_injective(m: nat, n: nat, width: nat)
    requires
        hex(m, width) == hex(n, width),
        m < vstd::arithmetic::power::pow(16, width),
        n < vstd::arithmetic::power::pow(16, width),
    ensures
        m == n,
    decreases width,
{
    reveal(vstd::arithmetic::power::pow);
    if width > 0 {
        assert(hex(m, width).last() == digit_char(m % 16));
        assert(hex(n, width).last() == digit_char(n % 16));
        assert(hex(m, width).drop_last() =~= hex(m / 16, (width - 1) as nat));
        assert(hex(n, width).drop_last() =~= hex(n / 16, (width - 1) as nat));
        lemma_hex_injective(m / 16, n / 16, (width - 1) as nat);
    }
}

/// A number in hexadecimal has as many digits as asked for, none of them `/`.
pub proof fn hex_has_no_slash(n: nat, width: nat)
    ensures
        hex(n, width).len() == width,
        !hex(n, width).contains('/'),
    decreases width,
{
    if width > 0 {
        hex_has_no_slash(n / 16, (width - 1) as nat);
        let shorter = hex(n / 16, (width - 1) as nat);
        assert forall|i: int| 0 <= i < width implies hex(n, width)[i] != '/' by {
            if i < width - 1 {
                assert(hex(n, width)[i] == shorter[i]);
            }
        }
    }
}

/// Whether `a` and `b` agree up to position `k` and `a` comes first there: it
/// ends, or its byte is the smaller one.
pub open spec fn first_difference(a: Seq<u8>, b: Seq<u8>, k: int) -> bool {
    &&& 0 <= k <= a.len()
    &&& k < b.len()
    &&& a.take(k) == b.take(k)
    &&& (k == a.len() || a[k] < b[k])
}

/// The lexicographic order of byte strings.
pub open spec fn bytes_before(a: Seq<u8>, b: Seq<u8>) -> bool {
    exists|k: int| #[trigger] first_difference(a, b, k)
}

/// The order of strings: that of their UTF-8 bytes.
pub open spec fn text_before(a: Seq<char>, b: Seq<char>) -> bool {
    bytes_before(encode_utf8(a), encode_utf8(b))
}

/// How one string stands to another.
#[derive(Clone, Copy, Debug, PartialEq, Eq, Structural)]
pub enum Position {
    Before,
    Same,
    After,
}

/// Tells where `a` stands to `b`.
pub fn position(a: &str, b: &str) -> (position: Position)
    ensures
        position is Before <==> text_before(a@, b@),
        position is Same <==> a@ == b@,
        position is After <==> text_before(b@, a@),
{
    let x = a.as_bytes();
    let y = b.as_bytes();
    let mut i: usize = 0;
    while i < x.len() && i < y.len() && x[i] == y[i]
        invariant
            i <= x@.len(),
            i <= y@.len(),
            x@.take(i as int) == y@.take(i as int),
        decreases x@.len() - i,
    {
        proof {
            assert(x@.take(i + 1) =~= x@.take(i as int).push(x@[i as int]));
            assert(y@.take(i + 1) =~= y@.take(i as int).push(y@[i as int]));
        }
        i += 1;
    }
    proof {
        text_order_is_strict(a@, b@);
        lemma_text_is_its_bytes(a@, b@);
    }
    if i == x.len() && i == y.len() {
        proof {
            assert(x@.take(i as int) =~= x@);
            assert(y@.take(i as int) =~= y@);
        }
        Position::Same
    } else if i == x.len() || (i < y.len() && x[i] < y[i]) {
        assert(first_difference(x@, y@, i as int));
        Position::Before
    } else {
        assert(first_difference(y@, x@, i as int));
        Position::After
    }
}

/// Tells whether `a` and `b` are the same string.
pub fn same_text(a: &str, b: &str) -> (same: bool)
    ensures
        same == (a@ == b@),
{
    match position(a, b) {
        Position::Same => true,
        _ => false,
    }
}

proof fn lemma_text_is_its_bytes(a: Seq<char>, b: Seq<char>)
    ensures
        encode_utf8(a) == encode_utf8(b) <==> a == b,
{
    encode_utf8_decode_utf8(a);
    encode_utf8_decode_utf8(b);
}

/// Where the bytes of two strings agree up to a place, the one that ends there,
/// or has the smaller byte there, comes first.
pub proof fn text_order_goes_by_bytes(a: Seq<char>, b: Seq<char>, k: int)
    requires
        0 <= k <= encode_utf8(a).len(),
        k < encode_utf8(b).len(),
        forall|i: int| 0 <= i < k ==> encode_utf8(a)[i] == #[trigger] encode_utf8(b)[i],
        k == encode_utf8(a).len() || encode_utf8(a)[k] < encode_utf8(b)[k],
    ensures
        text_before(a, b),
        !text_before(b, a),
{
    assert(encode_utf8(a).take(k) =~= encode_utf8(b).take(k));
    assert(first_difference(encode_utf8(a), encode_utf8(b), k));
    text_order_is_strict(a, b);
}

/// Of two different strings one comes before the other.
pub proof fn text_order_is_total(a: Seq<char>, b: Seq<char>)
    requires
        a != b,
    ensures
        text_before(a, b) || text_before(b, a),
{
    lemma_text_is_its_bytes(a, b);
    assert(encode_utf8(a).take(0) =~= encode_utf8(b).take(0));
    lemma_bytes_differ(encode_utf8(a), encode_utf8(b), 0);
}

proof fn lemma_bytes_differ(x: Seq<u8>, y: Seq<u8>, k: int)
    requires
        x != y,
        0 <= k <= x.len(),
        k <= y.len(),
        x.take(k) == y.take(k),
    ensures
        bytes_before(x, y) || bytes_before(y, x),
    decreases x.len() - k,
{
    if k == x.len() && k == y.len() {
        assert(x =~= x.take(k));
        assert(y =~= y.take(k));
    } else if k == x.len() {
        assert(first_difference(x, y, k));
    } else if k == y.len() {
        assert(first_difference(y, x, k));
    } else if x[k] < y[k] {
        assert(first_difference(x, y, k));
    } else if y[k] < x[k] {
        assert(first_difference(y, x, k));
    } else {
        assert(x.take(k + 1) =~= x.take(k).push(x[k]));
        assert(y.take(k + 1) =~= y.take(k).push(y[k]));
        lemma_bytes_differ(x, y, k + 1);
    }
}

/// No string comes both before and after another, or before itself.
pub proof fn text_order_is_strict(a: Seq<char>, b: Seq<char>)
    ensures
        !(text_before(a, b) && text_before(b, a)),
        !text_before(a, a),
{
    let x = encode_utf8(a);
    let y = encode_utf8(b);
    if text_before(a, b) && text_before(b, a) {
        let k = choose|k: int| first_difference(x, y, k);
        let l = choose|l: int| first_difference(y, x, l);
        if k < l {
            assert(y.take(l)[k] == x.take(l)[k]);
        } else if l < k {
            assert(x.take(k)[l] == y.take(k)[l]);
        }
    }
    if text_before(a, a) {
        let k = choose|k: int| first_difference(x, x, k);
        assert(first_difference(x, x, k));
    }
}

/// What comes before something that comes before a third comes before the third.
pub proof fn text_order_is_transitive(a: Seq<char>, b: Seq<char>, c: Seq<char>)
    requires
        text_before(a, b),
        text_before(b, c),
    ensures
        text_before(a, c),
{
    let x = encode_utf8(a);
    let y = encode_utf8(b);
    let z = encode_utf8(c);
    let k = choose|k: int| first_difference(x, y, k);
    let l = choose|l: int| first_difference(y, z, l);
    let m = if k < l { k } else { l };
    assert(x.take(m) =~= z.take(m)) by {
        assert forall|i: int| 0 <= i < m implies x[i] == z[i] by {
            assert(x.take(k)[i] == y.take(k)[i]);
            assert(y.take(l)[i] == z.take(l)[i]);
        }
    }
    if k < l {
        assert(y.take(l)[k] == z.take(l)[k]);
    } else if l < k {
        assert(x.take(k)[l] == y.take(k)[l]);
    }
    assert(first_difference(x, z, m));
}

} // verus!
