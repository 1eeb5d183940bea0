//! Small text routines: decimal rendering of integers, zero padding,
//! the `HH:MM:SS` rendering of an elapsed time, and character tests.
use vstd::prelude::*;

verus! {

/// The character of a decimal digit `d` (`d < 10`).
pub open spec fn digit_char(d: nat) -> char {
    (d + 48) as char
}

/// The decimal rendering of `n`, most significant digit first, no leading zeros.
pub open spec fn decimal(n: nat) -> Seq<char>
    decreases n,
{
    if n < 10 {
        seq![digit_char(n)]
    } else {
        decimal(n / 10).push(digit_char(n % 10))
    }
}

/// The decimal rendering of `n`, padded with zeros on the left to at least two digits.
pub open spec fn pad2(n: nat) -> Seq<char> {
    if n < 10 {
        seq!['0'].add(decimal(n))
    } else {
        decimal(n)
    }
}

/// `HH:MM:SS` for a number of seconds; the hours field grows past two digits when needed.
pub open spec fn duration_text(total: nat) -> Seq<char> {
    pad2(total / 3600) + seq![':'] + pad2((total % 3600) / 60) + seq![':'] + pad2(total % 60)
}

/// Whether `s` holds the character `c`.
pub open spec fn has_char(s: Seq<char>, c: char) -> bool {
    exists|i: int| 0 <= i < s.len() && s[i] == c
}

/// ASCII lower case of one character; other characters are kept.
pub open spec fn ascii_lower(c: char) -> char {
    if 'A' <= c && c <= 'Z' {
        ((c as u32) + 32) as char
    } else {
        c
    }
}

/// `s` equals the lower-case word `w` when upper-case ASCII letters of `s` are lowered.
pub open spec fn eq_ignore_ascii_case(s: Seq<char>, w: Seq<char>) -> bool {
    s.len() == w.len() && forall|i: int| 0 <= i < s.len() ==> ascii_lower(#[trigger] s[i]) == w[i]
}

/// A decimal rendering is never empty, and has one digit exactly below ten.
pub proof fn lemma_decimal_len(n: nat)
    ensures
        decimal(n).len() >= 1,
        (decimal(n).len() == 1) == (n < 10),
    decreases n,
{
    if n >= 10 {
        lemma_decimal_len(n / 10);
    }
}

/// A digit character encodes its digit.
proof fn lemma_digit_char(d: nat)
    requires
        d < 10,
    ensures
        digit_char(d) as int == d + 48,
{
}

/// Distinct numbers have distinct decimal renderings.
pub proof fn lemma_decimal_injective(a: nat, b: nat)
    requires
        decimal(a) == decimal(b),
    ensures
        a == b,
    decreases a,
{
    lemma_decimal_len(a);
    lemma_decimal_len(b);
    if a < 10 {
        assert(decimal(a)[0] == decimal(b)[0]);
        assert(b < 10);
        lemma_digit_char(a);
        lemma_digit_char(b);
        assert(decimal(a)[0] == digit_char(a));
        assert(decimal(b)[0] == digit_char(b));
    } else {
        assert(b >= 10);
        lemma_digit_char(a % 10);
        lemma_digit_char(b % 10);
        let da = decimal(a);
        let db = decimal(b);
        assert(da.last() == db.last());
        assert(da.last() == digit_char(a % 10));
        assert(db.last() == digit_char(b % 10));
        assert(a % 10 == b % 10);
        assert(da.drop_last() =~= decimal(a / 10));
        assert(db.drop_last() =~= decimal(b / 10));
        lemma_decimal_injective(a / 10, b / 10);
        assert(a == 10 * (a / 10) + a % 10) by (nonlinear_arith);
        assert(b == 10 * (b / 10) + b % 10) by (nonlinear_arith);
    }
}

/// The one-character string of a decimal digit.
fn digit_str(d: u64) -> (s: &'static str)
    requires
        d < 10,
    ensures
        s@ == seq![digit_char(d as nat)],
{
    proof {
        reveal_strlit("0");
        reveal_strlit("1");
        reveal_strlit("2");
        reveal_strlit("3");
        reveal_strlit("4");
        reveal_strlit("5");
        reveal_strlit("6");
        reveal_strlit("7");
        reveal_strlit("8");
        reveal_strlit("9");
    }
    if d == 0 {
        "0"
    } else if d == 1 {
        "1"
    } else if d == 2 {
        "2"
    } else if d == 3 {
        "3"
    } else if d == 4 {
        "4"
    } else if d == 5 {
        "5"
    } else if d == 6 {
        "6"
    } else if d == 7 {
        "7"
    } else if d == 8 {
        "8"
    } else {
        "9"
    }
}

/// Appends the decimal rendering of `n` to `s`.
pub fn push_decimal(s: &mut String, n: u64)
    ensures
        final(s)@ == old(s)@ + decimal(n as nat),
    decreases n,
{
    if n >= 10 {
        push_decimal(s, n / 10);
    }
    let d = digit_str(n % 10);
    s.append(d);
    proof {
        if n >= 10 {
            assert(decimal(n as nat) == decimal((n / 10) as nat).push(digit_char((n % 10) as nat)));
        }
    }
}

/// Appends `n` with at least two digits.
fn push_pad2(s: &mut String, n: u64)
    ensures
        final(s)@ == old(s)@ + pad2(n as nat),
{
    if n < 10 {
        proof {
            reveal_strlit("0");
        }
        s.append("0");
    }
    push_decimal(s, n);
}

/// The elapsed-time text `HH:MM:SS` for `total` seconds (`{h:02}:{m:02}:{s:02}`).
pub fn format_duration(total: u64) -> (r: String)
    ensures
        r@ == duration_text(total as nat),
{
    let h = total / 3600;
    let m = (total % 3600) / 60;
    let sec = total % 60;
    let mut r = String::new();
    proof {
        reveal_strlit(":");
    }
    push_pad2(&mut r, h);
    r.append(":");
    push_pad2(&mut r, m);
    r.append(":");
    push_pad2(&mut r, sec);
    r
}

/// The rendering of `format_duration` splits `total` into hours, minutes and seconds:
/// minutes and seconds are below sixty and the three recompose `total`.
pub proof fn lemma_duration_fields(total: nat)
    ensures
        (total % 3600) / 60 < 60,
        total % 60 < 60,
        (total / 3600) * 3600 + ((total % 3600) / 60) * 60 + total % 60 == total,
{
    assert((total / 3600) * 3600 + total % 3600 == total) by (nonlinear_arith);
    assert(((total % 3600) / 60) * 60 + (total % 3600) % 60 == total % 3600) by (nonlinear_arith);
    assert((total % 3600) % 60 == total % 60) by (nonlinear_arith);
    assert(total % 3600 < 3600) by (nonlinear_arith);
    assert((total % 3600) / 60 < 60) by (nonlinear_arith)
        requires
            total % 3600 < 3600,
    ;
}


/// Whether every character of `s` is an ASCII digit.
pub open spec fn all_digits(s: Seq<char>) -> bool {
    forall|i: int| 0 <= i < s.len() ==> '0' <= #[trigger] s[i] && s[i] <= '9'
}

/// The number that the decimal digits `s` spell, most significant first.
pub open spec fn digits_value(s: Seq<char>) -> nat
    decreases s.len(),
{
    if s.len() == 0 {
        0
    } else {
        digits_value(s.drop_last()) * 10 + ((s.last() as int - 48) as nat)
    }
}

/// A decimal rendering is made of digits and spells its number back.
pub proof fn lemma_decimal_reads_back(n: nat)
    ensures
        all_digits(decimal(n)),
        digits_value(decimal(n)) == n,
        n < 100 ==> decimal(n).len() <= 2,
    decreases n,
{
    lemma_decimal_len(n);
    if n < 10 {
        lemma_digit_char(n);
        assert(decimal(n).drop_last() =~= Seq::<char>::empty());
        assert(digits_value(Seq::<char>::empty()) == 0);
        assert(decimal(n).last() == digit_char(n));
        assert(digits_value(decimal(n)) == digits_value(decimal(n).drop_last()) * 10 + ((decimal(n).last() as int - 48) as nat));
    } else {
        lemma_decimal_reads_back(n / 10);
        lemma_digit_char(n % 10);
        lemma_decimal_len(n / 10);
        assert(decimal(n).drop_last() =~= decimal(n / 10));
        assert(n == (n / 10) * 10 + n % 10) by (nonlinear_arith);
        assert(decimal(n).last() == digit_char(n % 10));
        assert(digits_value(decimal(n)) == digits_value(decimal(n).drop_last()) * 10 + ((decimal(n).last() as int - 48) as nat));
        if n < 100 {
            assert(n / 10 < 10);
        }
    }
}

/// A two-digit rendering is made of digits, spells its number back, and has
/// exactly two digits below one hundred.
pub proof fn lemma_pad2_reads_back(n: nat)
    ensures
        all_digits(pad2(n)),
        digits_value(pad2(n)) == n,
        pad2(n).len() >= 2,
        n < 100 ==> pad2(n).len() == 2,
{
    lemma_decimal_reads_back(n);
    lemma_decimal_len(n);
    if n < 10 {
        let p = pad2(n);
        lemma_digit_char(n);
        assert(p =~= seq!['0', digit_char(n)]);
        assert(p.drop_last() =~= seq!['0']);
        assert(seq!['0'].drop_last() =~= Seq::<char>::empty());
        assert(digits_value(Seq::<char>::empty()) == 0);
        assert('0' as int == 48);
        assert(digits_value(seq!['0']) == digits_value(Seq::<char>::empty()) * 10 + (('0' as int - 48) as nat));
    }
}

/// The elapsed-time text reads back as the number of seconds: it is three
/// fields of digits joined by `:`, the hours of at least two digits and the
/// minutes and seconds of exactly two, the minutes and seconds are below sixty,
/// and hours times 3600 plus minutes times 60 plus seconds is `total`.
pub proof fn lemma_duration_text_reads_back(total: nat)
    ensures
        ({
            let h = pad2(total / 3600);
            let m = pad2((total % 3600) / 60);
            let s = pad2(total % 60);
            &&& duration_text(total) == h + seq![':'] + m + seq![':'] + s
            &&& all_digits(h) && all_digits(m) && all_digits(s)
            &&& h.len() >= 2 && m.len() == 2 && s.len() == 2
            &&& digits_value(m) < 60 && digits_value(s) < 60
            &&& digits_value(h) * 3600 + digits_value(m) * 60 + digits_value(s) == total
        }),
{
    lemma_duration_fields(total);
    lemma_pad2_reads_back(total / 3600);
    lemma_pad2_reads_back((total % 3600) / 60);
    lemma_pad2_reads_back(total % 60);
}

/// Whether `s` holds `c`.
pub fn str_has_char(s: &str, c: char) -> (b: bool)
    ensures
        b == has_char(s@, c),
{
    let n = s.unicode_len();
    let mut i: usize = 0;
    while i < n
        invariant
            n == s@.len(),
            i <= n,
            forall|j: int| 0 <= j < i ==> s@[j] != c,
        decreases n - i,
    {
        if s.get_char(i) == c {
            return true;
        }
        i = i + 1;
    }
    false
}

/// Whether `s` equals the lower-case ASCII word `w`, ignoring the case of ASCII letters in `s`.
pub fn str_eq_ignore_ascii_case(s: &str, w: &str) -> (b: bool)
    ensures
        b == eq_ignore_ascii_case(s@, w@),
{
    let n = s.unicode_len();
    if n != w.unicode_len() {
        return false;
    }
    let mut i: usize = 0;
    while i < n
        invariant
            n == s@.len(),
            n == w@.len(),
            i <= n,
            forall|j: int| 0 <= j < i ==> ascii_lower(#[trigger] s@[j]) == w@[j],
        decreases n - i,
    {
        let c = s.get_char(i);
        let lc = if 'A' <= c && c <= 'Z' {
            char_add_32(c)
        } else {
            c
        };
        if lc != w.get_char(i) {
            return false;
        }
        i = i + 1;
    }
    true
}

/// The lower-case letter of an upper-case ASCII letter.
fn char_add_32(c: char) -> (r: char)
    requires
        'A' <= c && c <= 'Z',
    ensures
        r == ascii_lower(c),
{
    let v: u32 = (c as u32) + 32;
    let b: u8 = v as u8;
    b as char
}

/// Whether two strings hold the same characters.
pub fn str_eq(a: &str, b: &str) -> (r: bool)
    ensures
        r == (a@ == b@),
{
    let n = a.unicode_len();
    if n != b.unicode_len() {
        return false;
    }
    let mut i: usize = 0;
    while i < n
        invariant
            n == a@.len(),
            n == b@.len(),
            i <= n,
            forall|j: int| 0 <= j < i ==> a@[j] == b@[j],
        decreases n - i,
    {
        if a.get_char(i) != b.get_char(i) {
            return false;
        }
        i = i + 1;
    }
    assert(a@ =~= b@);
    true
}

/// What `format!("{:?}", s)` renders for a string `s`: the string quoted and escaped.
pub uninterp spec fn debug_text(s: Seq<char>) -> Seq<char>;

/// Calls std's `Debug` formatting of a `str` (`format!("{:?}", s)`). Trusted: the
/// result is the named rendering `debug_text` of the string's characters.
#[verifier::external_body]
pub(crate) fn debug_str(s: &str) -> (r: String)
    ensures
        r@ == debug_text(s@),
{
    format!("{:?}", s)
}

/// `prefix` followed by the debug rendering of `s`.
pub fn with_debug(prefix: &str, s: &str) -> (r: String)
    ensures
        r@ == prefix@ + debug_text(s@),
{
    let r = String::from_str(prefix);
    let d = debug_str(s);
    r.concat(d.as_str())
}

} // verus!
