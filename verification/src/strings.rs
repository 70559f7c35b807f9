//! Decimal formatting and parsing for the string values that both engines
//! store, together with the two traits that tie caller-supplied values to
//! their string form: `ToCacheString` (stringify) and `FromCacheString`
//! (parse back).

use vstd::prelude::*;
use vstd::string::StrSliceExecFns;
use vstd::string::StringExecFns;

verus! {

/// Whether `c` is an ASCII decimal digit.
pub open spec fn is_digit(c: char) -> bool {
    48 <= c as u32 <= 57
}

/// The numeric value of an ASCII decimal digit.
pub open spec fn digit_val(c: char) -> int {
    c as u32 - 48
}

/// The ASCII digit with numeric value `d`.
pub open spec fn digit_char(d: int) -> char {
    if d == 0 {
        '0'
    } else if d == 1 {
        '1'
    } else if d == 2 {
        '2'
    } else if d == 3 {
        '3'
    } else if d == 4 {
        '4'
    } else if d == 5 {
        '5'
    } else if d == 6 {
        '6'
    } else if d == 7 {
        '7'
    } else if d == 8 {
        '8'
    } else {
        '9'
    }
}

/// Whether every character of `s` is an ASCII decimal digit.
pub open spec fn all_digits(s: Seq<char>) -> bool {
    forall|i: int| 0 <= i < s.len() ==> is_digit(#[trigger] s[i])
}

/// The numeric value of a digit string, most significant digit first.
pub open spec fn dec_val(s: Seq<char>) -> int
    decreases s.len(),
{
    if s.len() == 0 {
        0
    } else {
        dec_val(s.drop_last()) * 10 + digit_val(s.last())
    }
}

/// The canonical decimal rendering of a non-negative integer: no leading
/// zeroes, except that zero itself is `"0"`.
pub open spec fn dec_digits(n: int) -> Seq<char>
    decreases n,
{
    if n < 10 {
        seq![digit_char(n)]
    } else {
        dec_digits(n / 10).push(digit_char(n % 10))
    }
}

/// What `parse_u64` returns: the value of a non-empty all-digit string
/// when it fits in a `u64`, and `None` otherwise.
pub open spec fn spec_parse_u64(s: Seq<char>) -> Option<u64> {
    if s.len() > 0 && all_digits(s) && dec_val(s) <= u64::MAX {
        Some(dec_val(s) as u64)
    } else {
        None
    }
}

proof fn lemma_digit_char_val(d: int)
    requires
        0 <= d < 10,
    ensures
        is_digit(digit_char(d)),
        digit_val(digit_char(d)) == d,
{
}

/// A digit string has a non-negative value.
proof fn lemma_dec_val_nonneg(s: Seq<char>)
    requires
        all_digits(s),
    ensures
        dec_val(s) >= 0,
    decreases s.len(),
{
    if s.len() > 0 {
        assert(all_digits(s.drop_last()));
        lemma_dec_val_nonneg(s.drop_last());
    }
}

/// Extending a digit string can only increase its value.
proof fn lemma_dec_val_prefix_le(s: Seq<char>, k: int)
    requires
        all_digits(s),
        0 <= k <= s.len(),
    ensures
        dec_val(s.subrange(0, k)) <= dec_val(s),
    decreases s.len() - k,
{
    if k < s.len() {
        let p = s.subrange(0, k);
        let q = s.subrange(0, k + 1);
        assert(q.drop_last() =~= p);
        assert(all_digits(p));
        lemma_dec_val_nonneg(p);
        assert(dec_val(q) == dec_val(p) * 10 + digit_val(q.last()));
        assert(dec_val(p) * 10 >= dec_val(p)) by (nonlinear_arith)
            requires dec_val(p) >= 0;
        lemma_dec_val_prefix_le(s, k + 1);
    } else {
        assert(s.subrange(0, k) =~= s);
    }
}

/// The canonical rendering of `n` is a digit string whose value is `n`.
pub proof fn lemma_dec_digits_val(n: int)
    requires
        n >= 0,
    ensures
        all_digits(dec_digits(n)),
        dec_val(dec_digits(n)) == n,
        dec_digits(n).len() >= 1,
    decreases n,
{
    if n < 10 {
        lemma_digit_char_val(n);
        assert(dec_digits(n) =~= seq![digit_char(n)]);
        assert(dec_digits(n).drop_last() =~= Seq::<char>::empty());
        assert(dec_val(Seq::<char>::empty()) == 0);
        assert(dec_val(dec_digits(n)) == 0 * 10 + digit_val(digit_char(n)));
    } else {
        lemma_dec_digits_val(n / 10);
        lemma_digit_char_val(n % 10);
        let s = dec_digits(n);
        assert(s.drop_last() =~= dec_digits(n / 10));
        assert(forall|i: int| 0 <= i < s.len() ==> is_digit(#[trigger] s[i])) by {
            assert(forall|i: int|
                0 <= i < s.len() - 1 ==> s[i] == #[trigger] dec_digits(n / 10)[i]);
        }
        assert(dec_val(s) == dec_val(s.drop_last()) * 10 + digit_val(s.last()));
        assert(dec_val(s) == (n / 10) * 10 + n % 10);
        assert((n / 10) * 10 + n % 10 == n) by (nonlinear_arith)
            requires n >= 10;
    }
}

/// Parsing the canonical rendering of a `u64` gives the value back.
pub proof fn lemma_parse_dec_digits(n: u64)
    ensures
        spec_parse_u64(dec_digits(n as int)) == Some(n),
{
    lemma_dec_digits_val(n as int);
}

/// The ASCII digit with numeric value `d`, as a one-character string slice.
fn digit_str(d: u64) -> (r: &'static str)
    requires
        d < 10,
    ensures
        r@ == seq![digit_char(d as int)],
{
    proof {
        reveal_strlit("0");
        reveal_strlit("1");
        reveal_strlit("2");
        reveal_strlit("3");
        reveal_strlit("4");
        reveal_strlit("5");
        reveal_strlit("6");
        reveal_strlit("7");
        reveal_strlit("8");
        reveal_strlit("9");
    }
    let r: &'static str = if d == 0 {
        "0"
    } else if d == 1 {
        "1"
    } else if d == 2 {
        "2"
    } else if d == 3 {
        "3"
    } else if d == 4 {
        "4"
    } else if d == 5 {
        "5"
    } else if d == 6 {
        "6"
    } else if d == 7 {
        "7"
    } else if d == 8 {
        "8"
    } else {
        "9"
    };
    proof {
        assert(r@ =~= seq![digit_char(d as int)]);
    }
    r
}

/// Renders `n` in decimal, most significant digit first.
pub fn u64_to_string(n: u64) -> (r: String)
    ensures
        r@ == dec_digits(n as int),
    decreases n,
{
    if n < 10 {
        String::from_str(digit_str(n))
    } else {
        let mut s = u64_to_string(n / 10);
        s.append(digit_str(n % 10));
        proof {
            assert(s@ =~= dec_digits(n as int));
        }
        s
    }
}

/// Parses a decimal string: the value of a non-empty all-digit string that
/// fits in a `u64`, and `None` on anything else.
pub fn parse_u64(s: &str) -> (r: Option<u64>)
    ensures
        r == spec_parse_u64(s@),
{
    let len = s.unicode_len();
    if len == 0 {
        return None;
    }
    let mut acc: u64 = 0;
    let mut i: usize = 0;
    while i < len
        invariant
            0 <= i <= len,
            len == s@.len(),
            all_digits(s@.subrange(0, i as int)),
            acc == dec_val(s@.subrange(0, i as int)),
        decreases len - i,
    {
        let c = s.get_char(i);
        let cv = c as u32;
        proof {
            assert(s@.subrange(0, i as int + 1).drop_last() =~= s@.subrange(0, i as int));
        }
        if cv < 48 || cv > 57 {
            proof {
                assert(!is_digit(s@[i as int]));
            }
            return None;
        }
        let d = (cv - 48) as u64;
        let step = match acc.checked_mul(10) {
            Some(m) => m.checked_add(d),
            None => None,
        };
        match step {
            Some(v) => {
                acc = v;
            },
            None => {
                proof {
                    let p = s@.subrange(0, i as int + 1);
                    assert(dec_val(p) > u64::MAX);
                    if all_digits(s@) {
                        lemma_dec_val_prefix_le(s@, i as int + 1);
                    }
                }
                return None;
            },
        }
        i += 1;
    }
    proof {
        assert(s@.subrange(0, len as int) =~= s@);
    }
    Some(acc)
}

/// Compares two string slices by their characters.
pub fn str_eq(a: &str, b: &str) -> (r: bool)
    ensures
        r == (a@ == b@),
{
    let sa = a.to_owned();
    let sb = b.to_owned();
    sa == sb
}

/// A value that the cache can render as a string, with the exact rendering
/// stated by `spec_string`. Plays the role that `ToString` bounds play on an
/// ordinary cache API.
pub trait ToCacheString {
    /// The exact string this value renders to.
    spec fn spec_string(&self) -> Seq<char>;

    /// Renders the value.
    fn to_cache_string(&self) -> (r: String)
        ensures
            r@ == self.spec_string(),
    ;
}

impl ToCacheString for String {
    open spec fn spec_string(&self) -> Seq<char> {
        self@
    }

    fn to_cache_string(&self) -> (r: String) {
        self.clone()
    }
}

impl ToCacheString for &str {
    open spec fn spec_string(&self) -> Seq<char> {
        self@
    }

    fn to_cache_string(&self) -> (r: String) {
        String::from_str(self)
    }
}

impl ToCacheString for u64 {
    open spec fn spec_string(&self) -> Seq<char> {
        dec_digits(*self as int)
    }

    fn to_cache_string(&self) -> (r: String) {
        u64_to_string(*self)
    }
}

impl ToCacheString for u32 {
    open spec fn spec_string(&self) -> Seq<char> {
        dec_digits(*self as int)
    }

    fn to_cache_string(&self) -> (r: String) {
        u64_to_string(*self as u64)
    }
}

impl ToCacheString for u16 {
    open spec fn spec_string(&self) -> Seq<char> {
        dec_digits(*self as int)
    }

    fn to_cache_string(&self) -> (r: String) {
        u64_to_string(*self as u64)
    }
}

impl ToCacheString for usize {
    open spec fn spec_string(&self) -> Seq<char> {
        dec_digits(*self as int)
    }

    fn to_cache_string(&self) -> (r: String) {
        u64_to_string(*self as u64)
    }
}

/// The rendering of a signed integer: a minus sign before the magnitude
/// when negative.
pub open spec fn dec_digits_signed(n: int) -> Seq<char> {
    if n < 0 {
        seq!['-'] + dec_digits(-n)
    } else {
        dec_digits(n)
    }
}

/// Renders a signed integer in decimal.
pub fn i64_to_string(n: i64) -> (r: String)
    ensures
        r@ == dec_digits_signed(n as int),
{
    if n < 0 {
        proof {
            reveal_strlit("-");
        }
        let mut s = String::from_str("-");
        let mag: u64 = if n == i64::MIN {
            9223372036854775808u64
        } else {
            (-n) as u64
        };
        let m = u64_to_string(mag);
        s.append(m.as_str());
        proof {
            assert(s@ =~= dec_digits_signed(n as int));
        }
        s
    } else {
        u64_to_string(n as u64)
    }
}

impl ToCacheString for i64 {
    open spec fn spec_string(&self) -> Seq<char> {
        dec_digits_signed(*self as int)
    }

    fn to_cache_string(&self) -> (r: String) {
        i64_to_string(*self)
    }
}

impl ToCacheString for i32 {
    open spec fn spec_string(&self) -> Seq<char> {
        dec_digits_signed(*self as int)
    }

    fn to_cache_string(&self) -> (r: String) {
        i64_to_string(*self as i64)
    }
}

/// A value that can be parsed back from its stored string form. The two spec
/// functions state exactly when parsing succeeds and what value it yields.
/// Plays the role that `FromStr` bounds play on an ordinary cache API.
pub trait FromCacheString: Sized {
    /// Whether parsing `s` as this type yields `v`.
    spec fn spec_parses(s: Seq<char>, v: Self) -> bool;

    /// Whether parsing `s` as this type fails.
    spec fn spec_parse_fails(s: Seq<char>) -> bool;

    /// Parses a stored string.
    fn from_cache_string(s: &str) -> (r: Option<Self>)
        ensures
            match r {
                Some(v) => Self::spec_parses(s@, v),
                None => Self::spec_parse_fails(s@),
            },
    ;
}

impl FromCacheString for String {
    open spec fn spec_parses(s: Seq<char>, v: Self) -> bool {
        v@ == s
    }

    open spec fn spec_parse_fails(s: Seq<char>) -> bool {
        false
    }

    fn from_cache_string(s: &str) -> (r: Option<Self>) {
        Some(String::from_str(s))
    }
}

impl FromCacheString for u64 {
    open spec fn spec_parses(s: Seq<char>, v: Self) -> bool {
        spec_parse_u64(s) == Some(v)
    }

    open spec fn spec_parse_fails(s: Seq<char>) -> bool {
        spec_parse_u64(s) is None
    }

    fn from_cache_string(s: &str) -> (r: Option<Self>) {
        parse_u64(s)
    }
}

impl FromCacheString for u32 {
    open spec fn spec_parses(s: Seq<char>, v: Self) -> bool {
        spec_parse_u64(s) == Some(v as u64)
    }

    open spec fn spec_parse_fails(s: Seq<char>) -> bool {
        match spec_parse_u64(s) {
            Some(v) => v > u32::MAX,
            None => true,
        }
    }

    fn from_cache_string(s: &str) -> (r: Option<Self>) {
        match parse_u64(s) {
            Some(v) => if v <= u32::MAX as u64 {
                Some(v as u32)
            } else {
                None
            },
            None => None,
        }
    }
}

impl FromCacheString for u16 {
    open spec fn spec_parses(s: Seq<char>, v: Self) -> bool {
        spec_parse_u64(s) == Some(v as u64)
    }

    open spec fn spec_parse_fails(s: Seq<char>) -> bool {
        match spec_parse_u64(s) {
            Some(v) => v > u16::MAX,
            None => true,
        }
    }

    fn from_cache_string(s: &str) -> (r: Option<Self>) {
        match parse_u64(s) {
            Some(v) => if v <= u16::MAX as u64 {
                Some(v as u16)
            } else {
                None
            },
            None => None,
        }
    }
}
} // verus!
