//! Text forms used by the database: zero-padded decimal and hexadecimal
//! numbers, the printed names of tiles, and the names of the files and
//! directories of the local tile cache.
use vstd::prelude::*;
use crate::names::{MapKind, MapName, MapRef};
use vstd::string::StringSliceAdditionalSpecFns;

verus! {

/// The character of the digit `d` (below 16); letters in upper case where
/// `upper` holds.
pub open spec fn digit_char(d: nat, upper: bool) -> char {
    if d < 10 {
        (48 + d) as char
    } else if upper {
        (55 + d) as char
    } else {
        (87 + d) as char
    }
}

/// `v` written in `base` (10 or 16) with at least `width` digits, padded
/// with leading zeros.
pub open spec fn padded_digits(v: nat, base: nat, width: nat, upper: bool) -> Seq<char>
    recommends
        base == 10 || base == 16,
    decreases width, v,
{
    if base < 2 {
        Seq::empty()
    } else if v < base && width <= 1 {
        seq![digit_char(v, upper)]
    } else {
        let w: nat = if width > 0 { (width - 1) as nat } else { 0 };
        proof {
            if width == 0 {
                assert(v / base < v) by (nonlinear_arith)
                    requires v >= base, base >= 2;
            }
        }
        padded_digits(v / base, base, w, upper).push(digit_char(v % base, upper))
    }
}

/// Appends `c` to `s` with `String::push`, which its documentation says
/// appends the character to the end of the string.
#[verifier::external_body]
fn push_char(s: &mut String, c: char)
    ensures
        final(s)@ == old(s)@.push(c),
{
    s.push(c);
}

fn digit(d: u64, upper: bool) -> (r: char)
    requires
        d < 16,
    ensures
        r == digit_char(d as nat, upper),
{
    let b = d as u8;
    if b < 10 {
        (48 + b) as char
    } else if upper {
        (55 + b) as char
    } else {
        (87 + b) as char
    }
}

/// Appends `v` written in `base` with at least `width` digits.
pub fn push_padded(s: &mut String, v: u64, base: u64, width: usize, upper: bool)
    requires
        base == 10 || base == 16,
    ensures
        final(s)@ == old(s)@ + padded_digits(v as nat, base as nat, width as nat, upper),
    decreases width, v,
{
    if v < base && width <= 1 {
        push_char(s, digit(v, upper));
        assert(padded_digits(v as nat, base as nat, width as nat, upper) =~= seq![digit_char(v as nat, upper)]);
    } else {
        let w: usize = if width > 0 { width - 1 } else { 0 };
        proof {
            if width == 0 {
                assert(v / base < v) by (nonlinear_arith)
                    requires v >= base, base >= 2;
            }
        }
        let ghost before = s@;
        push_padded(s, v / base, base, w, upper);
        let ghost mid = s@;
        push_char(s, digit(v % base, upper));
        assert(s@ =~= before + padded_digits(v as nat, base as nat, width as nat, upper));
    }
}

/// `v` in decimal with at least `width` digits.
pub fn decimal_padded(v: u64, width: usize) -> (r: String)
    ensures
        r@ == padded_digits(v as nat, 10, width as nat, false),
{
    let mut s = String::new();
    push_padded(&mut s, v, 10, width, false);
    assert(s@ =~= padded_digits(v as nat, 10, width as nat, false));
    s
}

/// `v` in upper-case hexadecimal with at least `width` digits.
pub fn hex_upper_padded(v: u64, width: usize) -> (r: String)
    ensures
        r@ == padded_digits(v as nat, 16, width as nat, true),
{
    let mut s = String::new();
    push_padded(&mut s, v, 16, width, true);
    assert(s@ =~= padded_digits(v as nat, 16, width as nat, true));
    s
}

/// Each byte of `bytes` as two lower-case hexadecimal digits.
pub open spec fn hex_lower(bytes: Seq<u8>) -> Seq<char>
    decreases bytes.len(),
{
    if bytes.len() == 0 {
        Seq::empty()
    } else {
        hex_lower(bytes.drop_last()) + padded_digits(bytes.last() as nat, 16, 2, false)
    }
}

/// Each byte of `bytes` as two lower-case hexadecimal digits.
pub fn hex_lower_bytes(bytes: &[u8]) -> (r: String)
    ensures
        r@ == hex_lower(bytes@),
{
    let mut s = String::new();
    let mut i: usize = 0;
    while i < bytes.len()
        invariant
            i <= bytes@.len(),
            s@ == hex_lower(bytes@.take(i as int)),
        decreases bytes@.len() - i,
    {
        proof {
            assert(bytes@.take(i as int + 1).drop_last() =~= bytes@.take(i as int));
        }
        push_padded(&mut s, bytes[i] as u64, 16, 2, false);
        i = i + 1;
    }
    assert(bytes@.take(bytes@.len() as int) =~= bytes@);
    s
}

/// The MD5 digest of `data`.
pub uninterp spec fn md5_of(data: Seq<u8>) -> Seq<u8>;

/// The MD5 digest of `data`, by `md5::compute`; the contract names the
/// result and says nothing more of it.
#[verifier::external_body]
fn md5_digest(data: &[u8]) -> (r: [u8; 16])
    ensures
        r@ == md5_of(data@),
{
    md5::compute(data).0
}

/// The name of the cache directory of the data set at `url`: the MD5 digest
/// of the URL in lower-case hexadecimal.
pub fn cache_dir_name(url: &str) -> (r: String)
    ensures
        r@ == hex_lower(md5_of(url.spec_bytes())),
{
    let digest = md5_digest(url.as_bytes());
    hex_lower_bytes(&digest)
}

/// `a` followed by `b`.
fn joined(a: String, b: &str) -> (r: String)
    ensures
        r@ == a@ + b@,
{
    let mut a = a;
    a.append(b);
    a
}

/// The name of the cache file that holds `nbytes` bytes from `start` on:
/// the start in 16 and the length in at least 8 upper-case hexadecimal
/// digits, then `.dat`.
pub open spec fn cache_file_text(start: u64, nbytes: usize) -> Seq<char> {
    padded_digits(start as nat, 16, 16, true) + seq!['-']
        + padded_digits(nbytes as nat, 16, 8, true) + seq!['.', 'd', 'a', 't']
}

/// The name of the cache file that holds `nbytes` bytes from `start` on.
pub fn cache_file_name(start: u64, nbytes: usize) -> (r: String)
    ensures
        r@ == cache_file_text(start, nbytes),
{
    let mut s = hex_upper_padded(start, 16);
    push_char(&mut s, '-');
    push_padded(&mut s, nbytes as u64, 16, 8, true);
    let r = joined(s, ".dat");
    proof {
        reveal_strlit(".dat");
    }
    assert(r@ =~= cache_file_text(start, nbytes));
    r
}

/// The value of a digit character (0-9, A-F, a-f).
pub open spec fn digit_value(c: char) -> int {
    let n = c as int;
    if 48 <= n <= 57 {
        n - 48
    } else if 65 <= n <= 70 {
        n - 55
    } else {
        n - 87
    }
}

/// The value of the digits `s` in `base`.
pub open spec fn digits_value(s: Seq<char>, base: nat) -> int
    decreases s.len(),
{
    if s.len() == 0 {
        0
    } else {
        digits_value(s.drop_last(), base) * base + digit_value(s.last())
    }
}

proof fn lemma_digit_round_trip(d: nat, upper: bool)
    requires
        d < 16,
    ensures
        digit_value(digit_char(d, upper)) == d,
{
}

/// Padded digits read back as the number they were written from.
pub proof fn padded_digits_read_back(v: nat, base: nat, width: nat, upper: bool)
    requires
        base == 10 || base == 16,
    ensures
        digits_value(padded_digits(v, base, width, upper), base) == v,
    decreases width, v,
{
    if v < base && width <= 1 {
        lemma_digit_round_trip(v, upper);
        let s = padded_digits(v, base, width, upper);
        assert(s == seq![digit_char(v, upper)]);
        assert(s.drop_last() =~= Seq::<char>::empty());
        assert(digits_value(s, base) == digits_value(s.drop_last(), base) * base + digit_value(s.last()));
    } else {
        let w: nat = if width > 0 { (width - 1) as nat } else { 0 };
        if width == 0 {
            assert(v / base < v) by (nonlinear_arith)
                requires v >= base, base >= 2;
        }
        padded_digits_read_back(v / base, base, w, upper);
        lemma_digit_round_trip(v % base, upper);
        let s = padded_digits(v, base, width, upper);
        let prev = padded_digits(v / base, base, w, upper);
        assert(s == prev.push(digit_char(v % base, upper)));
        assert(s.drop_last() =~= prev);
        assert(s.last() == digit_char(v % base, upper));
        assert(digits_value(s, base) == digits_value(prev, base) * base + digit_value(digit_char(v % base, upper)));
        assert(digits_value(prev, base) == v / base);
        assert(v == (v / base) * base + v % base) by (nonlinear_arith)
            requires base > 0;
    }
}

/// 16 to the power of `k`.
pub open spec fn hex_limit(k: nat) -> nat
    decreases k,
{
    if k == 0 { 1 } else { 16 * hex_limit((k - 1) as nat) }
}

proof fn lemma_padded_hex_len(v: nat, k: nat, upper: bool)
    requires
        1 <= k,
        v < hex_limit(k),
    ensures
        padded_digits(v, 16, k, upper).len() == k,
    decreases k,
{
    if k > 1 {
        assert(v / 16 < hex_limit((k - 1) as nat)) by (nonlinear_arith)
            requires v < 16 * hex_limit((k - 1) as nat);
        lemma_padded_hex_len(v / 16, (k - 1) as nat, upper);
        assert(padded_digits(v, 16, k, upper)
            == padded_digits(v / 16, 16, (k - 1) as nat, upper).push(digit_char(v % 16, upper)));
    } else {
        assert(hex_limit(0) == 1);
        assert(v < 16);
        assert(padded_digits(v, 16, k, upper) == seq![digit_char(v, upper)]);
    }
}

/// Different byte ranges are cached in differently named files: the name
/// of a cache file gives back the start and the length of its range.
pub proof fn cache_file_names_differ(s1: u64, n1: usize, s2: u64, n2: usize)
    requires
        cache_file_text(s1, n1) == cache_file_text(s2, n2),
    ensures
        s1 == s2,
        n1 == n2,
{
    assert(hex_limit(16) == 0x1_0000_0000_0000_0000) by {
        reveal_with_fuel(hex_limit, 17);
    }
    lemma_padded_hex_len(s1 as nat, 16, true);
    lemma_padded_hex_len(s2 as nat, 16, true);
    let a = cache_file_text(s1, n1);
    let p1 = padded_digits(s1 as nat, 16, 16, true);
    let p2 = padded_digits(s2 as nat, 16, 16, true);
    let q1 = padded_digits(n1 as nat, 16, 8, true);
    let q2 = padded_digits(n2 as nat, 16, 8, true);
    assert(a.subrange(0, 16) =~= p1);
    assert(cache_file_text(s2, n2).subrange(0, 16) =~= p2);
    padded_digits_read_back(s1 as nat, 16, 16, true);
    padded_digits_read_back(s2 as nat, 16, 16, true);
    assert(a.subrange(17, a.len() - 4) =~= q1);
    assert(cache_file_text(s2, n2).subrange(17, a.len() - 4) =~= q2);
    padded_digits_read_back(n1 as nat, 16, 8, true);
    padded_digits_read_back(n2 as nat, 16, 8, true);
}

impl MapRef {
    /// The printed form of a position: the stride in at least 4 and the
    /// offset in at least 8 decimal digits, separated by a colon.
    pub open spec fn spec_text(self) -> Seq<char> {
        padded_digits(self.spec_stride() as nat, 10, 4, false) + seq![':']
            + padded_digits(self.spec_offset() as nat, 10, 8, false)
    }

    pub fn to_string(&self) -> (r: String)
        ensures
            r@ == self.spec_text(),
    {
        let mut s = decimal_padded(self.stride() as u64, 4);
        push_char(&mut s, ':');
        push_padded(&mut s, self.offset() as u64, 10, 8, false);
        assert(s@ =~= self.spec_text());
        s
    }
}

impl MapName {
    /// The printed form of a tile name: `N`, the kind (`H` or `C`), the
    /// level in at least 2 decimal digits and the position, separated by
    /// colons.
    pub open spec fn spec_text(self) -> Seq<char> {
        let k = match self.spec_kind() {
            MapKind::Heights => 'H',
            MapKind::Colors => 'C',
        };
        seq!['N', ':', k, ':'] + padded_digits(self.spec_level().spec_level() as nat, 10, 2, false)
            + seq![':'] + self.spec_position().spec_text()
    }

    pub fn to_string(&self) -> (r: String)
        ensures
            r@ == self.spec_text(),
    {
        let mut s = String::new();
        push_char(&mut s, 'N');
        push_char(&mut s, ':');
        match self.kind() {
            MapKind::Heights => push_char(&mut s, 'H'),
            MapKind::Colors => push_char(&mut s, 'C'),
        }
        push_char(&mut s, ':');
        push_padded(&mut s, self.level().offset() as u64, 10, 2, false);
        push_char(&mut s, ':');
        let p = self.position().to_string();
        let r = joined(s, p.as_str());
        assert(r@ =~= self.spec_text());
        r
    }
}

} // verus!
