//! Character-level helpers, and the few std routines on text whose results
//! the rest of the library speaks of.

use vstd::prelude::*;

verus! {

/// The code point of the ASCII lower-case form of `c`; any other character
/// keeps its own code point.
pub open spec fn ascii_lower(c: char) -> u32 {
    if 'A' <= c && c <= 'Z' {
        ((c as u32) + 32) as u32
    } else {
        c as u32
    }
}

/// `a` and `b` are equal once ASCII letters are folded to lower case.
pub open spec fn eq_ignore_case(a: Seq<char>, b: Seq<char>) -> bool {
    &&& a.len() == b.len()
    &&& forall|i: int| 0 <= i < a.len() ==> #[trigger] ascii_lower(a[i]) == ascii_lower(b[i])
}

fn lower_code(c: char) -> (r: u32)
    ensures
        r == ascii_lower(c),
{
    if 'A' <= c && c <= 'Z' {
        (c as u32) + 32
    } else {
        c as u32
    }
}

/// Compares two strings, ignoring the case of ASCII letters.
pub fn eq_ignore_ascii_case(a: &str, b: &str) -> (r: bool)
    ensures
        r == eq_ignore_case(a@, b@),
{
    let n = a.unicode_len();
    if n != b.unicode_len() {
        return false;
    }
    let mut i: usize = 0;
    while i < n
        invariant
            n == a@.len(),
            n == b@.len(),
            i <= n,
            forall|j: int| 0 <= j < i ==> #[trigger] ascii_lower(a@[j]) == ascii_lower(b@[j]),
        decreases n - i,
    {
        if lower_code(a.get_char(i)) != lower_code(b.get_char(i)) {
            return false;
        }
        i = i + 1;
    }
    true
}

/// The decimal digit character for `d < 10`.
pub open spec fn digit_char(d: nat) -> char {
    seq!['0', '1', '2', '3', '4', '5', '6', '7', '8', '9'][d as int]
}

/// The decimal digits of `n`, most significant first, with no leading zero.
pub open spec fn digits(n: nat) -> Seq<char>
    decreases n,
{
    if n < 10 {
        seq![digit_char(n)]
    } else {
        digits(n / 10).push(digit_char(n % 10))
    }
}

/// How an integer is written in decimal: a minus sign for a negative value,
/// then its digits.
pub open spec fn decimal(n: int) -> Seq<char> {
    if n < 0 {
        seq!['-'] + digits((-n) as nat)
    } else {
        digits(n as nat)
    }
}

/// The digits `ds`, least significant first, written most significant
/// first.
pub open spec fn digits_text(ds: Seq<u32>) -> Seq<char>
    decreases ds.len(),
{
    if ds.len() == 0 {
        seq![]
    } else {
        seq![digit_char(ds.last() as nat)] + digits_text(ds.drop_last())
    }
}

fn digit_text(d: u32) -> (r: &'static str)
    requires
        d < 10,
    ensures
        r@ == seq![digit_char(d as nat)],
{
    let all = "0123456789";
    proof {
        reveal_strlit("0123456789");
    }
    let r = all.substring_char(d as usize, d as usize + 1);
    assert(r@ =~= seq![digit_char(d as nat)]);
    r
}

/// `n` written in decimal.
pub fn int_text(n: i32) -> (r: String)
    ensures
        r@ == decimal(n as int),
{
    let mut out = String::new();
    let mut m: u32 = if n < 0 {
        out.append("-");
        (0i64 - n as i64) as u32
    } else {
        n as u32
    };
    proof {
        reveal_strlit("-");
    }
    assert(out@ == if n < 0 { seq!['-'] } else { Seq::<char>::empty() });
    let ghost head = out@;
    let ghost mag: nat = if n < 0 { (-n) as nat } else { n as nat };
    let mut ds: Vec<u32> = Vec::new();
    while m >= 10
        invariant
            digits(mag) == digits(m as nat) + digits_text(ds@),
            forall|k: int| 0 <= k < ds@.len() ==> #[trigger] ds@[k] < 10,
            out@ == head,
        decreases m,
    {
        let ghost before = ds@;
        ds.push(m % 10);
        assert(ds@.drop_last() =~= before);
        assert(digits_text(ds@) == seq![digit_char((m % 10) as nat)] + digits_text(before));
        m = m / 10;
    }
    out.append(digit_text(m));
    assert(digits(m as nat) == seq![digit_char(m as nat)]);
    assert(ds@.subrange(0, ds@.len() as int) =~= ds@);
    let mut k: usize = ds.len();
    while k > 0
        invariant
            k <= ds@.len(),
            forall|j: int| 0 <= j < ds@.len() ==> #[trigger] ds@[j] < 10,
            head + digits(mag) == out@ + digits_text(ds@.subrange(0, k as int)),
        decreases k,
    {
        let ghost sub = ds@.subrange(0, k as int);
        assert(sub.drop_last() =~= ds@.subrange(0, k - 1));
        assert(digits_text(sub) == seq![digit_char(ds@[k - 1] as nat)] + digits_text(
            ds@.subrange(0, k - 1),
        ));
        out.append(digit_text(ds[k - 1]));
        k = k - 1;
    }
    assert(digits_text(ds@.subrange(0, 0)) =~= seq![]);
    assert(out@ =~= head + digits(mag));
    out
}

/// `c` is white space: it has the Unicode `White_Space` property.
pub open spec fn is_white(c: char) -> bool {
    let u = c as u32;
    (0x09 <= u && u <= 0x0d) || u == 0x20 || u == 0x85 || u == 0xa0 || u == 0x1680 || (0x2000
        <= u && u <= 0x200a) || u == 0x2028 || u == 0x2029 || u == 0x202f || u == 0x205f || u
        == 0x3000
}

/// `s` with leading white space removed.
pub open spec fn trim_start_of(s: Seq<char>) -> Seq<char>
    decreases s.len(),
{
    if s.len() > 0 && is_white(s[0]) {
        trim_start_of(s.drop_first())
    } else {
        s
    }
}

/// `s` with trailing white space removed.
pub open spec fn trim_end_of(s: Seq<char>) -> Seq<char>
    decreases s.len(),
{
    if s.len() > 0 && is_white(s.last()) {
        trim_end_of(s.drop_last())
    } else {
        s
    }
}

/// `s` with leading and trailing white space removed.
pub open spec fn trim_of(s: Seq<char>) -> Seq<char> {
    trim_end_of(trim_start_of(s))
}

/// Relies on `str::trim`, which removes the leading and trailing characters
/// for which `char::is_whitespace` holds, that is those with the Unicode
/// `White_Space` property.
#[verifier::external_body]
pub(crate) fn trim(s: &str) -> (r: String)
    ensures
        r@ == trim_of(s@),
{
    s.trim().to_string()
}

/// How the path spelled by `s` is shown by its `Debug` impl: quoted, with
/// special characters escaped.
pub uninterp spec fn path_debug_of(s: Seq<char>) -> Seq<char>;

/// Relies on the `Debug` impl of `std::path::Path`.
#[verifier::external_body]
pub(crate) fn path_debug(s: &str) -> (r: String)
    ensures
        r@ == path_debug_of(s@),
{
    format!("{:?}", std::path::Path::new(s))
}

/// The final component of the path spelled by `s`, when it has one.
pub uninterp spec fn file_name_of(s: Seq<char>) -> Option<Seq<char>>;

/// Relies on `std::path::Path::file_name`; the component of a path built from
/// a `str` is itself valid UTF-8, so nothing is lost in the conversion.
#[verifier::external_body]
pub(crate) fn file_name(s: &str) -> (r: Option<String>)
    ensures
        r matches Some(n) ==> file_name_of(s@) == Some(n@),
        r is None ==> file_name_of(s@) is None,
{
    match std::path::Path::new(s).file_name() {
        Some(n) => Some(n.to_string_lossy().into_owned()),
        None => None,
    }
}

} // verus!
