use vstd::prelude::*;

verus! {

/// One row of the region table: a numeric code and a short name.
///
/// The same type carries the composed records, where `name` holds the
/// expanded display name.
#[derive(Debug, Clone)]
pub struct Region {
    pub code: String,
    pub name: String,
}

impl View for Region {
    type V = (Seq<char>, Seq<char>);

    open spec fn view(&self) -> (Seq<char>, Seq<char>) {
        (self.code@, self.name@)
    }
}

impl Region {
    /// Builds a region from its code and name.
    pub fn new(code: &str, name: &str) -> (r: Region)
        ensures
            r@ == (code@, name@),
    {
        Region { code: code.to_owned(), name: name.to_owned() }
    }
}

/// The table as mathematical values: each region's code and name.
pub open spec fn table_view(rs: Seq<Region>) -> Seq<(Seq<char>, Seq<char>)> {
    rs.map_values(|r: Region| r@)
}

/// Whether `c` is one of the ten decimal digits.
pub open spec fn is_decimal_digit(c: char) -> bool {
    '0' <= c && c <= '9'
}

/// Whether every character of `s` is a decimal digit.
pub open spec fn all_digits(s: Seq<char>) -> bool {
    forall|i: int| 0 <= i < s.len() ==> is_decimal_digit(#[trigger] s[i])
}

/// Whether `s` ends with `k` zero digits.
pub open spec fn ends_with_zeros(s: Seq<char>, k: int) -> bool {
    &&& s.len() >= k
    &&& forall|i: int| s.len() - k <= i < s.len() ==> #[trigger] s[i] == '0'
}

/// Whether `a` starts with the first `k` characters of `b`.
pub open spec fn shares_prefix(a: Seq<char>, b: Seq<char>, k: int) -> bool {
    &&& a.len() >= k
    &&& b.len() >= k
    &&& a.subrange(0, k) == b.subrange(0, k)
}

/// A province-level code: its last four digits are zeros.
pub open spec fn is_province_code(code: Seq<char>) -> bool {
    ends_with_zeros(code, 4)
}

/// A city-level code: its last two digits are zeros, but not its last four.
pub open spec fn is_city_code(code: Seq<char>) -> bool {
    ends_with_zeros(code, 2) && !ends_with_zeros(code, 4)
}

/// A leaf-level code: neither province nor city level.
pub open spec fn is_leaf_code(code: Seq<char>) -> bool {
    !ends_with_zeros(code, 2)
}

/// Whether `s` ends with `k` zero digits.
pub fn has_trailing_zeros(s: &str, k: usize) -> (r: bool)
    ensures
        r == ends_with_zeros(s@, k as int),
{
    let n = s.unicode_len();
    if n < k {
        return false;
    }
    let mut i: usize = n - k;
    while i < n
        invariant
            n == s@.len(),
            k <= n,
            n - k <= i <= n,
            forall|j: int| n - k <= j < i ==> #[trigger] s@[j] == '0',
        decreases n - i,
    {
        if s.get_char(i) != '0' {
            return false;
        }
        i = i + 1;
    }
    true
}

/// Whether `a` starts with the first `k` characters of `b`.
pub fn has_common_prefix(a: &str, b: &str, k: usize) -> (r: bool)
    ensures
        r == shares_prefix(a@, b@, k as int),
{
    if a.unicode_len() < k || b.unicode_len() < k {
        return false;
    }
    let mut i: usize = 0;
    while i < k
        invariant
            k <= a@.len(),
            k <= b@.len(),
            i <= k,
            forall|j: int| 0 <= j < i ==> #[trigger] a@[j] == b@[j],
        decreases k - i,
    {
        if a.get_char(i) != b.get_char(i) {
            assert(a@.subrange(0, k as int)[i as int] != b@.subrange(0, k as int)[i as int]);
            return false;
        }
        i = i + 1;
    }
    assert(a@.subrange(0, k as int) =~= b@.subrange(0, k as int));
    true
}

/// Whether `a` and `b` hold the same characters.
pub fn same_text(a: &str, b: &str) -> (r: bool)
    ensures
        r == (a@ == b@),
{
    let n = a.unicode_len();
    if n != b.unicode_len() {
        return false;
    }
    let mut i: usize = 0;
    while i < n
        invariant
            n == a@.len(),
            n == b@.len(),
            i <= n,
            forall|j: int| 0 <= j < i ==> #[trigger] a@[j] == b@[j],
        decreases n - i,
    {
        if a.get_char(i) != b.get_char(i) {
            return false;
        }
        i = i + 1;
    }
    assert(a@ =~= b@);
    true
}

} // verus!
