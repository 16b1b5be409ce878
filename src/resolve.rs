use vstd::prelude::*;
use crate::region::{
    ends_with_zeros, has_common_prefix, has_trailing_zeros, same_text, shares_prefix, table_view,
    Region,
};

verus! {

/// Whether the region code `cand` is an ancestor candidate of `code`: a
/// different code that starts with the first `prefix` characters of `code`
/// and ends with `zeros` zero digits.
pub open spec fn is_ancestor_for(cand: Seq<char>, code: Seq<char>, prefix: int, zeros: int) -> bool {
    &&& cand != code
    &&& shares_prefix(cand, code, prefix)
    &&& ends_with_zeros(cand, zeros)
}

/// The first position at or after `i` in table `t` whose code is an ancestor
/// candidate of `code`.
pub open spec fn first_ancestor_from(
    t: Seq<(Seq<char>, Seq<char>)>,
    code: Seq<char>,
    prefix: int,
    zeros: int,
    i: int,
) -> Option<int>
    decreases t.len() - i,
{
    if i < 0 || i >= t.len() {
        None
    } else if is_ancestor_for(t[i].0, code, prefix, zeros) {
        Some(i)
    } else {
        first_ancestor_from(t, code, prefix, zeros, i + 1)
    }
}

/// The name of the first row in `t` that is an ancestor candidate of `code`.
pub open spec fn ancestor_name(
    t: Seq<(Seq<char>, Seq<char>)>,
    code: Seq<char>,
    prefix: int,
    zeros: int,
) -> Option<Seq<char>> {
    match first_ancestor_from(t, code, prefix, zeros, 0) {
        Some(i) => Some(t[i].1),
        None => None,
    }
}

/// The province of `code`: the first other region that shares the first two
/// digits of `code` and ends with `0000`.
pub open spec fn province_name(t: Seq<(Seq<char>, Seq<char>)>, code: Seq<char>) -> Option<Seq<char>> {
    ancestor_name(t, code, 2, 4)
}

/// The city of `code`: the first other region that shares the first four
/// digits of `code` and ends with `00`.
pub open spec fn city_name(t: Seq<(Seq<char>, Seq<char>)>, code: Seq<char>) -> Option<Seq<char>> {
    ancestor_name(t, code, 4, 2)
}

/// The view of an optional borrowed name.
pub open spec fn opt_view(r: Option<&str>) -> Option<Seq<char>> {
    match r {
        Some(n) => Some(n@),
        None => None,
    }
}

/// A found ancestor is a row of the table at or after the starting position.
pub proof fn lemma_first_ancestor_in_table(
    t: Seq<(Seq<char>, Seq<char>)>,
    code: Seq<char>,
    prefix: int,
    zeros: int,
    i: int,
)
    requires
        0 <= i,
    ensures
        first_ancestor_from(t, code, prefix, zeros, i) matches Some(j) ==> i <= j < t.len(),
    decreases t.len() - i,
{
    if i < t.len() && !is_ancestor_for(t[i].0, code, prefix, zeros) {
        lemma_first_ancestor_in_table(t, code, prefix, zeros, i + 1);
    }
}

fn find_ancestor_name<'a>(regions: &'a Vec<Region>, code: &str, prefix: usize, zeros: usize) -> (r:
    Option<&'a str>)
    requires
        code@.len() >= prefix,
    ensures
        opt_view(r) == ancestor_name(table_view(regions@), code@, prefix as int, zeros as int),
{
    let ghost t = table_view(regions@);
    let mut i: usize = 0;
    while i < regions.len()
        invariant
            t == table_view(regions@),
            i <= regions@.len(),
            first_ancestor_from(t, code@, prefix as int, zeros as int, 0) == first_ancestor_from(
                t,
                code@,
                prefix as int,
                zeros as int,
                i as int,
            ),
        decreases regions@.len() - i,
    {
        let cand = regions[i].code.as_str();
        if has_common_prefix(cand, code, prefix) && has_trailing_zeros(cand, zeros) && !same_text(
            cand,
            code,
        ) {
            return Some(regions[i].name.as_str());
        }
        i = i + 1;
    }
    None
}

/// Looks up the name of the province that `code` belongs to: the first region
/// of the table, in table order, whose code differs from `code`, starts with
/// the first two characters of `code` and ends with `0000`.
pub fn find_province_name<'a>(regions: &'a Vec<Region>, code: &str) -> (r: Option<&'a str>)
    requires
        code@.len() >= 2,
    ensures
        opt_view(r) == province_name(table_view(regions@), code@),
{
    find_ancestor_name(regions, code, 2, 4)
}

/// Looks up the name of the city that `code` belongs to: the first region of
/// the table, in table order, whose code differs from `code`, starts with the
/// first four characters of `code` and ends with `00`.
pub fn find_city_name<'a>(regions: &'a Vec<Region>, code: &str) -> (r: Option<&'a str>)
    requires
        code@.len() >= 4,
    ensures
        opt_view(r) == city_name(table_view(regions@), code@),
{
    find_ancestor_name(regions, code, 4, 2)
}

} // verus!
