use vstd::prelude::*;
use crate::region::{
    has_trailing_zeros, is_city_code, is_leaf_code, is_province_code, table_view, Region,
};
use crate::resolve::{city_name, find_city_name, find_province_name, province_name};

verus! {

/// A found ancestor's name, or the empty segment when none was found.
pub open spec fn or_empty(o: Option<Seq<char>>) -> Seq<char> {
    match o {
        Some(n) => n,
        None => Seq::empty(),
    }
}

/// Whether the ancestors of `code` can be looked up: a leaf-level code needs
/// at least four characters to take its city prefix from.
pub open spec fn is_resolvable_code(code: Seq<char>) -> bool {
    is_leaf_code(code) ==> code.len() >= 4
}

/// Whether every code of the table can have its ancestors looked up.
pub open spec fn all_resolvable(t: Seq<(Seq<char>, Seq<char>)>) -> bool {
    forall|i: int| 0 <= i < t.len() ==> is_resolvable_code(#[trigger] t[i].0)
}

/// The display name of the region `(code, name)` within table `t`:
/// its own name at province level; `province + delim + name` at city level;
/// `province + delim + city + delim + name` at leaf level, where an ancestor
/// that is not found contributes an empty segment.
pub open spec fn expanded_name(
    t: Seq<(Seq<char>, Seq<char>)>,
    code: Seq<char>,
    name: Seq<char>,
    delim: Seq<char>,
) -> Seq<char> {
    if is_province_code(code) {
        name
    } else if is_city_code(code) {
        or_empty(province_name(t, code)) + delim + name
    } else {
        or_empty(province_name(t, code)) + delim + or_empty(city_name(t, code)) + delim + name
    }
}

/// Every region of `t`, in order, with its name replaced by its display name.
pub open spec fn expanded_table(t: Seq<(Seq<char>, Seq<char>)>, delim: Seq<char>) -> Seq<
    (Seq<char>, Seq<char>),
> {
    t.map_values(|e: (Seq<char>, Seq<char>)| (e.0, expanded_name(t, e.0, e.1, delim)))
}

/// Whether `code` is long enough for its ancestors to be looked up.
pub fn code_is_resolvable(code: &str) -> (r: bool)
    ensures
        r == is_resolvable_code(code@),
{
    has_trailing_zeros(code, 2) || code.unicode_len() >= 4
}

/// Whether every code of the table is long enough for its ancestors to be
/// looked up; `expand_all` asks for this.
pub fn all_codes_resolvable(regions: &Vec<Region>) -> (r: bool)
    ensures
        r == all_resolvable(table_view(regions@)),
{
    let mut i: usize = 0;
    while i < regions.len()
        invariant
            i <= regions@.len(),
            forall|j: int| 0 <= j < i ==> is_resolvable_code(#[trigger] regions@[j].code@),
        decreases regions@.len() - i,
    {
        if !code_is_resolvable(regions[i].code.as_str()) {
            assert(table_view(regions@)[i as int].0 == regions@[i as int].code@);
            return false;
        }
        i = i + 1;
    }
    assert forall|j: int| 0 <= j < table_view(regions@).len() implies is_resolvable_code(
        #[trigger] table_view(regions@)[j].0,
    ) by {
        assert(table_view(regions@)[j].0 == regions@[j].code@);
    }
    true
}

/// Composes the display name of `region` against the whole table: the
/// names of its province and city ancestors (empty where none is found) and
/// its own name, joined by `delimiter`.
pub fn expand_name(regions: &Vec<Region>, region: &Region, delimiter: &str) -> (r: String)
    requires
        is_resolvable_code(region.code@),
    ensures
        r@ == expanded_name(table_view(regions@), region.code@, region.name@, delimiter@),
{
    let code = region.code.as_str();
    if has_trailing_zeros(code, 4) {
        return region.name.clone();
    }
    let mut out = String::new();
    match find_province_name(regions, code) {
        Some(p) => out.append(p),
        None => {},
    }
    out.append(delimiter);
    if !has_trailing_zeros(code, 2) {
        match find_city_name(regions, code) {
            Some(c) => out.append(c),
            None => {},
        }
        out.append(delimiter);
    }
    out.append(region.name.as_str());
    out
}

/// Composes the record of every region of the table, in table order: the
/// same code, with the display name in place of the short name.
pub fn expand_all(regions: &Vec<Region>, delimiter: &str) -> (r: Vec<Region>)
    requires
        all_resolvable(table_view(regions@)),
    ensures
        table_view(r@) == expanded_table(table_view(regions@), delimiter@),
{
    let ghost t = table_view(regions@);
    let mut out: Vec<Region> = Vec::new();
    let mut i: usize = 0;
    while i < regions.len()
        invariant
            t == table_view(regions@),
            all_resolvable(t),
            i <= regions@.len(),
            out@.len() == i,
            forall|j: int|
                0 <= j < i ==> #[trigger] out@[j]@ == (t[j].0, expanded_name(t, t[j].0, t[j].1, delimiter@)),
        decreases regions@.len() - i,
    {
        let region = &regions[i];
        assert(t[i as int].0 == region.code@);
        let name = expand_name(regions, region, delimiter);
        out.push(Region { code: region.code.clone(), name });
        i = i + 1;
    }
    assert(table_view(out@) =~= expanded_table(t, delimiter@));
    out
}

} // verus!
