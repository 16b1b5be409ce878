use vstd::prelude::*;
use crate::compose::{expanded_name, expanded_table, or_empty};
use crate::parse::{has_no_line_feed, lemma_retained_have_no_line_feed, retained};
use crate::region::{table_view, Region};
use crate::resolve::{ancestor_name, lemma_first_ancestor_in_table};

verus! {

/// The output line of one record: `<code>,<name>` and a line feed.
pub open spec fn record_line(e: (Seq<char>, Seq<char>)) -> Seq<char> {
    e.0 + seq![','] + e.1 + seq!['\n']
}

/// The output text of a sequence of records: their lines, in order.
pub open spec fn rendered(t: Seq<(Seq<char>, Seq<char>)>) -> Seq<char>
    decreases t.len(),
{
    if t.len() == 0 {
        Seq::empty()
    } else {
        rendered(t.drop_last()) + record_line(t.last())
    }
}

/// The whole output text for an input table given as lines, with `delim`
/// joining the names.
pub open spec fn table_output(ls: Seq<Seq<char>>, delim: Seq<char>) -> Seq<char> {
    rendered(expanded_table(retained(ls), delim))
}

/// Appends the output line of `record` to `out`.
pub fn push_record_line(out: &mut String, record: &Region)
    ensures
        final(out)@ == old(out)@ + record_line(record@),
{
    proof {
        reveal_strlit(",");
        reveal_strlit("\n");
    }
    out.append(record.code.as_str());
    out.append(",");
    out.append(record.name.as_str());
    out.append("\n");
    assert(final(out)@ =~= old(out)@ + record_line(record@));
}

/// The output line of one record: `<code>,<name>` and a line feed. Commas in
/// the name are not escaped.
pub fn format_record(record: &Region) -> (r: String)
    ensures
        r@ == record_line(record@),
{
    let mut out = String::new();
    push_record_line(&mut out, record);
    out
}

/// The output text of the records: one line per record, in order.
pub fn render_records(records: &Vec<Region>) -> (r: String)
    ensures
        r@ == rendered(table_view(records@)),
{
    let ghost t = table_view(records@);
    let mut out = String::new();
    let mut i: usize = 0;
    while i < records.len()
        invariant
            t == table_view(records@),
            i <= records@.len(),
            out@ == rendered(t.subrange(0, i as int)),
        decreases records@.len() - i,
    {
        assert(t.subrange(0, i + 1).drop_last() =~= t.subrange(0, i as int));
        push_record_line(&mut out, &records[i]);
        i = i + 1;
    }
    assert(t.subrange(0, records@.len() as int) =~= t);
    out
}

/// The name of the output file placed in a directory: the input file's base
/// name with `_` in front.
pub fn prefixed_file_name(base: &str) -> (r: String)
    ensures
        r@ == seq!['_'] + base@,
{
    proof {
        reveal_strlit("_");
    }
    let mut out = String::new();
    out.append("_");
    out.append(base);
    assert(out@ =~= seq!['_'] + base@);
    out
}

/// Running the conversion twice on the same lines with the same delimiter
/// gives the same text: every output that the stages' contracts allow for a
/// table is one and the same.
pub proof fn lemma_output_deterministic(
    ls: Seq<Seq<char>>,
    delim: Seq<char>,
    first: Seq<char>,
    second: Seq<char>,
)
    requires
        first == table_output(ls, delim),
        second == table_output(ls, delim),
    ensures
        first == second,
{
}

/// The number of line feeds in `s`.
pub open spec fn line_feeds(s: Seq<char>) -> nat
    decreases s.len(),
{
    if s.len() == 0 {
        0
    } else {
        line_feeds(s.drop_last()) + if s.last() == '\n' {
            1nat
        } else {
            0nat
        }
    }
}

proof fn lemma_line_feeds_concat(a: Seq<char>, b: Seq<char>)
    ensures
        line_feeds(a + b) == line_feeds(a) + line_feeds(b),
    decreases b.len(),
{
    if b.len() == 0 {
        assert(a + b =~= a);
    } else {
        assert((a + b).drop_last() =~= a + b.drop_last());
        lemma_line_feeds_concat(a, b.drop_last());
    }
}

proof fn lemma_no_line_feeds(s: Seq<char>)
    requires
        has_no_line_feed(s),
    ensures
        line_feeds(s) == 0,
    decreases s.len(),
{
    if s.len() > 0 {
        assert(has_no_line_feed(s.drop_last())) by {
            assert forall|i: int| 0 <= i < s.drop_last().len() implies #[trigger] s.drop_last()[i]
                != '\n' by {
                assert(s.drop_last()[i] == s[i]);
            }
        }
        lemma_no_line_feeds(s.drop_last());
    }
}

proof fn lemma_concat_no_line_feed(a: Seq<char>, b: Seq<char>)
    requires
        has_no_line_feed(a),
        has_no_line_feed(b),
    ensures
        has_no_line_feed(a + b),
{
    assert forall|i: int| 0 <= i < (a + b).len() implies #[trigger] (a + b)[i] != '\n' by {
        if i >= a.len() {
            assert((a + b)[i] == b[i - a.len()]);
        }
    }
}

proof fn lemma_rendered_line_feeds(t: Seq<(Seq<char>, Seq<char>)>)
    requires
        forall|i: int|
            0 <= i < t.len() ==> has_no_line_feed((#[trigger] t[i]).0) && has_no_line_feed(t[i].1),
    ensures
        line_feeds(rendered(t)) == t.len(),
    decreases t.len(),
{
    if t.len() > 0 {
        let e = t.last();
        assert(has_no_line_feed(e.0) && has_no_line_feed(e.1));
        lemma_rendered_line_feeds(t.drop_last());
        let comma: Seq<char> = seq![','];
        let lf: Seq<char> = seq!['\n'];
        lemma_concat_no_line_feed(e.0, comma);
        lemma_concat_no_line_feed(e.0 + comma, e.1);
        lemma_no_line_feeds(e.0 + comma + e.1);
        lemma_line_feeds_concat(e.0 + comma + e.1, lf);
        assert(lf.drop_last() =~= Seq::<char>::empty());
        assert(line_feeds(lf.drop_last()) == 0);
        assert(lf.last() == '\n');
        assert(line_feeds(lf) == 1);
        lemma_line_feeds_concat(rendered(t.drop_last()), record_line(e));
    }
}

proof fn lemma_ancestor_has_no_line_feed(
    t: Seq<(Seq<char>, Seq<char>)>,
    code: Seq<char>,
    prefix: int,
    zeros: int,
)
    requires
        forall|i: int| 0 <= i < t.len() ==> has_no_line_feed((#[trigger] t[i]).1),
    ensures
        has_no_line_feed(or_empty(ancestor_name(t, code, prefix, zeros))),
{
    lemma_first_ancestor_in_table(t, code, prefix, zeros, 0);
}

/// The output text for a table has one line per region kept from it, as long
/// as the delimiter holds no line feed.
pub proof fn lemma_output_line_count(ls: Seq<Seq<char>>, delim: Seq<char>)
    requires
        has_no_line_feed(delim),
    ensures
        line_feeds(table_output(ls, delim)) == retained(ls).len(),
{
    let t = retained(ls);
    let out = expanded_table(t, delim);
    lemma_retained_have_no_line_feed(ls);
    assert forall|i: int| 0 <= i < out.len() implies has_no_line_feed(#[trigger] out[i].0)
        && has_no_line_feed(out[i].1) by {
        let e = t[i];
        lemma_ancestor_has_no_line_feed(t, e.0, 2, 4);
        lemma_ancestor_has_no_line_feed(t, e.0, 4, 2);
        let p = or_empty(ancestor_name(t, e.0, 2, 4));
        let c = or_empty(ancestor_name(t, e.0, 4, 2));
        lemma_concat_no_line_feed(p, delim);
        lemma_concat_no_line_feed(p + delim, e.1);
        lemma_concat_no_line_feed(p + delim, c);
        lemma_concat_no_line_feed(p + delim + c, delim);
        lemma_concat_no_line_feed(p + delim + c + delim, e.1);
        assert(out[i] == (e.0, expanded_name(t, e.0, e.1, delim)));
    }
    lemma_rendered_line_feeds(out);
}

} // verus!
