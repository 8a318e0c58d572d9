//! General properties of a run, stated over `output_of`.
use vstd::prelude::*;
use crate::model::{
    lemma_lines_append, lemma_prefix_len_unique, lemma_rendered_append, lines, no_newline,
    output_of, piece, rendered, whole_lines,
};
use crate::transform::Transformer;

verus! {

/// The lines of a single line `l` (no newline inside) followed by a newline.
proof fn lemma_lines_of_terminated(l: Seq<char>)
    requires
        no_newline(l),
    ensures
        lines(l.push('\n')) == seq![l],
{
    let s = l.push('\n');
    assert(s.take(l.len() as int) =~= l);
    lemma_prefix_len_unique(s, l.len() as int);
    assert(s.skip(l.len() + 1int) =~= Seq::<char>::empty());
    assert(lines(Seq::<char>::empty()) =~= Seq::<Seq<char>>::empty());
    assert(lines(s) =~= seq![l]);
}

/// The lines of a non-empty final line `l` with no newline at all.
proof fn lemma_lines_of_unterminated(l: Seq<char>)
    requires
        no_newline(l),
        l.len() > 0,
    ensures
        lines(l) == seq![l],
{
    assert(l.take(l.len() as int) =~= l);
    lemma_prefix_len_unique(l, l.len() as int);
}

/// The output of a single line.
proof fn lemma_rendered_single<T: Transformer>(t: &T, l: Seq<char>)
    ensures
        rendered(t, seq![l]) == piece(t, l),
{
    assert(seq![l].drop_first() =~= Seq::<Seq<char>>::empty());
    assert(rendered(t, seq![l].drop_first()) == Seq::<char>::empty());
    assert(seq![l][0] == l);
    assert(piece(t, l) + Seq::<char>::empty() =~= piece(t, l));
}

/// Order is kept: when `a` consists of whole lines, the output for `a`
/// followed by `b` is the output for `a` followed by the output for `b`.
pub proof fn lemma_order_preserved<T: Transformer>(t: &T, a: Seq<char>, b: Seq<char>)
    requires
        whole_lines(a),
    ensures
        output_of(t, a + b) == output_of(t, a) + output_of(t, b),
{
    lemma_lines_append(a, b);
    lemma_rendered_append(t, lines(a), lines(b));
}

/// A line whose transformation yields no value leaves no trace: the output is
/// the same as if the line, with or without its newline, were not there at
/// all, so no blank line stands in for it.
pub proof fn lemma_suppressed_line_vanishes<T: Transformer>(
    t: &T,
    a: Seq<char>,
    l: Seq<char>,
    b: Seq<char>,
)
    requires
        whole_lines(a),
        no_newline(l),
        t.spec_apply(l) is None,
    ensures
        output_of(t, a + l.push('\n') + b) == output_of(t, a + b),
        output_of(t, a + l) == output_of(t, a),
{
    let tl = l.push('\n');
    lemma_lines_of_terminated(l);
    lemma_rendered_single(t, l);
    assert(output_of(t, tl) =~= Seq::<char>::empty());
    assert(whole_lines(a + tl));
    lemma_order_preserved(t, a + tl, b);
    lemma_order_preserved(t, a, tl);
    lemma_order_preserved(t, a, b);
    assert(output_of(t, a) + Seq::<char>::empty() =~= output_of(t, a));
    lemma_order_preserved(t, a, l);
    if l.len() > 0 {
        lemma_lines_of_unterminated(l);
    } else {
        assert(lines(l) =~= Seq::<Seq<char>>::empty());
    }
    assert(output_of(t, l) =~= Seq::<char>::empty());
}

/// A line whose transformation yields `o` contributes `o` and exactly one
/// newline, whether or not the line had a newline in the input.
pub proof fn lemma_newline_normalized<T: Transformer>(t: &T, a: Seq<char>, l: Seq<char>)
    requires
        whole_lines(a),
        no_newline(l),
        t.spec_apply(l) is Some,
    ensures
        output_of(t, a + l.push('\n')) == output_of(t, a) + t.spec_apply(l)->0.push('\n'),
        l.len() > 0 ==> output_of(t, a + l) == output_of(t, a) + t.spec_apply(l)->0.push('\n'),
{
    lemma_lines_of_terminated(l);
    lemma_rendered_single(t, l);
    lemma_order_preserved(t, a, l.push('\n'));
    if l.len() > 0 {
        lemma_lines_of_unterminated(l);
        lemma_order_preserved(t, a, l);
    }
}

/// Every non-empty output ends in a newline.
pub proof fn lemma_output_ends_in_newline<T: Transformer>(t: &T, s: Seq<char>)
    ensures
        whole_lines(output_of(t, s)),
{
    lemma_rendered_ends_in_newline(t, lines(s));
}

proof fn lemma_rendered_ends_in_newline<T: Transformer>(t: &T, ls: Seq<Seq<char>>)
    ensures
        whole_lines(rendered(t, ls)),
    decreases ls.len(),
{
    if ls.len() > 0 {
        lemma_rendered_ends_in_newline(t, ls.drop_first());
        let p = piece(t, ls[0]);
        let r = rendered(t, ls.drop_first());
        if r.len() > 0 {
            assert((p + r).last() == r.last());
        } else {
            assert(p + r =~= p);
        }
    }
}

} // verus!
