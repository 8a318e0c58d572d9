//! The meaning of a run: how input text splits into lines, and what text a
//! transformation produces from it.
use vstd::prelude::*;
use crate::transform::Transformer;

verus! {

/// Number of characters before the first newline of `s` (all of `s` when it
/// holds none).
pub open spec fn prefix_len(s: Seq<char>) -> nat
    decreases s.len(),
{
    if s.len() == 0 || s[0] == '\n' {
        0
    } else {
        1 + prefix_len(s.drop_first())
    }
}

/// The first line of `s` as read from a stream: every character up to and
/// including the first newline, or all of `s` when it holds none.
pub open spec fn raw_line(s: Seq<char>) -> Seq<char> {
    if prefix_len(s) < s.len() {
        s.take(prefix_len(s) + 1int)
    } else {
        s
    }
}

/// `l` without its trailing newline, if it has one.
pub open spec fn strip_newline(l: Seq<char>) -> Seq<char> {
    if l.len() > 0 && l.last() == '\n' {
        l.drop_last()
    } else {
        l
    }
}

/// The logical lines of `s`, without terminators. A newline ends a line; a
/// final run of characters with no newline after it is a line too, while an
/// empty remainder after the last newline is not.
pub open spec fn lines(s: Seq<char>) -> Seq<Seq<char>>
    decreases s.len(),
{
    if s.len() == 0 {
        Seq::empty()
    } else if prefix_len(s) < s.len() {
        seq![s.take(prefix_len(s) as int)] + lines(s.skip(prefix_len(s) + 1int))
    } else {
        seq![s]
    }
}

/// True when `s` holds no newline.
pub open spec fn no_newline(s: Seq<char>) -> bool {
    forall|i: int| 0 <= i < s.len() ==> s[i] != '\n'
}

/// True when `s` consists of whole lines: it is empty or ends in a newline.
pub open spec fn whole_lines(s: Seq<char>) -> bool {
    s.len() == 0 || s.last() == '\n'
}

/// What one line contributes to the output: the transformed text and a
/// newline, or nothing when the line is suppressed.
pub open spec fn piece<T: Transformer>(t: &T, line: Seq<char>) -> Seq<char> {
    match t.spec_apply(line) {
        Some(o) => o.push('\n'),
        None => Seq::empty(),
    }
}

/// The pieces of `ls`, concatenated in order.
pub open spec fn rendered<T: Transformer>(t: &T, ls: Seq<Seq<char>>) -> Seq<char>
    decreases ls.len(),
{
    if ls.len() == 0 {
        Seq::empty()
    } else {
        piece(t, ls[0]) + rendered(t, ls.drop_first())
    }
}

/// The text written when `t` runs over the input text `s`.
pub open spec fn output_of<T: Transformer>(t: &T, s: Seq<char>) -> Seq<char> {
    rendered(t, lines(s))
}

/// `prefix_len` stops at the first newline.
pub proof fn lemma_prefix_len(s: Seq<char>)
    ensures
        prefix_len(s) <= s.len(),
        no_newline(s.take(prefix_len(s) as int)),
        prefix_len(s) < s.len() ==> s[prefix_len(s) as int] == '\n',
    decreases s.len(),
{
    if s.len() > 0 && s[0] != '\n' {
        lemma_prefix_len(s.drop_first());
        assert forall|i: int| 0 <= i < prefix_len(s) implies s.take(prefix_len(s) as int)[i]
            != '\n' by {
            if i > 0 {
                assert(s.take(prefix_len(s) as int)[i] == s.drop_first().take(
                    prefix_len(s.drop_first()) as int,
                )[i - 1]);
            }
        }
    }
}

/// A run of `m` characters without a newline, followed by a newline or by the
/// end of `s`, is exactly the first line's content.
pub proof fn lemma_prefix_len_unique(s: Seq<char>, m: int)
    requires
        0 <= m <= s.len(),
        no_newline(s.take(m)),
        m < s.len() ==> s[m] == '\n',
    ensures
        prefix_len(s) == m,
    decreases s.len(),
{
    if m > 0 {
        assert(s[0] == s.take(m)[0]);
        assert(s.drop_first().take(m - 1) =~= s.take(m).drop_first());
        lemma_prefix_len_unique(s.drop_first(), m - 1);
    }
}

/// Reading one line from a non-empty input: the first logical line is that
/// line without its newline, and the rest are the lines of what follows.
pub proof fn lemma_lines_unfold(s: Seq<char>)
    requires
        s.len() > 0,
    ensures
        raw_line(s).len() > 0,
        raw_line(s) == s.take(raw_line(s).len() as int),
        lines(s) == seq![strip_newline(raw_line(s))] + lines(s.skip(raw_line(s).len() as int)),
{
    lemma_prefix_len(s);
    let k = prefix_len(s) as int;
    if k < s.len() {
        assert(raw_line(s).drop_last() =~= s.take(k));
    } else {
        assert(s.take(k) =~= s);
        if s.last() == '\n' {
            assert(s.take(k)[s.len() - 1] == '\n');
        }
        assert(s.skip(s.len() as int) =~= Seq::<char>::empty());
        assert(lines(Seq::<char>::empty()) =~= Seq::<Seq<char>>::empty());
    }
    assert(s.take(s.len() as int) =~= s);
}

/// `rendered` distributes over concatenation of line sequences.
pub proof fn lemma_rendered_append<T: Transformer>(t: &T, a: Seq<Seq<char>>, b: Seq<Seq<char>>)
    ensures
        rendered(t, a + b) == rendered(t, a) + rendered(t, b),
    decreases a.len(),
{
    if a.len() == 0 {
        assert(a + b =~= b);
    } else {
        assert((a + b).drop_first() =~= a.drop_first() + b);
        lemma_rendered_append(t, a.drop_first(), b);
        assert(rendered(t, a + b) =~= rendered(t, a) + rendered(t, b));
    }
}

/// Whole lines followed by more text split into the lines of each part.
pub proof fn lemma_lines_append(a: Seq<char>, b: Seq<char>)
    requires
        whole_lines(a),
    ensures
        lines(a + b) == lines(a) + lines(b),
    decreases a.len(),
{
    if a.len() == 0 {
        assert(a + b =~= b);
        assert(lines(a) + lines(b) =~= lines(b));
    } else {
        lemma_prefix_len(a);
        let k = prefix_len(a) as int;
        if k == a.len() {
            assert(a.take(k) =~= a);
            assert(a.take(k)[a.len() - 1] == '\n');
        }
        assert(k < a.len());
        assert((a + b).take(k) =~= a.take(k));
        lemma_prefix_len_unique(a + b, k);
        assert((a + b).skip(k + 1) =~= a.skip(k + 1) + b);
        let rest = a.skip(k + 1);
        if rest.len() > 0 {
            assert(rest.last() == a.last());
        }
        lemma_lines_append(rest, b);
        assert(lines(a + b) =~= lines(a) + lines(b));
    }
}

} // verus!
