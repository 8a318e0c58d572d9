use vstd::prelude::*;

verus! {

/// A stateless per-line transformation.
///
/// `apply` receives one line without its terminator and returns the text to
/// emit for it, or `None` when the line is to be suppressed. Its result is a
/// function of the line alone, given by `spec_apply`.
pub trait Transformer {
    /// The value `apply` produces for `line`.
    spec fn spec_apply(&self, line: Seq<char>) -> Option<Seq<char>>;

    fn apply(&self, line: &str) -> (r: Option<String>)
        ensures
            match r {
                Some(s) => self.spec_apply(line@) == Some(s@),
                None => self.spec_apply(line@) is None,
            },
    ;
}

/// Emits every line with its characters in reverse order; suppresses nothing.
pub struct Reverser;

/// Emits lines whose length in characters is even, unchanged, and suppresses
/// the others.
pub struct EvenLengthFilter;

/// Relies on `String::push`: appends one character.
#[verifier::external_body]
pub(crate) fn push_char(s: &mut String, c: char)
    ensures
        final(s)@ == old(s)@.push(c),
{
    s.push(c)
}

/// The characters of `s`, in order.
pub(crate) fn chars_of(s: &str) -> (r: Vec<char>)
    ensures
        r@ == s@,
{
    broadcast use vstd::string::axiom_spec_iter;

    let mut v: Vec<char> = Vec::new();
    for c in it: s.chars()
        invariant
            v@ == it.seq().take(it.index() as int),
    {
        v.push(c);
    }
    v
}

impl Transformer for Reverser {
    open spec fn spec_apply(&self, line: Seq<char>) -> Option<Seq<char>> {
        Some(line.reverse())
    }

    fn apply(&self, line: &str) -> (r: Option<String>) {
        let cs = chars_of(line);
        let mut out = String::new();
        let mut i: usize = cs.len();
        while i > 0
            invariant
                i <= cs@.len(),
                out@ =~= cs@.reverse().take(cs@.len() - i),
            decreases i,
        {
            i = i - 1;
            push_char(&mut out, cs[i]);
        }
        assert(out@ =~= line@.reverse());
        Some(out)
    }
}

impl Transformer for EvenLengthFilter {
    open spec fn spec_apply(&self, line: Seq<char>) -> Option<Seq<char>> {
        if line.len() % 2 == 0 {
            Some(line)
        } else {
            None
        }
    }

    fn apply(&self, line: &str) -> (r: Option<String>) {
        if line.unicode_len() % 2 == 0 {
            Some(line.to_owned())
        } else {
            None
        }
    }
}

/// Reversing a line twice gives the line back.
pub proof fn lemma_reverse_twice(line: Seq<char>)
    ensures
        Reverser.spec_apply(Reverser.spec_apply(line)->0) == Some(line),
{
    assert(line.reverse().reverse() =~= line);
}

} // verus!
