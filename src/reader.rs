//! An in-memory text source read sequentially, line by line.
use vstd::prelude::*;
use crate::model::{lemma_prefix_len, lemma_prefix_len_unique, prefix_len, raw_line};
use crate::transform::{chars_of, push_char};

verus! {

/// Text consumed from the front, one line at a time. Its view is the text
/// not yet read.
pub struct TextReader {
    chars: Vec<char>,
    pos: usize,
}

impl View for TextReader {
    type V = Seq<char>;

    closed spec fn view(&self) -> Seq<char> {
        self.chars@.skip(self.pos as int)
    }
}

impl TextReader {
    #[verifier::type_invariant]
    spec fn inv(&self) -> bool {
        self.pos <= self.chars.len()
    }

    /// A reader positioned at the start of `text`.
    pub fn new(text: &str) -> (r: TextReader)
        ensures
            r@ == text@,
    {
        let chars = chars_of(text);
        let r = TextReader { chars, pos: 0 };
        assert(r@ =~= text@);
        r
    }

    /// Appends the next line to `buf`, its newline included when it has one,
    /// and returns the number of characters read. Returns 0, reading
    /// nothing, only when the text is used up.
    pub fn read_line(&mut self, buf: &mut String) -> (n: usize)
        ensures
            n == raw_line(old(self)@).len(),
            n == 0 <==> old(self)@.len() == 0,
            final(buf)@ == old(buf)@ + raw_line(old(self)@),
            final(self)@ == old(self)@.skip(n as int),
    {
        proof {
            use_type_invariant(&*self);
        }
        let ghost s = self@;
        let len = self.chars.len();
        let start = self.pos;
        let mut j: usize = start;
        while j < len && self.chars[j] != '\n'
            invariant
                start <= j <= len,
                len == self.chars.len(),
                s == self.chars@.skip(start as int),
                no_newline_range(self.chars@, start as int, j as int),
                buf@ == old(buf)@ + self.chars@.subrange(start as int, j as int),
            decreases len - j,
        {
            push_char(buf, self.chars[j]);
            j = j + 1;
            assert(buf@ =~= old(buf)@ + self.chars@.subrange(start as int, j as int));
        }
        let m = j - start;
        assert(s.take(m as int) =~= self.chars@.subrange(start as int, j as int));
        proof {
            lemma_prefix_len_unique(s, m as int);
            lemma_prefix_len(s);
        }
        if j < len {
            push_char(buf, '\n');
            j = j + 1;
            assert(buf@ =~= old(buf)@ + raw_line(s));
        } else {
            assert(s.take(m as int) =~= s);
        }
        self.pos = j;
        assert(self@ =~= s.skip((j - start) as int));
        j - start
    }

    /// Appends all the remaining text to `buf` and returns its length in
    /// characters.
    pub fn read_to_string(&mut self, buf: &mut String) -> (n: usize)
        ensures
            n == old(self)@.len(),
            final(buf)@ == old(buf)@ + old(self)@,
            final(self)@.len() == 0,
    {
        proof {
            use_type_invariant(&*self);
        }
        let ghost s = self@;
        let len = self.chars.len();
        let start = self.pos;
        let mut j: usize = start;
        while j < len
            invariant
                start <= j <= len,
                len == self.chars.len(),
                s == self.chars@.skip(start as int),
                buf@ == old(buf)@ + self.chars@.subrange(start as int, j as int),
            decreases len - j,
        {
            push_char(buf, self.chars[j]);
            j = j + 1;
            assert(buf@ =~= old(buf)@ + self.chars@.subrange(start as int, j as int));
        }
        assert(s =~= self.chars@.subrange(start as int, len as int));
        self.pos = len;
        len - start
    }
}

/// No newline among `s[from..to]`.
spec fn no_newline_range(s: Seq<char>, from: int, to: int) -> bool {
    forall|i: int| from <= i < to ==> s[i] != '\n'
}

} // verus!
