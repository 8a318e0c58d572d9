//! The read / transform / write loop.
use vstd::prelude::*;
use vstd::utf8::encode_utf8;
use crate::model::{lemma_lines_unfold, lines, output_of, piece, raw_line, strip_newline};
use crate::reader::TextReader;
use crate::transform::{push_char, Transformer};

verus! {

/// Handles one line as read from a stream (its newline, if any, included):
/// strips at most one trailing newline, applies `transformer`, and returns the
/// result followed by one newline, or `None` when the line is suppressed.
pub fn process_line<T: Transformer>(line: &str, transformer: &T) -> (r: Option<String>)
    ensures
        r is Some <==> transformer.spec_apply(strip_newline(line@)) is Some,
        r is Some ==> r->0@ == piece(transformer, strip_newline(line@)),
{
    let n = line.unicode_len();
    let content: &str = if n > 0 && line.get_char(n - 1) == '\n' {
        line.substring_char(0, n - 1)
    } else {
        line
    };
    assert(content@ =~= strip_newline(line@));
    match transformer.apply(content) {
        Some(text) => {
            let mut out = text;
            push_char(&mut out, '\n');
            Some(out)
        },
        None => None,
    }
}

/// UTF-8 encoding distributes over concatenation.
proof fn lemma_encode_append(a: Seq<char>, b: Seq<char>)
    ensures
        encode_utf8(a + b) == encode_utf8(a) + encode_utf8(b),
    decreases a.len(),
{
    if a.len() == 0 {
        assert(a + b =~= b);
        assert(encode_utf8(a) =~= Seq::<u8>::empty());
        assert(encode_utf8(a) + encode_utf8(b) =~= encode_utf8(b));
    } else {
        assert((a + b).drop_first() =~= a.drop_first() + b);
        lemma_encode_append(a.drop_first(), b);
        assert((a + b)[0] == a[0]);
        assert(encode_utf8(a + b) =~= encode_utf8(a) + encode_utf8(b));
    }
}

/// Appends the UTF-8 bytes of `text` to `writer`.
fn write_text(writer: &mut Vec<u8>, text: &str)
    ensures
        final(writer)@ == old(writer)@ + encode_utf8(text@),
{
    let bytes = text.as_bytes();
    let mut i: usize = 0;
    while i < bytes.len()
        invariant
            i <= bytes@.len(),
            bytes@ == encode_utf8(text@),
            writer@ == old(writer)@ + bytes@.take(i as int),
        decreases bytes@.len() - i,
    {
        writer.push(bytes[i]);
        i = i + 1;
        assert(writer@ =~= old(writer)@ + bytes@.take(i as int));
    }
    assert(bytes@.take(i as int) =~= bytes@);
}

/// Reads `reader` to its end, applying `transformer` to each line and
/// writing each produced value, followed by a newline, to `writer` as UTF-8.
/// Suppressed lines produce nothing.
pub fn handle<T: Transformer>(reader: &mut TextReader, writer: &mut Vec<u8>, transformer: &T)
    ensures
        final(reader)@.len() == 0,
        final(writer)@ == old(writer)@ + encode_utf8(output_of(transformer, old(reader)@)),
{
    let ghost total = output_of(transformer, reader@);
    let ghost done: Seq<char> = Seq::empty();
    assert(writer@ =~= old(writer)@ + encode_utf8(done));
    loop
        invariant
            total == output_of(transformer, old(reader)@),
            total == done + output_of(transformer, reader@),
            writer@ == old(writer)@ + encode_utf8(done),
        ensures
            reader@.len() == 0,
            writer@ == old(writer)@ + encode_utf8(total),
        decreases reader@.len(),
    {
        let ghost s = reader@;
        let mut line = String::new();
        let n = reader.read_line(&mut line);
        if n == 0 {
            assert(lines(s) =~= Seq::<Seq<char>>::empty());
            assert(done + output_of(transformer, s) =~= done);
            break;
        }
        proof {
            lemma_lines_unfold(s);
            assert(line@ =~= raw_line(s));
            let ls = lines(s);
            assert(ls.drop_first() =~= lines(reader@));
            assert(output_of(transformer, s) == piece(transformer, strip_newline(line@))
                + output_of(transformer, reader@));
        }
        let ghost p = piece(transformer, strip_newline(line@));
        match process_line(line.as_str(), transformer) {
            Some(text) => {
                write_text(writer, text.as_str());
            },
            None => {},
        }
        proof {
            lemma_encode_append(done, p);
            assert(p.len() == 0 ==> done + p =~= done);
            assert(done + p + output_of(transformer, reader@) =~= done + (p + output_of(transformer, reader@)));
            done = done + p;
        }
    }
}

} // verus!
