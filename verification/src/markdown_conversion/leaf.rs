//! Physical-line chunking for converted leaf values.
use crate::text::{char_vec, texts};
use vstd::prelude::*;

verus! {

/// A text cut behind each of its newlines.
pub open spec fn line_chunks(text: Seq<char>) -> Seq<Seq<char>>
    decreases text.len(),
{
    if text.len() == 0 {
        Seq::empty()
    } else {
        let before = line_chunks(text.drop_last());
        if before.len() == 0 || before.last().last() == '\n' {
            before.push(seq![text.last()])
        } else {
            before.drop_last().push(before.last().push(text.last()))
        }
    }
}

/// Splits a text at retained physical newlines without changing its
/// characters.
pub fn physical_line_chunks(text: &str) -> (r: Vec<String>)
    ensures
        texts(r@) == line_chunks(text@),
{
    let chars = char_vec(text);
    let mut chunks: Vec<String> = Vec::new();
    let mut current: String = String::new();
    let mut ended: bool = true;
    let mut i: usize = 0;
    proof {
        assert(texts(chunks@) =~= line_chunks(chars@.take(0)));
    }
    while i < chars.len()
        invariant
            i <= chars@.len(),
            chars@ == text@,
            ended ==> texts(chunks@) == line_chunks(chars@.take(i as int)) && (chunks@.len() > 0
                ==> texts(chunks@).last().last() == '\n'),
            !ended ==> texts(chunks@).push(current@) == line_chunks(chars@.take(i as int))
                && current@.len() > 0 && current@.last() != '\n',
            ended ==> current@.len() == 0,
        decreases chars@.len() - i,
    {
        let c: char = chars[i];
        let ghost before = texts(chunks@);
        let ghost piece = current@;
        proof {
            let prefix = chars@.take(i + 1);
            assert(prefix.drop_last() =~= chars@.take(i as int));
            assert(prefix.last() == c);
            assert(before.push(piece).drop_last() =~= before);
            assert(before.push(piece).last() == piece);
        }
        current.push(c);
        proof {
            if ended {
                assert(current@ =~= seq![c]);
            }
        }
        if c == '\n' {
            let ghost whole = current@;
            chunks.push(current);
            current = String::new();
            ended = true;
            proof {
                assert(texts(chunks@) =~= before.push(whole));
            }
        } else {
            ended = false;
        }
        i = i + 1;
    }
    proof {
        assert(chars@.take(chars@.len() as int) =~= chars@);
    }
    if !ended {
        let ghost before = texts(chunks@);
        let ghost whole = current@;
        chunks.push(current);
        proof {
            assert(texts(chunks@) =~= before.push(whole));
        }
    }
    chunks
}

/// Pieces put together again.
pub open spec fn joined_chunks(chunks: Seq<Seq<char>>) -> Seq<char>
    decreases chunks.len(),
{
    if chunks.len() == 0 {
        Seq::empty()
    } else {
        joined_chunks(chunks.drop_last()) + chunks.last()
    }
}

/// A line chunk: it holds a character, and a newline only as its last one.
pub open spec fn is_chunk(chunk: Seq<char>) -> bool {
    chunk.len() > 0 && forall|i: int| 0 <= i < chunk.len() - 1 ==> #[trigger] chunk[i] != '\n'
}

/// Empty input yields no chunks; every chunk is non-empty and contains at most
/// one newline, only as its last character; every chunk except possibly the
/// last ends with a newline; and putting all chunks together reproduces the
/// input.
pub proof fn line_chunks_partition(text: Seq<char>)
    ensures
        joined_chunks(line_chunks(text)) == text,
        forall|i: int| 0 <= i < line_chunks(text).len() ==> is_chunk(#[trigger] line_chunks(text)[i]),
        forall|i: int|
            0 <= i < line_chunks(text).len() - 1 ==> (#[trigger] line_chunks(text)[i]).last()
                == '\n',
        text.len() == 0 ==> line_chunks(text).len() == 0,
    decreases text.len(),
{
    if text.len() > 0 {
        let front = text.drop_last();
        let before = line_chunks(front);
        let after = line_chunks(text);
        let c = text.last();
        line_chunks_partition(front);
        if before.len() == 0 || before.last().last() == '\n' {
            assert(after.drop_last() =~= before);
            assert(after.last() =~= seq![c]);
            assert(joined_chunks(after) =~= text);
            assert forall|i: int| 0 <= i < after.len() implies is_chunk(#[trigger] after[i]) by {
                if i < before.len() {
                    assert(after[i] == before[i]);
                }
            }
            assert forall|i: int| 0 <= i < after.len() - 1 implies (#[trigger] after[i]).last()
                == '\n' by {
                assert(after[i] == before[i]);
            }
        } else {
            let piece = before.last();
            assert(after.drop_last() =~= before.drop_last());
            assert(joined_chunks(before) == joined_chunks(before.drop_last()) + piece);
            assert(joined_chunks(after) =~= joined_chunks(before.drop_last()) + piece.push(c));
            assert(joined_chunks(before.drop_last()) + piece.push(c) =~= (joined_chunks(
                before.drop_last(),
            ) + piece).push(c));
            assert(front.push(c) =~= text);
            assert(joined_chunks(after) =~= text);
            assert forall|i: int| 0 <= i < after.len() implies is_chunk(#[trigger] after[i]) by {
                if i < before.len() - 1 {
                    assert(after[i] == before[i]);
                } else {
                    assert(is_chunk(before[i]));
                    assert forall|k: int| 0 <= k < after[i].len() - 1 implies #[trigger] after[i][k]
                        != '\n' by {
                        assert(after[i][k] == piece[k]);
                    }
                }
            }
            assert forall|i: int| 0 <= i < after.len() - 1 implies (#[trigger] after[i]).last()
                == '\n' by {
                assert(after[i] == before[i]);
            }
        }
    }
}

} // verus!
