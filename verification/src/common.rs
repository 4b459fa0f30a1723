//! Pieces of bodies and messages that several formats read alike.
use vstd::prelude::*;
use vstd::seq_lib::*;
use vstd::string::*;

use crate::json::{JsonObject, Obj};
use crate::llm::{blocks, BlockView, ContentBlock};

verus! {

/// The texts of `keys`.
pub open spec fn key_texts(keys: Seq<&str>) -> Seq<Seq<char>> {
    keys.map_values(|k: &str| k@)
}

/// `o` without the fields in `keys`.
pub open spec fn without(o: Obj, keys: Seq<Seq<char>>) -> Obj {
    o.remove_keys(keys.to_set())
}

proof fn lemma_without_pushed(o: Obj, keys: Seq<Seq<char>>, key: Seq<char>)
    ensures
        without(o, keys.push(key)) == without(o, keys).remove(key),
{
    keys.lemma_push_to_set_commute(key);
    assert(without(o, keys.push(key)) =~= without(o, keys).remove(key));
}

/// Takes the fields in `keys` out of `o`.
pub fn remove_all(o: &mut JsonObject, keys: &[&str])
    ensures
        final(o)@ == without(old(o)@, key_texts(keys@)),
{
    let mut i: usize = 0;
    proof {
        assert(without(o@, key_texts(keys@).take(0)) =~= o@);
    }
    while i < keys.len()
        invariant
            i <= keys@.len(),
            o@ == without(old(o)@, key_texts(keys@).take(i as int)),
        decreases keys@.len() - i,
    {
        proof {
            let texts = key_texts(keys@);
            lemma_without_pushed(old(o)@, texts.take(i as int), texts[i as int]);
            assert(texts.take(i + 1) =~= texts.take(i as int).push(texts[i as int]));
        }
        o.remove(keys[i]);
        i += 1;
    }
    assert(key_texts(keys@).take(i as int) =~= key_texts(keys@));
}

/// The fields of `body` that are not among `known`.
pub fn provider_extensions(body: &JsonObject, known: &[&str]) -> (fields: JsonObject)
    ensures
        fields@ == without(body@, key_texts(known@)),
{
    let mut fields = body.clone();
    remove_all(&mut fields, known);
    fields
}

/// The text of a block that is text.
pub open spec fn block_text(b: BlockView) -> Option<Seq<char>> {
    match b {
        BlockView::Text { text } => Some(text),
        BlockView::Refusal { text } => Some(text),
        _ => None,
    }
}

/// The texts of the blocks that are text, in order.
pub open spec fn block_texts(content: Seq<BlockView>) -> Seq<Seq<char>> {
    content.filter_map(|b: BlockView| block_text(b))
}

/// `texts` with `separator` between one and the next.
pub open spec fn joined(texts: Seq<Seq<char>>, separator: Seq<char>) -> Seq<char>
    decreases texts.len(),
{
    if texts.len() == 0 {
        Seq::empty()
    } else if texts.len() == 1 {
        texts[0]
    } else {
        joined(texts.drop_last(), separator) + separator + texts.last()
    }
}

/// The text of `content`: that of its text blocks, with `separator` between them.
pub fn text_from_blocks(content: &Vec<ContentBlock>, separator: &str) -> (text: String)
    ensures
        text@ == joined(block_texts(blocks(content@)), separator@),
{
    let ghost all = blocks(content@);
    let ghost f = |b: BlockView| block_text(b);
    let mut text = String::new();
    let mut count: usize = 0;
    let mut i: usize = 0;
    while i < content.len()
        invariant
            i <= content@.len(),
            count <= i,
            all == blocks(content@),
            f == (|b: BlockView| block_text(b)),
            count == all.take(i as int).filter_map(f).len(),
            text@ == joined(all.take(i as int).filter_map(f), separator@),
        decreases content@.len() - i,
    {
        let ghost before = all.take(i as int).filter_map(f);
        proof {
            all.lemma_filter_map_take_succ(f, i as int);
            assert(all[i as int] == content@[i as int]@);
        }
        let piece: Option<&str> = match &content[i] {
            ContentBlock::Text { text } => Some(text.as_str()),
            ContentBlock::Refusal { text } => Some(text.as_str()),
            _ => None,
        };
        match piece {
            Some(t) => {
                if count > 0 {
                    text.append(separator);
                }
                text.append(t);
                count += 1;
                proof {
                    let after = all.take(i + 1).filter_map(f);
                    assert(after =~= before.push(t@));
                    assert(after.drop_last() =~= before);
                    assert(text@ =~= joined(after, separator@));
                }
            },
            None => {
                assert(all.take(i + 1).filter_map(f) =~= before);
            },
        }
        i += 1;
    }
    assert(all.take(i as int) =~= all);
    text
}

} // verus!
