//! Extraction of the JSON payload that a model wraps in a markdown code block.

use vstd::prelude::*;
use crate::text::{
    borderless, chars_of, occurs_in, find_from, first_index_of, is_first_match,
    lemma_borderless_first_match, lemma_first_index_of_cases, lemma_first_index_of_is, suffix_from,
};

verus! {

/// The line that opens a markdown JSON code block.
pub open spec fn json_fence_open() -> Seq<char> {
    seq!['`', '`', '`', 'j', 's', 'o', 'n', '\n']
}

/// The line break and backticks that close a markdown code block.
pub open spec fn json_fence_close() -> Seq<char> {
    seq!['\n', '`', '`', '`']
}

/// What `extract_json` gives back for `s`: the text after the first opening
/// fence up to the first closing fence after it (or to the end when no
/// closing fence follows); all of `s` when it holds no opening fence.
pub open spec fn extracted_json(s: Seq<char>) -> Seq<char> {
    match first_index_of(s, json_fence_open()) {
        Some(i) => {
            let content = suffix_from(s, i + json_fence_open().len());
            match first_index_of(content, json_fence_close()) {
                Some(j) => content.subrange(0, j),
                None => content,
            }
        },
        None => s,
    }
}

/// Extracts the contents of a markdown JSON code block from a model's answer.
pub fn extract_json(response_message_raw: &str) -> (r: &str)
    ensures
        r@ == extracted_json(response_message_raw@),
{
    let chars = chars_of(response_message_raw);
    let open = vec!['`', '`', '`', 'j', 's', 'o', 'n', '\n'];
    let close = vec!['\n', '`', '`', '`'];
    assert(open@ == json_fence_open());
    assert(close@ == json_fence_close());
    proof {
        assert(suffix_from(chars@, 0) =~= chars@);
        lemma_first_index_of_cases(chars@, open@);
    }
    match find_from(&chars, &open, 0) {
        Some(start_index) => {
            assert(first_index_of(chars@, open@) == Some(start_index as int));
            assert(is_first_match(chars@, open@, start_index as int));
            assert(start_index + open@.len() <= chars@.len());
            assert(chars@.len() == chars.len());
            let content_start: usize = start_index + open.len();
            let ghost content = suffix_from(chars@, content_start as int);
            proof {
                lemma_first_index_of_cases(content, close@);
            }
            match find_from(&chars, &close, content_start) {
                Some(end_index) => {
                    assert(is_first_match(content, close@, end_index - content_start));
                    let r = response_message_raw.substring_char(content_start, end_index);
                    assert(r@ =~= suffix_from(chars@, content_start as int).subrange(
                        0,
                        end_index - content_start,
                    ));
                    r
                },
                None => {
                    let r = response_message_raw.substring_char(content_start, chars.len());
                    r
                },
            }
        },
        None => response_message_raw,
    }
}

/// A text without an opening fence is returned unchanged.
pub proof fn lemma_extract_without_fence(s: Seq<char>)
    requires
        !occurs_in(s, json_fence_open()),
    ensures
        extracted_json(s) == s,
{
    lemma_first_index_of_cases(s, json_fence_open());
}

/// A block whose closing fence is missing runs to the end of the text: when
/// the text before the opening fence holds no opening fence and the text after
/// it holds no closing fence, that text is returned whole.
pub proof fn lemma_extract_unclosed_block(prefix: Seq<char>, body: Seq<char>)
    requires
        !occurs_in(prefix, json_fence_open()),
        !occurs_in(body, json_fence_close()),
    ensures
        extracted_json(prefix + json_fence_open() + body) == body,
{
    let open = json_fence_open();
    let s = prefix + open + body;
    lemma_fence_open_borderless();
    lemma_borderless_first_match(prefix, open, body);
    lemma_first_index_of_is(s, open, prefix.len() as int);
    let content = suffix_from(s, (prefix.len() + open.len()) as int);
    assert(content =~= body);
    lemma_first_index_of_cases(body, json_fence_close());
}

/// The opening fence cannot overlap itself.
pub proof fn lemma_fence_open_borderless()
    ensures
        borderless(json_fence_open()),
{
    let p = json_fence_open();
    assert forall|d: int| 0 < d < p.len() implies #[trigger] p.subrange(d, p.len() as int) != p.subrange(0, p.len() - d) by {
        assert(p.subrange(d, p.len() as int)[7 - d] == '\n');
        assert(p.subrange(0, p.len() - d)[7 - d] == p[7 - d]);
    }
}

/// The closing fence cannot overlap itself.
pub proof fn lemma_fence_close_borderless()
    ensures
        borderless(json_fence_close()),
{
    let p = json_fence_close();
    assert forall|d: int| 0 < d < p.len() implies #[trigger] p.subrange(d, p.len() as int) != p.subrange(0, p.len() - d) by {
        assert(p.subrange(d, p.len() as int)[0] == p[d]);
        assert(p.subrange(0, p.len() - d)[0] == '\n');
    }
}

/// A JSON code block is found and its contents returned whole: when the text
/// before the opening fence holds no opening fence and the contents hold no
/// closing fence, the extraction of `prefix`, the fenced `body` and any `rest`
/// is exactly `body`.
pub proof fn lemma_extract_fenced_block(prefix: Seq<char>, body: Seq<char>, rest: Seq<char>)
    requires
        !occurs_in(prefix, json_fence_open()),
        !occurs_in(body, json_fence_close()),
    ensures
        extracted_json(prefix + json_fence_open() + body + json_fence_close() + rest) == body,
{
    let open = json_fence_open();
    let close = json_fence_close();
    let tail = body + close + rest;
    let s = prefix + open + tail;
    assert(s =~= prefix + json_fence_open() + body + json_fence_close() + rest);
    lemma_fence_open_borderless();
    lemma_borderless_first_match(prefix, open, tail);
    lemma_first_index_of_is(s, open, prefix.len() as int);
    let content = suffix_from(s, (prefix.len() + open.len()) as int);
    assert(content =~= tail);
    lemma_fence_close_borderless();
    lemma_borderless_first_match(body, close, rest);
    assert(body + close + rest == tail);
    lemma_first_index_of_is(tail, close, body.len() as int);
    assert(tail.subrange(0, body.len() as int) =~= body);
}

} // verus!
