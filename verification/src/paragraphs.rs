//! Splitting text at a separator, and the paragraphs of a prompt file.

use vstd::prelude::*;
use crate::text::{
    chars_of, occurs_in, find_from, first_index_of, lemma_first_index_of_cases,
    matches_at, string_from, suffix_from,
};
use crate::secrets::lemma_suffix_of_suffix;

verus! {

/// The pieces of `s` between the occurrences of the non-empty separator `p`,
/// found from left to right without overlap, as `str::split` yields them.
pub open spec fn split_on(s: Seq<char>, p: Seq<char>) -> Seq<Seq<char>>
    decreases s.len(),
{
    if p.len() == 0 {
        seq![s]
    } else {
        match first_index_of(s, p) {
            Some(i) => seq![s.subrange(0, i)] + split_on(suffix_from(s, i + p.len()), p),
            None => seq![s],
        }
    }
}

/// `parts` joined with `sep` between each two of them.
pub open spec fn join_with(parts: Seq<Seq<char>>, sep: Seq<char>) -> Seq<char>
    decreases parts.len(),
{
    if parts.len() == 0 {
        seq![]
    } else if parts.len() == 1 {
        parts[0]
    } else {
        parts[0] + sep + join_with(parts.drop_first(), sep)
    }
}

/// The separator between the paragraphs of a prompt file: an empty line.
pub open spec fn paragraph_separator() -> Seq<char> {
    seq!['\n', '\n']
}

/// Splitting always yields at least one piece.
pub proof fn lemma_split_on_nonempty(s: Seq<char>, p: Seq<char>)
    ensures
        split_on(s, p).len() >= 1,
    decreases s.len(),
{
    if p.len() > 0 {
        lemma_first_index_of_cases(s, p);
    }
}

/// Splitting undoes joining and the pieces hold no separator: joining the
/// pieces of `s` with the non-empty `p` gives back `s`, and no piece contains
/// `p`.
pub proof fn lemma_split_join(s: Seq<char>, p: Seq<char>)
    requires
        p.len() > 0,
    ensures
        join_with(split_on(s, p), p) == s,
        forall|k: int| 0 <= k < split_on(s, p).len() ==> !occurs_in(#[trigger] split_on(s, p)[k], p),
    decreases s.len(),
{
    lemma_first_index_of_cases(s, p);
    match first_index_of(s, p) {
        Some(i) => {
            let head = s.subrange(0, i);
            let rest = suffix_from(s, i + p.len());
            lemma_split_join(rest, p);
            lemma_split_on_nonempty(rest, p);
            let pieces = split_on(s, p);
            assert(pieces == seq![head] + split_on(rest, p));
            assert(pieces.drop_first() =~= split_on(rest, p));
            assert(pieces[0] == head);
            assert(s.subrange(i, i + p.len()) == p);
            assert(join_with(pieces, p) =~= s);
            assert(!occurs_in(head, p)) by {
                if occurs_in(head, p) {
                    let j = choose|j: int| matches_at(head, p, j);
                    assert(s.subrange(j, j + p.len()) =~= head.subrange(j, j + p.len()));
                    assert(matches_at(s, p, j));
                }
            }
            assert forall|k: int| 0 <= k < pieces.len() implies !occurs_in(#[trigger] pieces[k], p) by {
                if k > 0 {
                    assert(pieces[k] == split_on(rest, p)[k - 1]);
                }
            }
        },
        None => {},
    }
}

/// Splits `content` at each occurrence of `separator`, as `str::split` does.
pub fn split_at_separator(content: &str, separator: &[char]) -> (r: Vec<String>)
    requires
        separator@.len() > 0,
    ensures
        r@.map_values(|l: String| l@) == split_on(content@, separator@),
{
    let chars = chars_of(content);
    let mut r: Vec<String> = Vec::new();
    let mut start: usize = 0;
    assert(suffix_from(chars@, 0) =~= chars@);
    loop
        invariant
            start <= chars@.len(),
            chars@ == content@,
            separator@.len() > 0,
            r@.map_values(|l: String| l@) + split_on(suffix_from(chars@, start as int), separator@)
                == split_on(content@, separator@),
        decreases chars.len() - start,
    {
        let ghost rest = suffix_from(chars@, start as int);
        proof {
            lemma_first_index_of_cases(rest, separator@);
        }
        let ghost before = r@.map_values(|l: String| l@);
        match find_from(&chars, separator, start) {
            Some(end) => {
                let piece = string_from(&chars, start, end);
                proof {
                    let i: int = end - start;
                    assert(rest.subrange(0, i) =~= chars@.subrange(start as int, end as int));
                    lemma_suffix_of_suffix(chars@, start as int, i + separator@.len());
                }
                r.push(piece);
                assert(r@.map_values(|l: String| l@) =~= before.push(piece@));
                assert(chars@.len() == chars.len());
                start = end + separator.len();
            },
            None => {
                let piece = string_from(&chars, start, chars.len());
                r.push(piece);
                assert(r@.map_values(|l: String| l@) =~= before.push(piece@));
                assert(split_on(rest, separator@) == seq![rest]);
                assert(before + seq![rest] =~= before.push(piece@));
                return r;
            },
        }
    }
}

/// The paragraphs of a prompt file: its text split at each empty line
/// (each `"\n\n"`).
pub fn split_paragraphs(content: &str) -> (r: Vec<String>)
    ensures
        r@.map_values(|l: String| l@) == split_on(content@, paragraph_separator()),
{
    let separator = vec!['\n', '\n'];
    assert(separator@ == paragraph_separator());
    split_at_separator(content, &separator)
}

} // verus!
