//! Lines of text, and the `KEY=value` secrets file read at start-up.

use vstd::prelude::*;
use crate::text::{
    chars_of, find_from, first_index_of, is_first_match, lemma_first_index_of_cases,
    lemma_first_index_of_is, matches_at, range_equals, string_from, suffix_from,
};

verus! {

/// `line` without one trailing carriage return.
pub open spec fn strip_cr(line: Seq<char>) -> Seq<char> {
    if line.len() > 0 && line.last() == '\r' {
        line.drop_last()
    } else {
        line
    }
}

/// The lines of `s` as `str::lines` yields them: split at each `'\n'`, a
/// carriage return right before it dropped; a final line ending yields no
/// empty last line, and the empty text has no lines.
pub open spec fn text_lines(s: Seq<char>) -> Seq<Seq<char>>
    decreases s.len(),
{
    if s.len() == 0 {
        seq![]
    } else {
        match first_index_of(s, seq!['\n']) {
            Some(i) => seq![strip_cr(s.subrange(0, i))] + text_lines(suffix_from(s, i + 1)),
            None => seq![s],
        }
    }
}

/// `line` split at its first `'='`, as `str::split_once('=')` does.
pub open spec fn split_at_equals(line: Seq<char>) -> Option<(Seq<char>, Seq<char>)> {
    match first_index_of(line, seq!['=']) {
        Some(i) => Some((line.subrange(0, i), suffix_from(line, i + 1))),
        None => None,
    }
}

/// The value of the first line of the form `key=value` among `lines`.
pub open spec fn secret_value(lines: Seq<Seq<char>>, key: Seq<char>) -> Option<Seq<char>>
    decreases lines.len(),
{
    if lines.len() == 0 {
        None
    } else {
        match split_at_equals(lines[0]) {
            Some((k, v)) if k == key => Some(v),
            _ => secret_value(lines.drop_first(), key),
        }
    }
}

/// `line` is of the form `key=value` for the given `key`, split at its first
/// `'='`.
pub open spec fn line_has_key(line: Seq<char>, key: Seq<char>) -> bool {
    split_at_equals(line) matches Some(kv) && kv.0 == key
}

/// The text after the first `'='` of `line`.
pub open spec fn value_of_line(line: Seq<char>) -> Seq<char> {
    match split_at_equals(line) {
        Some(kv) => kv.1,
        None => seq![],
    }
}

/// A line splits at `'='` exactly when it holds one, and then into the text
/// before its first `'='` and the text after it.
pub proof fn lemma_split_at_equals_cases(line: Seq<char>)
    ensures
        split_at_equals(line) is None <==> !line.contains('='),
        split_at_equals(line) matches Some(kv) ==> {
            &&& line == kv.0 + seq!['='] + kv.1
            &&& !kv.0.contains('=')
        },
{
    lemma_first_index_of_cases(line, seq!['=']);
    if line.contains('=') {
        let j = choose|j: int| 0 <= j < line.len() && line[j] == '=';
        assert(line.subrange(j, j + 1) =~= seq!['=']);
        assert(matches_at(line, seq!['='], j));
    } else {
        assert forall|j: int| !matches_at(line, seq!['='], j) by {
            if matches_at(line, seq!['='], j) {
                assert(line.subrange(j, j + 1)[0] == line[j]);
            }
        }
    }
    if let Some(kv) = split_at_equals(line) {
        let i = first_index_of(line, seq!['='])->0;
        assert(is_first_match(line, seq!['='], i));
        assert(line.subrange(i, i + 1)[0] == line[i]);
        assert(line =~= kv.0 + seq!['='] + kv.1);
        if kv.0.contains('=') {
            let j = choose|j: int| 0 <= j < kv.0.len() && kv.0[j] == '=';
            assert(line.subrange(j, j + 1) =~= seq!['=']);
            assert(matches_at(line, seq!['='], j));
        }
    }
}

/// A line `key=value` whose key holds no `'='` splits into that key and value.
pub proof fn lemma_split_at_equals_of(k: Seq<char>, v: Seq<char>)
    requires
        !k.contains('='),
    ensures
        split_at_equals(k + seq!['='] + v) == Some((k, v)),
{
    let line = k + seq!['='] + v;
    lemma_first_char_after(k, '=', v);
    assert(line.subrange(0, k.len() as int) =~= k);
    assert(suffix_from(line, k.len() as int + 1) =~= v);
}

/// The looked-up value belongs to the first line that names the key: the
/// lookup gives nothing exactly when no line is `key=...`, and otherwise the
/// text after the first `'='` of the first such line, whatever other lines
/// (blank lines, comments, other keys) come before it.
pub proof fn lemma_secret_value_first_key_line(lines: Seq<Seq<char>>, key: Seq<char>)
    ensures
        secret_value(lines, key) is None <==> forall|i: int|
            0 <= i < lines.len() ==> !line_has_key(#[trigger] lines[i], key),
        secret_value(lines, key) matches Some(v) ==> exists|i: int|
            {
                &&& 0 <= i < lines.len()
                &&& line_has_key(#[trigger] lines[i], key)
                &&& value_of_line(lines[i]) == v
                &&& forall|j: int| 0 <= j < i ==> !line_has_key(#[trigger] lines[j], key)
            },
    decreases lines.len(),
{
    if lines.len() > 0 {
        let rest = lines.drop_first();
        lemma_secret_value_first_key_line(rest, key);
        assert forall|i: int| 0 <= i < rest.len() implies #[trigger] rest[i] == lines[i + 1] by {}
        if line_has_key(lines[0], key) {
            assert(secret_value(lines, key) == Some(value_of_line(lines[0])));
        } else {
            assert(secret_value(lines, key) == secret_value(rest, key));
            if secret_value(rest, key) is None {
                assert forall|i: int| 0 <= i < lines.len() implies !line_has_key(#[trigger] lines[i], key) by {
                    if i > 0 {
                        assert(lines[i] == rest[i - 1]);
                    }
                }
            } else {
                let v = secret_value(rest, key)->0;
                let i = choose|i: int|
                    {
                        &&& 0 <= i < rest.len()
                        &&& line_has_key(#[trigger] rest[i], key)
                        &&& value_of_line(rest[i]) == v
                        &&& forall|j: int| 0 <= j < i ==> !line_has_key(#[trigger] rest[j], key)
                    };
                assert(lines[i + 1] == rest[i]);
                assert forall|j: int| 0 <= j < i + 1 implies !line_has_key(#[trigger] lines[j], key) by {
                    if j > 0 {
                        assert(lines[j] == rest[j - 1]);
                    }
                }
            }
        }
    }
}

/// Lines without `'='` (blank lines, comments) are skipped: inserting such a
/// line anywhere among the lines does not change the value looked up.
pub proof fn lemma_secret_value_skips_lines_without_equals(
    lines: Seq<Seq<char>>,
    k: int,
    x: Seq<char>,
    key: Seq<char>,
)
    requires
        0 <= k <= lines.len(),
        !x.contains('='),
    ensures
        secret_value(lines.insert(k, x), key) == secret_value(lines, key),
    decreases k,
{
    lemma_split_at_equals_cases(x);
    let ins = lines.insert(k, x);
    if k == 0 {
        assert(ins[0] == x);
        assert(ins.drop_first() =~= lines);
    } else {
        assert(ins[0] == lines[0]);
        assert(ins.drop_first() =~= lines.drop_first().insert(k - 1, x));
        lemma_secret_value_skips_lines_without_equals(lines.drop_first(), k - 1, x, key);
    }
}

/// Lines end at each line feed: a text made of a line `a` free of line feeds,
/// a line feed and more text has `a` (without a final carriage return) as its
/// first line and the lines of the rest after it.
pub proof fn lemma_text_lines_first_line(a: Seq<char>, b: Seq<char>)
    requires
        !a.contains('\n'),
    ensures
        text_lines(a + seq!['\n'] + b) == seq![strip_cr(a)] + text_lines(b),
{
    let s = a + seq!['\n'] + b;
    lemma_first_char_after(a, '\n', b);
    assert(s.subrange(0, a.len() as int) =~= a);
    assert(suffix_from(s, a.len() as int + 1) =~= b);
}

/// A non-empty text without line feed is one line, kept whole.
pub proof fn lemma_text_lines_last_line(a: Seq<char>)
    requires
        a.len() > 0,
        !a.contains('\n'),
    ensures
        text_lines(a) == seq![a],
{
    lemma_first_index_of_cases(a, seq!['\n']);
    assert forall|j: int| !matches_at(a, seq!['\n'], j) by {
        if matches_at(a, seq!['\n'], j) {
            assert(a.subrange(j, j + 1)[0] == a[j]);
        }
    }
}

/// Suffixes of suffixes are suffixes.
pub proof fn lemma_suffix_of_suffix(s: Seq<char>, a: int, b: int)
    requires
        0 <= a,
        0 <= b,
        a + b <= s.len(),
    ensures
        suffix_from(suffix_from(s, a), b) == suffix_from(s, a + b),
{
    assert(suffix_from(suffix_from(s, a), b) =~= suffix_from(s, a + b));
}

/// Splits `text` into its lines, as `str::lines` does.
pub fn split_lines(text: &str) -> (r: Vec<String>)
    ensures
        r@.map_values(|l: String| l@) == text_lines(text@),
{
    let chars = chars_of(text);
    let newline = vec!['\n'];
    assert(newline@ == seq!['\n']);
    let mut r: Vec<String> = Vec::new();
    let mut start: usize = 0;
    assert(suffix_from(chars@, 0) =~= chars@);
    while start < chars.len()
        invariant
            start <= chars@.len(),
            chars@ == text@,
            newline@ == seq!['\n'],
            r@.map_values(|l: String| l@) + text_lines(suffix_from(chars@, start as int))
                == text_lines(text@),
        decreases chars.len() - start,
    {
        let ghost rest = suffix_from(chars@, start as int);
        proof {
            lemma_first_index_of_cases(rest, newline@);
        }
        match find_from(&chars, &newline, start) {
            Some(end) => {
                let mut line_end: usize = end;
                if line_end > start && chars[line_end - 1] == '\r' {
                    line_end = line_end - 1;
                }
                let line = string_from(&chars, start, line_end);
                proof {
                    let i: int = end - start;
                    assert(rest.subrange(0, i) =~= chars@.subrange(start as int, end as int));
                    assert(strip_cr(rest.subrange(0, i)) =~= chars@.subrange(
                        start as int,
                        line_end as int,
                    ));
                    lemma_suffix_of_suffix(chars@, start as int, i + 1);
                }
                let ghost before = r@.map_values(|l: String| l@);
                r.push(line);
                assert(r@.map_values(|l: String| l@) =~= before.push(line@));
                start = end + 1;
            },
            None => {
                let line = string_from(&chars, start, chars.len());
                let ghost before = r@.map_values(|l: String| l@);
                r.push(line);
                assert(r@.map_values(|l: String| l@) =~= before.push(line@));
                assert(suffix_from(chars@, chars@.len() as int) =~= Seq::<char>::empty());
                start = chars.len();
            },
        }
    }
    assert(suffix_from(chars@, start as int) =~= Seq::<char>::empty());
    assert(r@.map_values(|l: String| l@) + Seq::<Seq<char>>::empty() =~= r@.map_values(
        |l: String| l@,
    ));
    r
}

/// The value that the secrets file `content` gives for `key`: the text after
/// the first `'='` of the first line whose text before its first `'='` is
/// `key`.
pub fn lookup_secret(content: &str, key: &str) -> (r: Option<String>)
    ensures
        r is None <==> secret_value(text_lines(content@), key@) is None,
        r matches Some(v) ==> secret_value(text_lines(content@), key@) == Some(v@),
        r is None <==> forall|i: int|
            0 <= i < text_lines(content@).len() ==> !line_has_key(
                #[trigger] text_lines(content@)[i],
                key@,
            ),
        r matches Some(v) ==> exists|i: int|
            {
                &&& 0 <= i < text_lines(content@).len()
                &&& line_has_key(#[trigger] text_lines(content@)[i], key@)
                &&& value_of_line(text_lines(content@)[i]) == v@
                &&& forall|j: int|
                    0 <= j < i ==> !line_has_key(#[trigger] text_lines(content@)[j], key@)
            },
{
    proof {
        lemma_secret_value_first_key_line(text_lines(content@), key@);
    }
    let lines = split_lines(content);
    let key_chars = chars_of(key);
    let equals = vec!['='];
    assert(equals@ == seq!['=']);
    let ghost all = lines@.map_values(|l: String| l@);
    let mut i: usize = 0;
    assert(all.subrange(0, all.len() as int) =~= all);
    while i < lines.len()
        invariant
            i <= lines@.len(),
            all == lines@.map_values(|l: String| l@),
            all == text_lines(content@),
            key_chars@ == key@,
            equals@ == seq!['='],
            secret_value(all.subrange(i as int, all.len() as int), key@) == secret_value(all, key@),
        decreases lines.len() - i,
    {
        let ghost rest = all.subrange(i as int, all.len() as int);
        assert(rest[0] == lines@[i as int]@);
        assert(rest.drop_first() =~= all.subrange(i + 1, all.len() as int));
        let line = chars_of(lines[i].as_str());
        assert(suffix_from(line@, 0) =~= line@);
        proof {
            lemma_first_index_of_cases(line@, equals@);
        }
        match find_from(&line, &equals, 0) {
            Some(at) => {
                assert(split_at_equals(line@) == Some((line@.subrange(0, at as int), suffix_from(line@, at + 1))));
                assert(line@.len() == line.len());
                if range_equals(&line, 0, at, &key_chars) {
                    let v = string_from(&line, at + 1, line.len());
                    proof {
                        lemma_secret_value_first_key_line(text_lines(content@), key@);
                    }
                    return Some(v);
                }
            },
            None => {},
        }
        i = i + 1;
    }
    assert(all.subrange(i as int, all.len() as int) =~= Seq::<Seq<char>>::empty());
    None
}

/// A secrets file as written from `(key, value)` pairs: one `key=value` line
/// per pair, each ended by a line feed.
pub open spec fn render_secrets(pairs: Seq<(Seq<char>, Seq<char>)>) -> Seq<char>
    decreases pairs.len(),
{
    if pairs.len() == 0 {
        seq![]
    } else {
        pairs[0].0 + seq!['='] + pairs[0].1 + seq!['\n'] + render_secrets(pairs.drop_first())
    }
}

/// The value of the first pair whose key is `key`.
pub open spec fn first_value(pairs: Seq<(Seq<char>, Seq<char>)>, key: Seq<char>) -> Option<Seq<char>>
    decreases pairs.len(),
{
    if pairs.len() == 0 {
        None
    } else if pairs[0].0 == key {
        Some(pairs[0].1)
    } else {
        first_value(pairs.drop_first(), key)
    }
}

/// A pair can be written as one `key=value` line and read back.
pub open spec fn writable_pair(pair: (Seq<char>, Seq<char>)) -> bool {
    &&& !pair.0.contains('=')
    &&& !pair.0.contains('\n')
    &&& !pair.1.contains('\n')
    &&& (pair.1.len() > 0 ==> pair.1.last() != '\r')
}

/// The position of the first occurrence of the character `c` in `a + seq![c] + b`
/// when `a` does not hold it.
pub proof fn lemma_first_char_after(a: Seq<char>, c: char, b: Seq<char>)
    requires
        !a.contains(c),
    ensures
        first_index_of(a + seq![c] + b, seq![c]) == Some(a.len() as int),
{
    let s = a + seq![c] + b;
    let n: int = a.len() as int;
    assert(s.subrange(n, n + 1) =~= seq![c]);
    assert forall|j: int| 0 <= j < n implies !matches_at(s, seq![c], j) by {
        if matches_at(s, seq![c], j) {
            assert(s.subrange(j, j + 1)[0] == s[j]);
            assert(a[j] == c);
        }
    }
    assert(is_first_match(s, seq![c], n));
    lemma_first_index_of_is(s, seq![c], n);
}

/// Reading back a secrets file gives what was written: looking up `key` in the
/// rendered `pairs` yields the value of the first pair with that key, provided
/// that keys hold no `'='` and no line feed, and values hold no line feed and
/// do not end in a carriage return.
pub proof fn lemma_lookup_rendered_secrets(pairs: Seq<(Seq<char>, Seq<char>)>, key: Seq<char>)
    requires
        forall|i: int| 0 <= i < pairs.len() ==> writable_pair(#[trigger] pairs[i]),
    ensures
        secret_value(text_lines(render_secrets(pairs)), key) == first_value(pairs, key),
    decreases pairs.len(),
{
    if pairs.len() > 0 {
        let k = pairs[0].0;
        let v = pairs[0].1;
        let line = k + seq!['='] + v;
        let rest = render_secrets(pairs.drop_first());
        let s = render_secrets(pairs);
        assert(writable_pair(pairs[0]));
        assert(s =~= line + seq!['\n'] + rest);
        assert(!line.contains('\n')) by {
            if line.contains('\n') {
                let j = choose|j: int| 0 <= j < line.len() && line[j] == '\n';
                if j < k.len() {
                    assert(k[j] == '\n');
                } else if j > k.len() {
                    assert(v[j - k.len() - 1] == '\n');
                }
            }
        }
        lemma_first_char_after(line, '\n', rest);
        assert(s.subrange(0, line.len() as int) =~= line);
        assert(suffix_from(s, line.len() as int + 1) =~= rest);
        assert(line.last() != '\r');
        assert(strip_cr(line) == line);
        assert(text_lines(s) == seq![line] + text_lines(rest));
        assert((seq![line] + text_lines(rest))[0] == line);
        assert((seq![line] + text_lines(rest)).drop_first() =~= text_lines(rest));
        lemma_first_char_after(k, '=', v);
        assert(line.subrange(0, k.len() as int) =~= k);
        assert(suffix_from(line, k.len() as int + 1) =~= v);
        assert forall|i: int| 0 <= i < pairs.drop_first().len() implies writable_pair(#[trigger] pairs.drop_first()[i]) by {
            assert(pairs.drop_first()[i] == pairs[i + 1]);
        }
        lemma_lookup_rendered_secrets(pairs.drop_first(), key);
    }
}

} // verus!
