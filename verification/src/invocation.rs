//! The record of each model invocation, one CSV line per call, and the
//! durations read back from such a log.

use vstd::prelude::*;
use crate::decimal::{decimal, lemma_decimal_value, push_decimal};
use crate::gpt::GptResponseUsage;
use crate::paragraphs::{split_at_separator, split_on};
use crate::secrets::{lemma_first_char_after, split_lines, text_lines};
use crate::text::{chars_of, occurs_in, find_from, lemma_first_index_of_cases, suffix_from};

verus! {

/// The fields of an invocation record, separated by commas and ended by a
/// line feed: the time of the call in seconds since the epoch, the model, the
/// duration in milliseconds, the method, the number of messages sent, and
/// the prompt, completion and total token counts.
pub open spec fn invocation_record(
    timestamp_secs: nat,
    model: Seq<char>,
    duration_millis: nat,
    method: Seq<char>,
    prompt_quantity: nat,
    prompt_tokens: nat,
    completion_tokens: nat,
    total_tokens: nat,
) -> Seq<char> {
    decimal(timestamp_secs) + seq![','] + model + seq![','] + decimal(duration_millis) + seq![',']
        + method + seq![','] + decimal(prompt_quantity) + seq![','] + decimal(prompt_tokens)
        + seq![','] + decimal(completion_tokens) + seq![','] + decimal(total_tokens) + seq!['\n']
}

/// The CSV line that records one model invocation.
pub fn invocation_line(
    timestamp_secs: u64,
    model: &str,
    duration_millis: u128,
    method: &str,
    prompt_quantity: usize,
    usage: &GptResponseUsage,
) -> (r: String)
    ensures
        r@ == invocation_record(
            timestamp_secs as nat,
            model@,
            duration_millis as nat,
            method@,
            prompt_quantity as nat,
            usage.prompt_tokens as nat,
            usage.completion_tokens as nat,
            usage.total_tokens as nat,
        ),
{
    let mut s = String::new();
    push_decimal(&mut s, timestamp_secs as u128);
    crate::text::push_char(&mut s, ',');
    crate::text::append_chars(&mut s, &chars_of(model));
    crate::text::push_char(&mut s, ',');
    push_decimal(&mut s, duration_millis);
    crate::text::push_char(&mut s, ',');
    crate::text::append_chars(&mut s, &chars_of(method));
    crate::text::push_char(&mut s, ',');
    push_decimal(&mut s, prompt_quantity as u128);
    crate::text::push_char(&mut s, ',');
    push_decimal(&mut s, usage.prompt_tokens as u128);
    crate::text::push_char(&mut s, ',');
    push_decimal(&mut s, usage.completion_tokens as u128);
    crate::text::push_char(&mut s, ',');
    push_decimal(&mut s, usage.total_tokens as u128);
    crate::text::push_char(&mut s, '\n');
    assert(s@ =~= invocation_record(
        timestamp_secs as nat,
        model@,
        duration_millis as nat,
        method@,
        prompt_quantity as nat,
        usage.prompt_tokens as nat,
        usage.completion_tokens as nat,
        usage.total_tokens as nat,
    ));
    s
}

/// The comma-separated fields of a log line.
pub open spec fn log_fields(line: Seq<char>) -> Seq<Seq<char>> {
    split_on(line, seq![','])
}

/// The word that marks the invocations made for diagnostics.
pub open spec fn diagnostic_word() -> Seq<char> {
    seq!['d', 'i', 'a', 'g', 'n', 'o', 's', 't', 'i', 'c']
}

/// The number of log lines, from the start, that the statistics leave out.
pub const SKIPPED_LOG_LINES: usize = 526;

/// The log lines that the statistics look at: all after the first
/// `SKIPPED_LOG_LINES`.
pub open spec fn measured_lines(lines: Seq<Seq<char>>) -> Seq<Seq<char>> {
    if lines.len() <= SKIPPED_LOG_LINES {
        seq![]
    } else {
        lines.subrange(SKIPPED_LOG_LINES as int, lines.len() as int)
    }
}

/// The lines, in order, that mention the diagnostic word.
pub open spec fn diagnostic_lines(lines: Seq<Seq<char>>) -> Seq<Seq<char>>
    decreases lines.len(),
{
    if lines.len() == 0 {
        seq![]
    } else {
        (if occurs_in(lines[0], diagnostic_word()) {
            seq![lines[0]]
        } else {
            seq![]
        }) + diagnostic_lines(lines.drop_first())
    }
}

/// The third field (the duration) of each line; `None` when some line has
/// fewer than three fields.
pub open spec fn duration_fields(lines: Seq<Seq<char>>) -> Option<Seq<Seq<char>>>
    decreases lines.len(),
{
    if lines.len() == 0 {
        Some(seq![])
    } else if log_fields(lines[0]).len() < 3 {
        None
    } else {
        match duration_fields(lines.drop_first()) {
            Some(rest) => Some(seq![log_fields(lines[0])[2]] + rest),
            None => None,
        }
    }
}

/// `acc` put in front of the fields in `fields`, if any.
pub open spec fn prepend_fields(acc: Seq<Seq<char>>, fields: Option<Seq<Seq<char>>>) -> Option<
    Seq<Seq<char>>,
> {
    match fields {
        Some(f) => Some(acc + f),
        None => None,
    }
}

/// The durations recorded by the diagnostic invocations of an invocation
/// log, as text: the third field of each line that mentions `diagnostic`,
/// among the lines after the first `SKIPPED_LOG_LINES`; `None` when such a
/// line has fewer than three fields.
pub fn diagnostic_durations(contents: &str) -> (r: Option<Vec<String>>)
    ensures
        r is None <==> duration_fields(diagnostic_lines(measured_lines(text_lines(contents@)))) is None,
        r matches Some(v) ==> Some(v@.map_values(|f: String| f@)) == duration_fields(
            diagnostic_lines(measured_lines(text_lines(contents@))),
        ),
{
    let lines = split_lines(contents);
    let ghost all = lines@.map_values(|l: String| l@);
    let word = vec!['d', 'i', 'a', 'g', 'n', 'o', 's', 't', 'i', 'c'];
    let comma = vec![','];
    assert(word@ == diagnostic_word());
    assert(comma@ == seq![',']);
    let mut out: Vec<String> = Vec::new();
    if lines.len() <= SKIPPED_LOG_LINES {
        assert(duration_fields(diagnostic_lines(measured_lines(all))) == Some(Seq::<Seq<char>>::empty()));
        assert(out@.map_values(|f: String| f@) =~= Seq::<Seq<char>>::empty());
        return Some(out);
    }
    let mut i: usize = SKIPPED_LOG_LINES;
    assert(measured_lines(all) == all.subrange(i as int, all.len() as int));
    while i < lines.len()
        invariant
            SKIPPED_LOG_LINES <= i <= lines@.len(),
            all == lines@.map_values(|l: String| l@),
            all == text_lines(contents@),
            word@ == diagnostic_word(),
            comma@ == seq![','],
            lines@.len() > SKIPPED_LOG_LINES,
            duration_fields(diagnostic_lines(measured_lines(all))) == prepend_fields(
                out@.map_values(|f: String| f@),
                duration_fields(diagnostic_lines(all.subrange(i as int, all.len() as int))),
            ),
        decreases lines.len() - i,
    {
        let ghost rest = all.subrange(i as int, all.len() as int);
        let ghost acc = out@.map_values(|f: String| f@);
        assert(rest[0] == lines@[i as int]@);
        assert(rest.drop_first() =~= all.subrange(i + 1, all.len() as int));
        let line = chars_of(lines[i].as_str());
        assert(suffix_from(line@, 0) =~= line@);
        proof {
            lemma_first_index_of_cases(line@, word@);
        }
        if find_from(&line, &word, 0).is_some() {
            let fields = split_at_separator(lines[i].as_str(), &comma);
            let ghost fv = fields@.map_values(|f: String| f@);
            assert(fv == log_fields(rest[0]));
            assert(diagnostic_lines(rest) == seq![rest[0]] + diagnostic_lines(rest.drop_first()));
            assert((seq![rest[0]] + diagnostic_lines(rest.drop_first())).drop_first()
                =~= diagnostic_lines(rest.drop_first()));
            if fields.len() < 3 {
                assert(fv.len() == fields@.len());
                return None;
            }
            let field = fields[2].clone();
            assert(field@ == fv[2]);
            out.push(field);
            assert(out@.map_values(|f: String| f@) =~= acc + seq![fv[2]]);
            assert(prepend_fields(acc, duration_fields(diagnostic_lines(rest))) == prepend_fields(
                acc + seq![fv[2]],
                duration_fields(diagnostic_lines(rest.drop_first())),
            )) by {
                match duration_fields(diagnostic_lines(rest.drop_first())) {
                    Some(f) => {
                        assert(acc + (seq![fv[2]] + f) =~= acc + seq![fv[2]] + f);
                    },
                    None => {},
                }
            }
        } else {
            assert(diagnostic_lines(rest) =~= diagnostic_lines(rest.drop_first()));
        }
        i = i + 1;
    }
    assert(all.subrange(i as int, all.len() as int) =~= Seq::<Seq<char>>::empty());
    assert(out@.map_values(|f: String| f@) + Seq::<Seq<char>>::empty() =~= out@.map_values(
        |f: String| f@,
    ));
    Some(out)
}

/// The measured lines are chosen by position alone: they are the log lines at
/// positions `SKIPPED_LOG_LINES` and beyond, whatever they hold.
pub proof fn lemma_measured_lines_by_position(lines: Seq<Seq<char>>)
    ensures
        measured_lines(lines).len() == (if lines.len() <= SKIPPED_LOG_LINES {
            0
        } else {
            lines.len() - SKIPPED_LOG_LINES
        }),
        forall|i: int|
            0 <= i < measured_lines(lines).len() ==> #[trigger] measured_lines(lines)[i]
                == lines[SKIPPED_LOG_LINES + i],
{
}

/// Keeping the lines that mention the diagnostic word works line by line:
/// on two parts of a log it keeps the kept lines of each, in order.
pub proof fn lemma_diagnostic_lines_append(a: Seq<Seq<char>>, b: Seq<Seq<char>>)
    ensures
        diagnostic_lines(a + b) == diagnostic_lines(a) + diagnostic_lines(b),
    decreases a.len(),
{
    if a.len() == 0 {
        assert(a + b =~= b);
        assert(Seq::<Seq<char>>::empty() + diagnostic_lines(b) =~= diagnostic_lines(b));
    } else {
        assert((a + b)[0] == a[0]);
        assert((a + b).drop_first() =~= a.drop_first() + b);
        lemma_diagnostic_lines_append(a.drop_first(), b);
        let head: Seq<Seq<char>> = if occurs_in(a[0], diagnostic_word()) {
            seq![a[0]]
        } else {
            seq![]
        };
        assert(head + (diagnostic_lines(a.drop_first()) + diagnostic_lines(b)) =~= head
            + diagnostic_lines(a.drop_first()) + diagnostic_lines(b));
    }
}

/// A single line is kept exactly when it mentions the diagnostic word.
pub proof fn lemma_diagnostic_lines_single(x: Seq<char>)
    ensures
        diagnostic_lines(seq![x]) == (if occurs_in(x, diagnostic_word()) {
            seq![x]
        } else {
            Seq::<Seq<char>>::empty()
        }),
{
    assert(seq![x].drop_first() =~= Seq::<Seq<char>>::empty());
    assert(diagnostic_lines(Seq::<Seq<char>>::empty()) == Seq::<Seq<char>>::empty());
    assert(seq![x][0] == x);
    if occurs_in(x, diagnostic_word()) {
        assert(seq![x] + Seq::<Seq<char>>::empty() =~= seq![x]);
    } else {
        assert(Seq::<Seq<char>>::empty() + Seq::<Seq<char>>::empty() =~= Seq::<Seq<char>>::empty());
    }
}

/// Taking the duration fields works line by line: on two parts of a log it
/// gives the fields of each, in order, and nothing when either part has a
/// line with fewer than three fields.
pub proof fn lemma_duration_fields_append(a: Seq<Seq<char>>, b: Seq<Seq<char>>)
    ensures
        duration_fields(a + b) == (match (duration_fields(a), duration_fields(b)) {
            (Some(x), Some(y)) => Some(x + y),
            _ => None,
        }),
    decreases a.len(),
{
    if a.len() == 0 {
        assert(a + b =~= b);
        if let Some(y) = duration_fields(b) {
            assert(Seq::<Seq<char>>::empty() + y =~= y);
        }
    } else {
        assert((a + b)[0] == a[0]);
        assert((a + b).drop_first() =~= a.drop_first() + b);
        lemma_duration_fields_append(a.drop_first(), b);
        if log_fields(a[0]).len() >= 3 {
            if let Some(x) = duration_fields(a.drop_first()) {
                if let Some(y) = duration_fields(b) {
                    assert(seq![log_fields(a[0])[2]] + (x + y) =~= seq![log_fields(a[0])[2]] + x + y);
                }
            }
        }
    }
}

/// A single line gives its third field, or nothing when it has fewer than
/// three.
pub proof fn lemma_duration_fields_single(x: Seq<char>)
    ensures
        duration_fields(seq![x]) == (if log_fields(x).len() >= 3 {
            Some(seq![log_fields(x)[2]])
        } else {
            None
        }),
{
    assert(seq![x].drop_first() =~= Seq::<Seq<char>>::empty());
    assert(duration_fields(Seq::<Seq<char>>::empty()) == Some(Seq::<Seq<char>>::empty()));
    assert(seq![x][0] == x);
    if log_fields(x).len() >= 3 {
        assert(seq![log_fields(x)[2]] + Seq::<Seq<char>>::empty() =~= seq![log_fields(x)[2]]);
    }
}

/// The statistics skip the first `SKIPPED_LOG_LINES` lines by position, then
/// keep the diagnostic lines: whatever those first lines hold, the durations
/// of a log are those of the diagnostic lines that follow them.
pub proof fn lemma_durations_skip_header(header: Seq<Seq<char>>, rest: Seq<Seq<char>>)
    requires
        header.len() == SKIPPED_LOG_LINES,
    ensures
        duration_fields(diagnostic_lines(measured_lines(header + rest))) == duration_fields(
            diagnostic_lines(rest),
        ),
{
    let all = header + rest;
    if rest.len() == 0 {
        assert(measured_lines(all) =~= rest);
    } else {
        assert(measured_lines(all) =~= rest);
    }
}

/// A field free of commas is split off whole.
pub proof fn lemma_split_first_field(x: Seq<char>, y: Seq<char>)
    requires
        !x.contains(','),
    ensures
        log_fields(x + seq![','] + y) == seq![x] + log_fields(y),
{
    let s = x + seq![','] + y;
    lemma_first_char_after(x, ',', y);
    assert(s.subrange(0, x.len() as int) =~= x);
    assert(suffix_from(s, x.len() as int + 1) =~= y);
}

/// A text free of commas is a single field.
pub proof fn lemma_single_field(x: Seq<char>)
    requires
        !x.contains(','),
    ensures
        log_fields(x) == seq![x],
{
    lemma_first_index_of_cases(x, seq![',']);
    assert forall|j: int| !crate::text::matches_at(x, seq![','], j) by {
        if crate::text::matches_at(x, seq![','], j) {
            assert(x.subrange(j, j + 1)[0] == x[j]);
        }
    }
}

/// A decimal numeral holds no comma.
pub proof fn lemma_decimal_has_no_comma(n: nat)
    ensures
        !decimal(n).contains(','),
{
    lemma_decimal_value(n);
    let d = decimal(n);
    if d.contains(',') {
        let j = choose|j: int| 0 <= j < d.len() && d[j] == ',';
        assert('0' <= d[j] <= '9');
    }
}

/// An invocation record is made of its eight fields, in order and unchanged:
/// time, model, duration, method exactly as given, message count and the
/// three token counts (the last followed by the line feed), provided that the
/// model and the method hold no comma.
pub proof fn lemma_record_fields(
    timestamp_secs: nat,
    model: Seq<char>,
    duration_millis: nat,
    method: Seq<char>,
    prompt_quantity: nat,
    prompt_tokens: nat,
    completion_tokens: nat,
    total_tokens: nat,
)
    requires
        !model.contains(','),
        !method.contains(','),
    ensures
        log_fields(
            invocation_record(
                timestamp_secs,
                model,
                duration_millis,
                method,
                prompt_quantity,
                prompt_tokens,
                completion_tokens,
                total_tokens,
            ),
        ) == seq![
            decimal(timestamp_secs),
            model,
            decimal(duration_millis),
            method,
            decimal(prompt_quantity),
            decimal(prompt_tokens),
            decimal(completion_tokens),
            decimal(total_tokens) + seq!['\n'],
        ],
{
    let f8 = decimal(total_tokens) + seq!['\n'];
    let t7 = decimal(completion_tokens) + seq![','] + f8;
    let t6 = decimal(prompt_tokens) + seq![','] + t7;
    let t5 = decimal(prompt_quantity) + seq![','] + t6;
    let t4 = method + seq![','] + t5;
    let t3 = decimal(duration_millis) + seq![','] + t4;
    let t2 = model + seq![','] + t3;
    let t1 = decimal(timestamp_secs) + seq![','] + t2;
    lemma_record_nested(
        timestamp_secs,
        model,
        duration_millis,
        method,
        prompt_quantity,
        prompt_tokens,
        completion_tokens,
        total_tokens,
    );
    lemma_decimal_has_no_comma(timestamp_secs);
    lemma_decimal_has_no_comma(duration_millis);
    lemma_decimal_has_no_comma(prompt_quantity);
    lemma_decimal_has_no_comma(prompt_tokens);
    lemma_decimal_has_no_comma(completion_tokens);
    lemma_last_field_has_no_comma(total_tokens);
    lemma_single_field(f8);
    lemma_prepend_field(decimal(completion_tokens), f8, seq![f8]);
    lemma_prepend_field(decimal(prompt_tokens), t7, seq![decimal(completion_tokens)] + seq![f8]);
    let l6 = seq![decimal(prompt_tokens)] + (seq![decimal(completion_tokens)] + seq![f8]);
    lemma_prepend_field(decimal(prompt_quantity), t6, l6);
    let l5 = seq![decimal(prompt_quantity)] + l6;
    lemma_prepend_field(method, t5, l5);
    let l4 = seq![method] + l5;
    lemma_prepend_field(decimal(duration_millis), t4, l4);
    let l3 = seq![decimal(duration_millis)] + l4;
    lemma_prepend_field(model, t3, l3);
    let l2 = seq![model] + l3;
    lemma_prepend_field(decimal(timestamp_secs), t2, l2);
    let l1 = seq![decimal(timestamp_secs)] + l2;
    assert(l1 =~= seq![
        decimal(timestamp_secs),
        model,
        decimal(duration_millis),
        method,
        decimal(prompt_quantity),
        decimal(prompt_tokens),
        decimal(completion_tokens),
        f8,
    ]);
}

/// An invocation record, as its first field and a comma in front of the rest,
/// field by field.
#[verifier::rlimit(100)]
proof fn lemma_record_nested(
    timestamp_secs: nat,
    model: Seq<char>,
    duration_millis: nat,
    method: Seq<char>,
    prompt_quantity: nat,
    prompt_tokens: nat,
    completion_tokens: nat,
    total_tokens: nat,
)
    ensures
        invocation_record(
            timestamp_secs,
            model,
            duration_millis,
            method,
            prompt_quantity,
            prompt_tokens,
            completion_tokens,
            total_tokens,
        ) == decimal(timestamp_secs) + seq![','] + (model + seq![','] + (decimal(duration_millis)
            + seq![','] + (method + seq![','] + (decimal(prompt_quantity) + seq![','] + (decimal(
            prompt_tokens,
        ) + seq![','] + (decimal(completion_tokens) + seq![','] + (decimal(total_tokens) + seq![
            '\n',
        ]))))))),
{
    assert(invocation_record(
        timestamp_secs,
        model,
        duration_millis,
        method,
        prompt_quantity,
        prompt_tokens,
        completion_tokens,
        total_tokens,
    ) =~= decimal(timestamp_secs) + seq![','] + (model + seq![','] + (decimal(duration_millis)
        + seq![','] + (method + seq![','] + (decimal(prompt_quantity) + seq![','] + (decimal(
        prompt_tokens,
    ) + seq![','] + (decimal(completion_tokens) + seq![','] + (decimal(total_tokens) + seq![
        '\n',
    ]))))))));
}

/// The last field of a record, a numeral and a line feed, holds no comma.
proof fn lemma_last_field_has_no_comma(n: nat)
    ensures
        !(decimal(n) + seq!['\n']).contains(','),
{
    lemma_decimal_has_no_comma(n);
    let f = decimal(n) + seq!['\n'];
    if f.contains(',') {
        let j = choose|j: int| 0 <= j < f.len() && f[j] == ',';
        if j < decimal(n).len() {
            assert(decimal(n)[j] == ',');
        }
    }
}

/// Putting a comma-free field and a comma in front of a line puts the field in
/// front of its fields.
pub proof fn lemma_prepend_field(x: Seq<char>, rest: Seq<char>, fields: Seq<Seq<char>>)
    requires
        !x.contains(','),
        log_fields(rest) == fields,
    ensures
        log_fields(x + seq![','] + rest) == seq![x] + fields,
{
    lemma_split_first_field(x, rest);
}

/// The log reads back the durations it records: the third comma-separated
/// field of an invocation record is the decimal duration, provided that the
/// model name holds no comma.
pub proof fn lemma_record_duration_field(
    timestamp_secs: nat,
    model: Seq<char>,
    duration_millis: nat,
    method: Seq<char>,
    prompt_quantity: nat,
    prompt_tokens: nat,
    completion_tokens: nat,
    total_tokens: nat,
)
    requires
        !model.contains(','),
    ensures
        log_fields(
            invocation_record(
                timestamp_secs,
                model,
                duration_millis,
                method,
                prompt_quantity,
                prompt_tokens,
                completion_tokens,
                total_tokens,
            ),
        ).len() >= 3,
        log_fields(
            invocation_record(
                timestamp_secs,
                model,
                duration_millis,
                method,
                prompt_quantity,
                prompt_tokens,
                completion_tokens,
                total_tokens,
            ),
        )[2] == decimal(duration_millis),
{
    let tail = method + seq![','] + decimal(prompt_quantity) + seq![','] + decimal(prompt_tokens)
        + seq![','] + decimal(completion_tokens) + seq![','] + decimal(total_tokens) + seq!['\n'];
    let third = decimal(duration_millis) + seq![','] + tail;
    let second = model + seq![','] + third;
    let record = decimal(timestamp_secs) + seq![','] + second;
    assert(record =~= invocation_record(
        timestamp_secs,
        model,
        duration_millis,
        method,
        prompt_quantity,
        prompt_tokens,
        completion_tokens,
        total_tokens,
    ));
    lemma_decimal_has_no_comma(timestamp_secs);
    lemma_decimal_has_no_comma(duration_millis);
    lemma_split_first_field(decimal(timestamp_secs), second);
    lemma_split_first_field(model, third);
    lemma_split_first_field(decimal(duration_millis), tail);
    assert(log_fields(record) =~= seq![decimal(timestamp_secs), model, decimal(duration_millis)]
        + log_fields(tail));
}

} // verus!
