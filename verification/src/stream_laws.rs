//! What in the text of a stream counts, and what does not.

use vstd::prelude::*;
use vstd::string::*;
use vstd::utf8::*;

use crate::codec::json_read;
use crate::response_stream::{
    line_captured, line_payload, lines_captured, stream_completion, StreamV,
};
use crate::text::{
    first_at, has_prefix, lemma_first_at_is, lemma_first_at_of, lines_of, trimmed, trimmed_end,
    trimmed_start, without_prefixes,
};

verus! {

/// A text that ends with the end of a line, or that holds nothing.
pub open spec fn ends_line(s: Seq<char>) -> bool {
    s.len() == 0 || s.last() == '\n'
}

/// A line that tells nothing: it carries no data, or data that neither ends the stream nor is JSON.
pub open spec fn is_silent(line: Seq<char>) -> bool {
    match line_payload(line) {
        Some(payload) => payload != "[DONE]"@ && json_read(encode_utf8(payload)) is None,
        None => true,
    }
}

/// What further lines make of a state.
spec fn captured_from(walk: (StreamV, bool), lines: Seq<Seq<char>>) -> (StreamV, bool)
    decreases lines.len(),
{
    if lines.len() == 0 {
        walk
    } else {
        line_captured(captured_from(walk, lines.drop_last()), lines.last())
    }
}

proof fn lemma_captured_concat(first: Seq<Seq<char>>, second: Seq<Seq<char>>)
    ensures
        lines_captured(first + second) == captured_from(lines_captured(first), second),
    decreases second.len(),
{
    if second.len() == 0 {
        assert(first + second =~= first);
    } else {
        lemma_captured_concat(first, second.drop_last());
        assert((first + second).drop_last() =~= first + second.drop_last());
        assert((first + second).last() == second.last());
    }
}

proof fn lemma_captured_from_concat(
    walk: (StreamV, bool),
    first: Seq<Seq<char>>,
    second: Seq<Seq<char>>,
)
    ensures
        captured_from(walk, first + second) == captured_from(captured_from(walk, first), second),
    decreases second.len(),
{
    if second.len() == 0 {
        assert(first + second =~= first);
    } else {
        lemma_captured_from_concat(walk, first, second.drop_last());
        assert((first + second).drop_last() =~= first + second.drop_last());
        assert((first + second).last() == second.last());
    }
}

/// Lines that tell nothing leave the state as it is.
proof fn lemma_silent_lines(walk: (StreamV, bool), lines: Seq<Seq<char>>)
    requires
        forall|i: int| 0 <= i < lines.len() ==> is_silent(#[trigger] lines[i]),
    ensures
        captured_from(walk, lines) == walk,
    decreases lines.len(),
{
    if lines.len() > 0 {
        lemma_silent_lines(walk, lines.drop_last());
        assert(is_silent(lines[lines.len() - 1]));
    }
}

/// After the end of the stream the state stays as it is.
proof fn lemma_ended_lines(walk: (StreamV, bool), lines: Seq<Seq<char>>)
    requires
        walk.1,
    ensures
        captured_from(walk, lines) == walk,
    decreases lines.len(),
{
    if lines.len() > 0 {
        lemma_ended_lines(walk, lines.drop_last());
    }
}

/// The lines of two texts, the first of which ends with a line, are the lines of both; behind the end
/// of the last line of the first stands nothing.
pub proof fn lemma_lines_of_concat(first: Seq<char>, second: Seq<char>)
    requires
        ends_line(first),
    ensures
        lines_of(first).len() > 0,
        lines_of(first).last() == Seq::<char>::empty(),
        lines_of(first + second) == lines_of(first).drop_last() + lines_of(second),
    decreases first.len(),
{
    let both = first + second;
    lemma_first_at_of(first, '\n');
    if first.len() == 0 {
        assert(both =~= second);
        assert(lines_of(first) =~= seq![first]);
        assert(first =~= Seq::empty());
        assert(lines_of(first).drop_last() + lines_of(second) =~= lines_of(second));
    } else {
        let at = first_at(first, '\n');
        if at == first.len() {
            assert(first[first.len() - 1] != '\n');
        }
        assert forall|k: int| 0 <= k < at implies both[k] != '\n' by {
            assert(first[k] != '\n');
        }
        assert(both[at] == first[at]);
        lemma_first_at_is(both, '\n', at);
        let rest = first.skip(at + 1);
        assert(ends_line(rest));
        lemma_lines_of_concat(rest, second);
        assert(both.take(at) =~= first.take(at));
        assert(both.skip(at + 1) =~= rest + second);
        let line = seq![first.take(at)];
        assert(lines_of(first) == line + lines_of(rest));
        assert((line + lines_of(rest)).drop_last() =~= line + lines_of(rest).drop_last());
        assert(line + (lines_of(rest).drop_last() + lines_of(second)) =~= line
            + lines_of(rest).drop_last() + lines_of(second));
    }
}

/// An empty line tells nothing.
proof fn lemma_empty_line_is_silent()
    ensures
        is_silent(Seq::<char>::empty()),
{
    reveal_strlit("data:");
    assert(trimmed(Seq::<char>::empty()).len() == 0);
}

/// What stands behind whole lines goes on from what they told.
proof fn lemma_captured_behind(first: Seq<char>, second: Seq<char>)
    requires
        ends_line(first),
    ensures
        lines_captured(lines_of(first + second)) == captured_from(
            lines_captured(lines_of(first)),
            lines_of(second),
        ),
{
    lemma_lines_of_concat(first, second);
    let whole = lines_of(first).drop_last();
    lemma_captured_concat(whole, lines_of(second));
    lemma_empty_line_is_silent();
    assert(lines_captured(lines_of(first)) == line_captured(
        lines_captured(whole),
        Seq::<char>::empty(),
    ));
}

/// Whole lines that tell nothing may stand anywhere between the lines of a stream: the completion
/// that it comes to is the same.
pub proof fn lemma_silent_lines_do_not_count(
    before: Seq<char>,
    silent: Seq<char>,
    after: Seq<char>,
    created: i64,
)
    requires
        ends_line(before),
        ends_line(silent),
        forall|i: int|
            0 <= i < lines_of(silent).len() ==> is_silent(#[trigger] lines_of(silent)[i]),
    ensures
        stream_completion(before + silent + after, created) == stream_completion(
            before + after,
            created,
        ),
{
    assert(before + silent + after =~= before + (silent + after));
    lemma_captured_behind(before, silent + after);
    lemma_captured_behind(before, after);
    lemma_lines_of_concat(silent, after);
    let lines = lines_of(silent).drop_last();
    let walk = lines_captured(lines_of(before));
    assert forall|i: int| 0 <= i < lines.len() implies is_silent(#[trigger] lines[i]) by {
        assert(is_silent(lines_of(silent)[i]));
    }
    lemma_silent_lines(walk, lines);
    lemma_captured_from_concat(walk, lines, lines_of(after));
}

/// The line that ends a stream carries the word for it.
proof fn lemma_done_line()
    ensures
        line_payload("data: [DONE]"@) == Some("[DONE]"@),
{
    reveal_strlit("data: [DONE]");
    reveal_strlit("data:");
    reveal_strlit("[DONE]");
    let line = "data: [DONE]"@;
    assert(line[0] == 'd' && line[11] == ']');
    assert(trimmed_start(line) == line);
    assert(trimmed_end(line) == line);
    assert(line.take(5) =~= "data:"@);
    let rest = line.skip(5);
    assert(rest[0] == ' ');
    assert(rest.take(5)[0] == ' ');
    assert("data:"@[0] == 'd');
    assert(!has_prefix(rest, "data:"@));
    assert(without_prefixes(rest, "data:"@) == rest);
    assert(without_prefixes(line, "data:"@) == rest);
    let word = rest.drop_first();
    assert(word =~= "[DONE]"@);
    assert(word[0] == '[' && word[5] == ']');
    assert(trimmed_start(word) == word);
    assert(trimmed_start(rest) == word);
    assert(trimmed_end(word) == word);
}

/// Nothing behind the line that ends a stream counts.
pub proof fn lemma_nothing_after_done_counts(before: Seq<char>, after: Seq<char>, created: i64)
    requires
        ends_line(before),
    ensures
        stream_completion(before + "data: [DONE]\n"@ + after, created) == stream_completion(
            before,
            created,
        ),
{
    reveal_strlit("data: [DONE]");
    reveal_strlit("data: [DONE]\n");
    let done = "data: [DONE]\n"@;
    let line = "data: [DONE]"@;
    assert(done.take(12) =~= line);
    assert(done[12] == '\n');
    assert forall|k: int| 0 <= k < 12 implies done[k] != '\n' by {
        assert(done[k] == line[k]);
    }
    lemma_first_at_is(done, '\n', 12);
    let none = done.skip(13);
    assert(none =~= Seq::empty());
    assert(lines_of(none) =~= seq![none]);
    assert(lines_of(done) =~= seq![line, none]);
    assert(before + done + after =~= before + (done + after));
    lemma_captured_behind(before, done + after);
    lemma_lines_of_concat(done, after);
    let walk = lines_captured(lines_of(before));
    let ended = seq![line];
    assert(lines_of(done).drop_last() =~= ended);
    lemma_captured_from_concat(walk, ended, lines_of(after));
    lemma_done_line();
    assert(ended.drop_last().len() == 0);
    assert(captured_from(walk, ended.drop_last()) == walk);
    assert(captured_from(walk, ended) == line_captured(walk, line));
    lemma_ended_lines(captured_from(walk, ended), lines_of(after));
}

} // verus!
