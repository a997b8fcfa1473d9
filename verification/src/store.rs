//! The stored form of a task list: one record per line, each line ended by a
//! line feed.

use vstd::prelude::*;
use vstd::slice::slice_subrange;
use vstd::utf8::{
    decode_utf8, decode_utf8_encode_utf8, encode_utf8, encode_utf8_decode_utf8,
    encode_utf8_valid_utf8, valid_utf8,
};
use crate::encoding::{
    lemma_absent_ascii, lemma_bytes_of_ascii, lemma_bytes_of_concat, lemma_last_byte,
    lemma_present_ascii,
};
use crate::text::lemma_take_one_more;

verus! {

/// The byte that ends a line.
pub const LINE_FEED: u8 = 10;

/// The byte that may stand before a line feed and is then dropped with it.
pub const CARRIAGE_RETURN: u8 = 13;

/// Where the first line of `bytes` ends: the position of the first line feed,
/// or the length of `bytes` where there is none.
pub open spec fn line_end(bytes: Seq<u8>) -> int
    decreases bytes.len(),
{
    if bytes.len() == 0 || bytes[0] == LINE_FEED {
        0
    } else {
        1 + line_end(bytes.drop_first())
    }
}

/// `line` without one trailing carriage return.
pub open spec fn without_return(line: Seq<u8>) -> Seq<u8> {
    if line.len() > 0 && line.last() == CARRIAGE_RETURN {
        line.drop_last()
    } else {
        line
    }
}

/// The record that a line's bytes spell, if they are UTF-8; a line that is
/// not UTF-8 holds no record.
pub open spec fn record_of(line: Seq<u8>) -> Seq<Seq<char>> {
    if valid_utf8(line) {
        seq![decode_utf8(line)]
    } else {
        Seq::empty()
    }
}

/// The task list that a file with this content holds.
///
/// Each line feed ends a line, and a carriage return directly before it
/// belongs to the line's end. What follows the last line feed, if anything, is
/// a line too, taken as it is. Lines that are not UTF-8 are passed over.
pub open spec fn stored_tasks(content: Seq<u8>) -> Seq<Seq<char>>
    decreases content.len(),
{
    if content.len() == 0 {
        Seq::empty()
    } else {
        let end = line_end(content);
        if end < content.len() {
            proof {
                lemma_line_end_is_first(content);
            }
            record_of(without_return(content.take(end))) + stored_tasks(content.skip(end + 1))
        } else {
            record_of(content)
        }
    }
}

/// The text of a file that holds `tasks`: every record followed by a line feed.
pub open spec fn file_text(tasks: Seq<Seq<char>>) -> Seq<char>
    decreases tasks.len(),
{
    if tasks.len() == 0 {
        Seq::empty()
    } else {
        file_text(tasks.drop_last()) + tasks.last() + seq!['\n']
    }
}

/// Whether `text` can stand on a line of its own and be read back unchanged:
/// it holds no line feed and does not end in a carriage return.
pub open spec fn is_line(text: Seq<char>) -> bool {
    &&& forall|i: int| 0 <= i < text.len() ==> text[i] != '\n'
    &&& text.len() > 0 ==> text.last() != '\r'
}

/// Whether every one of `tasks` can stand on a line of its own.
pub open spec fn all_lines(tasks: Seq<Seq<char>>) -> bool {
    forall|i: int| 0 <= i < tasks.len() ==> is_line(#[trigger] tasks[i])
}

/// Whether a file with this content ends where a line ends: it is empty or
/// its last byte is a line feed.
pub open spec fn ends_a_line(content: Seq<u8>) -> bool {
    content.len() == 0 || content.last() == LINE_FEED
}

/// `line_end` is the one position up to which no line feed occurs and at which
/// the bytes end or a line feed stands.
pub proof fn lemma_line_end(bytes: Seq<u8>, end: int)
    requires
        0 <= end <= bytes.len(),
        forall|i: int| 0 <= i < end ==> bytes[i] != LINE_FEED,
        end < bytes.len() ==> bytes[end] == LINE_FEED,
    ensures
        line_end(bytes) == end,
    decreases bytes.len(),
{
    if end > 0 {
        lemma_line_end(bytes.drop_first(), end - 1);
    }
}

/// `std::str::from_utf8`: the bytes as text. It succeeds exactly on well-formed
/// UTF-8, and the text it gives is spelled by those very bytes.
#[verifier::external_body]
fn text_of(bytes: &[u8]) -> (text: Option<&str>)
    ensures
        text is Some <==> valid_utf8(bytes@),
        text matches Some(t) ==> encode_utf8(t@) == bytes@,
{
    match std::str::from_utf8(bytes) {
        Ok(text) => Some(text),
        Err(_) => None,
    }
}

/// Reads the task list out of a file's content.
pub fn read_tasks(content: &[u8]) -> (tasks: Vec<String>)
    ensures
        tasks.deep_view() == stored_tasks(content@),
{
    let mut tasks: Vec<String> = Vec::new();
    let mut start: usize = 0;
    proof {
        assert(content@.skip(0) == content@);
    }
    while start < content.len()
        invariant
            0 <= start <= content.len(),
            stored_tasks(content@) == tasks.deep_view() + stored_tasks(content@.skip(start as int)),
        decreases content.len() - start,
    {
        let ghost rest = content@.skip(start as int);
        let mut end = start;
        while end < content.len() && content[end] != LINE_FEED
            invariant
                start <= end <= content.len(),
                forall|i: int| start <= i < end ==> content[i] != LINE_FEED,
            decreases content.len() - end,
        {
            end = end + 1;
        }
        let ended = end < content.len();
        let mut stop = end;
        if ended && stop > start && content[stop - 1] == CARRIAGE_RETURN {
            stop = stop - 1;
        }
        let line = slice_subrange(content, start, stop);
        proof {
            lemma_line_end(rest, end - start);
            if ended {
                assert(line@ == without_return(rest.take(end - start)));
                assert(rest.skip(end - start + 1) == content@.skip(end + 1));
            }
        }
        match text_of(line) {
            Some(text) => {
                proof {
                    encode_utf8_decode_utf8(text@);
                }
                tasks.push(String::from_str(text));
            },
            None => {
            },
        }
        if ended {
            start = end + 1;
        } else {
            start = end;
        }
    }
    tasks
}

/// Writes the task list as the text of a file.
pub fn write_tasks(tasks: &[String]) -> (text: String)
    ensures
        text@ == file_text(tasks.deep_view()),
{
    let mut text = String::new();
    let mut i: usize = 0;
    while i < tasks.len()
        invariant
            0 <= i <= tasks.len(),
            text@ == file_text(tasks.deep_view().take(i as int)),
        decreases tasks.len() - i,
    {
        proof {
            reveal_strlit("\n");
            lemma_take_one_more(tasks.deep_view(), i as int);
        }
        text.append(tasks[i].as_str());
        text.append("\n");
        i = i + 1;
    }
    assert(tasks.deep_view().take(i as int) == tasks.deep_view());
    text
}

/// No line feed stands before `line_end`, and one stands at it unless the
/// bytes end there.
pub proof fn lemma_line_end_is_first(bytes: Seq<u8>)
    ensures
        0 <= line_end(bytes) <= bytes.len(),
        forall|i: int| 0 <= i < line_end(bytes) ==> bytes[i] != LINE_FEED,
        line_end(bytes) < bytes.len() ==> bytes[line_end(bytes)] == LINE_FEED,
    decreases bytes.len(),
{
    if bytes.len() > 0 && bytes[0] != LINE_FEED {
        let rest = bytes.drop_first();
        lemma_line_end_is_first(rest);
        assert forall|i: int| 0 <= i < line_end(bytes) implies bytes[i] != LINE_FEED by {
            if i > 0 {
                assert(bytes[i] == rest[i - 1]);
            }
        }
    }
}

/// Content that ends where a line ends can be read piece by piece: what
/// follows it is read as if it stood alone.
pub proof fn lemma_stored_tasks_concat(a: Seq<u8>, b: Seq<u8>)
    requires
        ends_a_line(a),
    ensures
        stored_tasks(a + b) == stored_tasks(a) + stored_tasks(b),
    decreases a.len(),
{
    if a.len() > 0 {
        let end = line_end(a);
        let rest = a.skip(end + 1);
        lemma_line_end_is_first(a);
        lemma_line_end(a + b, end);
        assert((a + b).take(end) == a.take(end));
        assert((a + b).skip(end + 1) == rest + b);
        lemma_stored_tasks_concat(rest, b);
    }
}

/// One record on a line of its own is read back as that record.
pub proof fn lemma_stored_line(record: Seq<char>)
    requires
        is_line(record),
    ensures
        stored_tasks(encode_utf8(record + seq!['\n'])) == seq![record],
{
    let line = encode_utf8(record);
    let bytes = line + seq![LINE_FEED];
    lemma_bytes_of_concat(record, seq!['\n']);
    lemma_bytes_of_ascii('\n');
    lemma_absent_ascii(record, '\n');
    lemma_line_end(bytes, line.len() as int);
    assert(bytes.take(line.len() as int) == line);
    assert(bytes.skip(line.len() as int + 1) == Seq::<u8>::empty());
    if record.len() > 0 {
        lemma_last_byte(record, '\r');
    }
    encode_utf8_valid_utf8(record);
    encode_utf8_decode_utf8(record);
    assert(record_of(line) + stored_tasks(Seq::<u8>::empty()) == seq![record]);
}

/// A line added to content that ends where a line ends is read back as one
/// more record behind the others.
pub proof fn lemma_stored_after_append(content: Seq<u8>, record: Seq<char>)
    requires
        ends_a_line(content),
        is_line(record),
    ensures
        stored_tasks(content + encode_utf8(record + seq!['\n'])) == stored_tasks(content).push(
            record,
        ),
{
    lemma_stored_tasks_concat(content, encode_utf8(record + seq!['\n']));
    lemma_stored_line(record);
}

/// The bytes of a written list are those of the list without its last record,
/// then those of the last record's line; and they end where a line ends.
pub proof fn lemma_written_bytes(tasks: Seq<Seq<char>>)
    ensures
        ends_a_line(encode_utf8(file_text(tasks))),
        tasks.len() > 0 ==> encode_utf8(file_text(tasks)) == encode_utf8(
            file_text(tasks.drop_last()),
        ) + encode_utf8(tasks.last() + seq!['\n']),
{
    if tasks.len() > 0 {
        let before = file_text(tasks.drop_last());
        let line = tasks.last() + seq!['\n'];
        assert(file_text(tasks) == before + line);
        lemma_bytes_of_concat(before, line);
        lemma_bytes_of_concat(tasks.last(), seq!['\n']);
        lemma_bytes_of_ascii('\n');
    }
}

/// A list of one record is written as that record and a line feed, and its
/// bytes end where a line ends.
pub proof fn lemma_written_line(record: Seq<char>)
    ensures
        file_text(seq![record]) == record + seq!['\n'],
        ends_a_line(encode_utf8(record + seq!['\n'])),
{
    assert(seq![record].drop_last() == Seq::<Seq<char>>::empty());
    assert(file_text(Seq::<Seq<char>>::empty()) == Seq::<char>::empty());
    lemma_written_bytes(seq![record]);
}

/// A list that is written and then read comes back as it was, provided each
/// record can stand on a line of its own.
pub proof fn lemma_written_tasks_read_back(tasks: Seq<Seq<char>>)
    requires
        all_lines(tasks),
    ensures
        stored_tasks(encode_utf8(file_text(tasks))) == tasks,
    decreases tasks.len(),
{
    if tasks.len() > 0 {
        let before = tasks.drop_last();
        lemma_written_tasks_read_back(before);
        lemma_written_bytes(tasks);
        lemma_written_bytes(before);
        lemma_stored_after_append(encode_utf8(file_text(before)), tasks.last());
    }
}

/// No record that is read holds a line feed.
pub proof fn lemma_stored_records_hold_no_line_feed(content: Seq<u8>)
    ensures
        forall|i: int, j: int|
            0 <= i < stored_tasks(content).len() && 0 <= j < stored_tasks(content)[i].len()
                ==> #[trigger] stored_tasks(content)[i][j] != '\n',
    decreases content.len(),
{
    if content.len() > 0 {
        let end = line_end(content);
        lemma_line_end_is_first(content);
        let line = if end < content.len() {
            without_return(content.take(end))
        } else {
            content
        };
        let rest = if end < content.len() {
            content.skip(end + 1)
        } else {
            Seq::<u8>::empty()
        };
        if valid_utf8(line) {
            let text = decode_utf8(line);
            decode_utf8_encode_utf8(line);
            assert forall|j: int| 0 <= j < text.len() implies text[j] != '\n' by {
                if text[j] == '\n' {
                    lemma_present_ascii(text, '\n', j);
                }
            }
        }
        lemma_stored_records_hold_no_line_feed(rest);
        assert forall|i: int, j: int|
            0 <= i < stored_tasks(content).len() && 0 <= j < stored_tasks(content)[i].len()
            implies #[trigger] stored_tasks(content)[i][j] != '\n' by {
            let head = record_of(line);
            if i >= head.len() {
                assert(stored_tasks(content)[i] == stored_tasks(rest)[i - head.len()]);
            }
        }
    }
}

} // verus!
