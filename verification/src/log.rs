//! The framing of the output logs: one record to a line.
//!
//! A log is a sequence of bytes. Each record is written as the bytes of its
//! encoding followed by a line feed, after what the log already holds. A log
//! is read back line by line; a line may end in a line feed alone or in a
//! carriage return and a line feed, and the last line need not be ended.

use vstd::prelude::*;

verus! {

/// The byte that ends a record.
pub const LINE_FEED: u8 = 10;

/// The byte that may stand before the line feed at the end of a line.
pub const CARRIAGE_RETURN: u8 = 13;

/// A log after a record has been appended to it.
pub open spec fn appended(log: Seq<u8>, record: Seq<u8>) -> Seq<u8> {
    log + record + seq![LINE_FEED]
}

/// Appends a record to a log: its bytes, then a line feed.
pub fn append_record(output: &mut Vec<u8>, record: &[u8])
    ensures
        final(output)@ == appended(old(output)@, record@),
{
    let mut i: usize = 0;
    while i < record.len()
        invariant
            i <= record.len(),
            output@ == old(output)@ + record@.take(i as int),
        decreases record.len() - i,
    {
        output.push(record[i]);
        assert(record@.take(i + 1) =~= record@.take(i as int).push(record@[i as int]));
        i += 1;
    }
    assert(record@.take(i as int) =~= record@);
    output.push(LINE_FEED);
}

/// A line without the carriage return at its end, if it has one.
pub open spec fn without_carriage_return(line: Seq<u8>) -> Seq<u8> {
    if line.len() > 0 && line.last() == CARRIAGE_RETURN {
        line.drop_last()
    } else {
        line
    }
}

/// The lines of `text`, read after the bytes in `line` have been read as the
/// beginning of a line.
pub open spec fn lines_after(text: Seq<u8>, line: Seq<u8>) -> Seq<Seq<u8>>
    decreases text.len(),
{
    if text.len() == 0 {
        if line.len() == 0 {
            Seq::empty()
        } else {
            seq![line]
        }
    } else if text[0] == LINE_FEED {
        seq![without_carriage_return(line)] + lines_after(text.skip(1), Seq::empty())
    } else {
        lines_after(text.skip(1), line.push(text[0]))
    }
}

/// The lines of a log, each without the line ending. A line that is not
/// ended counts where it holds a byte.
pub open spec fn lines(text: Seq<u8>) -> Seq<Seq<u8>> {
    lines_after(text, Seq::empty())
}

/// Splits a log into its lines.
pub fn split_lines(text: &[u8]) -> (found: Vec<Vec<u8>>)
    ensures
        found.deep_view() == lines(text@),
{
    let mut found: Vec<Vec<u8>> = Vec::new();
    let mut line: Vec<u8> = Vec::new();
    let mut i: usize = 0;
    assert(text@.skip(0) =~= text@);
    assert(found.deep_view() =~= Seq::<Seq<u8>>::empty());
    while i < text.len()
        invariant
            i <= text.len(),
            lines(text@) == found.deep_view() + lines_after(text@.skip(i as int), line@),
        decreases text.len() - i,
    {
        let ghost rest = text@.skip(i as int);
        let ghost before = found.deep_view();
        assert(rest[0] == text@[i as int]);
        assert(rest.skip(1) =~= text@.skip(i + 1));
        if text[i] == LINE_FEED {
            if line.len() > 0 && line[line.len() - 1] == CARRIAGE_RETURN {
                line.pop();
            }
            let ghost ended = line@;
            found.push(line);
            line = Vec::new();
            assert(found.deep_view() =~~= before.push(ended));
            assert(before.push(ended) + lines_after(text@.skip(i + 1), Seq::empty()) =~= before + (
            seq![ended] + lines_after(text@.skip(i + 1), Seq::empty())));
        } else {
            line.push(text[i]);
        }
        i += 1;
    }
    if line.len() > 0 {
        let ghost before = found.deep_view();
        let ghost ended = line@;
        found.push(line);
        assert(found.deep_view() =~~= before + seq![ended]);
    } else {
        assert(found.deep_view() + Seq::<Seq<u8>>::empty() =~= found.deep_view());
    }
    found
}

/// Reading on from the end of a line: where `head` ends in a line feed, the
/// lines of `head` followed by `tail` are the lines of `head`, then the lines
/// of `tail`.
pub proof fn lemma_lines_after_line_end(head: Seq<u8>, tail: Seq<u8>, line: Seq<u8>)
    requires
        head.len() > 0,
        head.last() == LINE_FEED,
    ensures
        lines_after(head + tail, line) == lines_after(head, line) + lines_after(
            tail,
            Seq::empty(),
        ),
    decreases head.len(),
{
    let text = head + tail;
    assert(text[0] == head[0]);
    assert(text.skip(1) =~= head.skip(1) + tail);
    let next = if head[0] == LINE_FEED {
        Seq::<u8>::empty()
    } else {
        line.push(head[0])
    };
    if head.len() == 1 {
        assert(head.skip(1) =~= Seq::<u8>::empty());
        assert(head.skip(1) + tail =~= tail);
        assert(lines_after(head, line) =~= seq![without_carriage_return(line)]);
    } else {
        assert(head.skip(1).last() == head.last());
        lemma_lines_after_line_end(head.skip(1), tail, next);
        if head[0] == LINE_FEED {
            assert(seq![without_carriage_return(line)] + (lines_after(head.skip(1), next)
                + lines_after(tail, Seq::empty())) =~= (seq![without_carriage_return(line)]
                + lines_after(head.skip(1), next)) + lines_after(tail, Seq::empty()));
        }
    }
}

/// A record that holds no line feed, followed by one, reads as one line.
pub proof fn lemma_lines_of_one_record(record: Seq<u8>, line: Seq<u8>)
    requires
        !record.contains(LINE_FEED),
    ensures
        lines_after(record + seq![LINE_FEED], line) == seq![without_carriage_return(line + record)],
    decreases record.len(),
{
    let text = record + seq![LINE_FEED];
    if record.len() == 0 {
        assert(text.skip(1) =~= Seq::<u8>::empty());
        assert(line + record =~= line);
        assert(lines_after(Seq::<u8>::empty(), Seq::empty()) =~= Seq::<Seq<u8>>::empty());
        assert(lines_after(text, line) =~= seq![without_carriage_return(line)]);
    } else {
        assert(record.contains(record[0]));
        assert(text[0] == record[0]);
        assert(text.skip(1) =~= record.skip(1) + seq![LINE_FEED]);
        assert forall|b: u8| record.skip(1).contains(b) implies record.contains(b) by {
            let j = choose|j: int| 0 <= j < record.skip(1).len() && record.skip(1)[j] == b;
            assert(record[j + 1] == b);
        }
        lemma_lines_of_one_record(record.skip(1), line.push(record[0]));
        assert(line.push(record[0]) + record.skip(1) =~= line + record);
    }
}

/// What is appended to a log is read back from it: a log that is empty or
/// ends in a line feed, with one more record appended, reads as it did
/// before, followed by that record. The record must hold no line feed and
/// must not end in a carriage return.
pub proof fn lemma_appended_record_is_read_back(log: Seq<u8>, record: Seq<u8>)
    requires
        log.len() == 0 || log.last() == LINE_FEED,
        !record.contains(LINE_FEED),
        record.len() == 0 || record.last() != CARRIAGE_RETURN,
    ensures
        lines(appended(log, record)) == lines(log).push(record),
        appended(log, record).last() == LINE_FEED,
{
    let framed = record + seq![LINE_FEED];
    assert(appended(log, record) =~= log + framed);
    lemma_lines_of_one_record(record, Seq::empty());
    assert(Seq::<u8>::empty() + record =~= record);
    if log.len() == 0 {
        assert(log + framed =~= framed);
        assert(lines(log) =~= Seq::<Seq<u8>>::empty());
        assert(lines(log).push(record) =~= seq![record]);
    } else {
        lemma_lines_after_line_end(log, framed, Seq::empty());
        assert(lines(log) + seq![record] =~= lines(log).push(record));
    }
}

} // verus!
