//! Byte strings: substring search, delimited fields and lines.

use vstd::prelude::*;
use vstd::slice::{slice_subrange, slice_to_vec};

verus! {

/// The byte that separates the fields of a database record: a comma.
pub const FIELD_DELIMITER: u8 = 0x2c;

/// The byte that ends a line of the database: a line feed.
pub const LINE_FEED: u8 = 0x0a;

/// The byte that may stand before the line feed and is no part of the line:
/// a carriage return.
pub const CARRIAGE_RETURN: u8 = 0x0d;

/// What each of `lines` holds, in the same order.
pub open spec fn rows(lines: Seq<Vec<u8>>) -> Seq<Seq<u8>> {
    lines.map_values(|line: Vec<u8>| line@)
}

/// `needle` lies in `hay` at offset `at`.
pub open spec fn occurs_at(hay: Seq<u8>, needle: Seq<u8>, at: int) -> bool {
    &&& 0 <= at
    &&& at + needle.len() <= hay.len()
    &&& hay.subrange(at, at + needle.len()) == needle
}

/// `needle` is a contiguous part of `hay`. The empty needle is part of
/// every byte string.
pub open spec fn is_substring(hay: Seq<u8>, needle: Seq<u8>) -> bool {
    exists|at: int| occurs_at(hay, needle, at)
}

/// `term` is a whole field of `line` that begins at offset `at`: it lies
/// there, holds no delimiter, and is bounded on either side by an end of the
/// line or by a delimiter.
pub open spec fn is_field_at(line: Seq<u8>, term: Seq<u8>, at: int) -> bool {
    &&& occurs_at(line, term, at)
    &&& !term.contains(FIELD_DELIMITER)
    &&& (at == 0 || line[at - 1] == FIELD_DELIMITER)
    &&& (at + term.len() == line.len() || line[at + term.len()] == FIELD_DELIMITER)
}

/// Some field of `line` equals `term` byte for byte.
pub open spec fn has_field(line: Seq<u8>, term: Seq<u8>) -> bool {
    exists|at: int| is_field_at(line, term, at)
}

/// The offset of the first `item` among `items`, or their number where
/// `item` is not among them.
pub open spec fn first_offset<T>(items: Seq<T>, item: T) -> int
    decreases items.len(),
{
    if items.len() == 0 || items[0] == item {
        0
    } else {
        1 + first_offset(items.skip(1), item)
    }
}

/// `line` without the carriage return at its end, if it has one.
pub open spec fn without_carriage_return(line: Seq<u8>) -> Seq<u8> {
    if line.len() > 0 && line.last() == CARRIAGE_RETURN {
        line.drop_last()
    } else {
        line
    }
}

/// The lines of `content`. A line ends before a line feed, or before a
/// carriage return that a line feed follows; neither is part of it. What
/// follows the last line feed is a line of its own unless it is empty.
pub open spec fn lines_of(content: Seq<u8>) -> Seq<Seq<u8>>
    decreases content.len(),
{
    let end = first_offset(content, LINE_FEED);
    if content.len() == 0 {
        Seq::empty()
    } else if 0 <= end < content.len() {
        seq![without_carriage_return(content.take(end))] + lines_of(content.skip(end + 1))
    } else {
        seq![content]
    }
}

/// The fields of `line`: what stands before the first delimiter, between
/// two delimiters that follow each other, and behind the last. A line
/// without a delimiter is one field.
pub open spec fn fields_of(line: Seq<u8>) -> Seq<Seq<u8>>
    decreases line.len(),
{
    let end = first_offset(line, FIELD_DELIMITER);
    if 0 <= end < line.len() {
        seq![line.take(end)] + fields_of(line.skip(end + 1))
    } else {
        seq![line]
    }
}

/// The first `item` of `items` stands at `at` when none stands before `at`
/// and either one stands there or `items` end there.
pub proof fn lemma_first_offset_is<T>(items: Seq<T>, item: T, at: int)
    requires
        0 <= at <= items.len(),
        forall|j: int| 0 <= j < at ==> items[j] != item,
        at == items.len() || items[at] == item,
    ensures
        first_offset(items, item) == at,
    decreases at,
{
    if at > 0 {
        let rest = items.skip(1);
        assert forall|j: int| 0 <= j < at - 1 implies rest[j] != item by {
            assert(rest[j] == items[j + 1]);
        }
        lemma_first_offset_is(rest, item, at - 1);
    }
}

/// No `item` stands before the first offset of `item`, and one stands there
/// unless `items` end there.
pub proof fn lemma_first_offset<T>(items: Seq<T>, item: T)
    ensures
        0 <= first_offset(items, item) <= items.len(),
        forall|j: int| 0 <= j < first_offset(items, item) ==> items[j] != item,
        first_offset(items, item) == items.len() || items[first_offset(items, item)] == item,
    decreases items.len(),
{
    if items.len() > 0 && items[0] != item {
        let rest = items.skip(1);
        lemma_first_offset(rest, item);
        assert forall|j: int| 0 <= j < first_offset(items, item) implies items[j] != item by {
            if j > 0 {
                assert(rest[j - 1] == items[j]);
            }
        }
    }
}

/// A line has `term` as a field if and only if `term` is one of the fields
/// into which the delimiters cut the line.
pub proof fn lemma_has_field(line: Seq<u8>, term: Seq<u8>)
    ensures
        has_field(line, term) <==> fields_of(line).contains(term),
    decreases line.len(),
{
    let end = first_offset(line, FIELD_DELIMITER);
    lemma_first_offset(line, FIELD_DELIMITER);
    let head = line.take(end);
    assert(line.subrange(0, end) =~= head);
    assert forall|j: int| 0 <= j < head.len() implies head[j] != FIELD_DELIMITER by {
        assert(head[j] == line[j]);
    }
    if end < line.len() {
        let rest = line.skip(end + 1);
        let behind = fields_of(rest);
        lemma_has_field(rest, term);
        assert(fields_of(line) == seq![head] + behind);
        if has_field(line, term) {
            let at = choose|at: int| is_field_at(line, term, at);
            if at == 0 {
                lemma_field_at_start(line, term);
                assert(fields_of(line)[0] == term);
            } else {
                assert(at > end) by {
                    if at <= end {
                        assert(line[at - 1] != FIELD_DELIMITER);
                    }
                }
                assert(rest.subrange(at - end - 1, at - end - 1 + term.len()) =~= line.subrange(
                    at,
                    at + term.len(),
                ));
                if at - end - 1 > 0 {
                    assert(rest[at - end - 2] == line[at - 1]);
                }
                if at + term.len() < line.len() {
                    assert(rest[at - end - 1 + term.len()] == line[at + term.len()]);
                }
                assert(is_field_at(rest, term, at - end - 1));
                let k = choose|k: int| 0 <= k < behind.len() && behind[k] == term;
                assert(fields_of(line)[k + 1] == term);
            }
        }
        if fields_of(line).contains(term) {
            let k = choose|k: int| 0 <= k < fields_of(line).len() && fields_of(line)[k] == term;
            if k == 0 {
                assert(term == head);
                assert(is_field_at(line, term, 0));
            } else {
                assert(behind[k - 1] == term);
                assert(behind.contains(term));
                let at = choose|at: int| is_field_at(rest, term, at);
                let shifted = at + end + 1;
                assert(line.subrange(shifted, shifted + term.len()) =~= rest.subrange(
                    at,
                    at + term.len(),
                ));
                if at > 0 {
                    assert(rest[at - 1] == line[shifted - 1]);
                }
                if at + term.len() < rest.len() {
                    assert(rest[at + term.len()] == line[shifted + term.len()]);
                }
                assert(is_field_at(line, term, shifted));
            }
        }
    } else {
        assert(head =~= line);
        assert(fields_of(line) == seq![line]);
        if has_field(line, term) {
            let at = choose|at: int| is_field_at(line, term, at);
            assert(at == 0) by {
                if at > 0 {
                    assert(line[at - 1] != FIELD_DELIMITER);
                }
            }
            lemma_field_at_start(line, term);
            assert(fields_of(line)[0] == term);
        }
        if fields_of(line).contains(term) {
            assert(term == line);
            assert(line.subrange(0, line.len() as int) =~= line);
            assert(is_field_at(line, term, 0));
        }
    }
}

/// A field at the start of a line is what stands before the first
/// delimiter.
proof fn lemma_field_at_start(line: Seq<u8>, term: Seq<u8>)
    requires
        is_field_at(line, term, 0),
    ensures
        first_offset(line, FIELD_DELIMITER) == term.len(),
        line.take(term.len() as int) == term,
{
    assert forall|j: int| 0 <= j < term.len() implies line[j] != FIELD_DELIMITER by {
        assert(line.subrange(0, term.len() as int)[j] == line[j]);
        assert(term.contains(term[j]));
    }
    lemma_first_offset_is(line, FIELD_DELIMITER, term.len() as int);
    assert(line.take(term.len() as int) =~= line.subrange(0, term.len() as int));
}

/// Whether `needle` lies in `hay` at offset `at`. It does not where it
/// would reach beyond the end of `hay`.
pub fn matches_at(hay: &[u8], needle: &[u8], at: usize) -> (found: bool)
    ensures
        found == occurs_at(hay@, needle@, at as int),
{
    if at > hay.len() || needle.len() > hay.len() - at {
        return false;
    }
    let mut k: usize = 0;
    while k < needle.len()
        invariant
            k <= needle.len(),
            at + needle.len() <= hay.len(),
            forall|j: int| 0 <= j < k ==> hay@[at + j] == needle@[j],
        decreases needle.len() - k,
    {
        if hay[at + k] != needle[k] {
            proof {
                let part = hay@.subrange(at as int, at + needle@.len());
                assert(part[k as int] == hay@[at + k]);
            }
            return false;
        }
        k += 1;
    }
    assert(hay@.subrange(at as int, at + needle@.len()) =~= needle@);
    true
}

/// Whether `needle` is a contiguous part of `hay`.
pub fn contains(hay: &[u8], needle: &[u8]) -> (found: bool)
    ensures
        found == is_substring(hay@, needle@),
{
    if needle.len() > hay.len() {
        return false;
    }
    let last: usize = hay.len() - needle.len();
    let mut at: usize = 0;
    loop
        invariant
            at <= last,
            last + needle.len() == hay.len(),
            forall|a: int| 0 <= a < at ==> !occurs_at(hay@, needle@, a),
        decreases last - at,
    {
        if matches_at(hay, needle, at) {
            return true;
        }
        if at == last {
            return false;
        }
        at += 1;
    }
}

/// Whether `term` holds the field delimiter.
pub fn holds_delimiter(term: &[u8]) -> (found: bool)
    ensures
        found == term@.contains(FIELD_DELIMITER),
{
    let mut k: usize = 0;
    while k < term.len()
        invariant
            k <= term@.len(),
            forall|j: int| 0 <= j < k ==> term@[j] != FIELD_DELIMITER,
        decreases term@.len() - k,
    {
        if term[k] == FIELD_DELIMITER {
            return true;
        }
        k += 1;
    }
    false
}

/// Whether some field of `line` equals `term` byte for byte.
pub fn field_equals(line: &[u8], term: &[u8]) -> (found: bool)
    ensures
        found == has_field(line@, term@),
{
    if term.len() > line.len() || holds_delimiter(term) {
        return false;
    }
    let last: usize = line.len() - term.len();
    let mut at: usize = 0;
    loop
        invariant
            at <= last,
            last + term.len() == line.len(),
            !term@.contains(FIELD_DELIMITER),
            forall|a: int| 0 <= a < at ==> !is_field_at(line@, term@, a),
        decreases last - at,
    {
        let opens = at == 0 || line[at - 1] == FIELD_DELIMITER;
        let closes = at == last || line[at + term.len()] == FIELD_DELIMITER;
        if opens && closes && matches_at(line, term, at) {
            assert(is_field_at(line@, term@, at as int));
            return true;
        }
        if at == last {
            return false;
        }
        at += 1;
    }
}

/// The lines of `content`, each as bytes of its own.
pub fn split_lines(content: &[u8]) -> (lines: Vec<Vec<u8>>)
    ensures
        rows(lines@) == lines_of(content@),
{
    let mut lines: Vec<Vec<u8>> = Vec::new();
    let mut start: usize = 0;
    let mut at: usize = 0;
    assert(content@.skip(0) =~= content@);
    assert(rows(lines@) =~= Seq::<Seq<u8>>::empty());
    while at < content.len()
        invariant
            start <= at <= content.len(),
            forall|j: int| start <= j < at ==> content@[j] != LINE_FEED,
            lines_of(content@) == rows(lines@) + lines_of(content@.skip(start as int)),
        decreases content.len() - at,
    {
        if content[at] == LINE_FEED {
            let stop: usize = if at > start && content[at - 1] == CARRIAGE_RETURN {
                at - 1
            } else {
                at
            };
            let line = copy_of(slice_subrange(content, start, stop));
            proof {
                let rest = content@.skip(start as int);
                assert forall|j: int| 0 <= j < at - start implies rest[j] != LINE_FEED by {
                    assert(rest[j] == content@[start + j]);
                }
                lemma_first_offset_is(rest, LINE_FEED, at - start);
                assert(rest.take(at - start) =~= content@.subrange(start as int, at as int));
                assert(rest.skip(at - start + 1) =~= content@.skip(at + 1));
                assert(without_carriage_return(rest.take(at - start)) =~= line@);
                assert(rows(lines@.push(line)) =~= rows(lines@).push(line@));
                assert(rows(lines@) + (seq![line@] + lines_of(content@.skip(at + 1)))
                    =~= rows(lines@).push(line@) + lines_of(content@.skip(at + 1)));
            }
            lines.push(line);
            start = at + 1;
        }
        at += 1;
    }
    if start < content.len() {
        let line = copy_of(slice_subrange(content, start, content.len()));
        proof {
            let rest = content@.skip(start as int);
            assert forall|j: int| 0 <= j < rest.len() implies rest[j] != LINE_FEED by {
                assert(rest[j] == content@[start + j]);
            }
            lemma_first_offset_is(rest, LINE_FEED, rest.len() as int);
            assert(rest =~= line@);
            assert(rows(lines@.push(line)) =~= rows(lines@).push(line@));
            assert(rows(lines@) + seq![line@] =~= rows(lines@).push(line@));
        }
        lines.push(line);
    } else {
        assert(rows(lines@) + Seq::<Seq<u8>>::empty() =~= rows(lines@));
    }
    lines
}

/// A copy of `bytes` that the caller owns.
pub fn copy_of(bytes: &[u8]) -> (copy: Vec<u8>)
    ensures
        copy@ == bytes@,
{
    slice_to_vec(bytes)
}

} // verus!
