//! Picture text: characters in rows, the rows parted by line breaks.

use vstd::prelude::*;

verus! {

/// The line feed that ends a row.
pub const LINE_FEED: char = '\n';

/// The carriage return that may stand before a line feed.
pub const CARRIAGE_RETURN: char = '\r';

/// How many characters stand before the first line feed of `text`; the
/// length of `text` where it holds none.
pub open spec fn first_break(text: Seq<char>) -> nat
    decreases text.len(),
{
    if text.len() == 0 || text[0] == LINE_FEED {
        0
    } else {
        1 + first_break(text.drop_first())
    }
}

/// A row as it stood before its line feed, without the carriage return that
/// may end it.
pub open spec fn without_return(row: Seq<char>) -> Seq<char> {
    if row.len() > 0 && row.last() == CARRIAGE_RETURN {
        row.drop_last()
    } else {
        row
    }
}

/// The rows of `text`, top to bottom.
///
/// A row ends at a line feed, or at a carriage return followed at once by a
/// line feed; neither belongs to the row. The last row needs no line feed
/// after it, and keeps a carriage return that it ends with. Empty text has no
/// row, and text that ends in a line feed has no empty row after it.
pub open spec fn lines_of(text: Seq<char>) -> Seq<Seq<char>>
    decreases text.len(),
{
    let n = first_break(text) as int;
    if text.len() == 0 {
        Seq::empty()
    } else if n >= text.len() {
        seq![text]
    } else {
        seq![without_return(text.take(n))] + lines_of(text.skip(n + 1))
    }
}

/// What a vector of rows stands for.
pub open spec fn rows_view(rows: Seq<Vec<char>>) -> Seq<Seq<char>> {
    Seq::new(rows.len(), |i: int| rows[i]@)
}

/// `first_break` finds the first line feed: no line feed stands before it,
/// and it is a position of `text` exactly where one stands there.
pub proof fn lemma_first_break(text: Seq<char>)
    ensures
        first_break(text) <= text.len(),
        forall|k: int| 0 <= k < first_break(text) ==> text[k] != LINE_FEED,
        first_break(text) < text.len() ==> text[first_break(text) as int] == LINE_FEED,
    decreases text.len(),
{
    if text.len() == 0 || text[0] == LINE_FEED {
    } else {
        let rest = text.drop_first();
        lemma_first_break(rest);
        assert forall|k: int| 0 <= k < first_break(text) implies text[k] != LINE_FEED by {
            if k > 0 {
                assert(text[k] == rest[k - 1]);
            }
        }
        if first_break(text) < text.len() {
            assert(text[first_break(text) as int] == rest[first_break(rest) as int]);
        }
    }
}

/// A position with no line feed before it, which is the end of `text` or
/// holds a line feed, is the first break.
pub proof fn lemma_first_break_at(text: Seq<char>, at: int)
    requires
        0 <= at <= text.len(),
        forall|k: int| 0 <= k < at ==> text[k] != LINE_FEED,
        at < text.len() ==> text[at] == LINE_FEED,
    ensures
        first_break(text) == at,
{
    lemma_first_break(text);
    let n = first_break(text) as int;
    if n < at {
        assert(text[n] == LINE_FEED);
    } else if n > at {
        assert(text[at] != LINE_FEED);
    }
}

/// `String::push` of the standard library: the character is appended to the
/// string, and nothing else in it changes.
pub assume_specification[ String::push ](s: &mut String, ch: char)
    ensures
        final(s)@ == old(s)@.push(ch),
;

/// The characters of `text`, one by one.
pub fn chars_of(text: &str) -> (chars: Vec<char>)
    ensures
        chars@ == text@,
{
    let mut chars: Vec<char> = Vec::new();
    for c in it: text.chars()
        invariant
            it.seq() == text@,
            chars@ == text@.take(it.index()),
    {
        chars.push(c);
        assert(chars@ =~= text@.take(it.index() + 1));
    }
    assert(chars@ =~= text@);
    chars
}

/// Cuts `text` into its rows.
pub fn split_lines(text: &Vec<char>) -> (rows: Vec<Vec<char>>)
    ensures
        rows_view(rows@) == lines_of(text@),
{
    let n = text.len();
    let mut rows: Vec<Vec<char>> = Vec::new();
    let mut start: usize = 0;
    proof {
        assert(text@.skip(0) =~= text@);
        assert(rows_view(rows@) + lines_of(text@) =~= lines_of(text@));
    }
    while start < n
        invariant
            n == text@.len(),
            start <= n,
            lines_of(text@) == rows_view(rows@) + lines_of(text@.skip(start as int)),
        decreases n - start,
    {
        let ghost from = start as int;
        let ghost rest = text@.skip(from);
        let ghost done = rows_view(rows@);
        let mut row: Vec<char> = Vec::new();
        let mut end: usize = start;
        while end < n && text[end] != LINE_FEED
            invariant
                n == text@.len(),
                start <= end <= n,
                row@ == text@.subrange(start as int, end as int),
                forall|k: int| start <= k < end ==> text@[k] != LINE_FEED,
            decreases n - end,
        {
            row.push(text[end]);
            end += 1;
            assert(row@ =~= text@.subrange(start as int, end as int));
        }
        proof {
            lemma_first_break_at(rest, end - from);
            assert(row@ =~= rest.take(end - from));
        }
        if end < n {
            let len = row.len();
            if len > 0 && row[len - 1] == CARRIAGE_RETURN {
                row.pop();
            }
            assert(row@ =~= without_return(rest.take(end - from)));
            start = end + 1;
            assert(rest.skip(end - from + 1) =~= text@.skip(start as int));
        } else {
            start = end;
            assert(rest.take(end - from) =~= rest);
            assert(text@.skip(start as int).len() == 0);
        }
        rows.push(row);
        proof {
            assert(rows_view(rows@) =~= done + seq![row@]);
            assert(lines_of(text@) =~= rows_view(rows@) + lines_of(text@.skip(start as int)));
        }
    }
    proof {
        assert(lines_of(text@.skip(start as int)) =~= Seq::<Seq<char>>::empty());
        assert(rows_view(rows@) + Seq::<Seq<char>>::empty() =~= rows_view(rows@));
    }
    rows
}

} // verus!
