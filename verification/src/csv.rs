//! The dump of a store as CSV: a header line, then one line for each key
//! with its senders.

use vstd::prelude::*;

verus! {

/// The first line of every dump.
pub const CSV_HEADER: &'static str = "phone_number,senders\n";

/// What stands between a key and its senders.
pub const FIELD_SEPARATOR: char = ',';

/// What stands between two senders of one key.
pub const SENDER_SEPARATOR: char = '|';

/// The senders in their order, with a separator between each two of them.
pub open spec fn joined_senders(senders: Seq<Seq<char>>) -> Seq<char>
    decreases senders.len(),
{
    if senders.len() == 0 {
        Seq::empty()
    } else if senders.len() == 1 {
        senders[0]
    } else {
        joined_senders(senders.drop_last()).push(SENDER_SEPARATOR) + senders.last()
    }
}

/// The line of one key: the key, the separator, the senders, a line feed.
pub open spec fn csv_line(row: (Seq<char>, Seq<Seq<char>>)) -> Seq<char> {
    (row.0.push(FIELD_SEPARATOR) + joined_senders(row.1)).push('\n')
}

/// The lines of the rows, in their order.
pub open spec fn csv_lines(rows: Seq<(Seq<char>, Seq<Seq<char>>)>) -> Seq<char>
    decreases rows.len(),
{
    if rows.len() == 0 {
        Seq::empty()
    } else {
        csv_lines(rows.drop_last()) + csv_line(rows.last())
    }
}

/// The dump of the rows: the header, then their lines.
pub open spec fn csv_text(rows: Seq<(Seq<char>, Seq<Seq<char>>)>) -> Seq<char> {
    CSV_HEADER@ + csv_lines(rows)
}

/// Appends the senders to `text`, with a separator between each two of them.
fn push_senders(text: &mut String, senders: &Vec<String>)
    ensures
        final(text)@ == old(text)@ + joined_senders(senders.deep_view()),
{
    let ghost all = senders.deep_view();
    let mut i: usize = 0;
    while i < senders.len()
        invariant
            i <= senders.len(),
            all == senders.deep_view(),
            text@ == old(text)@ + joined_senders(all.take(i as int)),
        decreases senders.len() - i,
    {
        let ghost before = text@;
        if i > 0 {
            text.push(SENDER_SEPARATOR);
        }
        text.append(senders[i].as_str());
        proof {
            let seen = all.take(i + 1);
            assert(seen.drop_last() == all.take(i as int));
            assert(seen.last() == senders[i as int]@);
            if i == 0 {
                assert(seen[0] == senders[i as int]@);
                assert(joined_senders(all.take(0)) == Seq::<char>::empty());
                assert(text@ == old(text)@ + joined_senders(seen));
            } else {
                assert(joined_senders(seen) == joined_senders(all.take(i as int)).push(
                    SENDER_SEPARATOR,
                ) + seen.last());
                assert(text@ == old(text)@ + joined_senders(seen));
            }
        }
        i += 1;
    }
    assert(all.take(all.len() as int) == all);
}

/// Renders the rows as CSV.
pub fn render_csv(rows: &Vec<(String, Vec<String>)>) -> (text: String)
    ensures
        text@ == csv_text(rows.deep_view()),
{
    let ghost all = rows.deep_view();
    let mut text = CSV_HEADER.to_owned();
    let mut i: usize = 0;
    while i < rows.len()
        invariant
            i <= rows.len(),
            all == rows.deep_view(),
            text@ == CSV_HEADER@ + csv_lines(all.take(i as int)),
        decreases rows.len() - i,
    {
        let ghost before = text@;
        text.append(rows[i].0.as_str());
        text.push(FIELD_SEPARATOR);
        push_senders(&mut text, &rows[i].1);
        text.push('\n');
        proof {
            let seen = all.take(i + 1);
            assert(seen.drop_last() == all.take(i as int));
            assert(seen.last() == (rows[i as int].0@, rows[i as int].1.deep_view()));
            assert(text@ == before + csv_line(seen.last()));
            assert(text@ == CSV_HEADER@ + csv_lines(seen));
        }
        i += 1;
    }
    assert(all.take(all.len() as int) == all);
    text
}

} // verus!
