//! Result exporter: renders the accumulated (name, count) records as a
//! two-line comma-separated table, header of names above the matching
//! decimal values.

use vstd::prelude::*;
use vstd::string::StringExecFns;

verus! {

/// The decimal digit character for `d`.
pub open spec fn digit_char(d: nat) -> char {
    if d == 0 { '0' }
    else if d == 1 { '1' }
    else if d == 2 { '2' }
    else if d == 3 { '3' }
    else if d == 4 { '4' }
    else if d == 5 { '5' }
    else if d == 6 { '6' }
    else if d == 7 { '7' }
    else if d == 8 { '8' }
    else { '9' }
}

/// The usual decimal rendering of `n`, without a sign and without leading
/// zeros (except for `n == 0` itself).
pub open spec fn dec_str(n: nat) -> Seq<char>
    decreases n,
{
    if n < 10 {
        seq![digit_char(n)]
    } else {
        dec_str(n / 10).push(digit_char(n % 10))
    }
}

/// The record names joined by commas, in order, with no trailing delimiter.
pub open spec fn joined_names(rs: Seq<(Seq<char>, u64)>) -> Seq<char>
    decreases rs.len(),
{
    if rs.len() == 0 {
        Seq::empty()
    } else if rs.len() == 1 {
        rs[0].0
    } else {
        joined_names(rs.drop_last()) + seq![','] + rs.last().0
    }
}

/// The record values joined by commas, in order, each in decimal.
pub open spec fn joined_values(rs: Seq<(Seq<char>, u64)>) -> Seq<char>
    decreases rs.len(),
{
    if rs.len() == 0 {
        Seq::empty()
    } else if rs.len() == 1 {
        dec_str(rs[0].1 as nat)
    } else {
        joined_values(rs.drop_last()) + seq![','] + dec_str(rs.last().1 as nat)
    }
}

/// The whole exported table: header line and value line, each
/// newline-terminated, positionally aligned to each other.
pub open spec fn table_text(rs: Seq<(Seq<char>, u64)>) -> Seq<char> {
    joined_names(rs) + seq!['\n'] + joined_values(rs) + seq!['\n']
}

/// The mathematical records a vector of (name, count) pairs stands for.
pub open spec fn view_records(rs: Seq<(String, u64)>) -> Seq<(Seq<char>, u64)> {
    rs.map_values(|r: (String, u64)| (r.0@, r.1))
}

/// Appends the character for the decimal digit `d`.
fn push_digit(d: u64, out: &mut String)
    requires
        d < 10,
    ensures
        final(out)@ == old(out)@ + seq![digit_char(d as nat)],
{
    let s: &'static str = if d == 0 { "0" }
    else if d == 1 { "1" }
    else if d == 2 { "2" }
    else if d == 3 { "3" }
    else if d == 4 { "4" }
    else if d == 5 { "5" }
    else if d == 6 { "6" }
    else if d == 7 { "7" }
    else if d == 8 { "8" }
    else { "9" };
    proof {
        reveal_strlit("0");
        reveal_strlit("1");
        reveal_strlit("2");
        reveal_strlit("3");
        reveal_strlit("4");
        reveal_strlit("5");
        reveal_strlit("6");
        reveal_strlit("7");
        reveal_strlit("8");
        reveal_strlit("9");
        assert(s@ =~= seq![digit_char(d as nat)]);
    }
    out.append(s);
}

/// Appends the decimal rendering of `n`.
fn push_dec(n: u64, out: &mut String)
    ensures
        final(out)@ == old(out)@ + dec_str(n as nat),
    decreases n,
{
    if n >= 10 {
        push_dec(n / 10, out);
    }
    push_digit(n % 10, out);
    proof {
        if n >= 10 {
            assert(final(out)@ =~= old(out)@ + dec_str(n as nat));
        } else {
            assert(final(out)@ =~= old(out)@ + dec_str(n as nat));
        }
    }
}

/// Renders the accumulator as the two-line table, or `None` when it holds
/// no records (in which case nothing is to be written anywhere).
pub fn render_table(rs: &Vec<(String, u64)>) -> (out: Option<String>)
    ensures
        out is Some <==> rs@.len() > 0,
        out matches Some(s) ==> s@ == table_text(view_records(rs@)),
{
    if rs.len() == 0 {
        return None;
    }
    proof {
        reveal_strlit(",");
        reveal_strlit("\n");
    }
    let ghost all = view_records(rs@);
    let mut header = String::new();
    let mut values = String::new();
    let mut i: usize = 0;
    while i < rs.len()
        invariant
            i <= rs@.len(),
            all == view_records(rs@),
            header@ == joined_names(all.take(i as int)),
            values@ == joined_values(all.take(i as int)),
        decreases rs@.len() - i,
    {
        proof {
            reveal_strlit(",");
            assert(all.take(i as int + 1).drop_last() =~= all.take(i as int));
            assert(all.take(i as int + 1).last() == all[i as int]);
        }
        if i > 0 {
            header.append(",");
            values.append(",");
            proof {
                assert(","@ =~= seq![',']);
            }
        }
        let entry = &rs[i];
        header.append(entry.0.as_str());
        push_dec(entry.1, &mut values);
        proof {
            if i == 0 {
                assert(all.take(1).len() == 1);
                assert(header@ =~= joined_names(all.take(1)));
                assert(values@ =~= joined_values(all.take(1)));
            } else {
                assert(header@ =~= joined_names(all.take(i as int + 1)));
                assert(values@ =~= joined_values(all.take(i as int + 1)));
            }
        }
        i += 1;
    }
    proof {
        assert(all.take(rs@.len() as int) =~= all);
        assert("\n"@ =~= seq!['\n']);
    }
    header.append("\n");
    header.append(values.as_str());
    header.append("\n");
    proof {
        assert(header@ =~= table_text(all));
    }
    Some(header)
}

} // verus!
