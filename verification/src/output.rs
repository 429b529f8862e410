//! What the writer persists of one replicate: a table named after the
//! sub-seed, with a header and one row per recorded generation.

use crate::sim::ReplicateResult;
use vstd::prelude::*;
use vstd::string::*;

verus! {

/// The character of the decimal digit `d`.
pub open spec fn digit(d: nat) -> char {
    if d == 0 {
        '0'
    } else if d == 1 {
        '1'
    } else if d == 2 {
        '2'
    } else if d == 3 {
        '3'
    } else if d == 4 {
        '4'
    } else if d == 5 {
        '5'
    } else if d == 6 {
        '6'
    } else if d == 7 {
        '7'
    } else if d == 8 {
        '8'
    } else {
        '9'
    }
}

/// The decimal numeral of `n`, without leading zeros.
pub open spec fn decimal(n: nat) -> Seq<char>
    decreases n,
{
    if n < 10 {
        seq![digit(n)]
    } else {
        decimal(n / 10).push(digit(n % 10))
    }
}

/// The name of the table of the replicate with sub-seed `sub_seed`.
pub open spec fn table_name(sub_seed: u64) -> Seq<char> {
    decimal(sub_seed as nat) + ".csv"@
}

fn digit_str(d: u64) -> (text: &'static str)
    requires
        d < 10,
    ensures
        text@ == seq![digit(d as nat)],
{
    proof {
        reveal_strlit("0");
        reveal_strlit("1");
        reveal_strlit("2");
        reveal_strlit("3");
        reveal_strlit("4");
        reveal_strlit("5");
        reveal_strlit("6");
        reveal_strlit("7");
        reveal_strlit("8");
        reveal_strlit("9");
    }
    let text = if d == 0 {
        "0"
    } else if d == 1 {
        "1"
    } else if d == 2 {
        "2"
    } else if d == 3 {
        "3"
    } else if d == 4 {
        "4"
    } else if d == 5 {
        "5"
    } else if d == 6 {
        "6"
    } else if d == 7 {
        "7"
    } else if d == 8 {
        "8"
    } else {
        "9"
    };
    assert(text@ =~= seq![digit(d as nat)]);
    text
}

fn push_decimal(text: &mut String, n: u64)
    ensures
        final(text)@ == old(text)@ + decimal(n as nat),
    decreases n,
{
    if n >= 10 {
        push_decimal(text, n / 10);
    }
    text.append(digit_str(n % 10));
    assert(text@ =~= old(text)@ + decimal(n as nat));
}

/// The name of the file that holds the table of the replicate with sub-seed
/// `sub_seed`: the decimal numeral of the sub-seed, with the extension `csv`.
pub fn file_name(sub_seed: u64) -> (name: String)
    ensures
        name@ == table_name(sub_seed),
{
    let mut name = String::new();
    push_decimal(&mut name, sub_seed);
    name.append(".csv");
    assert(name@ =~= table_name(sub_seed));
    name
}

/// The header of every table: the names of its two columns.
pub fn header() -> (columns: (&'static str, &'static str))
    ensures
        columns.0@ == "generation"@,
        columns.1@ == "frequency"@,
{
    ("generation", "frequency")
}

/// One row of a table: the number of a generation, counted from one, and the
/// frequency recorded for it, as `ones` carriers out of `size` individuals.
#[derive(Clone, Copy, Debug, PartialEq, Eq)]
pub struct Row {
    pub generation: usize,
    pub ones: usize,
    pub size: usize,
}

/// The rows of the table of `result`: one per recorded generation, in order,
/// numbered from one.
pub fn rows(result: &ReplicateResult) -> (table: Vec<Row>)
    ensures
        table.len() == result.counts.len(),
        forall|i: int|
            0 <= i < table.len() ==> #[trigger] table[i] == (Row {
                generation: (i + 1) as usize,
                ones: result.counts[i],
                size: result.size,
            }),
{
    let mut table: Vec<Row> = Vec::new();
    let mut i: usize = 0;
    while i < result.counts.len()
        invariant
            i <= result.counts.len(),
            table.len() == i,
            forall|j: int|
                0 <= j < i ==> #[trigger] table[j] == (Row {
                    generation: (j + 1) as usize,
                    ones: result.counts[j],
                    size: result.size,
                }),
        decreases result.counts.len() - i,
    {
        table.push(Row { generation: i + 1, ones: result.counts[i], size: result.size });
        i += 1;
    }
    table
}

} // verus!
