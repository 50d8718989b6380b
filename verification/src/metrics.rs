use vstd::prelude::*;

verus! {

broadcast use vstd::string::group_string_axioms;

/// The character of the decimal digit `d`.
pub open spec fn digit_char(d: nat) -> char {
    (48 + d) as char
}

/// The decimal notation of `n`, without leading zeros.
pub open spec fn decimal(n: nat) -> Seq<char>
    decreases n,
{
    if n < 10 {
        seq![digit_char(n)]
    } else {
        decimal(n / 10).push(digit_char(n % 10))
    }
}

/// The one-character string of the digit `d`.
fn digit_str(d: u64) -> (s: &'static str)
    requires
        d < 10,
    ensures
        s@ == seq![digit_char(d as nat)],
{
    proof {
        reveal_strlit("0");
        reveal_strlit("1");
        reveal_strlit("2");
        reveal_strlit("3");
        reveal_strlit("4");
        reveal_strlit("5");
        reveal_strlit("6");
        reveal_strlit("7");
        reveal_strlit("8");
        reveal_strlit("9");
    }
    let s = match d {
        0 => "0",
        1 => "1",
        2 => "2",
        3 => "3",
        4 => "4",
        5 => "5",
        6 => "6",
        7 => "7",
        8 => "8",
        _ => "9",
    };
    assert(s@ =~= seq![digit_char(d as nat)]);
    s
}

/// Appends the decimal notation of `n` to `s`.
fn append_decimal(s: &mut String, n: u64)
    ensures
        final(s)@ == old(s)@ + decimal(n as nat),
    decreases n,
{
    if n >= 10 {
        append_decimal(s, n / 10);
    }
    s.append(digit_str(n % 10));
    assert(final(s)@ =~= old(s)@ + decimal(n as nat));
}

/// The decimal notation of `n`, as `to_string` writes it.
pub fn decimal_string(n: u64) -> (s: String)
    ensures
        s@ == decimal(n as nat),
{
    let mut s = String::new();
    append_decimal(&mut s, n);
    assert(s@ =~= decimal(n as nat));
    s
}

/// The metrics row of a run: the document and grammar paths, the time of
/// the run in seconds, the grammar length, the parse tree size, the
/// document length and the batch size, numbers in decimal.
pub fn metrics_record(
    doc: &String,
    grammar: &String,
    time_secs: u64,
    grammar_len: usize,
    tree_size: usize,
    doc_len: usize,
    batch_size: usize,
) -> (row: Vec<String>)
    ensures
        row@.len() == 7,
        row@[0]@ == doc@,
        row@[1]@ == grammar@,
        row@[2]@ == decimal(time_secs as nat),
        row@[3]@ == decimal(grammar_len as nat),
        row@[4]@ == decimal(tree_size as nat),
        row@[5]@ == decimal(doc_len as nat),
        row@[6]@ == decimal(batch_size as nat),
{
    let mut row: Vec<String> = Vec::new();
    row.push(doc.clone());
    row.push(grammar.clone());
    row.push(decimal_string(time_secs));
    row.push(decimal_string(grammar_len as u64));
    row.push(decimal_string(tree_size as u64));
    row.push(decimal_string(doc_len as u64));
    row.push(decimal_string(batch_size as u64));
    row
}

/// The row that separates the runs in the metrics file: four dashed cells
/// and a line break.
pub fn metrics_spacer() -> (row: Vec<String>)
    ensures
        row@.len() == 5,
        forall|i: int| 0 <= i < 4 ==> (#[trigger] row@[i])@ == "---------"@,
        row@[4]@ == "\n"@,
{
    let spacer = "---------";
    let mut row: Vec<String> = Vec::new();
    row.push(spacer.to_string());
    row.push(spacer.to_string());
    row.push(spacer.to_string());
    row.push(spacer.to_string());
    row.push("\n".to_string());
    row
}

} // verus!
