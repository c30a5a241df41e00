//! Rows of the `_background_tasks` table, as the runner reads them.

use vstd::prelude::*;
use vstd::string::StringExecFns;

verus! {

/// A job loaded from the queue table: its id, its type and its encoded data.
pub struct BackgroundJob {
    pub id: i64,
    pub job_type: String,
    pub data: Vec<u8>,
}

/// The character of the decimal digit `d`.
pub open spec fn digit_char(d: nat) -> char {
    (48 + d) as char
}

/// The decimal numeral of `n`, without leading zeros.
pub open spec fn decimal(n: nat) -> Seq<char>
    decreases n,
{
    if n < 10 {
        seq![digit_char(n)]
    } else {
        decimal(n / 10) + seq![digit_char(n % 10)]
    }
}

/// The Postgres placeholder for the `k`-th bound argument: `$k`.
pub open spec fn placeholder(k: nat) -> Seq<char> {
    seq!['$'] + decimal(k)
}

/// The row of values for the `i`-th job of a batch (from 1): its type and its
/// data are the arguments `2i - 1` and `2i`.
pub open spec fn values_row(i: nat) -> Seq<char> {
    seq!['('] + placeholder((2 * i - 1) as nat) + seq![','] + placeholder(2 * i) + seq![')']
}

/// The rows of values of the first `n` jobs of a batch, separated by commas.
pub open spec fn values_rows(n: nat) -> Seq<char>
    decreases n,
{
    if n == 0 {
        Seq::empty()
    } else if n == 1 {
        values_row(1)
    } else {
        values_rows((n - 1) as nat) + seq![','] + values_row(n)
    }
}

/// The head of the statement that inserts a batch of jobs.
pub open spec fn spec_batch_insert_head() -> Seq<char> {
    "INSERT INTO \"_background_tasks\" (job_type, data) VALUES "@
}

/// The statement that inserts a batch of `rows` jobs: each row binds the job's
/// type and then its encoded data, in the order of the jobs.
pub open spec fn spec_batch_insert_statement(rows: nat) -> Seq<char> {
    spec_batch_insert_head() + values_rows(rows)
}

fn digit_str(d: usize) -> (s: &'static str)
    requires
        d < 10,
    ensures
        s@ == seq![digit_char(d as nat)],
{
    proof {
        reveal_strlit("0");
        reveal_strlit("1");
        reveal_strlit("2");
        reveal_strlit("3");
        reveal_strlit("4");
        reveal_strlit("5");
        reveal_strlit("6");
        reveal_strlit("7");
        reveal_strlit("8");
        reveal_strlit("9");
    }
    let s = match d {
        0 => "0",
        1 => "1",
        2 => "2",
        3 => "3",
        4 => "4",
        5 => "5",
        6 => "6",
        7 => "7",
        8 => "8",
        _ => "9",
    };
    assert(s@ =~= seq![digit_char(d as nat)]);
    s
}

/// Appends the decimal numeral of `n` to `s`.
fn append_decimal(s: &mut String, n: usize)
    ensures
        final(s)@ == old(s)@ + decimal(n as nat),
    decreases n,
{
    if n >= 10 {
        append_decimal(s, n / 10);
    }
    s.append(digit_str(n % 10));
    assert(final(s)@ =~= old(s)@ + decimal(n as nat));
}

/// Appends the placeholder of the `k`-th argument to `s`.
fn append_placeholder(s: &mut String, k: usize)
    ensures
        final(s)@ == old(s)@ + placeholder(k as nat),
{
    s.append("$");
    proof {
        reveal_strlit("$");
    }
    append_decimal(s, k);
    assert(final(s)@ =~= old(s)@ + placeholder(k as nat));
}

/// The statement that inserts `rows` jobs at once; the caller binds, for each
/// job in turn, its type and then its encoded data.
pub fn batch_insert_statement(rows: usize) -> (sql: String)
    requires
        rows <= usize::MAX / 2,
    ensures
        sql@ == spec_batch_insert_statement(rows as nat),
{
    let mut sql = String::from_str("INSERT INTO \"_background_tasks\" (job_type, data) VALUES ");
    let mut i: usize = 0;
    while i < rows
        invariant
            i <= rows,
            rows <= usize::MAX / 2,
            sql@ == spec_batch_insert_head() + values_rows(i as nat),
        decreases rows - i,
    {
        let ghost before = sql@;
        i = i + 1;
        if i > 1 {
            sql.append(",");
            proof {
                reveal_strlit(",");
            }
        }
        sql.append("(");
        proof {
            reveal_strlit("(");
        }
        append_placeholder(&mut sql, 2 * i - 1);
        sql.append(",");
        proof {
            reveal_strlit(",");
        }
        append_placeholder(&mut sql, 2 * i);
        sql.append(")");
        proof {
            reveal_strlit(")");
        }
        assert(sql@ =~= spec_batch_insert_head() + values_rows(i as nat));
    }
    sql
}

/// The value of a string of decimal digits, read the usual way (most
/// significant digit first, each character `c` worth `c - '0'`).
pub open spec fn numeral_value(s: Seq<char>) -> int
    decreases s.len(),
{
    if s.len() == 0 {
        0
    } else {
        10 * numeral_value(s.drop_last()) + (s.last() as int - 48)
    }
}

/// Whether every character of `s` is one of `0`..`9`.
pub open spec fn all_digits(s: Seq<char>) -> bool {
    forall|i: int| 0 <= i < s.len() ==> 48 <= (#[trigger] s[i]) as int <= 57
}

/// Law: the numeral of `n` is the standard decimal numeral: it is made of
/// the digits `0`..`9`, has no leading zero, and reads back as `n`.
pub proof fn lemma_decimal_reads_back(n: nat)
    ensures
        decimal(n).len() >= 1,
        all_digits(decimal(n)),
        numeral_value(decimal(n)) == n,
        n > 0 ==> decimal(n)[0] != '0',
    decreases n,
{
    if n < 10 {
        assert(digit_char(n) as int == 48 + n);
        assert(decimal(n).drop_last() =~= Seq::<char>::empty());
        assert(numeral_value(decimal(n).drop_last()) == 0);
        assert(decimal(n).last() == digit_char(n));
    } else {
        lemma_decimal_reads_back(n / 10);
        let d = n % 10;
        assert(digit_char(d) as int == 48 + d);
        let s = decimal(n);
        assert(s.drop_last() =~= decimal(n / 10));
        assert(s.last() == digit_char(d));
        assert(s[0] == decimal(n / 10)[0]);
        assert(n == 10 * (n / 10) + d) by (nonlinear_arith)
            requires
                d == n % 10,
        ;
        assert(numeral_value(s) == 10 * numeral_value(s.drop_last()) + (s.last() as int - 48));
        assert forall|i: int| 0 <= i < s.len() implies 48 <= (#[trigger] s[i]) as int <= 57 by {
            if i < s.len() - 1 {
                assert(s[i] == decimal(n / 10)[i]);
            }
        }
    }
}

/// Law: distinct argument numbers get distinct placeholders, so a statement
/// never binds one argument under two numbers or two under one.
pub proof fn lemma_placeholder_injective(a: nat, b: nat)
    requires
        placeholder(a) == placeholder(b),
    ensures
        a == b,
{
    lemma_decimal_reads_back(a);
    lemma_decimal_reads_back(b);
    assert(placeholder(a).drop_first() =~= decimal(a));
    assert(placeholder(b).drop_first() =~= decimal(b));
}

/// Law: the statement for one job binds `$1` and `$2`, and the statement for
/// `n + 1` jobs is the one for `n` jobs followed by one more row binding the
/// next two arguments, `$(2n + 1)` and `$(2n + 2)`. So an `n`-job statement
/// binds the arguments `1..2n`, in order, each once.
pub proof fn lemma_batch_statement_grows_by_one_row(n: nat)
    ensures
        spec_batch_insert_statement(1) == spec_batch_insert_head() + seq!['(', '$', '1', ',', '$', '2', ')'],
        n >= 1 ==> spec_batch_insert_statement(n + 1) == spec_batch_insert_statement(n) + seq![',', '(', '$']
            + decimal(2 * n + 1) + seq![',', '$'] + decimal(2 * n + 2) + seq![')'],
        spec_batch_insert_statement(0) == spec_batch_insert_head(),
{
    assert(digit_char(1) == '1');
    assert(digit_char(2) == '2');
    assert(decimal(1) =~= seq!['1']);
    assert(decimal(2) =~= seq!['2']);
    assert(spec_batch_insert_statement(1) =~= spec_batch_insert_head() + seq!['(', '$', '1', ',', '$', '2', ')']);
    if n >= 1 {
        assert(values_rows(n + 1) == values_rows(n) + seq![','] + values_row(n + 1));
        assert(spec_batch_insert_statement(n + 1) =~= spec_batch_insert_statement(n) + seq![',', '(', '$']
            + decimal(2 * n + 1) + seq![',', '$'] + decimal(2 * n + 2) + seq![')']);
    }
    assert(spec_batch_insert_statement(0) =~= spec_batch_insert_head());
}

} // verus!
