//! The command dispatcher: the benchmark's fixed command vocabulary, the
//! bounded structured query each command runs, and the single integer it
//! measures.
//!
//! Every recognized command wraps the translated shorthand in the same
//! query template with a command-specific result limit. Counting commands
//! report the engine's total-hits value; bare top-K commands report a
//! fixed sentinel, since they measure retrieval latency, not a count. An
//! unrecognized command token is no error: it is reported as unsupported
//! and the run continues.

use vstd::prelude::*;
use vstd::string::StrSliceExecFns;
use vstd::string::StringExecFns;

use crate::text::eq_str;
use crate::text::find_from;
use crate::text::lemma_split_on_last;
use crate::text::lemma_split_on_nonempty;
use crate::text::lemma_split_on_step;
use crate::text::split_on;
use crate::translate::parse_query;
use crate::translate::translated;

verus! {

/// The benchmark's command vocabulary: count-only, top-K retrieval, and
/// top-K retrieval measured by hit count.
#[derive(Clone, Copy, Debug, PartialEq, Eq, Structural)]
pub enum QueryCommand {
    Count,
    Top10,
    Top100,
    Top1000,
    Top1Count,
    Top5Count,
    Top10Count,
    Top100Count,
    Top1000Count,
}

/// Which command a request token names, if any.
pub open spec fn spec_command(token: Seq<char>) -> Option<QueryCommand> {
    if token == "COUNT"@ {
        Some(QueryCommand::Count)
    } else if token == "TOP_10"@ {
        Some(QueryCommand::Top10)
    } else if token == "TOP_100"@ {
        Some(QueryCommand::Top100)
    } else if token == "TOP_1000"@ {
        Some(QueryCommand::Top1000)
    } else if token == "TOP_1_COUNT"@ {
        Some(QueryCommand::Top1Count)
    } else if token == "TOP_5_COUNT"@ {
        Some(QueryCommand::Top5Count)
    } else if token == "TOP_10_COUNT"@ {
        Some(QueryCommand::Top10Count)
    } else if token == "TOP_100_COUNT"@ {
        Some(QueryCommand::Top100Count)
    } else if token == "TOP_1000_COUNT"@ {
        Some(QueryCommand::Top1000Count)
    } else {
        None
    }
}

impl QueryCommand {
    /// The result limit this command attaches to its query.
    pub open spec fn spec_limit(self) -> u64 {
        match self {
            QueryCommand::Count => 0,
            QueryCommand::Top10 => 10,
            QueryCommand::Top100 => 100,
            QueryCommand::Top1000 => 1000,
            QueryCommand::Top1Count => 1,
            QueryCommand::Top5Count => 5,
            QueryCommand::Top10Count => 10,
            QueryCommand::Top100Count => 100,
            QueryCommand::Top1000Count => 1000,
        }
    }

    /// The decimal spelling of the limit, as it appears in the query.
    pub open spec fn limit_digits(self) -> Seq<char> {
        match self {
            QueryCommand::Count => "0"@,
            QueryCommand::Top10 => "10"@,
            QueryCommand::Top100 => "100"@,
            QueryCommand::Top1000 => "1000"@,
            QueryCommand::Top1Count => "1"@,
            QueryCommand::Top5Count => "5"@,
            QueryCommand::Top10Count => "10"@,
            QueryCommand::Top100Count => "100"@,
            QueryCommand::Top1000Count => "1000"@,
        }
    }

    /// Whether the engine's reported total-hits count is the measurement;
    /// for bare top-K retrievals a fixed sentinel is reported instead.
    pub open spec fn spec_counts_hits(self) -> bool {
        match self {
            QueryCommand::Top10 => false,
            QueryCommand::Top100 => false,
            QueryCommand::Top1000 => false,
            _ => true,
        }
    }

    pub fn limit(&self) -> (k: u64)
        ensures
            k == self.spec_limit(),
    {
        match self {
            QueryCommand::Count => 0,
            QueryCommand::Top10 => 10,
            QueryCommand::Top100 => 100,
            QueryCommand::Top1000 => 1000,
            QueryCommand::Top1Count => 1,
            QueryCommand::Top5Count => 5,
            QueryCommand::Top10Count => 10,
            QueryCommand::Top100Count => 100,
            QueryCommand::Top1000Count => 1000,
        }
    }

    pub fn counts_hits(&self) -> (b: bool)
        ensures
            b == self.spec_counts_hits(),
    {
        match self {
            QueryCommand::Top10 => false,
            QueryCommand::Top100 => false,
            QueryCommand::Top1000 => false,
            _ => true,
        }
    }

    fn limit_str(&self) -> (s: &'static str)
        ensures
            s@ == self.limit_digits(),
    {
        match self {
            QueryCommand::Count => "0",
            QueryCommand::Top10 => "10",
            QueryCommand::Top100 => "100",
            QueryCommand::Top1000 => "1000",
            QueryCommand::Top1Count => "1",
            QueryCommand::Top5Count => "5",
            QueryCommand::Top10Count => "10",
            QueryCommand::Top100Count => "100",
            QueryCommand::Top1000Count => "1000",
        }
    }
}

/// The character for one decimal digit.
pub open spec fn dec_digit(d: nat) -> char {
    if d == 0 {
        '0'
    } else if d == 1 {
        '1'
    } else if d == 2 {
        '2'
    } else if d == 3 {
        '3'
    } else if d == 4 {
        '4'
    } else if d == 5 {
        '5'
    } else if d == 6 {
        '6'
    } else if d == 7 {
        '7'
    } else if d == 8 {
        '8'
    } else {
        '9'
    }
}

/// The decimal digits of `n`, most significant first.
pub open spec fn decimal(n: nat) -> Seq<char>
    decreases n,
{
    if n < 10 {
        seq![dec_digit(n)]
    } else {
        decimal(n / 10).push(dec_digit(n % 10))
    }
}

/// LAW: the limit spelled into each command's query is exactly the
/// decimal spelling of that command's numeric limit.
pub proof fn lemma_limit_digits_decimal(cmd: QueryCommand)
    ensures
        cmd.limit_digits() == decimal(cmd.spec_limit() as nat),
{
    reveal_strlit("0");
    reveal_strlit("1");
    reveal_strlit("5");
    reveal_strlit("10");
    reveal_strlit("100");
    reveal_strlit("1000");
    reveal_with_fuel(decimal, 5);
    assert(decimal(0) =~= "0"@);
    assert(decimal(1) =~= "1"@);
    assert(decimal(5) =~= "5"@);
    assert(decimal(10) =~= "10"@);
    assert(decimal(100) =~= "100"@);
    assert(decimal(1000) =~= "1000"@);
}

/// Recognizes a command token.
pub fn parse_command(token: &str) -> (r: Option<QueryCommand>)
    ensures
        r == spec_command(token@),
{
    if eq_str(token, "COUNT") {
        Some(QueryCommand::Count)
    } else if eq_str(token, "TOP_10") {
        Some(QueryCommand::Top10)
    } else if eq_str(token, "TOP_100") {
        Some(QueryCommand::Top100)
    } else if eq_str(token, "TOP_1000") {
        Some(QueryCommand::Top1000)
    } else if eq_str(token, "TOP_1_COUNT") {
        Some(QueryCommand::Top1Count)
    } else if eq_str(token, "TOP_5_COUNT") {
        Some(QueryCommand::Top5Count)
    } else if eq_str(token, "TOP_10_COUNT") {
        Some(QueryCommand::Top10Count)
    } else if eq_str(token, "TOP_100_COUNT") {
        Some(QueryCommand::Top100Count)
    } else if eq_str(token, "TOP_1000_COUNT") {
        Some(QueryCommand::Top1000Count)
    } else {
        None
    }
}

/// The full structured query a command runs over a space: the fixed
/// template around the translated shorthand and the command's limit.
pub open spec fn sql_of(space: Seq<char>, shorthand: Seq<char>, cmd: QueryCommand) -> Seq<char> {
    "select * from "@ + space + " where "@ + translated(shorthand) + " limit "@
        + cmd.limit_digits()
}

/// Builds the structured query `cmd` runs against `space` for the given
/// shorthand.
pub fn build_sql(space: &str, shorthand: &str, cmd: &QueryCommand) -> (sql: String)
    ensures
        sql@ == sql_of(space@, shorthand@, *cmd),
{
    let mut out = String::from_str("select * from ");
    out.append(space);
    out.append(" where ");
    let pred = parse_query(shorthand);
    out.append(pred.as_str());
    out.append(" limit ");
    out.append(cmd.limit_str());
    proof {
        assert(out@ =~= sql_of(space@, shorthand@, *cmd));
    }
    out
}

/// The benchmark measurement extracted from the engine's reply: the
/// total-hits count for counting commands, the fixed sentinel for bare
/// top-K retrievals.
pub fn measurement(cmd: &QueryCommand, total_hits: u64) -> (m: u64)
    ensures
        m == (if cmd.spec_counts_hits() {
            total_hits
        } else {
            1u64
        }),
{
    if cmd.counts_hits() {
        total_hits
    } else {
        1
    }
}

/// What the driver does with one request.
pub enum QueryPlan {
    /// The command token was not recognized: report the unsupported
    /// marker and continue with the next request.
    Unsupported,
    /// Run `sql` against the engine and measure according to `command`.
    Run { sql: String, command: QueryCommand },
}

/// Maps one request — a command token and a shorthand query — onto the
/// query to run, or onto the unsupported marker for an unknown token.
pub fn dispatch(space: &str, token: &str, shorthand: &str) -> (p: QueryPlan)
    ensures
        (p is Unsupported) <==> (spec_command(token@) is None),
        (p matches QueryPlan::Run { sql, command } ==> spec_command(token@) == Some(command)
            && sql@ == sql_of(space@, shorthand@, command)),
{
    match parse_command(token) {
        None => QueryPlan::Unsupported,
        Some(cmd) => {
            let sql = build_sql(space, shorthand, &cmd);
            QueryPlan::Run { sql, command: cmd }
        },
    }
}

/// The exact marker reported for an unrecognized command token.
pub fn unsupported_marker() -> (s: &'static str)
    ensures
        s@ == "UNSUPPORTED"@,
{
    "UNSUPPORTED"
}

/// Splits one request line into its command token and shorthand query.
/// A request is exactly two tab-separated fields; any other field count
/// is a format violation and yields `None`.
pub fn split_request<'a>(line: &'a str) -> (r: Option<(&'a str, &'a str)>)
    ensures
        ({
            let fields = split_on(line@, '\t');
            match r {
                Some(pair) => fields.len() == 2 && pair.0@ == fields[0] && pair.1@ == fields[1],
                None => fields.len() != 2,
            }
        }),
{
    let n = line.unicode_len();
    match find_from(line, 0, '\t') {
        None => {
            proof {
                lemma_split_on_last(line@, '\t', 0);
                assert(line@.skip(0) =~= line@);
            }
            None
        },
        Some(j) => {
            match find_from(line, j + 1, '\t') {
                Some(j2) => {
                    proof {
                        assert(line@.skip(0) =~= line@);
                        lemma_split_on_step(line@, '\t', 0, j as int);
                        lemma_split_on_step(line@, '\t', j as int + 1, j2 as int);
                        lemma_split_on_nonempty(line@.skip(j2 as int + 1), '\t');
                    }
                    None
                },
                None => {
                    let cmd = line.substring_char(0, j);
                    let rest = line.substring_char(j + 1, n);
                    proof {
                        assert(line@.skip(0) =~= line@);
                        lemma_split_on_step(line@, '\t', 0, j as int);
                        lemma_split_on_last(line@, '\t', j as int + 1);
                    }
                    Some((cmd, rest))
                },
            }
        },
    }
}

} // verus!
