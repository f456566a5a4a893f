//! Benchmark commands (`COUNT`, `TOP_10`, `TOP_100_COUNT`, ...) and what each
//! engine does for them.

use vstd::prelude::*;

use crate::request::{
    blank_query_has_no_positive_terms, has_no_positive_terms, negation_only_law, no_positive_terms,
};
use crate::text::is_word_start;
use crate::text::all_ws;
use crate::request::{command_and_query, count_char, split_request, split_two_fields};
use crate::text::{chars_are, chars_of, has_char};

verus! {

/// The number of hits a `TOP_k` command asks for; 10 for any other command.
pub open spec fn top_k_spec(c: Seq<char>) -> usize {
    if c == "TOP_10"@ {
        10
    } else if c == "TOP_100"@ {
        100
    } else if c == "TOP_1000"@ {
        1000
    } else {
        10
    }
}

/// The number of hits a `TOP_k_COUNT` command asks for; 10 for any other command.
pub open spec fn top_k_count_spec(c: Seq<char>) -> usize {
    if c == "TOP_1_COUNT"@ {
        1
    } else if c == "TOP_5_COUNT"@ {
        5
    } else if c == "TOP_10_COUNT"@ {
        10
    } else if c == "TOP_100_COUNT"@ {
        100
    } else if c == "TOP_1000_COUNT"@ {
        1000
    } else {
        10
    }
}

/// Whether `c` is one of `TOP_10`, `TOP_100`, `TOP_1000`.
pub open spec fn is_top_command(c: Seq<char>) -> bool {
    c == "TOP_10"@ || c == "TOP_100"@ || c == "TOP_1000"@
}

/// Whether `c` is one of `TOP_1_COUNT`, `TOP_5_COUNT`, `TOP_10_COUNT`,
/// `TOP_100_COUNT`, `TOP_1000_COUNT`.
pub open spec fn is_top_count_command(c: Seq<char>) -> bool {
    c == "TOP_1_COUNT"@ || c == "TOP_5_COUNT"@ || c == "TOP_10_COUNT"@ || c == "TOP_100_COUNT"@
        || c == "TOP_1000_COUNT"@
}

/// The number of hits a `TOP_k` command asks for (10, 100 or 1000); any
/// other command gets 10.
pub fn top_k(command: &str) -> (k: usize)
    ensures
        k == top_k_spec(command@),
{
    let c = chars_of(command);
    if chars_are(&c, "TOP_10") {
        10
    } else if chars_are(&c, "TOP_100") {
        100
    } else if chars_are(&c, "TOP_1000") {
        1000
    } else {
        10
    }
}

/// The number of hits a `TOP_k_COUNT` command asks for (1, 5, 10, 100 or
/// 1000); any other command gets 10.
pub fn top_k_count(command: &str) -> (k: usize)
    ensures
        k == top_k_count_spec(command@),
{
    let c = chars_of(command);
    if chars_are(&c, "TOP_1_COUNT") {
        1
    } else if chars_are(&c, "TOP_5_COUNT") {
        5
    } else if chars_are(&c, "TOP_10_COUNT") {
        10
    } else if chars_are(&c, "TOP_100_COUNT") {
        100
    } else if chars_are(&c, "TOP_1000_COUNT") {
        1000
    } else {
        10
    }
}

/// What the infino engine does for a request.
#[derive(PartialEq, Eq, Structural, Debug, Clone, Copy)]
pub enum InfinoPlan {
    /// The query has no positive term: answer 0 without searching.
    NoPositiveTerms,
    /// Run a pruned top-`k` BM25 search; answer 1 once it succeeds.
    TopK(usize),
    /// Count the matching documents with an unpruned posting walk.
    Count,
    /// Run a top-`k` search, then count the matching documents.
    TopKThenCount(usize),
    /// Answer `UNSUPPORTED`.
    Unsupported,
}

/// The infino engine's plan for `command` and `query`. A query without a
/// positive term is answered 0 whatever the command; the supported commands
/// are `TOP_10`, `TOP_100`, `TOP_1000`, `COUNT` and the five `TOP_k_COUNT`.
pub open spec fn infino_plan_spec(command: Seq<char>, query: Seq<char>) -> InfinoPlan {
    if no_positive_terms(query) {
        InfinoPlan::NoPositiveTerms
    } else if is_top_command(command) {
        InfinoPlan::TopK(top_k_spec(command))
    } else if command == "COUNT"@ {
        InfinoPlan::Count
    } else if is_top_count_command(command) {
        InfinoPlan::TopKThenCount(top_k_count_spec(command))
    } else {
        InfinoPlan::Unsupported
    }
}

/// Plans a request for the infino engine.
pub fn infino_plan(command: &str, query: &str) -> (r: InfinoPlan)
    ensures
        r == infino_plan_spec(command@, query@),
{
    if has_no_positive_terms(query) {
        return InfinoPlan::NoPositiveTerms;
    }
    let c = chars_of(command);
    if chars_are(&c, "TOP_10") || chars_are(&c, "TOP_100") || chars_are(&c, "TOP_1000") {
        InfinoPlan::TopK(top_k(command))
    } else if chars_are(&c, "COUNT") {
        InfinoPlan::Count
    } else if chars_are(&c, "TOP_1_COUNT") || chars_are(&c, "TOP_5_COUNT") || chars_are(
        &c,
        "TOP_10_COUNT",
    ) || chars_are(&c, "TOP_100_COUNT") || chars_are(&c, "TOP_1000_COUNT") {
        InfinoPlan::TopKThenCount(top_k_count(command))
    } else {
        InfinoPlan::Unsupported
    }
}

/// The line an engine prints for a request.
#[derive(PartialEq, Eq, Structural, Debug, Clone, Copy)]
pub enum Reply {
    /// A number.
    Count(u64),
    /// `UNSUPPORTED`.
    Unsupported,
}

/// The infino engine's reply, given its plan and the outcome of the search
/// work the plan asked for (`None` when that work failed, else the count
/// that came back; a top-`k` search alone has no count to give).
pub open spec fn infino_reply_spec(plan: InfinoPlan, outcome: Option<u64>) -> Reply {
    match plan {
        InfinoPlan::NoPositiveTerms => Reply::Count(0),
        InfinoPlan::TopK(_) => Reply::Count(
            if outcome is Some {
                1
            } else {
                0
            },
        ),
        InfinoPlan::Count | InfinoPlan::TopKThenCount(_) => Reply::Count(
            match outcome {
                Some(n) => n,
                None => 0,
            },
        ),
        InfinoPlan::Unsupported => Reply::Unsupported,
    }
}

/// The infino engine's reply: a failed search or count is answered 0.
pub fn infino_reply(plan: InfinoPlan, outcome: Option<u64>) -> (r: Reply)
    ensures
        r == infino_reply_spec(plan, outcome),
{
    match plan {
        InfinoPlan::NoPositiveTerms => Reply::Count(0),
        InfinoPlan::TopK(_) => Reply::Count(
            if outcome.is_some() {
                1
            } else {
                0
            },
        ),
        InfinoPlan::Count | InfinoPlan::TopKThenCount(_) => Reply::Count(
            match outcome {
                Some(n) => n,
                None => 0,
            },
        ),
        InfinoPlan::Unsupported => Reply::Unsupported,
    }
}

/// A command of the tantivy engine.
#[derive(PartialEq, Eq, Structural, Debug, Clone, Copy)]
pub enum TantivyCommand {
    /// `COUNT`: the query's own count.
    Count,
    /// `UNOPTIMIZED_COUNT`: a collector that counts every hit.
    UnoptimizedCount,
    /// `TOP_k`: a top-`k` search; answered 1.
    Top(usize),
    /// `TOP_k_COUNT`: a top-`k` search together with a count.
    TopCount(usize),
    /// `DEBUG_TOP_10`: the pruned and unpruned checkpoints of a top-10 walk; answered 0.
    DebugTop10,
    /// Anything else: `UNSUPPORTED`.
    Unsupported,
}

/// The tantivy engine's reading of `command`.
pub open spec fn tantivy_command_spec(c: Seq<char>) -> TantivyCommand {
    if c == "COUNT"@ {
        TantivyCommand::Count
    } else if c == "UNOPTIMIZED_COUNT"@ {
        TantivyCommand::UnoptimizedCount
    } else if is_top_command(c) {
        TantivyCommand::Top(top_k_spec(c))
    } else if is_top_count_command(c) {
        TantivyCommand::TopCount(top_k_count_spec(c))
    } else if c == "DEBUG_TOP_10"@ {
        TantivyCommand::DebugTop10
    } else {
        TantivyCommand::Unsupported
    }
}

/// Reads a command of the tantivy engine.
pub fn tantivy_command(command: &str) -> (r: TantivyCommand)
    ensures
        r == tantivy_command_spec(command@),
{
    let c = chars_of(command);
    if chars_are(&c, "COUNT") {
        TantivyCommand::Count
    } else if chars_are(&c, "UNOPTIMIZED_COUNT") {
        TantivyCommand::UnoptimizedCount
    } else if chars_are(&c, "TOP_10") || chars_are(&c, "TOP_100") || chars_are(&c, "TOP_1000") {
        TantivyCommand::Top(top_k(command))
    } else if chars_are(&c, "TOP_1_COUNT") || chars_are(&c, "TOP_5_COUNT") || chars_are(
        &c,
        "TOP_10_COUNT",
    ) || chars_are(&c, "TOP_100_COUNT") || chars_are(&c, "TOP_1000_COUNT") {
        TantivyCommand::TopCount(top_k_count(command))
    } else if chars_are(&c, "DEBUG_TOP_10") {
        TantivyCommand::DebugTop10
    } else {
        TantivyCommand::Unsupported
    }
}

/// The tantivy engine's reply, given the count its search produced (used by
/// the counting commands only).
pub open spec fn tantivy_reply_spec(command: TantivyCommand, counted: u64) -> Reply {
    match command {
        TantivyCommand::Count | TantivyCommand::UnoptimizedCount | TantivyCommand::TopCount(_) => Reply::Count(counted),
        TantivyCommand::Top(_) => Reply::Count(1),
        TantivyCommand::DebugTop10 => Reply::Count(0),
        TantivyCommand::Unsupported => Reply::Unsupported,
    }
}

/// The tantivy engine's reply for a command whose search gave `counted`.
pub fn tantivy_reply(command: TantivyCommand, counted: u64) -> (r: Reply)
    ensures
        r == tantivy_reply_spec(command, counted),
{
    match command {
        TantivyCommand::Count | TantivyCommand::UnoptimizedCount | TantivyCommand::TopCount(_) => Reply::Count(counted),
        TantivyCommand::Top(_) => Reply::Count(1),
        TantivyCommand::DebugTop10 => Reply::Count(0),
        TantivyCommand::Unsupported => Reply::Unsupported,
    }
}


/// A request line as the infino engine reads it.
pub struct InfinoRequest {
    /// What to do.
    pub plan: InfinoPlan,
    /// The query, handed to the engine verbatim.
    pub query: String,
}

/// Reads a request line for the infino engine: the text before the first
/// tab is the command, the rest is the query.
pub fn infino_request(line: &str) -> (r: InfinoRequest)
    ensures
        r.query@ == command_and_query(line@).1,
        r.plan == infino_plan_spec(command_and_query(line@).0, command_and_query(line@).1),
{
    let req = split_request(line);
    let plan = infino_plan(req.command.as_str(), req.query.as_str());
    InfinoRequest { plan, query: req.query }
}

/// A request line as the tantivy engine reads it.
pub struct TantivyRequest {
    /// The command.
    pub command: TantivyCommand,
    /// The query text.
    pub query: String,
    /// Whether the query holds a `*`, and so is run as a wildcard phrase query
    /// rather than through the query parser.
    pub wildcard: bool,
}

/// Reads a request line for the tantivy engine, which must hold exactly two
/// tab-separated fields: `None` otherwise.
pub fn tantivy_request(line: &str) -> (r: Option<TantivyRequest>)
    ensures
        r is Some <==> count_char(line@, '\t') == 1,
        r matches Some(q) ==> {
            &&& q.command == tantivy_command_spec(command_and_query(line@).0)
            &&& q.query@ == command_and_query(line@).1
            &&& q.wildcard == q.query@.contains('*')
        },
{
    match split_two_fields(line) {
        Some(req) => {
            let command = tantivy_command(req.command.as_str());
            let qc = chars_of(req.query.as_str());
            let wildcard = has_char(&qc, '*');
            Some(TantivyRequest { command, query: req.query, wildcard })
        },
        None => None,
    }
}

/// A blank query is answered 0 by the infino engine, whatever the command
/// and whatever the search would have done.
pub proof fn blank_query_answers_zero(command: Seq<char>, query: Seq<char>, outcome: Option<u64>)
    requires
        all_ws(query),
    ensures
        infino_reply_spec(infino_plan_spec(command, query), outcome) == Reply::Count(0),
{
    blank_query_has_no_positive_terms(query);
}

/// The two engines read the commands alike: for a query with a positive
/// term, infino runs a top-`k` search exactly when tantivy does, with the same
/// `k`; likewise for `COUNT` and for the `TOP_k_COUNT` commands.
pub proof fn engines_read_commands_alike(command: Seq<char>, query: Seq<char>)
    requires
        !no_positive_terms(query),
    ensures
        (infino_plan_spec(command, query) is TopK) <==> (tantivy_command_spec(command) is Top),
        infino_plan_spec(command, query) matches InfinoPlan::TopK(k) ==> tantivy_command_spec(
            command,
        ) == TantivyCommand::Top(k),
        (infino_plan_spec(command, query) == InfinoPlan::Count) <==> (tantivy_command_spec(command)
            == TantivyCommand::Count),
        (infino_plan_spec(command, query) is TopKThenCount) <==> (tantivy_command_spec(
            command,
        ) is TopCount),
        infino_plan_spec(command, query) matches InfinoPlan::TopKThenCount(k) ==> tantivy_command_spec(
            command,
        ) == TantivyCommand::TopCount(k),
{
    reveal_strlit("COUNT");
    reveal_strlit("UNOPTIMIZED_COUNT");
    reveal_strlit("DEBUG_TOP_10");
    reveal_strlit("TOP_10");
    reveal_strlit("TOP_100");
    reveal_strlit("TOP_1000");
    reveal_strlit("TOP_1_COUNT");
    reveal_strlit("TOP_5_COUNT");
    reveal_strlit("TOP_10_COUNT");
    reveal_strlit("TOP_100_COUNT");
    reveal_strlit("TOP_1000_COUNT");
    assert("COUNT"@[0] == 'C');
    assert("UNOPTIMIZED_COUNT"@[0] == 'U');
    assert("TOP_10"@[0] == 'T');
    assert("TOP_100"@[0] == 'T');
    assert("TOP_1000"@[0] == 'T');
    assert("TOP_1_COUNT"@[0] == 'T');
    assert("TOP_5_COUNT"@[0] == 'T');
    assert("TOP_10_COUNT"@[0] == 'T');
    assert("TOP_100_COUNT"@[0] == 'T');
    assert("TOP_1000_COUNT"@[0] == 'T');
    assert("TOP_10"@.len() == 6);
    assert("TOP_100"@.len() == 7);
    assert("TOP_1000"@.len() == 8);
    assert("TOP_1_COUNT"@.len() == 11);
    assert("TOP_5_COUNT"@.len() == 11);
    assert("TOP_10_COUNT"@.len() == 12);
    assert("TOP_100_COUNT"@.len() == 13);
    assert("TOP_1000_COUNT"@.len() == 14);
    assert("COUNT"@.len() == 5);
}


proof fn reveal_command_literals()
    ensures
        "COUNT"@.len() == 5,
        "COUNT"@[0] == 'C',
        "UNOPTIMIZED_COUNT"@.len() == 17,
        "UNOPTIMIZED_COUNT"@[0] == 'U',
        "DEBUG_TOP_10"@.len() == 12,
        "DEBUG_TOP_10"@[0] == 'D',
        "TOP_10"@.len() == 6,
        "TOP_10"@[0] == 'T',
        "TOP_100"@.len() == 7,
        "TOP_100"@[0] == 'T',
        "TOP_1000"@.len() == 8,
        "TOP_1000"@[0] == 'T',
        "TOP_1_COUNT"@.len() == 11,
        "TOP_1_COUNT"@[0] == 'T',
        "TOP_5_COUNT"@.len() == 11,
        "TOP_5_COUNT"@[0] == 'T',
        "TOP_10_COUNT"@.len() == 12,
        "TOP_10_COUNT"@[0] == 'T',
        "TOP_100_COUNT"@.len() == 13,
        "TOP_100_COUNT"@[0] == 'T',
        "TOP_1000_COUNT"@.len() == 14,
        "TOP_1000_COUNT"@[0] == 'T',
        "TOP_1_COUNT"@[4] == '1',
        "TOP_5_COUNT"@[4] == '5',
{
    reveal_strlit("COUNT");
    reveal_strlit("UNOPTIMIZED_COUNT");
    reveal_strlit("DEBUG_TOP_10");
    reveal_strlit("TOP_10");
    reveal_strlit("TOP_100");
    reveal_strlit("TOP_1000");
    reveal_strlit("TOP_1_COUNT");
    reveal_strlit("TOP_5_COUNT");
    reveal_strlit("TOP_10_COUNT");
    reveal_strlit("TOP_100_COUNT");
    reveal_strlit("TOP_1000_COUNT");
    assert("COUNT"@.len() == 5);
    assert("COUNT"@[0] == 'C');
    assert("UNOPTIMIZED_COUNT"@.len() == 17);
    assert("UNOPTIMIZED_COUNT"@[0] == 'U');
    assert("DEBUG_TOP_10"@.len() == 12);
    assert("DEBUG_TOP_10"@[0] == 'D');
    assert("TOP_10"@.len() == 6);
    assert("TOP_10"@[0] == 'T');
    assert("TOP_100"@.len() == 7);
    assert("TOP_100"@[0] == 'T');
    assert("TOP_1000"@.len() == 8);
    assert("TOP_1000"@[0] == 'T');
    assert("TOP_1_COUNT"@.len() == 11);
    assert("TOP_1_COUNT"@[0] == 'T');
    assert("TOP_5_COUNT"@.len() == 11);
    assert("TOP_5_COUNT"@[0] == 'T');
    assert("TOP_10_COUNT"@.len() == 12);
    assert("TOP_10_COUNT"@[0] == 'T');
    assert("TOP_100_COUNT"@.len() == 13);
    assert("TOP_100_COUNT"@[0] == 'T');
    assert("TOP_1000_COUNT"@.len() == 14);
    assert("TOP_1000_COUNT"@[0] == 'T');
    assert("TOP_1_COUNT"@[4] == '1');
    assert("TOP_5_COUNT"@[4] == '5');
    assert("TOP_10_COUNT"@[5] == '0');
    assert("DEBUG_TOP_10"@[0] == 'D');
}

/// Which command is which, for the tantivy engine: exactly `TOP_10`,
/// `TOP_100` and `TOP_1000` are top-only searches, with k 10, 100 and 1000;
/// exactly the five `TOP_k_COUNT` commands are top-`k` searches with a count,
/// with their k; `COUNT`, `UNOPTIMIZED_COUNT` and `DEBUG_TOP_10` are their own
/// commands; nothing else is supported.
pub proof fn tantivy_command_kinds(c: Seq<char>)
    ensures
        (tantivy_command_spec(c) is Top) <==> (c == "TOP_10"@ || c == "TOP_100"@ || c
            == "TOP_1000"@),
        (tantivy_command_spec(c) is TopCount) <==> (c == "TOP_1_COUNT"@ || c == "TOP_5_COUNT"@
            || c == "TOP_10_COUNT"@ || c == "TOP_100_COUNT"@ || c == "TOP_1000_COUNT"@),
        c == "TOP_10"@ ==> tantivy_command_spec(c) == TantivyCommand::Top(10),
        c == "TOP_100"@ ==> tantivy_command_spec(c) == TantivyCommand::Top(100),
        c == "TOP_1000"@ ==> tantivy_command_spec(c) == TantivyCommand::Top(1000),
        c == "TOP_1_COUNT"@ ==> tantivy_command_spec(c) == TantivyCommand::TopCount(1),
        c == "TOP_5_COUNT"@ ==> tantivy_command_spec(c) == TantivyCommand::TopCount(5),
        c == "TOP_10_COUNT"@ ==> tantivy_command_spec(c) == TantivyCommand::TopCount(10),
        c == "TOP_100_COUNT"@ ==> tantivy_command_spec(c) == TantivyCommand::TopCount(100),
        c == "TOP_1000_COUNT"@ ==> tantivy_command_spec(c) == TantivyCommand::TopCount(1000),
        (tantivy_command_spec(c) == TantivyCommand::Count) <==> c == "COUNT"@,
        (tantivy_command_spec(c) == TantivyCommand::UnoptimizedCount) <==> c
            == "UNOPTIMIZED_COUNT"@,
        (tantivy_command_spec(c) == TantivyCommand::DebugTop10) <==> c == "DEBUG_TOP_10"@,
{
    reveal_command_literals();
}

/// Which command is which, for the infino engine and a query with a
/// positive term: exactly `TOP_10`, `TOP_100` and `TOP_1000` are top-only
/// searches, with k 10, 100 and 1000; exactly the five `TOP_k_COUNT`
/// commands are a top-`k` search then a count, with their k; `COUNT` counts;
/// everything else, `UNOPTIMIZED_COUNT` and `DEBUG_TOP_10` included, is
/// unsupported.
pub proof fn infino_command_kinds(c: Seq<char>, q: Seq<char>)
    requires
        !no_positive_terms(q),
    ensures
        (infino_plan_spec(c, q) is TopK) <==> (c == "TOP_10"@ || c == "TOP_100"@ || c
            == "TOP_1000"@),
        (infino_plan_spec(c, q) is TopKThenCount) <==> (c == "TOP_1_COUNT"@ || c == "TOP_5_COUNT"@
            || c == "TOP_10_COUNT"@ || c == "TOP_100_COUNT"@ || c == "TOP_1000_COUNT"@),
        c == "TOP_10"@ ==> infino_plan_spec(c, q) == InfinoPlan::TopK(10),
        c == "TOP_100"@ ==> infino_plan_spec(c, q) == InfinoPlan::TopK(100),
        c == "TOP_1000"@ ==> infino_plan_spec(c, q) == InfinoPlan::TopK(1000),
        c == "TOP_1_COUNT"@ ==> infino_plan_spec(c, q) == InfinoPlan::TopKThenCount(1),
        c == "TOP_5_COUNT"@ ==> infino_plan_spec(c, q) == InfinoPlan::TopKThenCount(5),
        c == "TOP_10_COUNT"@ ==> infino_plan_spec(c, q) == InfinoPlan::TopKThenCount(10),
        c == "TOP_100_COUNT"@ ==> infino_plan_spec(c, q) == InfinoPlan::TopKThenCount(100),
        c == "TOP_1000_COUNT"@ ==> infino_plan_spec(c, q) == InfinoPlan::TopKThenCount(1000),
        (infino_plan_spec(c, q) == InfinoPlan::Count) <==> c == "COUNT"@,
        (infino_plan_spec(c, q) == InfinoPlan::Unsupported) <==> !(c == "TOP_10"@ || c
            == "TOP_100"@ || c == "TOP_1000"@ || c == "COUNT"@ || c == "TOP_1_COUNT"@ || c
            == "TOP_5_COUNT"@ || c == "TOP_10_COUNT"@ || c == "TOP_100_COUNT"@ || c
            == "TOP_1000_COUNT"@),
        infino_plan_spec(c, q) != InfinoPlan::NoPositiveTerms,
{
    reveal_command_literals();
}

/// A query with a word that does not start with `-`, wherever it stands, is
/// searched: the infino plan is not the no-positive-term answer.
pub proof fn positive_word_is_searched(command: Seq<char>, query: Seq<char>, i: int)
    requires
        is_word_start(query, i),
        query[i] != '-',
    ensures
        infino_plan_spec(command, query) != InfinoPlan::NoPositiveTerms,
        !no_positive_terms(query),
{
    negation_only_law(query);
}

/// A query whose every word starts with `-` (or that has no word) is
/// answered 0 by the infino engine, whatever the command and the search.
pub proof fn negated_query_answers_zero(command: Seq<char>, query: Seq<char>, outcome: Option<u64>)
    requires
        forall|i: int| #[trigger] is_word_start(query, i) ==> query[i] == '-',
    ensures
        infino_plan_spec(command, query) == InfinoPlan::NoPositiveTerms,
        infino_reply_spec(infino_plan_spec(command, query), outcome) == Reply::Count(0),
{
    negation_only_law(query);
}

/// What the infino engine prints: a count it obtained, exactly, for `COUNT`
/// and `TOP_k_COUNT` (so different counts print differently), 1 for a
/// top-`k` search that succeeded, and 0 for any failed search.
pub proof fn infino_reply_law(plan: InfinoPlan, n: u64, m: u64)
    ensures
        plan is Count || plan is TopKThenCount ==> infino_reply_spec(plan, Some(n)) == Reply::Count(
            n,
        ),
        (plan is Count || plan is TopKThenCount) && infino_reply_spec(plan, Some(n))
            == infino_reply_spec(plan, Some(m)) ==> n == m,
        plan is TopK ==> infino_reply_spec(plan, Some(n)) == Reply::Count(1),
        plan !is Unsupported ==> infino_reply_spec(plan, None) == Reply::Count(0),
        plan is NoPositiveTerms ==> infino_reply_spec(plan, Some(n)) == Reply::Count(0),
        plan is Unsupported ==> infino_reply_spec(plan, Some(n)) == Reply::Unsupported
            && infino_reply_spec(plan, None) == Reply::Unsupported,
{
}

/// What the tantivy engine prints: the count its search produced, exactly,
/// for `COUNT`, `UNOPTIMIZED_COUNT` and `TOP_k_COUNT` (so different counts
/// print differently); 1 for a top-only search and 0 for `DEBUG_TOP_10`,
/// whatever count is passed.
pub proof fn tantivy_reply_law(command: TantivyCommand, counted: u64, other: u64)
    ensures
        command is Count || command is UnoptimizedCount || command is TopCount ==> tantivy_reply_spec(
            command,
            counted,
        ) == Reply::Count(counted),
        (command is Count || command is UnoptimizedCount || command is TopCount)
            && tantivy_reply_spec(command, counted) == tantivy_reply_spec(command, other)
            ==> counted == other,
        command is Top ==> tantivy_reply_spec(command, counted) == Reply::Count(1),
        command is DebugTop10 ==> tantivy_reply_spec(command, counted) == Reply::Count(0),
        command is Unsupported ==> tantivy_reply_spec(command, counted) == Reply::Unsupported,
{
}

/// The k of a top-only command: 10, 100 and 1000 for `TOP_10`, `TOP_100`
/// and `TOP_1000`, and 10 for any other command.
pub proof fn top_k_law(c: Seq<char>)
    ensures
        c == "TOP_10"@ ==> top_k_spec(c) == 10,
        c == "TOP_100"@ ==> top_k_spec(c) == 100,
        c == "TOP_1000"@ ==> top_k_spec(c) == 1000,
        !(c == "TOP_10"@ || c == "TOP_100"@ || c == "TOP_1000"@) ==> top_k_spec(c) == 10,
{
    reveal_command_literals();
}

/// The k of a `TOP_k_COUNT` command: 1, 5, 10, 100 and 1000 for the five of
/// them, and 10 for any other command.
pub proof fn top_k_count_law(c: Seq<char>)
    ensures
        c == "TOP_1_COUNT"@ ==> top_k_count_spec(c) == 1,
        c == "TOP_5_COUNT"@ ==> top_k_count_spec(c) == 5,
        c == "TOP_10_COUNT"@ ==> top_k_count_spec(c) == 10,
        c == "TOP_100_COUNT"@ ==> top_k_count_spec(c) == 100,
        c == "TOP_1000_COUNT"@ ==> top_k_count_spec(c) == 1000,
        !(c == "TOP_1_COUNT"@ || c == "TOP_5_COUNT"@ || c == "TOP_10_COUNT"@ || c
            == "TOP_100_COUNT"@ || c == "TOP_1000_COUNT"@) ==> top_k_count_spec(c) == 10,
{
    reveal_command_literals();
}

} // verus!
