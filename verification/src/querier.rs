//! The prompt loop: show the policy's instruction, obtain one raw line, let
//! the policy decide, and go round again until a line is taken or the
//! attempts run out.
use crate::policy::Promptable;
use vstd::prelude::*;

verus! {

/// Why a prompt ended without an accepted answer.
#[derive(Debug, Clone, Copy, PartialEq, Eq, Structural)]
pub enum PromptError {
    /// Every allowed attempt was used and none was accepted.
    PromptTimeout,
}

impl PromptError {
    /// The reason as a short text.
    pub fn message(&self) -> (text: &'static str)
        ensures
            text@ == "Timeout Error"@,
    {
        "Timeout Error"
    }
}

/// What the loop does once one more raw line has been judged.
#[derive(Debug, PartialEq, Eq)]
pub enum PromptStep {
    /// The line was taken: the loop ends with it.
    Accepted(String),
    /// The line was rejected: ask again, with this many attempts now used.
    Retry(usize),
    /// The line was rejected and it was the last one allowed.
    TimedOut,
}

/// Whether a loop limited to `limit` attempts may still ask once `attempts`
/// lines have been rejected. Without a limit it always may.
pub open spec fn budget_left(limit: Option<usize>, attempts: int) -> bool {
    match limit {
        Some(max) => attempts < max,
        None => true,
    }
}

/// The characters of an accepted answer, or the error unchanged.
pub open spec fn outcome_text(result: Result<String, PromptError>) -> Result<
    Seq<char>,
    PromptError,
> {
    match result {
        Ok(answer) => Ok(answer@),
        Err(reason) => Err(reason),
    }
}

/// A finished run of the loop: `inputs` are the lines that the input source
/// gave, call by call, and `result` is what the loop returned. Every line
/// but the last was rejected; the run ends well on the first accepted line,
/// and ends badly only when a limit is set, exactly that many lines were
/// read, and none of them was accepted.
pub open spec fn ends_run<T: Promptable>(
    policy: &T,
    limit: Option<usize>,
    inputs: Seq<Seq<char>>,
    result: Result<Seq<char>, PromptError>,
) -> bool {
    &&& forall|i: int| 0 <= i < inputs.len() - 1 ==> !policy.accepts(#[trigger] inputs[i])
    &&& match result {
        Ok(answer) => {
            &&& inputs.len() > 0
            &&& budget_left(limit, inputs.len() - 1)
            &&& policy.accepts(inputs.last())
            &&& answer == inputs.last()
        },
        Err(reason) => {
            &&& reason == PromptError::PromptTimeout
            &&& limit is Some
            &&& limit.unwrap() == inputs.len()
            &&& inputs.len() > 0 ==> !policy.accepts(inputs.last())
        },
    }
}

/// The lines of `calls` are all lines that `get_input` may return.
pub open spec fn yielded_by<F: Fn() -> String>(get_input: &F, calls: Seq<String>) -> bool {
    forall|i: int| 0 <= i < calls.len() ==> call_ensures(*get_input, (), #[trigger] calls[i])
}

/// The characters of each line of `calls`.
pub open spec fn lines_of(calls: Seq<String>) -> Seq<Seq<char>> {
    Seq::new(calls.len(), |i: int| calls[i]@)
}

/// A prepared input source: it hands out its lines one by one, in order,
/// and counts how many it has handed out.
pub struct Script {
    lines: Vec<String>,
    next: usize,
}

impl Script {
    /// The characters of every line of the source, read or not.
    pub closed spec fn lines(&self) -> Seq<Seq<char>> {
        Seq::new(self.lines@.len(), |i: int| self.lines@[i]@)
    }

    /// How many lines have been handed out.
    pub closed spec fn read(&self) -> nat {
        self.next as nat
    }

    /// No more lines have been handed out than there are.
    pub open spec fn well_formed(&self) -> bool {
        self.read() <= self.lines().len()
    }

    /// The lines that are still to come.
    pub open spec fn pending(&self) -> Seq<Seq<char>> {
        self.lines().skip(self.read() as int)
    }

    /// A source holds no more lines than a machine word counts.
    pub proof fn lemma_lines_fit(&self)
        ensures
            self.lines().len() <= usize::MAX,
    {
        assert(self.lines.len() == self.lines@.len());
    }

    /// A source that will hand out `lines`, none of them read yet.
    pub fn new(lines: Vec<String>) -> (script: Script)
        ensures
            script.well_formed(),
            script.lines() == lines_of(lines@),
            script.read() == 0,
    {
        let script = Script { lines, next: 0 };
        assert(script.lines() =~= lines_of(lines@));
        script
    }

    /// How many lines have been handed out.
    pub fn lines_read(&self) -> (count: usize)
        ensures
            count == self.read(),
    {
        self.next
    }

    /// Hands out the next line, or nothing once every line has been read.
    pub fn next_line(&mut self) -> (line: Option<String>)
        requires
            old(self).well_formed(),
        ensures
            final(self).well_formed(),
            final(self).lines() == old(self).lines(),
            match line {
                Some(text) => {
                    &&& old(self).read() < old(self).lines().len()
                    &&& text@ == old(self).lines()[old(self).read() as int]
                    &&& final(self).read() == old(self).read() + 1
                },
                None => {
                    &&& old(self).read() == old(self).lines().len()
                    &&& final(self).read() == old(self).read()
                },
            },
    {
        if self.next < self.lines.len() {
            let text = self.lines[self.next].clone();
            self.next = self.next + 1;
            Some(text)
        } else {
            None
        }
    }
}

/// The characters of what a prompt over a prepared source returned.
pub open spec fn script_text(result: Option<Result<String, PromptError>>) -> Option<
    Result<Seq<char>, PromptError>,
> {
    match result {
        Some(outcome) => Some(outcome_text(outcome)),
        None => None,
    }
}

/// What a prompt comes to on a source with the lines `pending` before it, of
/// which it has read the first `read`. Either those lines are a finished
/// run, or the source ran dry: every line was read and rejected, and the
/// loop would ask again.
pub open spec fn ends_script<T: Promptable>(
    policy: &T,
    limit: Option<usize>,
    pending: Seq<Seq<char>>,
    read: int,
    result: Option<Result<Seq<char>, PromptError>>,
) -> bool {
    &&& 0 <= read <= pending.len()
    &&& match result {
        Some(outcome) => ends_run(policy, limit, pending.take(read), outcome),
        None => {
            &&& read == pending.len()
            &&& budget_left(limit, read)
            &&& forall|i: int| 0 <= i < read ==> !policy.accepts(#[trigger] pending[i])
        },
    }
}

/// Asks until an answer is accepted, or for a set number of attempts.
pub struct Querier {
    limit: Option<usize>,
}

impl Querier {
    /// The number of attempts that one prompt may use, if it is limited.
    pub closed spec fn max_attempts(&self) -> Option<usize> {
        self.limit
    }

    /// A querier that asks until an answer is accepted.
    pub fn new() -> (querier: Querier)
        ensures
            querier.max_attempts() is None,
    {
        Querier { limit: None }
    }

    /// A querier that gives up after `max_attempts` rejected answers.
    pub fn bounded(max_attempts: usize) -> (querier: Querier)
        ensures
            querier.max_attempts() == Some(max_attempts),
    {
        Querier { limit: Some(max_attempts) }
    }

    /// The number of attempts after which `prompt` gives up. Attempts are
    /// counted in a machine word, so a querier without a limit has the
    /// largest count there is.
    pub open spec fn attempt_cap(&self) -> usize {
        match self.max_attempts() {
            Some(max) => max,
            None => usize::MAX,
        }
    }

    /// One turn of the loop: judges the line `raw`, read after `attempts`
    /// rejected ones, and says how the loop goes on.
    pub fn step<T: Promptable>(&self, selection: &T, attempts: usize, raw: String) -> (next:
        PromptStep)
        ensures
            match next {
                PromptStep::Accepted(answer) => selection.accepts(raw@) && answer@ == raw@,
                PromptStep::Retry(used) => {
                    &&& !selection.accepts(raw@)
                    &&& budget_left(self.max_attempts(), attempts + 1)
                    &&& used == if attempts < usize::MAX {
                        attempts + 1
                    } else {
                        attempts as int
                    }
                },
                PromptStep::TimedOut => {
                    &&& !selection.accepts(raw@)
                    &&& !budget_left(self.max_attempts(), attempts + 1)
                },
            },
    {
        match selection.select(raw) {
            Some(answer) => PromptStep::Accepted(answer),
            None => match self.limit {
                Some(max) => {
                    if attempts < max && attempts + 1 < max {
                        PromptStep::Retry(attempts + 1)
                    } else {
                        PromptStep::TimedOut
                    }
                },
                None => {
                    if attempts < usize::MAX {
                        PromptStep::Retry(attempts + 1)
                    } else {
                        PromptStep::Retry(attempts)
                    }
                },
            },
        }
    }

    /// Runs the loop: before each attempt `show` is handed the policy's
    /// instruction, then `get_input` is called for one line. The first
    /// accepted line is returned at once, and nothing more is read. When
    /// the last allowed attempt is rejected too, the prompt times out. A
    /// querier without a limit keeps asking; its only end without an answer
    /// is the one that the attempt counter forces, after `usize::MAX`
    /// rejected lines.
    pub fn prompt<T, S, F>(&self, selection: &T, show: S, get_input: F) -> (result: Result<
        String,
        PromptError,
    >) where T: Promptable, S: Fn(String), F: Fn() -> String
        requires
            forall|line: String| line@ == selection.label() ==> call_requires(show, (line,)),
            call_requires(get_input, ()),
        ensures
            exists|calls: Seq<String>|
                yielded_by(&get_input, calls) && #[trigger] ends_run(
                    selection,
                    Some(self.attempt_cap()),
                    lines_of(calls),
                    outcome_text(result),
                ),
    {
        let cap: usize = match self.limit {
            Some(max) => max,
            None => usize::MAX,
        };
        let mut attempts: usize = 0;
        let ghost mut calls: Seq<String> = Seq::empty();
        while attempts < cap
            invariant
                cap == self.attempt_cap(),
                forall|line: String| line@ == selection.label() ==> call_requires(show, (line,)),
                call_requires(get_input, ()),
                attempts <= cap,
                calls.len() == attempts,
                yielded_by(&get_input, calls),
                forall|i: int| 0 <= i < calls.len() ==> !selection.accepts(#[trigger] calls[i]@),
            decreases cap - attempts,
        {
            show(selection.describe());
            let raw = get_input();
            proof {
                calls = calls.push(raw);
            }
            match self.step(selection, attempts, raw) {
                PromptStep::Accepted(answer) => {
                    let result = Ok(answer);
                    assert(ends_run(selection, Some(cap), lines_of(calls), outcome_text(result)));
                    return result;
                },
                PromptStep::Retry(used) => {
                    attempts = used;
                },
                PromptStep::TimedOut => {
                    let result = Err(PromptError::PromptTimeout);
                    assert(ends_run(selection, Some(cap), lines_of(calls), outcome_text(result)));
                    return result;
                },
            }
        }
        let result = Err(PromptError::PromptTimeout);
        assert(ends_run(selection, Some(cap), lines_of(calls), outcome_text(result)));
        result
    }

    /// Runs the loop on a prepared source, with the limit exactly as it was
    /// set: before each attempt `show` is handed the policy's instruction,
    /// then the next line of `script` is read. The loop reads up to the
    /// first accepted line and not past it, and returns that line; under a
    /// limit it times out once that many lines were read and rejected.
    /// Where the source runs dry before either, there is no outcome yet.
    pub fn prompt_script<T, S>(&self, selection: &T, show: S, script: &mut Script) -> (result:
        Option<Result<String, PromptError>>) where T: Promptable, S: Fn(String)
        requires
            old(script).well_formed(),
            forall|line: String| line@ == selection.label() ==> call_requires(show, (line,)),
        ensures
            final(script).well_formed(),
            final(script).lines() == old(script).lines(),
            final(script).read() >= old(script).read(),
            ends_script(
                selection,
                self.max_attempts(),
                old(script).pending(),
                final(script).read() - old(script).read(),
                script_text(result),
            ),
    {
        let ghost pending = script.pending();
        let ghost start = script.read();
        let cap: usize = match self.limit {
            Some(max) => max,
            None => usize::MAX,
        };
        let mut attempts: usize = 0;
        while attempts < cap
            invariant
                cap == self.attempt_cap(),
                forall|line: String| line@ == selection.label() ==> call_requires(show, (line,)),
                script.well_formed(),
                script.lines() == old(script).lines(),
                pending == old(script).pending(),
                start == old(script).read(),
                script.read() == start + attempts,
                attempts <= cap,
                forall|i: int| 0 <= i < attempts ==> !selection.accepts(#[trigger] pending[i]),
            decreases cap - attempts,
        {
            show(selection.describe());
            let raw = match script.next_line() {
                Some(raw) => raw,
                None => {
                    return None;
                },
            };
            assert(raw@ == pending[attempts as int]);
            match self.step(selection, attempts, raw) {
                PromptStep::Accepted(answer) => {
                    assert(pending.take(attempts + 1).last() == pending[attempts as int]);
                    return Some(Ok(answer));
                },
                PromptStep::Retry(used) => {
                    attempts = used;
                },
                PromptStep::TimedOut => {
                    assert(pending.take(attempts + 1).last() == pending[attempts as int]);
                    return Some(Err(PromptError::PromptTimeout));
                },
            }
        }
        proof {
            script.lemma_lines_fit();
            let seen = pending.take(attempts as int);
            assert forall|i: int| 0 <= i < seen.len() implies !selection.accepts(
                #[trigger] seen[i],
            ) by {
                assert(seen[i] == pending[i]);
            }
        }
        match self.limit {
            Some(_) => Some(Err(PromptError::PromptTimeout)),
            None => None,
        }
    }
}

/// A prompt ends on the first accepted line. When the `k`-th line that the
/// source gives is the first one that the policy accepts, and the limit, if
/// there is one, allows `k` attempts, then a finished run has read exactly
/// `k` lines, no more and no fewer, and has returned that line.
pub proof fn lemma_run_ends_at_first_accepted<T: Promptable>(
    policy: &T,
    limit: Option<usize>,
    source: spec_fn(int) -> Seq<char>,
    k: int,
    inputs: Seq<Seq<char>>,
    result: Result<Seq<char>, PromptError>,
)
    requires
        k >= 1,
        policy.accepts(source(k - 1)),
        forall|i: int| 0 <= i < k - 1 ==> !policy.accepts(#[trigger] source(i)),
        limit is Some ==> k <= limit.unwrap(),
        forall|i: int| 0 <= i < inputs.len() ==> #[trigger] inputs[i] == source(i),
        ends_run(policy, limit, inputs, result),
    ensures
        inputs.len() == k,
        result == Ok::<Seq<char>, PromptError>(source(k - 1)),
{
    let read = inputs.len() as int;
    if read < k {
        if read > 0 {
            assert(inputs[read - 1] == source(read - 1));
        }
    } else {
        assert(inputs[k - 1] == source(k - 1));
    }
}

/// A limited prompt gives up exactly at its limit. When none of the lines
/// that were read is accepted, a finished run under a limit of `max` has
/// read exactly `max` lines and has timed out.
pub proof fn lemma_run_times_out_at_limit<T: Promptable>(
    policy: &T,
    max: usize,
    inputs: Seq<Seq<char>>,
    result: Result<Seq<char>, PromptError>,
)
    requires
        forall|i: int| 0 <= i < inputs.len() ==> !policy.accepts(#[trigger] inputs[i]),
        ends_run(policy, Some(max), inputs, result),
    ensures
        inputs.len() == max,
        result == Err::<Seq<char>, PromptError>(PromptError::PromptTimeout),
{
    if inputs.len() > 0 {
        assert(!policy.accepts(inputs[inputs.len() - 1]));
    }
}

/// Without a limit a prompt fails on nothing but its attempt counter. A
/// finished run under the largest count that has read fewer lines than that
/// ended on an accepted line, exactly as a run without any limit does.
pub proof fn lemma_unlimited_run_succeeds<T: Promptable>(
    policy: &T,
    inputs: Seq<Seq<char>>,
    result: Result<Seq<char>, PromptError>,
)
    requires
        ends_run(policy, Some(usize::MAX), inputs, result),
        inputs.len() < usize::MAX,
    ensures
        result is Ok,
        ends_run(policy, None, inputs, result),
{
}

/// On a prepared source the prompt reads exactly up to the first accepted
/// line. When the `k`-th line still to come is the first one that the
/// policy accepts, and the limit, if there is one, allows `k` attempts, the
/// prompt has an outcome, has read exactly `k` lines, and returns that line.
pub proof fn lemma_script_read_to_first_accepted<T: Promptable>(
    policy: &T,
    limit: Option<usize>,
    pending: Seq<Seq<char>>,
    k: int,
    read: int,
    result: Option<Result<Seq<char>, PromptError>>,
)
    requires
        1 <= k <= pending.len(),
        policy.accepts(pending[k - 1]),
        forall|i: int| 0 <= i < k - 1 ==> !policy.accepts(#[trigger] pending[i]),
        limit is Some ==> k <= limit.unwrap(),
        ends_script(policy, limit, pending, read, result),
    ensures
        read == k,
        result == Some(Ok::<Seq<char>, PromptError>(pending[k - 1])),
{
    match result {
        Some(outcome) => {
            let source = |i: int| pending[i];
            lemma_run_ends_at_first_accepted(policy, limit, source, k, pending.take(read), outcome);
        },
        None => {},
    }
}

/// On a prepared source of which no line is accepted, a prompt under a
/// limit of `max` times out after exactly `max` lines where the source has
/// that many, and otherwise reads every line and has no outcome.
pub proof fn lemma_script_times_out_at_limit<T: Promptable>(
    policy: &T,
    max: usize,
    pending: Seq<Seq<char>>,
    read: int,
    result: Option<Result<Seq<char>, PromptError>>,
)
    requires
        forall|i: int| 0 <= i < pending.len() ==> !policy.accepts(#[trigger] pending[i]),
        ends_script(policy, Some(max), pending, read, result),
    ensures
        max <= pending.len() ==> read == max && result == Some(
            Err::<Seq<char>, PromptError>(PromptError::PromptTimeout),
        ),
        max > pending.len() ==> read == pending.len() && result is None,
{
    match result {
        Some(outcome) => {
            lemma_run_times_out_at_limit(policy, max, pending.take(read), outcome);
        },
        None => {},
    }
}

} // verus!
