//! Deadlines that long computations ask about as they go.
use vstd::prelude::*;

verus! {

/// Whether the time is up when so many milliseconds are left.
pub open spec fn is_up(left_ms: u64) -> bool {
    left_ms == 0
}

/// Something that tells, whenever it is asked, how much time is left.
pub trait Deadline {
    /// The answers given so far: how many milliseconds were left at each question.
    open spec fn answers(&self) -> Seq<u64> {
        Seq::empty()
    }

    /// How many milliseconds there are in all, at most.
    open spec fn limit_ms(&self) -> u64 {
        u64::MAX
    }

    /// How many milliseconds are left.
    fn remaining_ms(&mut self) -> (remaining: u64)
        ensures
            final(self).answers() == old(self).answers().push(remaining),
            remaining <= old(self).limit_ms(),
            final(self).limit_ms() == old(self).limit_ms(),
    ;

    /// Whether the time is up.
    fn expired(&mut self) -> (expired: bool)
        ensures
            final(self).answers().len() == old(self).answers().len() + 1,
            final(self).answers() == old(self).answers().push(final(self).answers().last()),
            expired == is_up(final(self).answers().last()),
            final(self).answers().last() <= old(self).limit_ms(),
            old(self).limit_ms() == 0 ==> expired,
            final(self).limit_ms() == old(self).limit_ms(),
    {
        self.remaining_ms() == 0
    }
}

/// The smaller of two times.
pub open spec fn shorter(first: u64, second: u64) -> u64 {
    if first <= second {
        first
    } else {
        second
    }
}

/// How many of so many milliseconds are left.
pub fn remaining_of<D: Deadline>(deadline: &mut D, limit_ms: u64) -> (remaining: u64)
    ensures
        final(deadline).answers().len() == old(deadline).answers().len() + 1,
        final(deadline).answers() == old(deadline).answers().push(final(deadline).answers().last()),
        remaining == shorter(final(deadline).answers().last(), limit_ms),
        final(deadline).limit_ms() == old(deadline).limit_ms(),
{
    let remaining = deadline.remaining_ms();
    if remaining <= limit_ms {
        remaining
    } else {
        limit_ms
    }
}

/// The answers that a computation got.
pub open spec fn asked<D: Deadline>(before: D, after: D) -> Seq<u64> {
    after.answers().skip(before.answers().len() as int)
}

/// Whether a computation went on after every answer but the last, and the last was `expired`.
pub open spec fn asked_until<D: Deadline>(before: D, after: D, expired: bool) -> bool {
    &&& before.answers().is_prefix_of(after.answers())
    &&& forall|i: int|
        before.answers().len() <= i < after.answers().len() - 1 ==> !is_up(#[trigger] after.answers()[i])
    &&& expired ==> after.answers().len() > before.answers().len() && is_up(after.answers().last())
    &&& !expired && after.answers().len() > before.answers().len() ==> !is_up(after.answers().last())
}

/// Whether these are the first of all of them.
pub open spec fn begins<T>(first: Seq<T>, all: Seq<T>) -> bool {
    &&& first.len() <= all.len()
    &&& forall|i: int| 0 <= i < first.len() ==> #[trigger] all[i] == first[i]
}

/// Whether all that was added to some times is so many milliseconds at most.
pub open spec fn are_within(before: Seq<u64>, after: Seq<u64>, limit_ms: u64) -> bool {
    &&& begins(before, after)
    &&& forall|i: int| before.len() <= i < after.len() ==> #[trigger] after[i] <= limit_ms
}

/// Whether a deadline was only asked in between, and never said that more time is left than there is.
pub open spec fn keeps_time<D: Deadline>(before: D, after: D) -> bool {
    &&& after.limit_ms() == before.limit_ms()
    &&& are_within(before.answers(), after.answers(), before.limit_ms())
}

/// What holds of two computations, one after the other, holds of both together.
pub proof fn asked_chain<D: Deadline>(first: D, second: D, third: D, expired: bool)
    requires
        asked_until(first, second, false),
        asked_until(second, third, expired),
    ensures
        asked_until(first, third, expired),
{
    assert forall|i: int|
        first.answers().len() <= i < third.answers().len() - 1 implies !is_up(#[trigger] third.answers()[i]) by {
        if i < second.answers().len() {
            assert(third.answers()[i] == second.answers()[i]);
        }
    }
    if third.answers().len() > first.answers().len() && third.answers().len() == second.answers().len() {
        assert(third.answers() =~= second.answers());
    }
}

/// Asks once more in a computation that began at `start` and has gone on so far.
pub(crate) fn poll<D: Deadline>(deadline: &mut D, start: Ghost<D>) -> (expired: bool)
    requires
        asked_until(start@, *old(deadline), false),
    ensures
        asked_until(start@, *final(deadline), expired),
        final(deadline).answers() == old(deadline).answers().push(final(deadline).answers().last()),
        expired == is_up(final(deadline).answers().last()),
        final(deadline).answers().len() == old(deadline).answers().len() + 1,
{
    let ghost before = *deadline;
    let expired = deadline.expired();
    assert forall|i: int|
        start@.answers().len() <= i < deadline.answers().len() - 1 implies !is_up(
        #[trigger] deadline.answers()[i],
    ) by {
        assert(deadline.answers()[i] == before.answers()[i]);
    }
    expired
}

/// Whether so many nanoseconds are as long as so many milliseconds.
pub fn time_is_up(elapsed_ns: u128, limit_ms: u64) -> (up: bool)
    ensures
        up == (elapsed_ns >= limit_ms * 1_000_000),
{
    elapsed_ns >= limit_ms as u128 * 1_000_000
}

/// The whole milliseconds in so many nanoseconds, or the most that there can be.
pub open spec fn ms_of(elapsed_ns: int) -> int {
    if elapsed_ns / 1_000_000 > u64::MAX {
        u64::MAX as int
    } else {
        elapsed_ns / 1_000_000
    }
}

/// The whole milliseconds in so many nanoseconds, or the most that there can be.
pub fn whole_ms(elapsed_ns: u128) -> (ms: u64)
    ensures
        ms == ms_of(elapsed_ns as int),
{
    let ms = elapsed_ns / 1_000_000;
    if ms > u64::MAX as u128 {
        u64::MAX
    } else {
        ms as u64
    }
}

/// What is left of a time when some of it has passed.
pub open spec fn left_after(limit_ms: u64, elapsed_ms: int) -> int {
    if elapsed_ms >= limit_ms {
        0
    } else {
        limit_ms - elapsed_ms
    }
}

/// What is left of a time when some of it has passed.
pub fn left_of(limit_ms: u64, elapsed_ms: u64) -> (left: u64)
    ensures
        left == left_after(limit_ms, elapsed_ms as int),
{
    if elapsed_ms >= limit_ms {
        0
    } else {
        limit_ms - elapsed_ms
    }
}

/// A deadline after a number of questions.
pub struct QuestionLimit {
    left: u64,
    given: Ghost<Seq<u64>>,
}

impl QuestionLimit {
    /// The deadline that has passed at the question after the first `questions` ones.
    pub fn after(questions: u64) -> (deadline: Self)
        ensures
            deadline.remaining() == questions,
            deadline.answers().len() == 0,
    {
        QuestionLimit { left: questions, given: Ghost(Seq::empty()) }
    }

    /// At how many questions some time will still be left.
    pub closed spec fn remaining(self) -> u64 {
        self.left
    }
}

impl Deadline for QuestionLimit {
    closed spec fn answers(&self) -> Seq<u64> {
        self.given@
    }

    fn remaining_ms(&mut self) -> (remaining: u64)
        ensures
            remaining == old(self).remaining(),
            final(self).remaining() == if old(self).remaining() == 0 {
                0
            } else {
                old(self).remaining() - 1
            },
    {
        let remaining = self.left;
        if remaining > 0 {
            self.left = remaining - 1;
        }
        self.given = Ghost(self.given@.push(remaining));
        remaining
    }
}

/// A deadline that never comes.
pub struct NoDeadline {
    given: Ghost<Seq<u64>>,
}

impl NoDeadline {
    #[verifier::type_invariant]
    spec fn never(self) -> bool {
        forall|i: int| 0 <= i < self.given@.len() ==> !is_up(#[trigger] self.given@[i])
    }

    /// It has never come.
    pub(crate) fn never_expired(&self)
        ensures
            forall|i: int| 0 <= i < self.answers().len() ==> !is_up(#[trigger] self.answers()[i]),
    {
        proof {
            use_type_invariant(self);
        }
    }

    pub fn new() -> (deadline: Self)
        ensures
            deadline.answers().len() == 0,
    {
        NoDeadline { given: Ghost(Seq::empty()) }
    }
}

impl Deadline for NoDeadline {
    closed spec fn answers(&self) -> Seq<u64> {
        self.given@
    }

    fn remaining_ms(&mut self) -> (remaining: u64)
        ensures
            remaining == u64::MAX,
    {
        proof {
            use_type_invariant(&*self);
        }
        self.given = Ghost(self.given@.push(u64::MAX));
        u64::MAX
    }
}

/// A point in time.
#[verifier::external_type_specification]
#[verifier::external_body]
pub struct OutsideInstant(std::time::Instant);

/// `Instant::now`: the present. Nothing is said of the result.
#[verifier::external_body]
fn now() -> (instant: std::time::Instant) {
    std::time::Instant::now()
}

/// `Instant::elapsed`: the time since then. Nothing is said of the result.
#[verifier::external_body]
fn elapsed(since: &std::time::Instant) -> (elapsed: std::time::Duration) {
    since.elapsed()
}

/// `Duration::as_nanos`: the time in nanoseconds. Nothing is said of the result.
#[verifier::external_body]
fn nanoseconds(time: std::time::Duration) -> (nanoseconds: u128) {
    time.as_nanos()
}

/// A deadline that comes when a time is over.
pub struct TimeLimit {
    started: std::time::Instant,
    limit_ms: u64,
    given: Ghost<Seq<u64>>,
    drawn: Ghost<Seq<u128>>,
}

impl TimeLimit {
    /// The deadline that comes so many milliseconds from now.
    pub fn after_ms(limit_ms: u64) -> (deadline: Self)
        ensures
            deadline.limit_ms() == limit_ms,
            deadline.answers().len() == 0,
            deadline.drawn().len() == 0,
    {
        TimeLimit {
            started: now(),
            limit_ms,
            given: Ghost(Seq::empty()),
            drawn: Ghost(Seq::empty()),
        }
    }

    /// The nanoseconds that had passed whenever the clock was read.
    pub closed spec fn drawn(self) -> Seq<u128> {
        self.drawn@
    }

    /// Reads the clock: how many nanoseconds have passed.
    fn draw(&mut self) -> (elapsed_ns: u128)
        ensures
            final(self).drawn() == old(self).drawn().push(elapsed_ns),
            final(self).limit_ms() == old(self).limit_ms(),
            final(self).answers() == old(self).answers(),
    {
        let elapsed_ns = nanoseconds(elapsed(&self.started));
        self.drawn = Ghost(self.drawn@.push(elapsed_ns));
        elapsed_ns
    }

    /// How many whole milliseconds have passed.
    pub fn elapsed_ms(&mut self) -> (elapsed: u64)
        ensures
            final(self).drawn().len() == old(self).drawn().len() + 1,
            final(self).drawn() == old(self).drawn().push(final(self).drawn().last()),
            elapsed == ms_of(final(self).drawn().last() as int),
            final(self).limit_ms() == old(self).limit_ms(),
            final(self).answers() == old(self).answers(),
    {
        whole_ms(self.draw())
    }
}

impl Deadline for TimeLimit {
    closed spec fn answers(&self) -> Seq<u64> {
        self.given@
    }

    closed spec fn limit_ms(&self) -> u64 {
        self.limit_ms
    }

    fn remaining_ms(&mut self) -> (remaining: u64)
        ensures
            final(self).drawn().len() == old(self).drawn().len() + 1,
            final(self).drawn() == old(self).drawn().push(final(self).drawn().last()),
            remaining == left_after(
                old(self).limit_ms(),
                ms_of(final(self).drawn().last() as int),
            ),
    {
        let remaining = left_of(self.limit_ms, self.elapsed_ms());
        self.given = Ghost(self.given@.push(remaining));
        remaining
    }

    fn expired(&mut self) -> (expired: bool)
        ensures
            final(self).drawn().len() == old(self).drawn().len() + 1,
            final(self).drawn() == old(self).drawn().push(final(self).drawn().last()),
            expired == (final(self).drawn().last() >= old(self).limit_ms() * 1_000_000),
            final(self).answers().last() == left_after(
                old(self).limit_ms(),
                ms_of(final(self).drawn().last() as int),
            ),
    {
        let elapsed_ns = self.draw();
        let expired = time_is_up(elapsed_ns, self.limit_ms);
        let remaining = left_of(self.limit_ms, whole_ms(elapsed_ns));
        self.given = Ghost(self.given@.push(remaining));
        expired
    }
}

}
