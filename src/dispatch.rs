//! The dispatcher: which execution contexts a run uses, how each is labelled,
//! and the messages each context sends, in order.
use vstd::prelude::*;
use vstd::seq_lib::lemma_multiset_commutative;
use crate::decimal::{decimal, decimal_text, digit_char, lemma_decimal_nonempty};

verus! {

/// How the task invocations of a run are spread over execution contexts.
#[derive(Clone, Copy, Debug, PartialEq, Eq, Structural)]
pub enum Mode {
    /// All invocations on the calling context, under one fixed label.
    Series,
    /// One concurrent context per label `1..=threads`.
    Parallel,
}

/// The label of the single context of a run in `Series` mode.
pub const SERIES_LABEL: u64 = 1;

/// The text every task message starts with.
pub open spec fn message_prefix() -> Seq<char> {
    "thread number: "@
}

/// The message a task invocation on the context labelled `label` sends.
pub open spec fn message_text(label: nat) -> Seq<char> {
    message_prefix() + decimal(label)
}

/// The labels of the contexts a run uses, in launch order.
pub open spec fn plan_labels(mode: Mode, threads: nat) -> Seq<u64> {
    match mode {
        Mode::Series => seq![SERIES_LABEL],
        Mode::Parallel => Seq::new(threads, |i: int| (i + 1) as u64),
    }
}

/// The messages one context labelled `label` sends when it runs `tasks` invocations.
pub open spec fn context_messages(label: nat, tasks: nat) -> Seq<Seq<char>> {
    Seq::new(tasks, |i: int| message_text(label))
}

/// All messages sent by the contexts `labels`, each running `tasks` invocations,
/// context after context.
pub open spec fn run_messages(labels: Seq<u64>, tasks: nat) -> Seq<Seq<char>>
    decreases labels.len(),
{
    if labels.len() == 0 {
        Seq::empty()
    } else {
        run_messages(labels.drop_last(), tasks) + context_messages(labels.last() as nat, tasks)
    }
}

/// Which contexts a run uses: whether they are spawned as concurrent tasks, and
/// their labels.
pub struct DispatchPlan {
    pub spawn: bool,
    pub labels: Vec<u64>,
}

/// The plan of a run: `Series` runs one context labelled `1` in place;
/// `Parallel` spawns `threads` contexts labelled `1..=threads`.
pub fn dispatch_plan(mode: Mode, threads: u64) -> (r: DispatchPlan)
    ensures
        r.spawn == (mode == Mode::Parallel),
        r.labels@ == plan_labels(mode, threads as nat),
{
    match mode {
        Mode::Series => DispatchPlan { spawn: false, labels: vec![SERIES_LABEL] },
        Mode::Parallel => {
            let mut labels: Vec<u64> = Vec::new();
            let mut i: u64 = 0;
            while i < threads
                invariant
                    i <= threads,
                    labels@ == Seq::new(i as nat, |k: int| (k + 1) as u64),
                decreases threads - i,
            {
                labels.push(i + 1);
                assert(labels@ =~= Seq::new((i + 1) as nat, |k: int| (k + 1) as u64));
                i = i + 1;
            }
            DispatchPlan { spawn: true, labels }
        },
    }
}

/// The message a task invocation on the context labelled `label` sends.
pub fn task_message(label: u64) -> (r: String)
    ensures
        r@ == message_text(label as nat),
{
    let mut s = String::from_str("thread number: ");
    s.append(decimal_text(label).as_str());
    s
}

/// One execution context: its label and how many invocations it has still to run.
pub struct ContextRun {
    pub label: u64,
    pub remaining: u64,
}

impl ContextRun {
    /// A context labelled `label` that runs `tasks` invocations.
    pub fn new(label: u64, tasks: u64) -> (r: ContextRun)
        ensures
            r.label == label,
            r.remaining == tasks,
    {
        ContextRun { label, remaining: tasks }
    }

    /// The messages the context has still to send, in order.
    pub open spec fn pending(&self) -> Seq<Seq<char>> {
        context_messages(self.label as nat, self.remaining as nat)
    }

    /// The next invocation: the message it sends, or `None` once the context is done.
    /// Each message brings the context one invocation closer to its end.
    pub fn next_message(&mut self) -> (r: Option<String>)
        ensures
            final(self).label == old(self).label,
            old(self).remaining == 0 ==> r is None && final(self).remaining == 0,
            old(self).remaining > 0 ==> r is Some && r->0@ == message_text(old(self).label as nat)
                && final(self).remaining == old(self).remaining - 1,
            old(self).pending() == match r {
                Some(m) => seq![m@] + final(self).pending(),
                None => Seq::empty(),
            },
    {
        if self.remaining == 0 {
            assert(old(self).pending() =~= Seq::empty());
            None
        } else {
            self.remaining = self.remaining - 1;
            let m = task_message(self.label);
            assert(old(self).pending() =~= seq![m@] + self.pending());
            Some(m)
        }
    }
}

/// Different labels give different messages.
pub proof fn lemma_message_text_injective(a: nat, b: nat)
    ensures
        message_text(a) == message_text(b) <==> a == b,
{
    if message_text(a) == message_text(b) {
        let p = message_prefix().len();
        assert(decimal(a) =~= message_text(a).subrange(p as int, message_text(a).len() as int));
        assert(decimal(b) =~= message_text(b).subrange(p as int, message_text(b).len() as int));
        lemma_decimal_injective(a, b);
    }
}

proof fn lemma_digit_char_injective(a: nat, b: nat)
    requires
        a < 10,
        b < 10,
        digit_char(a) == digit_char(b),
    ensures
        a == b,
{
}

/// Different numbers have different decimal texts.
pub proof fn lemma_decimal_injective(a: nat, b: nat)
    requires
        decimal(a) == decimal(b),
    ensures
        a == b,
    decreases a,
{
    if a < 10 && b < 10 {
        assert(decimal(a) == seq![digit_char(a)]);
        assert(decimal(b) == seq![digit_char(b)]);
        assert(seq![digit_char(a)][0] == digit_char(a));
        assert(seq![digit_char(b)][0] == digit_char(b));
        assert(decimal(a)[0] == decimal(b)[0]);
        lemma_digit_char_injective(a, b);
    } else if a < 10 {
        lemma_decimal_nonempty(b / 10);
        assert(decimal(b).len() >= 2);
    } else if b < 10 {
        lemma_decimal_nonempty(a / 10);
        assert(decimal(a).len() >= 2);
    } else {
        let da = decimal(a);
        assert(da.drop_last() =~= decimal(a / 10));
        assert(decimal(b).drop_last() =~= decimal(b / 10));
        assert(da.last() == digit_char(a % 10));
        assert(decimal(b).last() == digit_char(b % 10));
        lemma_digit_char_injective(a % 10, b % 10);
        lemma_decimal_injective(a / 10, b / 10);
    }
}

proof fn lemma_context_count(label: nat, tasks: nat, m: Seq<char>)
    ensures
        context_messages(label, tasks).to_multiset().count(m)
            == if m == message_text(label) { tasks } else { 0 },
    decreases tasks,
{
    broadcast use vstd::seq_lib::group_to_multiset_ensures;

    if tasks > 0 {
        lemma_context_count(label, (tasks - 1) as nat, m);
        assert(context_messages(label, tasks) =~= context_messages(
            label,
            (tasks - 1) as nat,
        ).push(message_text(label)));
    } else {
        assert(context_messages(label, tasks) =~= Seq::empty());
    }
}

proof fn lemma_run_length(labels: Seq<u64>, tasks: nat)
    ensures
        run_messages(labels, tasks).len() == labels.len() * tasks,
    decreases labels.len(),
{
    if labels.len() > 0 {
        lemma_run_length(labels.drop_last(), tasks);
        assert((labels.len() - 1) * tasks + tasks == labels.len() * tasks) by (nonlinear_arith);
    }
}

/// Whether a context label gives the message `m`.
spec fn sends(m: Seq<char>) -> spec_fn(u64) -> bool {
    |l: u64| message_text(l as nat) == m
}

proof fn lemma_run_count(labels: Seq<u64>, tasks: nat, m: Seq<char>)
    ensures
        run_messages(labels, tasks).to_multiset().count(m) == tasks * labels.filter(sends(m)).len(),
    decreases labels.len(),
{
    broadcast use vstd::seq_lib::group_to_multiset_ensures;
    broadcast use vstd::multiset::group_multiset_axioms;

    let f = sends(m);
    if labels.len() == 0 {
        reveal(Seq::filter);
        assert(labels.filter(f).len() == 0);
        assert(run_messages(labels, tasks) =~= Seq::<Seq<char>>::empty());
        assert(run_messages(labels, tasks).to_multiset().len() == 0);
        assert(run_messages(labels, tasks).to_multiset().count(m) == 0);
        assert(tasks * labels.filter(f).len() == 0) by (nonlinear_arith)
            requires
                labels.filter(f).len() == 0,
        ;
    } else {
        let init = labels.drop_last();
        lemma_run_count(init, tasks, m);
        lemma_context_count(labels.last() as nat, tasks, m);
        lemma_multiset_commutative(
            run_messages(init, tasks),
            context_messages(labels.last() as nat, tasks),
        );
        reveal(Seq::filter);
        let k = init.filter(f).len();
        let head = run_messages(init, tasks);
        let ctx = context_messages(labels.last() as nat, tasks);
        assert(run_messages(labels, tasks) == head + ctx);
        assert((head + ctx).to_multiset().count(m) == head.to_multiset().count(m)
            + ctx.to_multiset().count(m));
        assert(tasks * k + tasks == tasks * (k + 1)) by (nonlinear_arith);
        if f(labels.last()) {
            assert(labels.filter(f) == init.filter(f).push(labels.last()));
            assert(run_messages(labels, tasks).to_multiset().count(m) == tasks * k + tasks);
        } else {
            assert(labels.filter(f) == init.filter(f));
            assert(run_messages(labels, tasks).to_multiset().count(m) == tasks * k);
        }
    }
}

proof fn lemma_parallel_label_filter(threads: nat, label: nat)
    requires
        threads <= u64::MAX,
    ensures
        plan_labels(Mode::Parallel, threads).filter(sends(message_text(label))).len() == if 1
            <= label <= threads {
            1nat
        } else {
            0nat
        },
    decreases threads,
{
    let f = sends(message_text(label));
    let labels = plan_labels(Mode::Parallel, threads);
    if threads == 0 {
        reveal(Seq::filter);
    } else {
        let init = plan_labels(Mode::Parallel, (threads - 1) as nat);
        lemma_parallel_label_filter((threads - 1) as nat, label);
        assert(labels.drop_last() =~= init);
        reveal(Seq::filter);
        lemma_message_text_injective(threads, label);
    }
}

/// In `Series` mode a run sends exactly `tasks` messages, every one of them
/// labelled with the series label.
pub proof fn lemma_series_messages(threads: nat, tasks: nat)
    ensures
        plan_labels(Mode::Series, threads) == seq![SERIES_LABEL],
        run_messages(plan_labels(Mode::Series, threads), tasks) == Seq::new(
            tasks,
            |i: int| message_text(SERIES_LABEL as nat),
        ),
{
    let labels = plan_labels(Mode::Series, threads);
    assert(labels.drop_last() =~= Seq::empty());
    assert(run_messages(labels.drop_last(), tasks) =~= Seq::empty());
    assert(run_messages(labels, tasks) =~= Seq::new(
        tasks,
        |i: int| message_text(SERIES_LABEL as nat),
    ));
}

/// In `Parallel` mode with `threads` contexts a run sends exactly
/// `threads * tasks` messages; each is labelled with one of `1..=threads`, and
/// each of those labels is carried by exactly `tasks` of them.
pub proof fn lemma_parallel_messages(threads: u64, tasks: nat)
    ensures
        run_messages(plan_labels(Mode::Parallel, threads as nat), tasks).len() == threads * tasks,
        forall|label: nat|
            #![trigger message_text(label)]
            run_messages(plan_labels(Mode::Parallel, threads as nat), tasks).to_multiset().count(
                message_text(label),
            ) == if 1 <= label <= threads { tasks } else { 0 },
        forall|i: int|
            0 <= i < threads * tasks ==> exists|label: nat|
                1 <= label <= threads && #[trigger] run_messages(
                    plan_labels(Mode::Parallel, threads as nat),
                    tasks,
                )[i] == message_text(label),
{
    broadcast use vstd::seq_lib::group_to_multiset_ensures;

    let labels = plan_labels(Mode::Parallel, threads as nat);
    let msgs = run_messages(labels, tasks);
    lemma_run_length(labels, tasks);
    assert forall|label: nat|
        #![trigger message_text(label)]
        msgs.to_multiset().count(message_text(label)) == if 1 <= label <= threads {
            tasks
        } else {
            0
        } by {
        lemma_run_count(labels, tasks, message_text(label));
        lemma_parallel_label_filter(threads as nat, label);
    }
    assert forall|i: int| 0 <= i < threads * tasks implies exists|label: nat|
        1 <= label <= threads && #[trigger] msgs[i] == message_text(label) by {
        lemma_run_members(labels, tasks, i);
    }
}

proof fn lemma_run_members(labels: Seq<u64>, tasks: nat, i: int)
    requires
        0 <= i < run_messages(labels, tasks).len(),
    ensures
        exists|k: int| 0 <= k < labels.len() && run_messages(labels, tasks)[i] == message_text(
            #[trigger] labels[k] as nat,
        ),
    decreases labels.len(),
{
    let init = labels.drop_last();
    let head = run_messages(init, tasks);
    if i < head.len() {
        lemma_run_members(init, tasks, i);
        let k = choose|k: int| 0 <= k < init.len() && head[i] == message_text(#[trigger] init[k] as nat);
        assert(labels[k] == init[k]);
    } else {
        assert(labels[labels.len() - 1] == labels.last());
    }
}

} // verus!
