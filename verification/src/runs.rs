use vstd::prelude::*;
use crate::axi_dma::{acknowledge_plan, enqueue_plan, enqueue_script, start_ini, start_script};
use crate::error::Error;
use crate::machine::{
    advance, all_in_bounds, course, in_bounds, interrupt_script, issue, lemma_scripts_in_bounds,
    poll_script, reset_close, reset_script, Course, Then,
};
use crate::regs::{fault, resetting, Channel, DMASR_IRQ_CLEAR};
use crate::request::{Reply, Request, Step};
use crate::scatter_gather::completed;

verus! {

/// No reply of the run reports a failure.
pub open spec fn quiet(replies: Seq<Reply>) -> bool {
    forall|i: int| 0 <= i < replies.len() ==> !(#[trigger] replies[i] is Failed)
}

/// The steps an engine takes on a run of replies, one for each reply,
/// starting with `pending` to ask and `next` to do after that.
pub open spec fn steps(pending: Seq<Request>, next: Then, replies: Seq<Reply>) -> Seq<Step>
    decreases replies.len(),
{
    if replies.len() == 0 {
        Seq::empty()
    } else {
        let turn = advance(pending, next, replies[0]);
        seq![turn.step] + steps(turn.pending, turn.next, replies.drop_first())
    }
}

/// What the engine has left to ask and to do after a run of replies.
pub open spec fn rest(pending: Seq<Request>, next: Then, replies: Seq<Reply>) -> (Seq<Request>, Then)
    decreases replies.len(),
{
    if replies.len() == 0 {
        (pending, next)
    } else {
        let turn = advance(pending, next, replies[0]);
        rest(turn.pending, turn.next, replies.drop_first())
    }
}

/// The steps of a whole operation that sets out on `script`: the step that
/// starts it, then one for each reply.
pub open spec fn trace(script: Seq<Request>, next: Then, replies: Seq<Reply>) -> Seq<Step> {
    seq![issue(script, next).step] + steps(issue(script, next).pending, next, replies)
}

/// Each request of a script, asked.
pub open spec fn asks(script: Seq<Request>) -> Seq<Step> {
    script.map_values(|r: Request| Step::Ask(r))
}

/// Each word of a run, as the reply that carries it.
pub open spec fn words(values: Seq<u32>) -> Seq<Reply> {
    values.map_values(|w: u32| Reply::Word(w))
}

/// A run of `n` replies that report nothing.
pub open spec fn dones(n: nat) -> Seq<Reply> {
    Seq::new(n, |i: int| Reply::Done)
}

/// The same request `n` times over.
pub open spec fn repeat(request: Request, n: nat) -> Seq<Request> {
    Seq::new(n, |i: int| request)
}

/// There is one step for each reply.
pub proof fn lemma_steps_len(pending: Seq<Request>, next: Then, replies: Seq<Reply>)
    ensures
        steps(pending, next, replies).len() == replies.len(),
    decreases replies.len(),
{
    if replies.len() > 0 {
        let turn = advance(pending, next, replies[0]);
        lemma_steps_len(turn.pending, turn.next, replies.drop_first());
    }
}

/// A run of one reply is one move.
pub proof fn lemma_one_step(pending: Seq<Request>, next: Then, reply: Reply)
    ensures
        steps(pending, next, seq![reply]) == seq![advance(pending, next, reply).step],
        rest(pending, next, seq![reply]) == (
            advance(pending, next, reply).pending,
            advance(pending, next, reply).next,
        ),
{
    let one = seq![reply];
    let turn = advance(pending, next, reply);
    assert(one[0] == reply);
    assert(one.drop_first() =~= Seq::<Reply>::empty());
    assert(steps(turn.pending, turn.next, one.drop_first()) =~= Seq::<Step>::empty());
    assert(rest(turn.pending, turn.next, one.drop_first()) == (turn.pending, turn.next));
    assert(steps(pending, next, one) =~= seq![turn.step]);
}

/// A run can be taken in two parts: the second goes on where the first
/// left the engine.
pub proof fn lemma_steps_concat(
    pending: Seq<Request>,
    next: Then,
    first: Seq<Reply>,
    second: Seq<Reply>,
)
    ensures
        steps(pending, next, first + second) == steps(pending, next, first) + steps(
            rest(pending, next, first).0,
            rest(pending, next, first).1,
            second,
        ),
        rest(pending, next, first + second) == rest(
            rest(pending, next, first).0,
            rest(pending, next, first).1,
            second,
        ),
    decreases first.len(),
{
    if first.len() == 0 {
        assert(first + second =~= second);
        assert(steps(pending, next, first) + steps(pending, next, second) =~= steps(
            pending,
            next,
            second,
        ));
    } else {
        let turn = advance(pending, next, first[0]);
        assert((first + second).drop_first() =~= first.drop_first() + second);
        assert((first + second)[0] == first[0]);
        lemma_steps_concat(turn.pending, turn.next, first.drop_first(), second);
        let (p, n) = rest(pending, next, first);
        assert(steps(pending, next, first + second) =~= steps(pending, next, first) + steps(
            p,
            n,
            second,
        ));
    }
}

/// While requests are pending and nothing fails, they are asked one after
/// the other, whatever the replies carry.
pub proof fn lemma_script_runs(pending: Seq<Request>, next: Then, replies: Seq<Reply>)
    requires
        quiet(replies),
        replies.len() <= pending.len(),
    ensures
        steps(pending, next, replies) == asks(pending.take(replies.len() as int)),
        rest(pending, next, replies) == (pending.skip(replies.len() as int), next),
    decreases replies.len(),
{
    let n = replies.len() as int;
    if n == 0 {
        assert(pending.skip(0) =~= pending);
        assert(steps(pending, next, replies) =~= asks(pending.take(0)));
    } else {
        let tail = replies.drop_first();
        assert(!(replies[0] is Failed));
        assert forall|i: int| 0 <= i < tail.len() implies !(#[trigger] tail[i] is Failed) by {
            assert(tail[i] == replies[i + 1]);
        }
        lemma_script_runs(pending.drop_first(), next, tail);
        assert(pending.drop_first().skip(n - 1) =~= pending.skip(n));
        assert(seq![Step::Ask(pending[0])] + asks(pending.drop_first().take(n - 1)) =~= asks(
            pending.take(n),
        ));
    }
}

/// An operation that has only requests left, and nothing to decide after
/// them, asks them all and ends well on the reply to the last, if nothing
/// fails.
pub proof fn lemma_script_finishes(pending: Seq<Request>, replies: Seq<Reply>)
    requires
        quiet(replies),
        replies.len() == pending.len() + 1,
    ensures
        steps(pending, Then::Finish, replies) == asks(pending) + seq![Step::Finished(Ok(()))],
        rest(pending, Then::Finish, replies) == (Seq::<Request>::empty(), Then::Finish),
{
    let n = pending.len() as int;
    let head = replies.take(n);
    let last = seq![replies[n]];
    assert(replies =~= head + last);
    assert(quiet(head));
    lemma_steps_concat(pending, Then::Finish, head, last);
    lemma_script_runs(pending, Then::Finish, head);
    assert(pending.take(n) =~= pending);
    assert(pending.skip(n) =~= Seq::<Request>::empty());
    assert(!(replies[n] is Failed));
    lemma_one_step(Seq::<Request>::empty(), Then::Finish, replies[n]);
}

/// A failure ends the operation at once, whatever was pending, and leaves
/// the engine with nothing in hand.
pub proof fn lemma_failure_ends(pending: Seq<Request>, next: Then, replies: Seq<Reply>)
    requires
        replies.len() > 0,
        replies.last() is Failed,
        quiet(replies.drop_last()),
        replies.len() <= pending.len() + 1,
    ensures
        steps(pending, next, replies) == asks(pending.take(replies.len() - 1)) + seq![
            Step::Finished(Err(Error::Io)),
        ],
        rest(pending, next, replies) == (Seq::<Request>::empty(), Then::Finish),
{
    let head = replies.drop_last();
    let last = seq![replies.last()];
    assert(replies =~= head + last);
    lemma_steps_concat(pending, next, head, last);
    lemma_script_runs(pending, next, head);
    let (p, n) = rest(pending, next, head);
    lemma_one_step(p, n, replies.last());
}

/// Where nothing is pending, the reply's word decides: either the
/// operation sets out on a new script, or it ends.
pub proof fn lemma_decides(next: Then, reply: Reply, more: Seq<Reply>)
    requires
        !(reply is Failed),
    ensures
        course(next, reply.word()) matches Course::Go(script, after) ==> steps(
            Seq::empty(),
            next,
            seq![reply] + more,
        ) == seq![Step::Ask(script[0])] + steps(script.drop_first(), after, more),
        course(next, reply.word()) matches Course::Stop(end) ==> steps(
            Seq::empty(),
            next,
            seq![reply] + more,
        ) == seq![Step::Finished(end)] + steps(Seq::empty(), Then::Finish, more),
{
    let all = seq![reply] + more;
    assert(all[0] == reply);
    assert(all.drop_first() =~= more);
}

/// An operation that sets out on a script and has nothing to decide after
/// it asks every request of the script in order and then ends well, if
/// nothing fails.
pub proof fn lemma_trace_finishes(script: Seq<Request>, replies: Seq<Reply>)
    requires
        script.len() > 0,
        quiet(replies),
        replies.len() == script.len(),
    ensures
        trace(script, Then::Finish, replies) == asks(script) + seq![Step::Finished(Ok(()))],
{
    lemma_script_finishes(script.drop_first(), replies);
    assert(seq![Step::Ask(script[0])] + asks(script.drop_first()) =~= asks(script));
    assert(trace(script, Then::Finish, replies) =~= asks(script) + seq![Step::Finished(Ok(()))]);
}

/// A simple transfer asks for the requests of `start_script`, in that
/// order, and ends well once the length has been stored.
pub proof fn lemma_start_runs(channel: Channel, phys: usize, bytes: usize, replies: Seq<Reply>)
    requires
        quiet(replies),
        replies.len() == start_script(channel, phys, bytes).len(),
    ensures
        trace(start_script(channel, phys, bytes), Then::Finish, replies) == asks(
            start_script(channel, phys, bytes),
        ) + seq![Step::Finished(Ok(()))],
{
    lemma_trace_finishes(start_script(channel, phys, bytes), replies);
}

/// Where the interrupt cannot be unmasked, a simple transfer ends with
/// `Error::Io` and without a store to DMACR, to the address or to the
/// length: the transfer is not set off.
pub proof fn lemma_start_unarmed(channel: Channel, phys: usize, bytes: usize)
    ensures
        trace(
            start_script(channel, phys, bytes),
            Then::Finish,
            dones(start_ini(channel).len()) + seq![Reply::Failed],
        ) == asks(start_ini(channel) + seq![Request::WriteUio { value: 1 }]) + seq![
            Step::Finished(Err(Error::Io)),
        ],
{
    let script = start_script(channel, phys, bytes);
    let opening = start_ini(channel) + seq![Request::WriteUio { value: 1 }];
    let replies = dones(start_ini(channel).len()) + seq![Reply::Failed];
    assert(replies.drop_last() =~= dones(start_ini(channel).len()));
    lemma_failure_ends(script.drop_first(), Then::Finish, replies);
    assert(script.drop_first().take(replies.len() - 1) =~= opening.drop_first());
    assert(seq![Step::Ask(script[0])] + asks(opening.drop_first()) =~= asks(opening));
    assert(trace(script, Then::Finish, replies) =~= asks(opening) + seq![
        Step::Finished(Err(Error::Io)),
    ]);
}

/// An enqueue clears the descriptor's STATUS, issues a barrier and loads
/// DMASR. On a word that refuses the enqueue it ends with the error and
/// has asked for no store to a register. Otherwise it asks for the stores
/// of `enqueue_plan` and ends well.
pub proof fn lemma_enqueue_runs(
    channel: Channel,
    base: usize,
    phys: usize,
    status: u32,
    replies: Seq<Reply>,
)
    requires
        quiet(replies),
        replies.len() == match enqueue_plan(channel, phys, status) {
            Ok(stores) => stores.len(),
            Err(_) => 0,
        },
    ensures
        trace(
            enqueue_script(channel, base),
            Then::Enqueue { channel, phys },
            seq![Reply::Done, Reply::Done, Reply::Word(status)] + replies,
        ) == asks(enqueue_script(channel, base)) + match enqueue_plan(channel, phys, status) {
            Ok(stores) => asks(stores) + seq![Step::Finished(Ok(()))],
            Err(e) => seq![Step::Finished(Err(e))],
        },
{
    let script = enqueue_script(channel, base);
    let next = Then::Enqueue { channel, phys };
    let opening = seq![Reply::Done, Reply::Done];
    let deciding = seq![Reply::Word(status)] + replies;
    let all = seq![Reply::Done, Reply::Done, Reply::Word(status)] + replies;
    assert(all =~= opening + deciding);
    lemma_steps_concat(script.drop_first(), next, opening, deciding);
    lemma_script_runs(script.drop_first(), next, opening);
    assert(script.drop_first().take(2) =~= script.drop_first());
    assert(script.drop_first().skip(2) =~= Seq::<Request>::empty());
    assert(seq![Step::Ask(script[0])] + asks(script.drop_first()) =~= asks(script));
    lemma_decides(next, Reply::Word(status), replies);
    match enqueue_plan(channel, phys, status) {
        Ok(stores) => {
            lemma_script_finishes(stores.drop_first(), replies);
            assert(seq![Step::Ask(stores[0])] + asks(stores.drop_first()) =~= asks(stores));
            assert(trace(script, next, all) =~= asks(script) + (asks(stores) + seq![
                Step::Finished(Ok(())),
            ]));
        },
        Err(e) => {
            assert(replies =~= Seq::<Reply>::empty());
            assert(steps(Seq::empty(), Then::Finish, replies) =~= Seq::<Step>::empty());
            assert(trace(script, next, all) =~= asks(script) + seq![Step::Finished(Err(e))]);
        },
    }
}

/// Each word of the run has the reset bit set.
pub open spec fn all_resetting(polled: Seq<u32>) -> bool {
    forall|i: int| 0 <= i < polled.len() ==> resetting(#[trigger] polled[i])
}

/// While DMACR reads as resetting, a reset asks for it again and for
/// nothing else.
pub proof fn lemma_reset_polls(channel: Channel, busy: Seq<u32>)
    requires
        all_resetting(busy),
    ensures
        steps(Seq::empty(), Then::ResetPoll { channel }, words(busy)) == asks(
            repeat(Request::ReadReg { offset: channel.registers().dmacr }, busy.len()),
        ),
        rest(Seq::empty(), Then::ResetPoll { channel }, words(busy)) == (
            Seq::<Request>::empty(),
            Then::ResetPoll { channel },
        ),
    decreases busy.len(),
{
    let next = Then::ResetPoll { channel };
    let load = Request::ReadReg { offset: channel.registers().dmacr };
    if busy.len() == 0 {
        assert(steps(Seq::empty(), next, words(busy)) =~= asks(repeat(load, 0)));
    } else {
        assert(resetting(busy[0]));
        assert(words(busy)[0] == Reply::Word(busy[0]));
        assert(words(busy).drop_first() =~= words(busy.drop_first()));
        assert(seq![load].drop_first() =~= Seq::<Request>::empty());
        lemma_reset_polls(channel, busy.drop_first());
        assert(seq![Step::Ask(load)] + asks(repeat(load, (busy.len() - 1) as nat)) =~= asks(
            repeat(load, busy.len()),
        ));
    }
}

/// One channel's share of a reset: the reset bit is stored, and DMACR is
/// loaded until it reads clear, once for each word it is answered with.
proof fn lemma_reset_channel(channel: Channel, busy: Seq<u32>, clear: u32, more: Seq<Reply>)
    requires
        all_resetting(busy),
        !resetting(clear),
    ensures
        course(Then::ResetPoll { channel }, clear) matches Course::Go(script, after) && steps(
            reset_script(channel).drop_first(),
            Then::ResetPoll { channel },
            seq![Reply::Done] + words(busy) + seq![Reply::Word(clear)] + more,
        ) == asks(
            reset_script(channel).drop_first() + repeat(
                Request::ReadReg { offset: channel.registers().dmacr },
                busy.len(),
            ),
        ) + seq![Step::Ask(script[0])] + steps(script.drop_first(), after, more),
{
    let next = Then::ResetPoll { channel };
    let load = Request::ReadReg { offset: channel.registers().dmacr };
    let pending = reset_script(channel).drop_first();
    assert(pending =~= seq![load]);
    let a = seq![Reply::Done];
    let b = words(busy);
    let c = seq![Reply::Word(clear)] + more;
    let all = seq![Reply::Done] + words(busy) + seq![Reply::Word(clear)] + more;
    assert(all =~= a + (b + c));
    lemma_steps_concat(pending, next, a, b + c);
    lemma_script_runs(pending, next, a);
    assert(pending.take(1) =~= pending);
    assert(pending.skip(1) =~= Seq::<Request>::empty());
    lemma_steps_concat(Seq::empty(), next, b, c);
    lemma_reset_polls(channel, busy);
    lemma_decides(next, Reply::Word(clear), more);
    if let Course::Go(script, after) = course(next, clear) {
        assert(asks(pending) + asks(repeat(load, busy.len())) =~= asks(
            pending + repeat(load, busy.len()),
        ));
        assert(steps(pending, next, all) =~= asks(pending + repeat(load, busy.len())) + seq![
            Step::Ask(script[0]),
        ] + steps(script.drop_first(), after, more));
    }
}

/// A reset puts the channel to the device under reset and loads its DMACR
/// until the reset bit reads clear, does the same with the channel from
/// the device, clears the latched interrupts of both and ends well. Each
/// DMACR is loaded once more than it was found resetting.
pub proof fn lemma_reset_runs(busy_h2d: Seq<u32>, clear_h2d: u32, busy_d2h: Seq<u32>, clear_d2h: u32)
    requires
        all_resetting(busy_h2d),
        !resetting(clear_h2d),
        all_resetting(busy_d2h),
        !resetting(clear_d2h),
    ensures
        trace(
            reset_script(Channel::H2d),
            Then::ResetPoll { channel: Channel::H2d },
            seq![Reply::Done] + words(busy_h2d) + seq![Reply::Word(clear_h2d), Reply::Done] + words(
                busy_d2h,
            ) + seq![Reply::Word(clear_d2h), Reply::Done, Reply::Done],
        ) == asks(
            reset_script(Channel::H2d) + repeat(
                Request::ReadReg { offset: Channel::H2d.registers().dmacr },
                busy_h2d.len(),
            ) + reset_script(Channel::D2h) + repeat(
                Request::ReadReg { offset: Channel::D2h.registers().dmacr },
                busy_d2h.len(),
            ) + reset_close(),
        ) + seq![Step::Finished(Ok(()))],
{
    let h2d = Channel::H2d;
    let d2h = Channel::D2h;
    let load_h2d = Request::ReadReg { offset: h2d.registers().dmacr };
    let load_d2h = Request::ReadReg { offset: d2h.registers().dmacr };
    let closing = seq![Reply::Done, Reply::Done];
    let second = seq![Reply::Done] + words(busy_d2h) + seq![Reply::Word(clear_d2h)] + closing;
    let all = seq![Reply::Done] + words(busy_h2d) + seq![Reply::Word(clear_h2d), Reply::Done]
        + words(busy_d2h) + seq![Reply::Word(clear_d2h), Reply::Done, Reply::Done];
    assert(all =~= seq![Reply::Done] + words(busy_h2d) + seq![Reply::Word(clear_h2d)] + second);
    lemma_reset_channel(h2d, busy_h2d, clear_h2d, second);
    lemma_reset_channel(d2h, busy_d2h, clear_d2h, closing);
    lemma_script_finishes(reset_close().drop_first(), closing);
    let part_h2d = reset_script(h2d) + repeat(load_h2d, busy_h2d.len());
    let part_d2h = reset_script(d2h) + repeat(load_d2h, busy_d2h.len());
    assert(seq![Step::Ask(reset_script(h2d)[0])] + asks(
        reset_script(h2d).drop_first() + repeat(load_h2d, busy_h2d.len()),
    ) =~= asks(part_h2d));
    assert(seq![Step::Ask(reset_script(d2h)[0])] + asks(
        reset_script(d2h).drop_first() + repeat(load_d2h, busy_d2h.len()),
    ) =~= asks(part_d2h));
    assert(seq![Step::Ask(reset_close()[0])] + asks(reset_close().drop_first()) =~= asks(
        reset_close(),
    ));
    assert(asks(part_h2d) + asks(part_d2h) + asks(reset_close()) =~= asks(
        part_h2d + part_d2h + reset_close(),
    ));
    assert(part_h2d + part_d2h + reset_close() =~= reset_script(h2d) + repeat(
        load_h2d,
        busy_h2d.len(),
    ) + reset_script(d2h) + repeat(load_d2h, busy_d2h.len()) + reset_close());
    assert(trace(reset_script(h2d), Then::ResetPoll { channel: h2d }, all) =~= asks(part_h2d)
        + asks(part_d2h) + asks(reset_close()) + seq![Step::Finished(Ok(()))]);
}

/// A wait for the descriptor at `base` is under way and has not yet seen
/// it completed: it is about to look at STATUS, or on its way through an
/// interrupt.
pub open spec fn waiting(pending: Seq<Request>, next: Then, channel: Channel, base: usize) -> bool {
    ||| next == Then::Completed { channel, base } && (pending == Seq::<Request>::empty() || pending
        == poll_script(base))
    ||| next == Then::Acknowledge { channel, base } && (pending == interrupt_script(channel).skip(1)
        || pending == interrupt_script(channel).skip(2) || pending == Seq::<Request>::empty())
}

/// A wait that is under way ends well only on the reply to a barrier, and
/// it asks for that barrier only on a STATUS word that says `completed`:
/// whoever is told that the descriptor is done reads the payload behind a
/// barrier that follows the load of the flag.
pub proof fn lemma_wait_acquires(
    pending: Seq<Request>,
    next: Then,
    channel: Channel,
    base: usize,
    replies: Seq<Reply>,
    k: int,
)
    requires
        waiting(pending, next, channel, base),
        0 <= k < replies.len(),
        steps(pending, next, replies)[k] == Step::Finished(Ok(())),
        forall|j: int| 0 <= j < k ==> #[trigger] steps(pending, next, replies)[j] is Ask,
    ensures
        k >= 1,
        steps(pending, next, replies)[k - 1] == Step::Ask(Request::Barrier),
        completed(replies[k - 1].word()),
        rest(pending, next, replies.take(k - 1)) == (
            Seq::<Request>::empty(),
            Then::Completed { channel, base },
        ),
    decreases replies.len(),
{
    let all = steps(pending, next, replies);
    let turn = advance(pending, next, replies[0]);
    let tail = replies.drop_first();
    let later = steps(turn.pending, turn.next, tail);
    lemma_steps_len(pending, next, replies);
    lemma_steps_len(turn.pending, turn.next, tail);
    assert(all[0] == turn.step);
    assert forall|j: int| 1 <= j < replies.len() implies all[j] == later[j - 1] by {}
    let script = interrupt_script(channel);
    assert(script.skip(1).drop_first() =~= script.skip(2));
    assert(script.skip(2).drop_first() =~= Seq::<Request>::empty());
    assert(script.drop_first() =~= script.skip(1));
    assert(poll_script(base).drop_first() =~= Seq::<Request>::empty());
    if replies[0] is Failed {
        assert(!(all[0] is Ask));
    } else if pending.len() == 0 && next == (Then::Completed { channel, base }) && completed(
        replies[0].word(),
    ) {
        assert(turn.step == Step::Ask(Request::Barrier));
        assert(seq![Request::Barrier].drop_first() =~= Seq::<Request>::empty());
        assert(later[0] == advance(turn.pending, turn.next, tail[0]).step);
        assert(!(later[0] is Ask));
        assert(all[1] == later[0]);
        assert(k == 1);
        assert(replies.take(0) =~= Seq::<Reply>::empty());
    } else {
        if pending.len() == 0 && next == (Then::Acknowledge { channel, base }) {
            match acknowledge_plan(channel, replies[0].word()) {
                Ok(stores) => {
                    assert((stores + poll_script(base)).drop_first() =~= poll_script(base));
                },
                Err(e) => {
                    assert(!(all[0] is Ask));
                },
            }
        }
        assert(all[0] is Ask);
        assert(waiting(turn.pending, turn.next, channel, base));
        assert(k >= 1);
        assert forall|j: int| 0 <= j < k - 1 implies #[trigger] later[j] is Ask by {
            assert(all[j + 1] is Ask);
        }
        lemma_wait_acquires(turn.pending, turn.next, channel, base, tail, k - 1);
        assert(tail[k - 2] == replies[k - 1]);
        assert(replies.take(k - 1).drop_first() =~= tail.take(k - 2));
        assert(replies.take(k - 1)[0] == replies[0]);
    }
}

/// A wait that finds the descriptor completed at its first look asks for a
/// barrier and ends well.
pub proof fn lemma_wait_ready(channel: Channel, base: usize, status: u32)
    requires
        completed(status),
    ensures
        trace(
            poll_script(base),
            Then::Completed { channel, base },
            seq![Reply::Word(status), Reply::Done],
        ) == asks(poll_script(base) + seq![Request::Barrier]) + seq![Step::Finished(Ok(()))],
{
    let next = Then::Completed { channel, base };
    let replies = seq![Reply::Word(status), Reply::Done];
    assert(replies =~= seq![Reply::Word(status)] + seq![Reply::Done]);
    assert(poll_script(base).drop_first() =~= Seq::<Request>::empty());
    lemma_decides(next, Reply::Word(status), seq![Reply::Done]);
    lemma_script_finishes(seq![Request::Barrier].drop_first(), seq![Reply::Done]);
    assert(seq![Request::Barrier].drop_first() =~= Seq::<Request>::empty());
    assert(trace(poll_script(base), next, replies) =~= asks(
        poll_script(base) + seq![Request::Barrier],
    ) + seq![Step::Finished(Ok(()))]);
}

/// A wait that finds the descriptor not completed unmasks the interrupt,
/// blocks until one arrives and loads DMASR. On a fault it ends with the
/// fault and the word. Otherwise it clears the latched interrupts and
/// looks at the descriptor again.
pub proof fn lemma_wait_round(channel: Channel, base: usize, status: u32, count: Reply, dmasr: u32)
    requires
        !completed(status),
        !(count is Failed),
    ensures
        steps(
            Seq::empty(),
            Then::Completed { channel, base },
            seq![Reply::Word(status), Reply::Done, count, Reply::Word(dmasr)],
        ) == asks(interrupt_script(channel)) + match fault(dmasr) {
            Some(e) => seq![Step::Finished(Err(e))],
            None => seq![
                Step::Ask(
                    Request::WriteReg {
                        offset: channel.registers().dmasr,
                        value: DMASR_IRQ_CLEAR,
                    },
                ),
            ],
        },
        fault(dmasr) is None ==> rest(
            Seq::empty(),
            Then::Completed { channel, base },
            seq![Reply::Word(status), Reply::Done, count, Reply::Word(dmasr)],
        ) == (poll_script(base), Then::Completed { channel, base }),
{
    let next = Then::Completed { channel, base };
    let after = Then::Acknowledge { channel, base };
    let script = interrupt_script(channel);
    let replies = seq![Reply::Word(status), Reply::Done, count, Reply::Word(dmasr)];
    let a = seq![Reply::Word(status)];
    let b = seq![Reply::Done, count];
    let c = seq![Reply::Word(dmasr)];
    assert(replies =~= a + (b + c));
    lemma_steps_concat(Seq::empty(), next, a, b + c);
    lemma_one_step(Seq::empty(), next, Reply::Word(status));
    lemma_steps_concat(script.drop_first(), after, b, c);
    lemma_script_runs(script.drop_first(), after, b);
    assert(script.drop_first().take(2) =~= script.drop_first());
    assert(script.drop_first().skip(2) =~= Seq::<Request>::empty());
    lemma_one_step(Seq::empty(), after, Reply::Word(dmasr));
    assert(seq![Step::Ask(script[0])] + asks(script.drop_first()) =~= asks(script));
    match acknowledge_plan(channel, dmasr) {
        Ok(stores) => {
            assert((stores + poll_script(base)).drop_first() =~= poll_script(base));
            assert(steps(Seq::empty(), next, replies) =~= asks(script) + seq![
                Step::Ask(stores[0]),
            ]);
        },
        Err(e) => {
            assert(steps(Seq::empty(), next, replies) =~= asks(script) + seq![
                Step::Finished(Err(e)),
            ]);
        },
    }
}

/// An operation that sets out in bounds never asks for an access out of
/// bounds, whatever it is answered.
pub proof fn lemma_steps_in_bounds(pending: Seq<Request>, next: Then, replies: Seq<Reply>, k: int)
    requires
        all_in_bounds(pending),
        0 <= k < replies.len(),
    ensures
        steps(pending, next, replies)[k] matches Step::Ask(request) ==> in_bounds(request),
    decreases replies.len(),
{
    let turn = advance(pending, next, replies[0]);
    let tail = replies.drop_first();
    lemma_steps_len(turn.pending, turn.next, tail);
    lemma_scripts_in_bounds(Channel::H2d, 0, 0, 0, next, replies[0].word());
    assert(all_in_bounds(turn.pending)) by {
        if !(replies[0] is Failed) {
            if pending.len() > 0 {
                assert forall|i: int| 0 <= i < turn.pending.len() implies in_bounds(
                    #[trigger] turn.pending[i],
                ) by {
                    assert(turn.pending[i] == pending[i + 1]);
                }
            } else if let Course::Go(script, _) = course(next, replies[0].word()) {
                assert forall|i: int| 0 <= i < turn.pending.len() implies in_bounds(
                    #[trigger] turn.pending[i],
                ) by {
                    assert(turn.pending[i] == script[i + 1]);
                }
            }
        }
    }
    if k == 0 {
        if let Step::Ask(request) = turn.step {
            if pending.len() > 0 {
                assert(request == pending[0]);
            } else if let Course::Go(script, _) = course(next, replies[0].word()) {
                assert(request == script[0]);
            }
        }
    } else {
        lemma_steps_in_bounds(turn.pending, turn.next, tail, k - 1);
    }
}

} // verus!
