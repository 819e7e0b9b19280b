use vstd::prelude::*;
use crate::axi_dma::{
    acknowledge_plan, acknowledge_requests, enqueue_plan, enqueue_requests, enqueue_script,
    start_script,
};
use crate::error::Error;
use crate::regs::{
    resetting, Channel, DMACR_RESET, DMASR_IRQ_CLEAR, MM2S_DMASR, REGISTER_SPAN, S2MM_DMASR,
};
use crate::request::{Reply, Request, Step};
use crate::scatter_gather::{completed, SG_DESCRIPTOR_LEN, STATUS};

verus! {

/// What an operation does once its pending requests are used up and the
/// reply to the last of them is in.
#[derive(Debug, Clone, Copy, PartialEq, Eq)]
pub enum Then {
    /// Nothing more: the operation has succeeded.
    Finish,
    /// The reply is the DMACR word of a channel under reset.
    ResetPoll { channel: Channel },
    /// The reply is the DMASR word that decides how the descriptor at the
    /// physical address `phys` is enqueued.
    Enqueue { channel: Channel, phys: usize },
    /// The reply is the STATUS word of the awaited descriptor, whose home
    /// is at `base`.
    Completed { channel: Channel, base: usize },
    /// The reply is the DMASR word loaded after an interrupt.
    Acknowledge { channel: Channel, base: usize },
}

/// How an operation goes on.
pub enum Course {
    /// With these requests, and then as the second field says.
    Go(Seq<Request>, Then),
    /// Not at all: it has ended like this.
    Stop(Result<(), Error>),
}

/// The requests that put a channel under reset and look whether it is done.
pub open spec fn reset_script(channel: Channel) -> Seq<Request> {
    seq![
        Request::WriteReg { offset: channel.registers().dmacr, value: DMACR_RESET },
        Request::ReadReg { offset: channel.registers().dmacr },
    ]
}

/// The requests that close a reset: the latched interrupts of both
/// channels are cleared.
pub open spec fn reset_close() -> Seq<Request> {
    seq![
        Request::WriteReg { offset: S2MM_DMASR, value: DMASR_IRQ_CLEAR },
        Request::WriteReg { offset: MM2S_DMASR, value: DMASR_IRQ_CLEAR },
    ]
}

/// The requests that wait for an interrupt and fetch the DMASR word that
/// tells what it was about: unmask, block, load.
pub open spec fn interrupt_script(channel: Channel) -> Seq<Request> {
    seq![
        Request::WriteUio { value: 1 },
        Request::ReadUio,
        Request::ReadReg { offset: channel.registers().dmasr },
    ]
}

/// The request that looks whether the descriptor at `base` is done.
pub open spec fn poll_script(base: usize) -> Seq<Request> {
    seq![Request::LoadDescriptor { base, offset: STATUS }]
}

/// How an operation goes on when its pending requests are used up and the
/// last reply carried `word`.
///
/// A reset polls DMACR until the reset bit has cleared itself, first on the
/// channel to the device, then on the other, and then closes. An enqueue
/// takes its stores from the DMASR word. A wait for a descriptor ends, after
/// a barrier, once STATUS says `completed`; until then it sleeps until the
/// next interrupt, stops on a fault, acknowledges the interrupt and looks
/// again, since the interrupt may have been about another descriptor.
pub open spec fn course(state: Then, word: u32) -> Course {
    match state {
        Then::Finish => Course::Stop(Ok(())),
        Then::ResetPoll { channel } => if resetting(word) {
            Course::Go(
                seq![Request::ReadReg { offset: channel.registers().dmacr }],
                Then::ResetPoll { channel },
            )
        } else {
            match channel {
                Channel::H2d => Course::Go(
                    reset_script(Channel::D2h),
                    Then::ResetPoll { channel: Channel::D2h },
                ),
                Channel::D2h => Course::Go(reset_close(), Then::Finish),
            }
        },
        Then::Enqueue { channel, phys } => match enqueue_plan(channel, phys, word) {
            Ok(stores) => Course::Go(stores, Then::Finish),
            Err(e) => Course::Stop(Err(e)),
        },
        Then::Completed { channel, base } => if completed(word) {
            Course::Go(seq![Request::Barrier], Then::Finish)
        } else {
            Course::Go(interrupt_script(channel), Then::Acknowledge { channel, base })
        },
        Then::Acknowledge { channel, base } => match acknowledge_plan(channel, word) {
            Ok(stores) => Course::Go(stores + poll_script(base), Then::Completed { channel, base }),
            Err(e) => Course::Stop(Err(e)),
        },
    }
}

/// The outcome of one move of an engine: what it still has to ask, what it
/// does after that, and what it says now.
pub struct Turn {
    pub pending: Seq<Request>,
    pub next: Then,
    pub step: Step,
}

/// Setting out on a script: its first request is asked, the others wait.
pub open spec fn issue(script: Seq<Request>, next: Then) -> Turn {
    Turn { pending: script.drop_first(), next, step: Step::Ask(script[0]) }
}

/// One move of an engine on a reply.
///
/// A failure ends the operation with `Error::Io` and drops what was
/// pending. Otherwise the next pending request is asked; where none is
/// left, the reply's word decides how the operation goes on.
pub open spec fn advance(pending: Seq<Request>, next: Then, reply: Reply) -> Turn {
    if reply is Failed {
        Turn { pending: Seq::empty(), next: Then::Finish, step: Step::Finished(Err(Error::Io)) }
    } else if pending.len() > 0 {
        issue(pending, next)
    } else {
        match course(next, reply.word()) {
            Course::Go(script, after) => issue(script, after),
            Course::Stop(end) => Turn {
                pending: Seq::empty(),
                next: Then::Finish,
                step: Step::Finished(end),
            },
        }
    }
}

/// No course sets out on an empty script.
pub proof fn lemma_course_asks(state: Then, word: u32)
    ensures
        course(state, word) matches Course::Go(script, _) ==> script.len() > 0,
{
}

/// A request stays where it belongs: an access to a register is aligned
/// to four bytes and lies among the registers of the engine, an access to
/// a descriptor is aligned and lies within its 64 bytes.
pub open spec fn in_bounds(request: Request) -> bool {
    match request {
        Request::WriteReg { offset, .. } => offset % 4 == 0 && offset + 4 <= REGISTER_SPAN,
        Request::ReadReg { offset } => offset % 4 == 0 && offset + 4 <= REGISTER_SPAN,
        Request::StoreDescriptor { offset, .. } => offset % 4 == 0 && offset + 4
            <= SG_DESCRIPTOR_LEN,
        Request::LoadDescriptor { offset, .. } => offset % 4 == 0 && offset + 4
            <= SG_DESCRIPTOR_LEN,
        _ => true,
    }
}

/// Every request of the script stays where it belongs.
pub open spec fn all_in_bounds(script: Seq<Request>) -> bool {
    forall|i: int| 0 <= i < script.len() ==> in_bounds(#[trigger] script[i])
}

/// Every script an operation sets out on stays in bounds, at its start and
/// at each decision.
pub proof fn lemma_scripts_in_bounds(
    channel: Channel,
    phys: usize,
    bytes: usize,
    base: usize,
    state: Then,
    word: u32,
)
    ensures
        all_in_bounds(start_script(channel, phys, bytes)),
        all_in_bounds(enqueue_script(channel, base)),
        all_in_bounds(poll_script(base)),
        all_in_bounds(reset_script(channel)),
        all_in_bounds(seq![Request::ReadUio]),
        course(state, word) matches Course::Go(script, _) ==> all_in_bounds(script),
{
}

/// Works out `course`.
pub(crate) fn decide(state: Then, word: u32) -> (r: Result<(Vec<Request>, Then), Result<(), Error>>)
    ensures
        match r {
            Ok((script, next)) => course(state, word) == Course::Go(script@, next) && script@.len()
                > 0 && all_in_bounds(script@),
            Err(end) => course(state, word) == Course::Stop(end),
        },
{
    proof {
        lemma_scripts_in_bounds(Channel::H2d, 0, 0, 0, state, word);
    }
    match state {
        Then::Finish => Err(Ok(())),
        Then::ResetPoll { channel } => {
            let mut script: Vec<Request> = Vec::new();
            if word & 0x4 != 0 {
                script.push(Request::ReadReg { offset: channel.registers().dmacr });
                assert(script@ =~= seq![Request::ReadReg { offset: channel.registers().dmacr }]);
                Ok((script, Then::ResetPoll { channel }))
            } else {
                match channel {
                    Channel::H2d => {
                        let dmacr: usize = Channel::D2h.registers().dmacr;
                        script.push(Request::WriteReg { offset: dmacr, value: DMACR_RESET });
                        script.push(Request::ReadReg { offset: dmacr });
                        assert(script@ =~= reset_script(Channel::D2h));
                        Ok((script, Then::ResetPoll { channel: Channel::D2h }))
                    },
                    Channel::D2h => {
                        script.push(
                            Request::WriteReg { offset: S2MM_DMASR, value: DMASR_IRQ_CLEAR },
                        );
                        script.push(
                            Request::WriteReg { offset: MM2S_DMASR, value: DMASR_IRQ_CLEAR },
                        );
                        assert(script@ =~= reset_close());
                        Ok((script, Then::Finish))
                    },
                }
            }
        },
        Then::Enqueue { channel, phys } => match enqueue_requests(channel, phys, word) {
            Ok(script) => Ok((script, Then::Finish)),
            Err(e) => Err(Err(e)),
        },
        Then::Completed { channel, base } => {
            let mut script: Vec<Request> = Vec::new();
            if word & 0x8000_0000 != 0 {
                script.push(Request::Barrier);
                assert(script@ =~= seq![Request::Barrier]);
                Ok((script, Then::Finish))
            } else {
                script.push(Request::WriteUio { value: 1 });
                script.push(Request::ReadUio);
                script.push(Request::ReadReg { offset: channel.registers().dmasr });
                assert(script@ =~= interrupt_script(channel));
                Ok((script, Then::Acknowledge { channel, base }))
            }
        },
        Then::Acknowledge { channel, base } => match acknowledge_requests(channel, word) {
            Ok(script) => {
                let mut script = script;
                script.push(Request::LoadDescriptor { base, offset: STATUS });
                assert(script@ =~= acknowledge_plan(channel, word).unwrap() + poll_script(base));
                Ok((script, Then::Completed { channel, base }))
            },
            Err(e) => Err(Err(e)),
        },
    }
}

} // verus!
