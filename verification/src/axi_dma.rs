use vstd::prelude::*;
use vstd::string::*;
use crate::address::{high_half, low_half, split};
use crate::dma_buffer::DmaBuffer;
use crate::error::Error;
use crate::machine::{
    advance, all_in_bounds, decide, in_bounds, issue, lemma_scripts_in_bounds, poll_script,
    reset_script, Then, Turn,
};
use crate::regs::{
    fault, halted, sg_included, Channel, DMACR_RESET, DMACR_RUN_SG, DMACR_RUN_SIMPLE,
    DMASR_IRQ_CLEAR,
};
use crate::request::{Reply, Request, Step};
use crate::scatter_gather::{Image, SgDescriptor, STATUS};
use crate::status::{report, report_text};
use crate::sysfs::{as_word, hex_attr, parse_hex};

verus! {

/// What opens a simple transfer: on the way to the device a barrier, so
/// that the payload is in memory; then the latched interrupts are cleared.
pub open spec fn start_ini(channel: Channel) -> Seq<Request> {
    match channel {
        Channel::H2d => seq![
            Request::Barrier,
            Request::WriteReg { offset: channel.registers().dmasr, value: DMASR_IRQ_CLEAR },
        ],
        Channel::D2h => seq![
            Request::WriteReg { offset: channel.registers().dmasr, value: DMASR_IRQ_CLEAR },
        ],
    }
}

/// What programs a simple transfer of `bytes` bytes at the physical address
/// `phys`: run, the address low half first, and the length, whose store
/// sets the transfer off. The length register is given the low 32 bits of
/// `bytes`.
pub open spec fn start_fini(channel: Channel, phys: usize, bytes: usize) -> Seq<Request> {
    seq![
        Request::WriteReg { offset: channel.registers().dmacr, value: DMACR_RUN_SIMPLE },
        Request::WriteReg { offset: channel.registers().address, value: low_half(phys) },
        Request::WriteReg { offset: channel.registers().address_msb, value: high_half(phys) },
        Request::WriteReg { offset: channel.registers().length, value: low_half(bytes) },
    ]
}

/// The stores that hand the descriptor at the physical address `phys` to a
/// channel whose DMASR reads `status`. A halted channel is first pointed at
/// the descriptor and told to run. The tail is written high half first:
/// the store of the low half is what the engine acts on.
pub open spec fn enqueue_stores(channel: Channel, phys: usize, status: u32) -> Seq<Request> {
    let ignite = if halted(status) {
        seq![
            Request::WriteReg { offset: channel.registers().currdesc, value: low_half(phys) },
            Request::WriteReg { offset: channel.registers().currdesc_msb, value: high_half(phys) },
            Request::WriteReg { offset: channel.registers().dmacr, value: DMACR_RUN_SG },
        ]
    } else {
        Seq::empty()
    };
    ignite + seq![
        Request::WriteReg { offset: channel.registers().taildesc_msb, value: high_half(phys) },
        Request::WriteReg { offset: channel.registers().taildesc, value: low_half(phys) },
    ]
}

/// What follows the DMASR load of an enqueue: refusal where the core has no
/// Scatter-Gather or reports a fault, else the stores of the enqueue.
pub open spec fn enqueue_plan(channel: Channel, phys: usize, status: u32) -> Result<
    Seq<Request>,
    Error,
> {
    if !sg_included(status) {
        Err(Error::SgDisabled)
    } else if let Some(e) = fault(status) {
        Err(e)
    } else {
        Ok(enqueue_stores(channel, phys, status))
    }
}

/// What follows the DMASR load after an interrupt: the fault it reports,
/// else the store that clears the latched interrupts.
pub open spec fn acknowledge_plan(channel: Channel, status: u32) -> Result<Seq<Request>, Error> {
    match fault(status) {
        Some(e) => Err(e),
        None => Ok(
            seq![Request::WriteReg { offset: channel.registers().dmasr, value: DMASR_IRQ_CLEAR }],
        ),
    }
}

/// What an `AxiDmaBase` stands for.
pub struct Window {
    /// The name of the UIO device.
    pub dev: Seq<char>,
    /// The length of its register window in bytes.
    pub size: usize,
}

/// The register side of one engine: which registers to access, in which
/// order and with which values, and what the words read from them mean.
#[derive(Debug)]
pub struct AxiDmaBase {
    dev: String,
    size: usize,
}

impl View for AxiDmaBase {
    type V = Window;

    closed spec fn view(&self) -> Window {
        Window { dev: self.dev@, size: self.size }
    }
}

pub(crate) fn start_ini_requests(channel: Channel) -> (script: Vec<Request>)
    ensures
        script@ == start_ini(channel),
{
    let mut script: Vec<Request> = Vec::new();
    match channel {
        Channel::H2d => {
            script.push(Request::Barrier);
        },
        Channel::D2h => {},
    }
    script.push(Request::WriteReg { offset: channel.registers().dmasr, value: DMASR_IRQ_CLEAR });
    assert(script@ =~= start_ini(channel));
    script
}

pub(crate) fn start_fini_requests(channel: Channel, phys: usize, bytes: usize) -> (script: Vec<Request>)
    ensures
        script@ == start_fini(channel, phys, bytes),
{
    let registers = channel.registers();
    let (low, high) = split(phys);
    let (length, _) = split(bytes);
    let mut script: Vec<Request> = Vec::new();
    script.push(Request::WriteReg { offset: registers.dmacr, value: DMACR_RUN_SIMPLE });
    script.push(Request::WriteReg { offset: registers.address, value: low });
    script.push(Request::WriteReg { offset: registers.address_msb, value: high });
    script.push(Request::WriteReg { offset: registers.length, value: length });
    assert(script@ =~= start_fini(channel, phys, bytes));
    script
}

pub(crate) fn enqueue_requests(channel: Channel, phys: usize, status: u32) -> (r: Result<Vec<Request>, Error>)
    ensures
        match r {
            Ok(script) => enqueue_plan(channel, phys, status) == Ok::<Seq<Request>, Error>(script@),
            Err(e) => enqueue_plan(channel, phys, status) == Err::<Seq<Request>, Error>(e),
        },
{
    if status & 0x8 == 0 {
        return Err(Error::SgDisabled);
    }
    match check_status(status) {
        Err(e) => {
            return Err(e);
        },
        Ok(()) => {},
    }
    let registers = channel.registers();
    let (low, high) = split(phys);
    let mut script: Vec<Request> = Vec::new();
    if status & 0x1 != 0 {
        script.push(Request::WriteReg { offset: registers.currdesc, value: low });
        script.push(Request::WriteReg { offset: registers.currdesc_msb, value: high });
        script.push(Request::WriteReg { offset: registers.dmacr, value: DMACR_RUN_SG });
    }
    script.push(Request::WriteReg { offset: registers.taildesc_msb, value: high });
    script.push(Request::WriteReg { offset: registers.taildesc, value: low });
    assert(script@ =~= enqueue_stores(channel, phys, status));
    Ok(script)
}

pub(crate) fn acknowledge_requests(channel: Channel, status: u32) -> (r: Result<Vec<Request>, Error>)
    ensures
        match r {
            Ok(script) => acknowledge_plan(channel, status) == Ok::<Seq<Request>, Error>(script@),
            Err(e) => acknowledge_plan(channel, status) == Err::<Seq<Request>, Error>(e),
        },
{
    match check_status(status) {
        Err(e) => {
            return Err(e);
        },
        Ok(()) => {},
    }
    let mut script: Vec<Request> = Vec::new();
    script.push(Request::WriteReg { offset: channel.registers().dmasr, value: DMASR_IRQ_CLEAR });
    assert(script@ =~= seq![
        Request::WriteReg { offset: channel.registers().dmasr, value: DMASR_IRQ_CLEAR },
    ]);
    Ok(script)
}

/// Decodes the error bits of a DMASR word.
pub fn check_status(status: u32) -> (r: Result<(), Error>)
    ensures
        r == match fault(status) {
            Some(e) => Err::<(), Error>(e),
            None => Ok::<(), Error>(()),
        },
{
    if status & 0x10 != 0 {
        return Err(Error::DmaInternal(status));
    }
    if status & 0x20 != 0 {
        return Err(Error::DmaSlave(status));
    }
    if status & 0x40 != 0 {
        return Err(Error::DmaDecode(status));
    }
    if status & 0x100 != 0 {
        return Err(Error::SgInternal(status));
    }
    if status & 0x200 != 0 {
        return Err(Error::SgSlave(status));
    }
    if status & 0x400 != 0 {
        return Err(Error::SgDecode(status));
    }
    Ok(())
}

impl AxiDmaBase {
    /// The engine behind the UIO device `uio`, whose attribute
    /// `maps/map0/size` reads `map_size`: the length of the register
    /// window, in hexadecimal.
    pub fn new(uio: &str, map_size: &str) -> (r: Result<AxiDmaBase, Error>)
        ensures
            match as_word(hex_attr(map_size@)) {
                Ok(size) => r matches Ok(base) && base@ == (Window { dev: uio@, size }),
                Err(_) => r matches Err(Error::Parse),
            },
    {
        match parse_hex(map_size) {
            Ok(size) => Ok(AxiDmaBase { dev: String::from_str(uio), size }),
            Err(_) => Err(Error::Parse),
        }
    }

    /// The name of the UIO device.
    pub fn dev(&self) -> (dev: &str)
        ensures
            dev@ == self@.dev,
    {
        self.dev.as_str()
    }

    /// The length of the register window in bytes.
    pub fn size(&self) -> (size: usize)
        ensures
            size == self@.size,
    {
        self.size
    }

    /// What opens a simple transfer to the device, before the interrupt is
    /// unmasked. The buffer must hold the bytes to move.
    pub fn start_h2d_ini(&self, buff: &DmaBuffer, bytes: usize) -> (script: Vec<Request>)
        requires
            buff@.size >= bytes,
        ensures
            script@ == start_ini(Channel::H2d),
    {
        start_ini_requests(Channel::H2d)
    }

    /// What programs a simple transfer to the device, after the interrupt
    /// was unmasked.
    pub fn start_h2d_fini(&self, buff: &DmaBuffer, bytes: usize) -> (script: Vec<Request>)
        ensures
            script@ == start_fini(Channel::H2d, buff@.phys_addr, bytes),
    {
        start_fini_requests(Channel::H2d, buff.phys_addr(), bytes)
    }

    /// What opens a simple transfer from the device, before the interrupt
    /// is unmasked. The buffer must have room for the bytes to move.
    pub fn start_d2h_ini(&self, buff: &DmaBuffer, bytes: usize) -> (script: Vec<Request>)
        requires
            buff@.size >= bytes,
        ensures
            script@ == start_ini(Channel::D2h),
    {
        start_ini_requests(Channel::D2h)
    }

    /// What programs a simple transfer from the device, after the
    /// interrupt was unmasked.
    pub fn start_d2h_fini(&self, buff: &DmaBuffer, bytes: usize) -> (script: Vec<Request>)
        ensures
            script@ == start_fini(Channel::D2h, buff@.phys_addr, bytes),
    {
        start_fini_requests(Channel::D2h, buff.phys_addr(), bytes)
    }

    /// What hands `descriptor` to the channel to the device, given the
    /// word just loaded from its DMASR.
    pub fn enqueue_sg_h2d(&self, descriptor: &SgDescriptor, status: u32) -> (r: Result<
        Vec<Request>,
        Error,
    >)
        ensures
            match r {
                Ok(script) => enqueue_plan(Channel::H2d, descriptor@.phys, status) == Ok::<
                    Seq<Request>,
                    Error,
                >(script@),
                Err(e) => enqueue_plan(Channel::H2d, descriptor@.phys, status) == Err::<
                    Seq<Request>,
                    Error,
                >(e),
            },
    {
        enqueue_requests(Channel::H2d, descriptor.phys_addr(), status)
    }

    /// What hands `descriptor` to the channel from the device, given the
    /// word just loaded from its DMASR.
    pub fn enqueue_sg_d2h(&self, descriptor: &SgDescriptor, status: u32) -> (r: Result<
        Vec<Request>,
        Error,
    >)
        ensures
            match r {
                Ok(script) => enqueue_plan(Channel::D2h, descriptor@.phys, status) == Ok::<
                    Seq<Request>,
                    Error,
                >(script@),
                Err(e) => enqueue_plan(Channel::D2h, descriptor@.phys, status) == Err::<
                    Seq<Request>,
                    Error,
                >(e),
            },
    {
        enqueue_requests(Channel::D2h, descriptor.phys_addr(), status)
    }

    /// What follows an interrupt on the channel to the device, given the
    /// word just loaded from its DMASR.
    pub fn wait_sg_complete_h2d_fini(&self, status: u32) -> (r: Result<Vec<Request>, Error>)
        ensures
            match r {
                Ok(script) => acknowledge_plan(Channel::H2d, status) == Ok::<Seq<Request>, Error>(
                    script@,
                ),
                Err(e) => acknowledge_plan(Channel::H2d, status) == Err::<Seq<Request>, Error>(e),
            },
    {
        acknowledge_requests(Channel::H2d, status)
    }

    /// What follows an interrupt on the channel from the device, given the
    /// word just loaded from its DMASR.
    pub fn wait_sg_complete_d2h_fini(&self, status: u32) -> (r: Result<Vec<Request>, Error>)
        ensures
            match r {
                Ok(script) => acknowledge_plan(Channel::D2h, status) == Ok::<Seq<Request>, Error>(
                    script@,
                ),
                Err(e) => acknowledge_plan(Channel::D2h, status) == Err::<Seq<Request>, Error>(e),
            },
    {
        acknowledge_requests(Channel::D2h, status)
    }

    /// What the DMACR and DMASR words of the channel to the device say.
    pub fn status_h2d(&self, control: u32, status: u32) -> (text: String)
        ensures
            text@ == report_text(Channel::H2d, control, status),
    {
        report(Channel::H2d, control, status)
    }

    /// What the DMACR and DMASR words of the channel from the device say.
    pub fn status_d2h(&self, control: u32, status: u32) -> (text: String)
        ensures
            text@ == report_text(Channel::D2h, control, status),
    {
        report(Channel::D2h, control, status)
    }

    /// The number of bytes that the word loaded from S2MM_LENGTH gives.
    pub fn size_d2h(&self, length: u32) -> (bytes: usize)
        ensures
            bytes == length,
    {
        length as usize
    }

    /// Decodes the error bits of a DMASR word: the fault it reports, with
    /// the word, or none.
    pub fn check_errors(&self, status: u32) -> (r: Result<(), Error>)
        ensures
            r == match fault(status) {
                Some(e) => Err::<(), Error>(e),
                None => Ok::<(), Error>(()),
            },
    {
        check_status(status)
    }
}

/// A whole simple transfer: opened, the interrupt unmasked, programmed.
pub open spec fn start_script(channel: Channel, phys: usize, bytes: usize) -> Seq<Request> {
    start_ini(channel) + seq![Request::WriteUio { value: 1 }] + start_fini(channel, phys, bytes)
}

/// What an enqueue begins with: the descriptor at `base` loses its old
/// STATUS, a barrier makes it and its payload seen, and DMASR is loaded.
pub open spec fn enqueue_script(channel: Channel, base: usize) -> Seq<Request> {
    seq![
        Request::StoreDescriptor { base, offset: STATUS, value: 0 },
        Request::Barrier,
        Request::ReadReg { offset: channel.registers().dmasr },
    ]
}

/// What an `AxiDma` stands for.
pub struct Engine {
    pub window: Window,
    /// The requests of the operation in hand that are still to be asked,
    /// the next one first.
    pub pending: Seq<Request>,
    /// What the operation does after them.
    pub next: Then,
}

/// One engine, driven a request at a time.
///
/// Every operation returns the first `Step` of its course. The caller
/// carries out what a step asks, hands the reply to `resume` and goes on
/// with the step that comes back, until one says `Finished`. Starting an
/// operation drops whatever another had left to do; the hardware is not
/// told.
#[derive(Debug)]
pub struct AxiDma {
    dma: AxiDmaBase,
    /// The script in hand.
    queue: Vec<Request>,
    /// How many requests of it have been asked.
    asked: usize,
    next: Then,
}

impl View for AxiDma {
    type V = Engine;

    closed spec fn view(&self) -> Engine {
        Engine { window: self.dma@, pending: self.queue@.skip(self.asked as int), next: self.next }
    }
}

impl AxiDma {
    /// Whatever waits to be asked stays in bounds.
    #[verifier::type_invariant]
    spec fn pending_in_bounds(self) -> bool {
        self.asked <= self.queue@.len() && all_in_bounds(self.queue@)
    }

    /// The state in which a move has left the engine, with the step it
    /// returned.
    pub open spec fn turn(&self, step: Step) -> Turn {
        Turn { pending: self@.pending, next: self@.next, step }
    }

    /// The engine behind the UIO device `uio`, whose attribute
    /// `maps/map0/size` reads `map_size`. It has nothing in hand.
    pub fn new(uio: &str, map_size: &str) -> (r: Result<AxiDma, Error>)
        ensures
            match as_word(hex_attr(map_size@)) {
                Ok(size) => r matches Ok(engine) && engine@ == (Engine {
                    window: Window { dev: uio@, size },
                    pending: Seq::empty(),
                    next: Then::Finish,
                }),
                Err(_) => r matches Err(Error::Parse),
            },
    {
        match AxiDmaBase::new(uio, map_size) {
            Ok(dma) => {
                let engine = AxiDma { dma, queue: Vec::new(), asked: 0, next: Then::Finish };
                assert(engine@.pending =~= Seq::<Request>::empty());
                Ok(engine)
            },
            Err(_) => Err(Error::Parse),
        }
    }

    /// The register side of the engine.
    pub fn base(&self) -> (dma: &AxiDmaBase)
        ensures
            dma@ == self@.window,
    {
        &self.dma
    }

    fn begin(&mut self, script: Vec<Request>, next: Then) -> (step: Step)
        requires
            script@.len() > 0,
            all_in_bounds(script@),
        ensures
            final(self)@.window == old(self)@.window,
            final(self).turn(step) == issue(script@, next),
            step matches Step::Ask(request) && in_bounds(request),
    {
        proof {
            use_type_invariant(&*self);
        }
        let first = script[0];
        self.asked = 0;
        self.queue = script;
        self.asked = 1;
        self.next = next;
        assert(self.queue@.skip(1) =~= self.queue@.drop_first());
        Step::Ask(first)
    }

    fn start(&mut self, channel: Channel, phys: usize, bytes: usize) -> (step: Step)
        ensures
            final(self)@.window == old(self)@.window,
            final(self).turn(step) == issue(start_script(channel, phys, bytes), Then::Finish),
            step matches Step::Ask(request) && in_bounds(request),
    {
        let mut script = start_ini_requests(channel);
        script.push(Request::WriteUio { value: 1 });
        let mut fini = start_fini_requests(channel, phys, bytes);
        script.append(&mut fini);
        assert(script@ =~= start_script(channel, phys, bytes));
        proof {
            lemma_scripts_in_bounds(channel, phys, bytes, 0, Then::Finish, 0);
        }
        self.begin(script, Then::Finish)
    }

    fn enqueue(&mut self, channel: Channel, descriptor: &mut SgDescriptor) -> (step: Step)
        ensures
            final(self)@.window == old(self)@.window,
            final(descriptor)@ == (Image { status: 0, ..old(descriptor)@ }),
            final(self).turn(step) == issue(
                enqueue_script(channel, old(descriptor)@.base),
                Then::Enqueue { channel, phys: old(descriptor)@.phys },
            ),
            step matches Step::Ask(request) && in_bounds(request),
    {
        let store = descriptor.clear_status();
        let base: usize = descriptor.base_ptr();
        let mut script: Vec<Request> = Vec::new();
        script.push(Request::StoreDescriptor { base, offset: store.offset, value: store.value });
        script.push(Request::Barrier);
        script.push(Request::ReadReg { offset: channel.registers().dmasr });
        assert(script@ =~= enqueue_script(channel, base));
        proof {
            lemma_scripts_in_bounds(channel, 0, 0, base, Then::Finish, 0);
        }
        self.begin(script, Then::Enqueue { channel, phys: descriptor.phys_addr() })
    }

    fn wait_sg_complete(&mut self, channel: Channel, descriptor: &SgDescriptor) -> (step: Step)
        ensures
            final(self)@.window == old(self)@.window,
            final(self).turn(step) == issue(
                poll_script(descriptor@.base),
                Then::Completed { channel, base: descriptor@.base },
            ),
            step matches Step::Ask(request) && in_bounds(request),
    {
        let base: usize = descriptor.base_ptr();
        let mut script: Vec<Request> = Vec::new();
        script.push(Request::LoadDescriptor { base, offset: STATUS });
        assert(script@ =~= poll_script(base));
        proof {
            lemma_scripts_in_bounds(channel, 0, 0, base, Then::Finish, 0);
        }
        self.begin(script, Then::Completed { channel, base })
    }

    fn wait(&mut self) -> (step: Step)
        ensures
            final(self)@.window == old(self)@.window,
            final(self).turn(step) == issue(seq![Request::ReadUio], Then::Finish),
            step matches Step::Ask(request) && in_bounds(request),
    {
        let mut script: Vec<Request> = Vec::new();
        script.push(Request::ReadUio);
        assert(script@ =~= seq![Request::ReadUio]);
        self.begin(script, Then::Finish)
    }

    /// Sets out to move `bytes` bytes from `buff` to the device. The
    /// buffer must hold them.
    pub fn start_h2d(&mut self, buff: &DmaBuffer, bytes: usize) -> (step: Step)
        requires
            buff@.size >= bytes,
        ensures
            final(self)@.window == old(self)@.window,
            final(self).turn(step) == issue(
                start_script(Channel::H2d, buff@.phys_addr, bytes),
                Then::Finish,
            ),
            step matches Step::Ask(request) && in_bounds(request),
    {
        self.start(Channel::H2d, buff.phys_addr(), bytes)
    }

    /// Sets out to move `bytes` bytes from the device into `buff`. The
    /// buffer must have room for them.
    pub fn start_d2h(&mut self, buff: &DmaBuffer, bytes: usize) -> (step: Step)
        requires
            buff@.size >= bytes,
        ensures
            final(self)@.window == old(self)@.window,
            final(self).turn(step) == issue(
                start_script(Channel::D2h, buff@.phys_addr, bytes),
                Then::Finish,
            ),
            step matches Step::Ask(request) && in_bounds(request),
    {
        self.start(Channel::D2h, buff.phys_addr(), bytes)
    }

    /// Sets out to hand `descriptor` to the channel to the device. Its
    /// image loses its old STATUS at once.
    pub fn enqueue_sg_h2d(&mut self, descriptor: &mut SgDescriptor) -> (step: Step)
        ensures
            final(self)@.window == old(self)@.window,
            final(descriptor)@ == (Image { status: 0, ..old(descriptor)@ }),
            final(self).turn(step) == issue(
                enqueue_script(Channel::H2d, old(descriptor)@.base),
                Then::Enqueue { channel: Channel::H2d, phys: old(descriptor)@.phys },
            ),
            step matches Step::Ask(request) && in_bounds(request),
    {
        self.enqueue(Channel::H2d, descriptor)
    }

    /// Sets out to hand `descriptor` to the channel from the device. Its
    /// image loses its old STATUS at once.
    pub fn enqueue_sg_d2h(&mut self, descriptor: &mut SgDescriptor) -> (step: Step)
        ensures
            final(self)@.window == old(self)@.window,
            final(descriptor)@ == (Image { status: 0, ..old(descriptor)@ }),
            final(self).turn(step) == issue(
                enqueue_script(Channel::D2h, old(descriptor)@.base),
                Then::Enqueue { channel: Channel::D2h, phys: old(descriptor)@.phys },
            ),
            step matches Step::Ask(request) && in_bounds(request),
    {
        self.enqueue(Channel::D2h, descriptor)
    }

    /// Sets out to wait until the channel to the device is done with
    /// `descriptor`.
    pub fn wait_sg_complete_h2d(&mut self, descriptor: &SgDescriptor) -> (step: Step)
        ensures
            final(self)@.window == old(self)@.window,
            final(self).turn(step) == issue(
                poll_script(descriptor@.base),
                Then::Completed { channel: Channel::H2d, base: descriptor@.base },
            ),
            step matches Step::Ask(request) && in_bounds(request),
    {
        self.wait_sg_complete(Channel::H2d, descriptor)
    }

    /// Sets out to wait until the channel from the device is done with
    /// `descriptor`.
    pub fn wait_sg_complete_d2h(&mut self, descriptor: &SgDescriptor) -> (step: Step)
        ensures
            final(self)@.window == old(self)@.window,
            final(self).turn(step) == issue(
                poll_script(descriptor@.base),
                Then::Completed { channel: Channel::D2h, base: descriptor@.base },
            ),
            step matches Step::Ask(request) && in_bounds(request),
    {
        self.wait_sg_complete(Channel::D2h, descriptor)
    }

    /// Sets out to reset the engine, both channels of it.
    pub fn reset(&mut self) -> (step: Step)
        ensures
            final(self)@.window == old(self)@.window,
            final(self).turn(step) == issue(
                reset_script(Channel::H2d),
                Then::ResetPoll { channel: Channel::H2d },
            ),
            step matches Step::Ask(request) && in_bounds(request),
    {
        let dmacr: usize = Channel::H2d.registers().dmacr;
        let mut script: Vec<Request> = Vec::new();
        script.push(Request::WriteReg { offset: dmacr, value: DMACR_RESET });
        script.push(Request::ReadReg { offset: dmacr });
        assert(script@ =~= reset_script(Channel::H2d));
        proof {
            lemma_scripts_in_bounds(Channel::H2d, 0, 0, 0, Then::Finish, 0);
        }
        self.begin(script, Then::ResetPoll { channel: Channel::H2d })
    }

    /// Sets out to wait for the interrupt that ends a simple transfer from
    /// the device.
    pub fn wait_d2h(&mut self) -> (step: Step)
        ensures
            final(self)@.window == old(self)@.window,
            final(self).turn(step) == issue(seq![Request::ReadUio], Then::Finish),
            step matches Step::Ask(request) && in_bounds(request),
    {
        self.wait()
    }

    /// Sets out to wait for the interrupt that ends a simple transfer to
    /// the device.
    pub fn wait_h2d(&mut self) -> (step: Step)
        ensures
            final(self)@.window == old(self)@.window,
            final(self).turn(step) == issue(seq![Request::ReadUio], Then::Finish),
            step matches Step::Ask(request) && in_bounds(request),
    {
        self.wait()
    }

    /// Takes the reply to the request last asked and says how the
    /// operation goes on.
    pub fn resume(&mut self, reply: Reply) -> (step: Step)
        ensures
            final(self)@.window == old(self)@.window,
            final(self).turn(step) == advance(old(self)@.pending, old(self)@.next, reply),
            step matches Step::Ask(request) ==> in_bounds(request),
    {
        proof {
            use_type_invariant(&*self);
        }
        let word: u32 = match reply {
            Reply::Failed => {
                self.asked = 0;
                self.queue = Vec::new();
                self.next = Then::Finish;
                assert(self.queue@.skip(0) =~= Seq::<Request>::empty());
                return Step::Finished(Err(Error::Io));
            },
            Reply::Word(w) => w,
            Reply::Done => 0,
        };
        if self.asked < self.queue.len() {
            let request = self.queue[self.asked];
            let ghost before = self.queue@.skip(self.asked as int);
            self.asked = self.asked + 1;
            assert(self.queue@.skip(self.asked as int) =~= before.drop_first());
            assert(request == before[0]);
            return Step::Ask(request);
        }
        assert(self.queue@.skip(self.asked as int) =~= Seq::<Request>::empty());
        match decide(self.next, word) {
            Ok((script, next)) => self.begin(script, next),
            Err(end) => {
                self.next = Then::Finish;
                Step::Finished(end)
            },
        }
    }

    /// What the DMACR and DMASR words of the channel to the device say.
    pub fn status_h2d(&self, control: u32, status: u32) -> (text: String)
        ensures
            text@ == report_text(Channel::H2d, control, status),
    {
        self.dma.status_h2d(control, status)
    }

    /// What the DMACR and DMASR words of the channel from the device say.
    pub fn status_d2h(&self, control: u32, status: u32) -> (text: String)
        ensures
            text@ == report_text(Channel::D2h, control, status),
    {
        self.dma.status_d2h(control, status)
    }

    /// The number of bytes that the word loaded from S2MM_LENGTH gives.
    pub fn size_d2h(&self, length: u32) -> (bytes: usize)
        ensures
            bytes == length,
    {
        self.dma.size_d2h(length)
    }
}

} // verus!
