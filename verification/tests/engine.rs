use xilinx_dma::scatter_gather::{Store, STATUS};
use xilinx_dma::{AxiDma, DmaBuffer, Error, Reply, Request, SgDescriptor, Step};

fn write(offset: usize, value: u32) -> Request {
    Request::WriteReg { offset, value }
}

fn read(offset: usize) -> Request {
    Request::ReadReg { offset }
}

fn engine() -> AxiDma {
    AxiDma::new("uio4", "0x10000\n").unwrap()
}

/// Carries an operation through: every request goes to `device`, and the
/// requests are returned with the way the operation ended.
fn drive(
    engine: &mut AxiDma,
    first: Step,
    device: &mut dyn FnMut(Request) -> Reply,
) -> (Vec<Request>, Result<(), Error>) {
    let mut asked = Vec::new();
    let mut step = first;
    loop {
        match step {
            Step::Finished(end) => return (asked, end),
            Step::Ask(request) => {
                asked.push(request);
                step = engine.resume(device(request));
            }
        }
    }
}

/// Answers every load with the words given, in turn, and everything else
/// with `Done`.
fn scripted(words: Vec<u32>) -> impl FnMut(Request) -> Reply {
    let mut words = words.into_iter();
    move |request| match request {
        Request::ReadReg { .. } | Request::LoadDescriptor { .. } | Request::ReadUio => {
            Reply::Word(words.next().expect("a load more than was foreseen"))
        }
        _ => Reply::Done,
    }
}

#[test]
fn a_new_engine_has_nothing_in_hand() {
    let mut engine = engine();
    assert_eq!(engine.base().dev(), "uio4");
    assert_eq!(engine.base().size(), 0x10000);
    assert_eq!(engine.resume(Reply::Done), Step::Finished(Ok(())));
    assert_eq!(engine.resume(Reply::Word(7)), Step::Finished(Ok(())));
    assert_eq!(engine.resume(Reply::Failed), Step::Finished(Err(Error::Io)));
    assert_eq!(AxiDma::new("uio4", "what").err(), Some(Error::Parse));
}

#[test]
fn simple_h2d_runs_in_order() {
    let mut engine = engine();
    let buffer = DmaBuffer::new("udmabuf0", "0x3f500000", "4096", "0", "0").unwrap();
    let first = engine.start_h2d(&buffer, 512);
    let (asked, end) = drive(&mut engine, first, &mut scripted(vec![]));
    assert_eq!(end, Ok(()));
    assert_eq!(
        asked,
        vec![
            Request::Barrier,
            write(0x04, 0x7000),
            Request::WriteUio { value: 1 },
            write(0x00, 0x7001),
            write(0x18, 0x3f50_0000),
            write(0x1c, 0),
            write(0x28, 512),
        ]
    );
}

#[test]
fn simple_d2h_runs_in_order() {
    let mut engine = engine();
    let buffer = DmaBuffer::new("udmabuf1", "0x240000000", "4096", "0", "0").unwrap();
    let first = engine.start_d2h(&buffer, 4096);
    let (asked, end) = drive(&mut engine, first, &mut scripted(vec![]));
    assert_eq!(end, Ok(()));
    assert_eq!(
        asked,
        vec![
            write(0x34, 0x7000),
            Request::WriteUio { value: 1 },
            write(0x30, 0x7001),
            write(0x48, 0x4000_0000),
            write(0x4c, 0x2),
            write(0x58, 4096),
        ]
    );
}

#[test]
fn a_transfer_that_cannot_be_armed_is_not_set_off() {
    let mut engine = engine();
    let buffer = DmaBuffer::new("udmabuf0", "0x3f500000", "4096", "0", "0").unwrap();
    let first = engine.start_h2d(&buffer, 512);
    let mut device = |request| match request {
        Request::WriteUio { .. } => Reply::Failed,
        _ => Reply::Done,
    };
    let (asked, end) = drive(&mut engine, first, &mut device);
    assert_eq!(end, Err(Error::Io));
    assert_eq!(
        asked,
        vec![Request::Barrier, write(0x04, 0x7000), Request::WriteUio { value: 1 }]
    );
    assert_eq!(engine.resume(Reply::Done), Step::Finished(Ok(())));
}

#[test]
fn simple_waits_block_on_the_device_file() {
    let mut engine = engine();
    let first = engine.wait_h2d();
    assert_eq!(drive(&mut engine, first, &mut scripted(vec![3])), (vec![Request::ReadUio], Ok(())));
    let first = engine.wait_d2h();
    assert_eq!(drive(&mut engine, first, &mut scripted(vec![4])), (vec![Request::ReadUio], Ok(())));
    let first = engine.wait_d2h();
    let mut broken = |_| Reply::Failed;
    assert_eq!(drive(&mut engine, first, &mut broken), (vec![Request::ReadUio], Err(Error::Io)));
}

#[test]
fn reset_polls_until_each_channel_is_done() {
    let mut engine = engine();
    let first = engine.reset();
    let mut device = scripted(vec![0x0001_0006, 0x0001_0006, 0x0001_0002, 0x0001_0002]);
    let (asked, end) = drive(&mut engine, first, &mut device);
    assert_eq!(end, Ok(()));
    assert_eq!(
        asked,
        vec![
            write(0x00, 0x4),
            read(0x00),
            read(0x00),
            read(0x00),
            write(0x30, 0x4),
            read(0x30),
            write(0x34, 0x7000),
            write(0x04, 0x7000),
        ]
    );
}

#[test]
fn reset_goes_on_polling_while_the_bit_is_set() {
    let mut engine = engine();
    let mut step = engine.reset();
    assert_eq!(step, Step::Ask(write(0x00, 0x4)));
    step = engine.resume(Reply::Done);
    for _ in 0..1000 {
        assert_eq!(step, Step::Ask(read(0x00)));
        step = engine.resume(Reply::Word(0x4));
    }
    assert_eq!(step, Step::Ask(read(0x00)));
    assert_eq!(engine.resume(Reply::Word(0xffff_fffb)), Step::Ask(write(0x30, 0x4)));
}

#[test]
fn enqueue_clears_status_before_the_barrier() {
    let mut engine = engine();
    let mut d = SgDescriptor::from_base_ptr(0x7000, 0x4000_0040);
    d.refresh(STATUS, 0x8000_0200);
    let first = engine.enqueue_sg_h2d(&mut d);
    assert!(!d.completed());
    assert_eq!(d.transferred_bytes(), 0);
    let (asked, end) = drive(&mut engine, first, &mut scripted(vec![0x0001_0009]));
    assert_eq!(end, Ok(()));
    assert_eq!(
        asked,
        vec![
            Request::StoreDescriptor { base: 0x7000, offset: 0x1c, value: 0 },
            Request::Barrier,
            read(0x04),
            write(0x08, 0x4000_0040),
            write(0x0c, 0),
            write(0x00, 0x0001_5001),
            write(0x14, 0),
            write(0x10, 0x4000_0040),
        ]
    );
}

#[test]
fn enqueue_on_a_running_channel_writes_the_tail_only() {
    let mut engine = engine();
    let mut d = SgDescriptor::from_base_ptr(0x7040, 0x9_4000_0080);
    let first = engine.enqueue_sg_d2h(&mut d);
    let (asked, end) = drive(&mut engine, first, &mut scripted(vec![0x0001_0008]));
    assert_eq!(end, Ok(()));
    assert_eq!(
        asked,
        vec![
            Request::StoreDescriptor { base: 0x7040, offset: 0x1c, value: 0 },
            Request::Barrier,
            read(0x34),
            write(0x44, 0x9),
            write(0x40, 0x4000_0080),
        ]
    );
}

#[test]
fn enqueue_on_a_core_without_scatter_gather() {
    let mut engine = engine();
    let mut d = SgDescriptor::from_base_ptr(0x7000, 0x4000_0040);
    let first = engine.enqueue_sg_h2d(&mut d);
    let (asked, end) = drive(&mut engine, first, &mut scripted(vec![0x0001_0001]));
    assert_eq!(end, Err(Error::SgDisabled));
    assert!(asked.iter().all(|request| !matches!(request, Request::WriteReg { .. })));
    assert_eq!(asked.len(), 3);
    let first = engine.enqueue_sg_d2h(&mut d);
    let (asked, end) = drive(&mut engine, first, &mut scripted(vec![0]));
    assert_eq!(end, Err(Error::SgDisabled));
    assert!(asked.iter().all(|request| !matches!(request, Request::WriteReg { .. })));
}

#[test]
fn enqueue_on_a_faulted_channel_touches_no_register() {
    let mut engine = engine();
    let mut d = SgDescriptor::from_base_ptr(0x7000, 0x4000_0040);
    let first = engine.enqueue_sg_h2d(&mut d);
    let (asked, end) = drive(&mut engine, first, &mut scripted(vec![0x0001_4209]));
    assert_eq!(end, Err(Error::SgSlave(0x0001_4209)));
    assert!(asked.iter().all(|request| !matches!(request, Request::WriteReg { .. })));
}

#[test]
fn a_completed_descriptor_is_not_waited_for() {
    let mut engine = engine();
    let d = SgDescriptor::from_base_ptr(0x7000, 0x4000_0040);
    let first = engine.wait_sg_complete_h2d(&d);
    let (asked, end) = drive(&mut engine, first, &mut scripted(vec![0x8000_0200]));
    assert_eq!(end, Ok(()));
    assert_eq!(
        asked,
        vec![Request::LoadDescriptor { base: 0x7000, offset: 0x1c }, Request::Barrier]
    );
}

#[test]
fn a_wait_looks_again_after_each_interrupt() {
    let mut engine = engine();
    let d = SgDescriptor::from_base_ptr(0x7000, 0x4000_0040);
    let first = engine.wait_sg_complete_d2h(&d);
    let mut device = scripted(vec![0, 1, 0x0001_1008, 0x0000_0100, 2, 0x0001_1008, 0x8c00_0100]);
    let (asked, end) = drive(&mut engine, first, &mut device);
    assert_eq!(end, Ok(()));
    let load = Request::LoadDescriptor { base: 0x7000, offset: 0x1c };
    let round =
        [Request::WriteUio { value: 1 }, Request::ReadUio, read(0x34), write(0x34, 0x7000), load];
    let mut expected = vec![load];
    expected.extend(round);
    expected.extend(round);
    expected.push(Request::Barrier);
    assert_eq!(asked, expected);
}

#[test]
fn a_decode_error_ends_the_wait() {
    let mut engine = engine();
    let d = SgDescriptor::from_base_ptr(0x7000, 0x4000_0040);
    let first = engine.wait_sg_complete_d2h(&d);
    let (asked, end) = drive(&mut engine, first, &mut scripted(vec![0, 1, 0x0001_5049]));
    assert_eq!(end, Err(Error::DmaDecode(0x0001_5049)));
    match end {
        Err(Error::DmaDecode(status)) => assert_ne!(status & (1 << 6), 0),
        _ => unreachable!(),
    }
    assert_eq!(
        asked,
        vec![
            Request::LoadDescriptor { base: 0x7000, offset: 0x1c },
            Request::WriteUio { value: 1 },
            Request::ReadUio,
            read(0x34),
        ]
    );
}

#[test]
fn each_fault_ends_the_wait_with_its_error() {
    let d = SgDescriptor::from_base_ptr(0x7000, 0x4000_0040);
    let cases = [
        (0x4018u32, Error::DmaInternal(0x4018)),
        (0x4028, Error::DmaSlave(0x4028)),
        (0x4048, Error::DmaDecode(0x4048)),
        (0x4108, Error::SgInternal(0x4108)),
        (0x4208, Error::SgSlave(0x4208)),
        (0x4408, Error::SgDecode(0x4408)),
    ];
    for (status, error) in cases {
        let mut engine = engine();
        let first = engine.wait_sg_complete_h2d(&d);
        let (_, end) = drive(&mut engine, first, &mut scripted(vec![0, 1, status]));
        assert_eq!(end, Err(error));
    }
}

#[test]
fn a_wait_that_cannot_sleep_fails() {
    let mut engine = engine();
    let d = SgDescriptor::from_base_ptr(0x7000, 0x4000_0040);
    let first = engine.wait_sg_complete_h2d(&d);
    let mut device = |request| match request {
        Request::LoadDescriptor { .. } => Reply::Word(0),
        Request::ReadUio => Reply::Failed,
        _ => Reply::Done,
    };
    let (asked, end) = drive(&mut engine, first, &mut device);
    assert_eq!(end, Err(Error::Io));
    assert_eq!(asked.last(), Some(&Request::ReadUio));
}

#[test]
fn an_abandoned_wait_leaves_no_trace() {
    let mut engine = engine();
    let d = SgDescriptor::from_base_ptr(0x7000, 0x4000_0040);
    let load = Request::LoadDescriptor { base: 0x7000, offset: 0x1c };
    assert_eq!(engine.wait_sg_complete_d2h(&d), Step::Ask(load));
    assert_eq!(engine.resume(Reply::Word(0)), Step::Ask(Request::WriteUio { value: 1 }));
    assert_eq!(engine.resume(Reply::Done), Step::Ask(Request::ReadUio));
    // the waiter gives up here; the hardware goes on and completes the descriptor
    let first = engine.wait_sg_complete_d2h(&d);
    assert_eq!(first, Step::Ask(load));
    let (asked, end) = drive(&mut engine, first, &mut scripted(vec![0x8000_0040]));
    assert_eq!(end, Ok(()));
    assert_eq!(asked, vec![load, Request::Barrier]);
}

#[test]
fn a_reply_without_a_word_reads_as_zero() {
    let mut engine = engine();
    let d = SgDescriptor::from_base_ptr(0x7000, 0x4000_0040);
    engine.wait_sg_complete_h2d(&d);
    assert_eq!(engine.resume(Reply::Done), Step::Ask(Request::WriteUio { value: 1 }));
    let mut d = d;
    engine.enqueue_sg_h2d(&mut d);
    engine.resume(Reply::Done);
    engine.resume(Reply::Done);
    assert_eq!(engine.resume(Reply::Done), Step::Finished(Err(Error::SgDisabled)));
}

// A pair of engines in loopback, as far as the driver can tell them from
// the real thing: registers, descriptors in memory, a stream between the
// two and interrupts. Work is done while the driver sleeps.

const DESC_VIRT: usize = 0x7f00_0000_0000;
const DESC_PHYS: usize = 0x4000_0000;

#[derive(Default)]
struct Lane {
    dmacr: u32,
    dmasr: u32,
    currdesc: u64,
    taildesc: u64,
    cursor: u64,
    work: bool,
    resets_seen: u32,
    busy_polls: u32,
    address: u64,
    length: u32,
    started: bool,
}

impl Lane {
    fn new() -> Lane {
        Lane { dmasr: 0x0001_0009, dmacr: 0x0001_0002, ..Lane::default() }
    }

    fn write(&mut self, offset: usize, value: u32) {
        match offset {
            0x00 => {
                if value & 0x4 != 0 {
                    *self = Lane::new();
                    self.busy_polls = 2;
                    self.resets_seen += 1;
                    return;
                }
                self.dmacr = value;
                if value & 0x1 != 0 && self.dmasr & 0x1 != 0 {
                    self.dmasr &= !0x1;
                    self.cursor = self.currdesc;
                }
            }
            0x04 => self.dmasr &= !(value & 0x7000),
            0x08 => {
                assert_ne!(self.dmasr & 0x1, 0, "CURRDESC written while running");
                self.currdesc = (self.currdesc & !0xffff_ffff) | u64::from(value);
            }
            0x0c => {
                assert_ne!(self.dmasr & 0x1, 0, "CURRDESC written while running");
                self.currdesc = (self.currdesc & 0xffff_ffff) | (u64::from(value) << 32);
            }
            0x10 => {
                self.taildesc = (self.taildesc & !0xffff_ffff) | u64::from(value);
                assert_eq!(self.dmasr & 0x1, 0, "tail written to a halted channel");
                self.work = true;
            }
            0x14 => self.taildesc = (self.taildesc & 0xffff_ffff) | (u64::from(value) << 32),
            0x18 => self.address = (self.address & !0xffff_ffff) | u64::from(value),
            0x1c => self.address = (self.address & 0xffff_ffff) | (u64::from(value) << 32),
            0x28 => {
                assert_eq!(self.dmacr & 0x1, 1, "length written to a stopped channel");
                self.length = value;
                self.started = true;
            }
            _ => panic!("no register at {:#x}", offset),
        }
    }

    fn read(&mut self, offset: usize) -> u32 {
        match offset {
            0x00 => {
                if self.busy_polls > 0 {
                    self.busy_polls -= 1;
                    self.dmacr | 0x4
                } else {
                    self.dmacr
                }
            }
            0x04 => self.dmasr,
            0x28 => self.length,
            _ => panic!("no register to read at {:#x}", offset),
        }
    }
}

struct Device {
    mm2s: Lane,
    s2mm: Lane,
    unmasked: bool,
    count: u32,
}

impl Device {
    fn new() -> Device {
        Device { mm2s: Lane::new(), s2mm: Lane::new(), unmasked: false, count: 0 }
    }

    fn lane(&mut self, offset: usize) -> (&mut Lane, usize) {
        assert_eq!(offset % 4, 0);
        if offset < 0x30 {
            (&mut self.mm2s, offset)
        } else {
            // CURRDESC, TAILDESC and the rest mirror the first channel
            let local = match offset - 0x30 {
                0x18 => 0x18,
                0x1c => 0x1c,
                other => other,
            };
            (&mut self.s2mm, local)
        }
    }
}

/// A packet on the stream: the counter its first word holds and its length.
#[derive(Clone, Copy, Debug, PartialEq)]
struct Packet {
    first: u32,
    bytes: u32,
}

struct Rig {
    h2d: Device,
    d2h: Device,
    descriptors: Vec<u32>,
    /// What each buffer holds, by physical address.
    buffers: Vec<(usize, Packet)>,
    stream: Vec<Packet>,
}

#[derive(Clone, Copy, PartialEq)]
enum Side {
    H2d,
    D2h,
}

impl Rig {
    fn new() -> Rig {
        Rig {
            h2d: Device::new(),
            d2h: Device::new(),
            descriptors: vec![0xdead_beef; 4 * 16],
            buffers: Vec::new(),
            stream: Vec::new(),
        }
    }

    fn word(&mut self, base: usize, offset: usize) -> &mut u32 {
        &mut self.descriptors[(base - DESC_VIRT + offset) / 4]
    }

    fn phys_word(&mut self, phys: u64, offset: usize) -> &mut u32 {
        &mut self.descriptors[(phys as usize - DESC_PHYS + offset) / 4]
    }

    fn store(&mut self, descriptor: &SgDescriptor, store: Store) {
        *self.word(descriptor.base_ptr(), store.offset) = store.value;
    }

    fn fill(&mut self, phys: usize, packet: Packet) {
        self.buffers.retain(|(at, _)| *at != phys);
        self.buffers.push((phys, packet));
    }

    fn held(&self, phys: usize) -> Packet {
        self.buffers.iter().find(|(at, _)| *at == phys).expect("an empty buffer").1
    }

    /// The sender works off one descriptor, if it has one.
    fn send(&mut self) -> bool {
        if !self.h2d.mm2s.work {
            return false;
        }
        let at = self.h2d.mm2s.cursor;
        let status = *self.phys_word(at, 0x1c);
        assert_eq!(status & 0x8000_0000, 0, "a stale descriptor was fetched");
        let control = *self.phys_word(at, 0x18);
        assert_eq!(control & 0x0c00_0000, 0x0c00_0000, "a packet needs SOF and EOF");
        let bytes = control & 0x3ff_ffff;
        let buffer = *self.phys_word(at, 0x08) as usize | (*self.phys_word(at, 0x0c) as usize) << 32;
        let packet = self.held(buffer);
        assert!(bytes <= packet.bytes);
        self.stream.push(Packet { first: packet.first, bytes });
        *self.phys_word(at, 0x1c) = 0x8000_0000 | bytes;
        let next = u64::from(*self.phys_word(at, 0x00)) | u64::from(*self.phys_word(at, 0x04)) << 32;
        let lane = &mut self.h2d.mm2s;
        lane.cursor = next;
        lane.work = at != lane.taildesc;
        lane.dmasr |= 0x1000;
        if !lane.work {
            lane.dmasr |= 0x2;
        }
        self.h2d.count += 1;
        true
    }

    /// The receiver fills one descriptor, if it has one and a packet waits.
    fn receive(&mut self) -> bool {
        if !self.d2h.s2mm.work || self.stream.is_empty() {
            return false;
        }
        let at = self.d2h.s2mm.cursor;
        let status = *self.phys_word(at, 0x1c);
        assert_eq!(status & 0x8000_0000, 0, "a stale descriptor was fetched");
        let room = *self.phys_word(at, 0x18) & 0x3ff_ffff;
        let packet = self.stream.remove(0);
        assert!(packet.bytes <= room);
        let buffer = *self.phys_word(at, 0x08) as usize | (*self.phys_word(at, 0x0c) as usize) << 32;
        self.fill(buffer, packet);
        *self.phys_word(at, 0x1c) = 0x8c00_0000 | packet.bytes;
        let next = u64::from(*self.phys_word(at, 0x00)) | u64::from(*self.phys_word(at, 0x04)) << 32;
        let lane = &mut self.d2h.s2mm;
        lane.cursor = next;
        lane.work = at != lane.taildesc;
        lane.dmasr |= 0x1000;
        if !lane.work {
            lane.dmasr |= 0x2;
        }
        self.d2h.count += 1;
        true
    }

    fn perform(&mut self, side: Side, request: Request) -> Reply {
        match request {
            Request::Barrier => Reply::Done,
            Request::WriteReg { offset, value } => {
                let device = if side == Side::H2d { &mut self.h2d } else { &mut self.d2h };
                let (lane, local) = device.lane(offset);
                lane.write(local, value);
                Reply::Done
            }
            Request::ReadReg { offset } => {
                let device = if side == Side::H2d { &mut self.h2d } else { &mut self.d2h };
                let (lane, local) = device.lane(offset);
                Reply::Word(lane.read(local))
            }
            Request::StoreDescriptor { base, offset, value } => {
                *self.word(base, offset) = value;
                Reply::Done
            }
            Request::LoadDescriptor { base, offset } => Reply::Word(*self.word(base, offset)),
            Request::WriteUio { value } => {
                assert_eq!(value, 1);
                let device = if side == Side::H2d { &mut self.h2d } else { &mut self.d2h };
                device.unmasked = true;
                Reply::Done
            }
            Request::ReadUio => {
                // time passes while the driver sleeps
                let woken = match side {
                    Side::H2d => self.send(),
                    Side::D2h => {
                        while self.send() {}
                        self.receive()
                    }
                };
                let device = if side == Side::H2d { &mut self.h2d } else { &mut self.d2h };
                assert!(device.unmasked, "asleep with the interrupt masked");
                assert!(woken, "asleep for ever");
                device.unmasked = false;
                Reply::Word(device.count)
            }
        }
    }

    fn run(&mut self, side: Side, engine: &mut AxiDma, first: Step) -> Result<(), Error> {
        let mut step = first;
        loop {
            match step {
                Step::Finished(end) => return end,
                Step::Ask(request) => step = engine.resume(self.perform(side, request)),
            }
        }
    }
}

#[test]
fn reset_converges() {
    let mut rig = Rig::new();
    let mut engine = engine();
    rig.h2d.mm2s.dmasr = 0x0001_5048;
    rig.h2d.s2mm.dmasr = 0x0001_7008;
    let first = engine.reset();
    assert_eq!(rig.run(Side::H2d, &mut engine, first), Ok(()));
    for lane in [&mut rig.h2d.mm2s, &mut rig.h2d.s2mm] {
        assert_eq!(lane.resets_seen, 1);
        assert_eq!(lane.busy_polls, 0);
        assert_eq!(lane.read(0x00) & 0x4, 0);
        assert_eq!(lane.read(0x04) & 0x1, 0x1);
        assert_eq!(lane.read(0x04) & 0x7770, 0);
    }
}

#[test]
fn sg_ping_pong() {
    const BUFFER: usize = 8 * 1024 * 1024;
    const TOTAL: u64 = 1_000_000_000;
    let mut rig = Rig::new();
    let mut h2d_dma = AxiDma::new("uio0", "0x10000").unwrap();
    let mut d2h_dma = AxiDma::new("uio1", "0x10000").unwrap();
    let size = format!("{}", BUFFER);
    let buffers = [
        DmaBuffer::new("udmabuf_h2d0", "0x50000000", &size, "0", "0").unwrap(),
        DmaBuffer::new("udmabuf_h2d1", "0x50800000", &size, "0", "0").unwrap(),
        DmaBuffer::new("udmabuf_d2h0", "0x51000000", &size, "0", "0").unwrap(),
        DmaBuffer::new("udmabuf_d2h1", "0x51800000", &size, "0", "0").unwrap(),
    ];
    let mut descriptors: Vec<SgDescriptor> = (0..4)
        .map(|j| SgDescriptor::from_base_ptr(DESC_VIRT + j * 64, DESC_PHYS + j * 64))
        .collect();
    for (j, peer) in [(0usize, 1usize), (1, 0), (2, 3), (3, 2)] {
        let next = descriptors[peer].phys_addr();
        let d = &mut descriptors[j];
        let (low, high) = d.set_next_descriptor(next);
        rig.store(d, low);
        rig.store(d, high);
        let (low, high) = d.set_buffer_address(buffers[j].phys_addr());
        rig.store(d, low);
        rig.store(d, high);
        let store = d.set_buffer_length(buffers[j].size() as u32);
        rig.store(d, store);
    }
    for d in &mut descriptors[..2] {
        let store = d.set_sof(true);
        rig.store(d, store);
        let store = d.set_eof(true);
        rig.store(d, store);
        let store = d.clear_status();
        rig.store(d, store);
        let store = d.set_completed(true);
        rig.store(d, store);
    }
    let (sending, receiving) = descriptors.split_at_mut(2);

    let first = d2h_dma.reset();
    rig.run(Side::D2h, &mut d2h_dma, first).unwrap();
    for d in receiving.iter_mut() {
        let first = d2h_dma.enqueue_sg_d2h(d);
        rig.run(Side::D2h, &mut d2h_dma, first).unwrap();
    }
    let first = h2d_dma.reset();
    rig.run(Side::H2d, &mut h2d_dma, first).unwrap();

    let mut generator: u32 = 0;
    let mut consumer: u32 = 0;
    let mut to_send = TOTAL;
    let mut to_receive = TOTAL;
    let mut received: u64 = 0;
    let mut turn = 0;
    while to_receive > 0 {
        let current = turn % 2;
        if to_send > 0 {
            let d = &mut sending[current];
            let first = h2d_dma.wait_sg_complete_h2d(d);
            rig.run(Side::H2d, &mut h2d_dma, first).unwrap();
            rig.fill(buffers[current].phys_addr(), Packet { first: generator, bytes: BUFFER as u32 });
            generator = generator.wrapping_add((BUFFER / 4) as u32);
            if to_send < BUFFER as u64 {
                let store = d.set_buffer_length(to_send as u32);
                rig.store(d, store);
                to_send = 0;
            } else {
                to_send -= BUFFER as u64;
            }
            let first = h2d_dma.enqueue_sg_h2d(d);
            rig.run(Side::H2d, &mut h2d_dma, first).unwrap();
        }
        let d = &mut receiving[current];
        let first = d2h_dma.wait_sg_complete_d2h(d);
        rig.run(Side::D2h, &mut d2h_dma, first).unwrap();
        let status = *rig.word(d.base_ptr(), STATUS);
        d.refresh(STATUS, status);
        assert!(d.completed());
        assert!(d.status_rxsof() && d.status_rxeof());
        let bytes = d.transferred_bytes();
        assert_eq!(bytes % 4, 0);
        let packet = rig.held(buffers[2 + current].phys_addr());
        assert_eq!(packet, Packet { first: consumer, bytes });
        consumer = consumer.wrapping_add(bytes / 4);
        received += u64::from(bytes);
        to_receive -= u64::from(bytes);
        if to_receive > 0 {
            let first = d2h_dma.enqueue_sg_d2h(d);
            rig.run(Side::D2h, &mut d2h_dma, first).unwrap();
        }
        turn += 1;
    }
    for d in sending.iter() {
        let first = h2d_dma.wait_sg_complete_h2d(d);
        rig.run(Side::H2d, &mut h2d_dma, first).unwrap();
    }
    assert_eq!(received, 1_000_000_000);
    assert_eq!(consumer, 250_000_000);
    assert_eq!(turn, 120);
    assert!(rig.stream.is_empty());
    // both senders are free again; the receiver that took the last packet is
    // done, the other is still with the engine
    let status = |rig: &mut Rig, j: usize| *rig.phys_word((DESC_PHYS + 64 * j) as u64, 0x1c);
    assert_eq!(status(&mut rig, 0) & 0x8000_0000, 0x8000_0000);
    assert_eq!(status(&mut rig, 1) & 0x8000_0000, 0x8000_0000);
    assert_eq!(status(&mut rig, 2), 0);
    assert_eq!(status(&mut rig, 3), 0x8c00_0000 | (1_000_000_000 % (8 * 1024 * 1024)) as u32);
}

#[test]
fn simple_loopback() {
    let mut rig = Rig::new();
    let mut dma_h2d = AxiDma::new("uio4", "0x10000").unwrap();
    let mut dma_d2h = AxiDma::new("uio5", "0x10000").unwrap();
    let h2d = DmaBuffer::new("udmabuf0", "0x50000000", "4096", "0", "0").unwrap();
    let d2h = DmaBuffer::new("udmabuf1", "0x50001000", "4096", "0", "0").unwrap();
    let sent: Vec<u32> = (0..128).map(|i| i + 17).collect();
    let mut got: Vec<u32> = vec![0; 128];

    let first = dma_h2d.start_h2d(&h2d, 512);
    rig.run(Side::H2d, &mut dma_h2d, first).unwrap();
    let first = dma_d2h.start_d2h(&d2h, 512);
    rig.run(Side::D2h, &mut dma_d2h, first).unwrap();

    // the fabric: what leaves the first buffer arrives in the second, 123 more
    let source = &rig.h2d.mm2s;
    let sink = &rig.d2h.s2mm;
    assert!(source.started && sink.started);
    assert_eq!((source.address, source.length), (0x5000_0000, 512));
    assert_eq!((sink.address, sink.length), (0x5000_1000, 512));
    assert_eq!(source.dmacr, 0x7001);
    assert_eq!(sink.dmacr, 0x7001);
    assert!(rig.h2d.unmasked && rig.d2h.unmasked);
    for i in 0..(sink.length as usize / 4) {
        got[i] = sent[i] + 123;
    }

    let first = dma_h2d.wait_h2d();
    assert_eq!(first, Step::Ask(Request::ReadUio));
    assert_eq!(dma_h2d.resume(Reply::Word(1)), Step::Finished(Ok(())));
    let first = dma_d2h.wait_d2h();
    assert_eq!(first, Step::Ask(Request::ReadUio));
    assert_eq!(dma_d2h.resume(Reply::Word(1)), Step::Finished(Ok(())));
    for i in 0..128 {
        assert_eq!(got[i], sent[i] + 123);
    }
    assert_eq!(dma_d2h.size_d2h(rig.d2h.s2mm.read(0x28)), 512);
}

#[test]
fn every_request_stays_in_bounds() {
    let in_bounds = |request: &Request| match *request {
        Request::WriteReg { offset, .. } | Request::ReadReg { offset } => {
            offset % 4 == 0 && offset + 4 <= 0x5c
        }
        Request::StoreDescriptor { offset, .. } | Request::LoadDescriptor { offset, .. } => {
            offset % 4 == 0 && offset + 4 <= 64
        }
        _ => true,
    };
    let buffer = DmaBuffer::new("b", "0xffffffffffffffff", "4096", "0", "0").unwrap();
    let mut d = SgDescriptor::from_base_ptr(usize::MAX - 63, usize::MAX - 63);
    let mut engine = engine();
    let mut all = Vec::new();
    let first = engine.start_h2d(&buffer, 4096);
    all.extend(drive(&mut engine, first, &mut scripted(vec![])).0);
    let first = engine.start_d2h(&buffer, 4096);
    all.extend(drive(&mut engine, first, &mut scripted(vec![])).0);
    let first = engine.reset();
    all.extend(drive(&mut engine, first, &mut scripted(vec![4, 0, 4, 0])).0);
    let first = engine.enqueue_sg_h2d(&mut d);
    all.extend(drive(&mut engine, first, &mut scripted(vec![0x9])).0);
    let first = engine.enqueue_sg_d2h(&mut d);
    all.extend(drive(&mut engine, first, &mut scripted(vec![0x8])).0);
    let first = engine.wait_sg_complete_h2d(&d);
    all.extend(drive(&mut engine, first, &mut scripted(vec![0, 1, 0x1008, 0x8000_0000])).0);
    let first = engine.wait_sg_complete_d2h(&d);
    all.extend(drive(&mut engine, first, &mut scripted(vec![0, 1, 0x1008, 0x8000_0000])).0);
    assert_eq!(all.len(), 7 + 6 + 8 + 8 + 5 + 7 + 7);
    assert!(all.iter().all(in_bounds));
}
