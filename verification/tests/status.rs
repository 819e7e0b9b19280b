use xilinx_dma::axi_dma::{check_status, AxiDmaBase};
use xilinx_dma::status::report;
use xilinx_dma::{Channel, Error};

#[test]
fn report_of_an_idle_register_mode_channel() {
    assert_eq!(
        report(Channel::H2d, 0x7001, 0x0001),
        "h2d control: running, ioc_irq_en, dly_irq_en, err_irq_en, \n\
         h2d status: halted, busy, register mode, \n"
    );
}

#[test]
fn report_of_a_running_scatter_gather_channel() {
    assert_eq!(
        report(Channel::D2h, 0x0001_5001, 0x0001_100a),
        "d2h control: running, ioc_irq_en, err_irq_en, \n\
         d2h status: stopped, idle, scatter gather, ioc_irq, \n"
    );
}

#[test]
fn report_of_nothing_set() {
    assert_eq!(
        report(Channel::H2d, 0, 0),
        "h2d control: stopped, \nh2d status: stopped, busy, register mode, \n"
    );
}

#[test]
fn report_of_everything_set() {
    assert_eq!(
        report(Channel::D2h, 0xffff_ffff, 0xffff_ffff),
        "d2h control: running, resetting, ioc_irq_en, dly_irq_en, err_irq_en, \n\
         d2h status: halted, idle, scatter gather, internal error, slave error, \
         decode error, sg internal error, sg slave error, sg dec error, ioc_irq, dly_irq, \
         err_irq, \n"
    );
}

#[test]
fn report_names_each_flag_alone() {
    let control = |word: u32| report(Channel::H2d, word, 0);
    assert_eq!(control(0x4).lines().next(), Some("h2d control: stopped, resetting, "));
    assert_eq!(control(0x1000).lines().next(), Some("h2d control: stopped, ioc_irq_en, "));
    assert_eq!(control(0x2000).lines().next(), Some("h2d control: stopped, dly_irq_en, "));
    assert_eq!(control(0x4000).lines().next(), Some("h2d control: stopped, err_irq_en, "));
    let status = |word: u32| report(Channel::H2d, 0, word).lines().nth(1).map(String::from);
    let head = "h2d status: stopped, busy, register mode, ";
    assert_eq!(status(0x10), Some(format!("{}internal error, ", head)));
    assert_eq!(status(0x20), Some(format!("{}slave error, ", head)));
    assert_eq!(status(0x40), Some(format!("{}decode error, ", head)));
    assert_eq!(status(0x100), Some(format!("{}sg internal error, ", head)));
    assert_eq!(status(0x200), Some(format!("{}sg slave error, ", head)));
    assert_eq!(status(0x400), Some(format!("{}sg dec error, ", head)));
    assert_eq!(status(0x1000), Some(format!("{}ioc_irq, ", head)));
    assert_eq!(status(0x2000), Some(format!("{}dly_irq, ", head)));
    assert_eq!(status(0x4000), Some(format!("{}err_irq, ", head)));
    assert_eq!(status(0x80), Some(String::from(head)));
}

#[test]
fn the_engine_reports_by_channel() {
    let base = AxiDmaBase::new("uio4", "0x10000\n").unwrap();
    assert_eq!(base.status_h2d(0x7001, 0x1), report(Channel::H2d, 0x7001, 0x1));
    assert_eq!(base.status_d2h(0x7001, 0x1), report(Channel::D2h, 0x7001, 0x1));
}

#[test]
fn no_error_bit_no_fault() {
    assert_eq!(check_status(0), Ok(()));
    assert_eq!(check_status(0x0001_100b), Ok(()));
    assert_eq!(check_status(0xffff_f88f), Ok(()));
}

#[test]
fn each_error_bit_has_its_fault() {
    assert_eq!(check_status(0x10), Err(Error::DmaInternal(0x10)));
    assert_eq!(check_status(0x20), Err(Error::DmaSlave(0x20)));
    assert_eq!(check_status(0x40), Err(Error::DmaDecode(0x40)));
    assert_eq!(check_status(0x100), Err(Error::SgInternal(0x100)));
    assert_eq!(check_status(0x200), Err(Error::SgSlave(0x200)));
    assert_eq!(check_status(0x400), Err(Error::SgDecode(0x400)));
}

#[test]
fn the_fault_carries_the_whole_word() {
    assert_eq!(check_status(0x0001_5049), Err(Error::DmaDecode(0x0001_5049)));
}

#[test]
fn faults_are_ranked() {
    assert_eq!(check_status(0x770), Err(Error::DmaInternal(0x770)));
    assert_eq!(check_status(0x760), Err(Error::DmaSlave(0x760)));
    assert_eq!(check_status(0x740), Err(Error::DmaDecode(0x740)));
    assert_eq!(check_status(0x700), Err(Error::SgInternal(0x700)));
    assert_eq!(check_status(0x600), Err(Error::SgSlave(0x600)));
    assert_eq!(check_status(0x400), Err(Error::SgDecode(0x400)));
}

#[test]
fn check_errors_is_check_status() {
    let base = AxiDmaBase::new("uio0", "0x1000").unwrap();
    for word in [0u32, 0x10, 0x40, 0x4009, 0x770, 0xffff_ffff] {
        assert_eq!(base.check_errors(word), check_status(word));
    }
}
