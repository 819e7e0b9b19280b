use vstd::prelude::*;
use vstd::string::*;
use crate::regs::Channel;

verus! {

/// `text` where `word` has a bit of `mask` set, nothing otherwise.
pub open spec fn when_set(word: u32, mask: u32, text: Seq<char>) -> Seq<char> {
    if word & mask != 0 {
        text
    } else {
        Seq::empty()
    }
}

/// `set` where `word` has a bit of `mask` set, `clear` otherwise.
pub open spec fn either(word: u32, mask: u32, set: Seq<char>, clear: Seq<char>) -> Seq<char> {
    if word & mask != 0 {
        set
    } else {
        clear
    }
}

/// The name a channel goes by in a report.
pub open spec fn channel_name(channel: Channel) -> Seq<char> {
    match channel {
        Channel::H2d => "h2d"@,
        Channel::D2h => "d2h"@,
    }
}

/// The two lines of a report, each closed by a line feed. The first gives
/// the channel's DMACR flags: run or stop, reset in progress and the three
/// interrupt enables. The second gives its DMASR flags: halted, idle or
/// busy, the mode, the six faults and the three latched interrupts. Every
/// flag is followed by a comma and a space.
pub open spec fn report_text(channel: Channel, control: u32, status: u32) -> Seq<char> {
    channel_name(channel) + " control: "@
        + either(control, 0x1, "running, "@, "stopped, "@)
        + when_set(control, 0x4, "resetting, "@)
        + when_set(control, 0x1000, "ioc_irq_en, "@)
        + when_set(control, 0x2000, "dly_irq_en, "@)
        + when_set(control, 0x4000, "err_irq_en, "@)
        + "\n"@
        + channel_name(channel) + " status: "@
        + either(status, 0x1, "halted, "@, "stopped, "@)
        + either(status, 0x2, "idle, "@, "busy, "@)
        + either(status, 0x8, "scatter gather, "@, "register mode, "@)
        + when_set(status, 0x10, "internal error, "@)
        + when_set(status, 0x20, "slave error, "@)
        + when_set(status, 0x40, "decode error, "@)
        + when_set(status, 0x100, "sg internal error, "@)
        + when_set(status, 0x200, "sg slave error, "@)
        + when_set(status, 0x400, "sg dec error, "@)
        + when_set(status, 0x1000, "ioc_irq, "@)
        + when_set(status, 0x2000, "dly_irq, "@)
        + when_set(status, 0x4000, "err_irq, "@)
        + "\n"@
}

fn push_when_set(out: &mut String, word: u32, mask: u32, text: &str)
    ensures
        final(out)@ == old(out)@ + when_set(word, mask, text@),
{
    if word & mask != 0 {
        out.append(text);
    } else {
        assert(out@ + Seq::<char>::empty() =~= out@);
    }
}

fn push_either(out: &mut String, word: u32, mask: u32, set: &str, clear: &str)
    ensures
        final(out)@ == old(out)@ + either(word, mask, set@, clear@),
{
    if word & mask != 0 {
        out.append(set);
    } else {
        out.append(clear);
    }
}

/// Writes out what the DMACR and DMASR words of a channel say.
pub fn report(channel: Channel, control: u32, status: u32) -> (text: String)
    ensures
        text@ == report_text(channel, control, status),
{
    let name: &str = match channel {
        Channel::H2d => "h2d",
        Channel::D2h => "d2h",
    };
    let mut out: String = String::from_str(name);
    out.append(" control: ");
    push_either(&mut out, control, 0x1, "running, ", "stopped, ");
    push_when_set(&mut out, control, 0x4, "resetting, ");
    push_when_set(&mut out, control, 0x1000, "ioc_irq_en, ");
    push_when_set(&mut out, control, 0x2000, "dly_irq_en, ");
    push_when_set(&mut out, control, 0x4000, "err_irq_en, ");
    out.append("\n");
    out.append(name);
    out.append(" status: ");
    push_either(&mut out, status, 0x1, "halted, ", "stopped, ");
    push_either(&mut out, status, 0x2, "idle, ", "busy, ");
    push_either(&mut out, status, 0x8, "scatter gather, ", "register mode, ");
    push_when_set(&mut out, status, 0x10, "internal error, ");
    push_when_set(&mut out, status, 0x20, "slave error, ");
    push_when_set(&mut out, status, 0x40, "decode error, ");
    push_when_set(&mut out, status, 0x100, "sg internal error, ");
    push_when_set(&mut out, status, 0x200, "sg slave error, ");
    push_when_set(&mut out, status, 0x400, "sg dec error, ");
    push_when_set(&mut out, status, 0x1000, "ioc_irq, ");
    push_when_set(&mut out, status, 0x2000, "dly_irq, ");
    push_when_set(&mut out, status, 0x4000, "err_irq, ");
    out.append("\n");
    out
}

} // verus!
