//! Texts of the choices that the editors offer.
use vstd::prelude::*;
use crate::model::values::{IntrClear, IntrKind, SwKind, SwKindView, Trigger};

verus! {

/// The text of a kind of software access. The two pulses have texts of their own.
pub open spec fn sw_kind_text(k: SwKindView) -> Seq<char> {
    match k {
        SwKindView::ReadWrite => "RW"@,
        SwKindView::ReadOnly => "RO"@,
        SwKindView::WriteOnly => "WO"@,
        SwKindView::ReadClr => "RCLR"@,
        SwKindView::W1Clr => "W1CLR"@,
        SwKindView::W0Clr => "W0CLR"@,
        SwKindView::W1Set => "W1SET"@,
        SwKindView::W1Tgl => "W1TGL"@,
        SwKindView::W1Pulse(true, _) => "PULSEREG"@,
        SwKindView::W1Pulse(false, _) => "PULSE"@,
        SwKindView::Password(_) => "Password"@,
    }
}

/// The kinds of software access that can be picked: those without settings, and the two pulses.
pub open spec fn sw_kinds() -> Seq<SwKindView> {
    seq![
        SwKindView::ReadWrite,
        SwKindView::ReadOnly,
        SwKindView::WriteOnly,
        SwKindView::ReadClr,
        SwKindView::W1Clr,
        SwKindView::W0Clr,
        SwKindView::W1Set,
        SwKindView::W1Tgl,
        SwKindView::W1Pulse(false, false),
        SwKindView::W1Pulse(true, false),
    ]
}

/// The kinds of software access that can be picked, with their texts.
pub fn sw_kind_choices() -> (r: [(SwKind, &'static str); 10])
    ensures
        forall|i: int|
            0 <= i < 10 ==> (#[trigger] r[i]).0@ == sw_kinds()[i] && r[i].1@ == sw_kind_text(
                sw_kinds()[i],
            ),
{
    [
        (SwKind::ReadWrite, "RW"),
        (SwKind::ReadOnly, "RO"),
        (SwKind::WriteOnly, "WO"),
        (SwKind::ReadClr, "RCLR"),
        (SwKind::W1Clr, "W1CLR"),
        (SwKind::W0Clr, "W0CLR"),
        (SwKind::W1Set, "W1SET"),
        (SwKind::W1Tgl, "W1TGL"),
        (SwKind::W1Pulse(false, false), "PULSE"),
        (SwKind::W1Pulse(true, false), "PULSEREG"),
    ]
}

/// The text of a kind of software access.
pub fn sw_kind_label(kind: &SwKind) -> (r: &'static str)
    ensures
        r@ == sw_kind_text(kind@),
{
    match kind {
        SwKind::ReadWrite => "RW",
        SwKind::ReadOnly => "RO",
        SwKind::WriteOnly => "WO",
        SwKind::ReadClr => "RCLR",
        SwKind::W1Clr => "W1CLR",
        SwKind::W0Clr => "W0CLR",
        SwKind::W1Set => "W1SET",
        SwKind::W1Tgl => "W1TGL",
        SwKind::W1Pulse(true, _) => "PULSEREG",
        SwKind::W1Pulse(false, _) => "PULSE",
        SwKind::Password(_) => "Password",
    }
}

/// The text of an interrupt trigger.
pub fn intr_trigger_label(t: Trigger) -> (r: &'static str)
    ensures
        r@ == (match t {
            Trigger::High => "High"@,
            Trigger::Low => "Low"@,
            Trigger::Rising => "Rising"@,
            Trigger::Falling => "Falling"@,
            Trigger::Edge => "Edge"@,
        }),
{
    match t {
        Trigger::High => "High",
        Trigger::Low => "Low",
        Trigger::Rising => "Rising",
        Trigger::Falling => "Falling",
        Trigger::Edge => "Edge",
    }
}

/// The text of what clears an interrupt.
pub fn intr_clear_label(c: IntrClear) -> (r: &'static str)
    ensures
        r@ == (match c {
            IntrClear::Read => "Read (rclr)"@,
            IntrClear::Write0 => "Write 0 (w0clr)"@,
            IntrClear::Write1 => "Write 1 (w1clr)"@,
            IntrClear::Hw => "Hardware (hwclr)"@,
        }),
{
    match c {
        IntrClear::Read => "Read (rclr)",
        IntrClear::Write0 => "Write 0 (w0clr)",
        IntrClear::Write1 => "Write 1 (w1clr)",
        IntrClear::Hw => "Hardware (hwclr)",
    }
}

/// The text of a register derived from an interrupt; empty for the others.
pub fn intr_kind_label(kind: IntrKind) -> (r: &'static str)
    ensures
        r@ == (match kind {
            IntrKind::Enable => "enable"@,
            IntrKind::Mask => "mask"@,
            IntrKind::Pending => "pending"@,
            _ => ""@,
        }),
{
    match kind {
        IntrKind::Enable => "enable",
        IntrKind::Mask => "mask",
        IntrKind::Pending => "pending",
        _ => "",
    }
}

} // verus!
