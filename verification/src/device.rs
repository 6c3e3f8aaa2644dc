//! Registration of the synthetic output device: the ordered steps that the
//! kernel asks for, and the identity that the device is given.

use vstd::prelude::*;
use crate::codec::{build_device_descriptor, descriptor_bytes, DESCRIPTOR_LEN};
use crate::keys::{EV_KEY, EV_SYN, KEY_MAX};

verus! {

/// Bus number of a USB device.
pub const BUS_USB: u16 = 3;

/// One step of registering the synthetic device.
#[derive(Clone, Copy, Debug, PartialEq, Eq, Structural)]
pub enum SetupStep {
    /// Declare that the device emits records of an event class.
    SetEventBit(u16),
    /// Declare that the device can emit a key code.
    SetKeyBit(u16),
    /// Write the registration record.
    WriteDescriptor,
    /// Ask the kernel to create the device.
    CreateDevice,
}

/// The registration steps in the order the kernel requires: the
/// synchronization and key classes, every key code from 0 to the largest one
/// in rising order, the registration record, the creation.
pub open spec fn setup_plan() -> Seq<SetupStep> {
    seq![SetupStep::SetEventBit(EV_SYN), SetupStep::SetEventBit(EV_KEY)] + Seq::new(
        KEY_MAX as nat + 1,
        |k: int| SetupStep::SetKeyBit(k as u16),
    ) + seq![SetupStep::WriteDescriptor, SetupStep::CreateDevice]
}

/// The name of the synthetic device, in ASCII.
pub open spec fn device_name() -> Seq<u8> {
    seq![107u8, 101u8, 121u8, 99u8, 102u8]
}

/// `uinput_sys::EV_SYN`: the number of the synchronization event class,
/// which is 0.
#[verifier::external_body]
fn sync_class() -> (class: u16)
    ensures
        class == EV_SYN,
{
    uinput_sys::EV_SYN as u16
}

/// `uinput_sys::EV_KEY`: the number of the key event class, which is 1.
#[verifier::external_body]
fn key_class() -> (class: u16)
    ensures
        class == EV_KEY,
{
    uinput_sys::EV_KEY as u16
}

/// `uinput_sys::KEY_MAX`: the largest key code, which is 0x2ff.
#[verifier::external_body]
fn key_max() -> (code: u16)
    ensures
        code == KEY_MAX,
{
    uinput_sys::KEY_MAX as u16
}

/// Lists the steps that register the synthetic device, in the order in which
/// they must be performed.
pub fn init_output_device() -> (steps: Vec<SetupStep>)
    ensures
        steps@ == setup_plan(),
{
    let mut steps: Vec<SetupStep> = Vec::new();
    steps.push(SetupStep::SetEventBit(sync_class()));
    steps.push(SetupStep::SetEventBit(key_class()));
    let top = key_max();
    let mut key: u16 = 0;
    while key <= top
        invariant
            key <= top + 1,
            top == KEY_MAX,
            steps@.len() == 2 + key,
            steps@[0] == SetupStep::SetEventBit(EV_SYN),
            steps@[1] == SetupStep::SetEventBit(EV_KEY),
            forall|j: int| 2 <= j < 2 + key ==> steps@[j] == SetupStep::SetKeyBit((j - 2) as u16),
        decreases top + 1 - key,
    {
        steps.push(SetupStep::SetKeyBit(key));
        key = key + 1;
    }
    steps.push(SetupStep::WriteDescriptor);
    steps.push(SetupStep::CreateDevice);
    assert(steps@ =~= setup_plan());
    steps
}

/// Builds the registration record of the synthetic device: a USB keyboard
/// named "keycf" with vendor, product and version 1.
pub fn output_device_descriptor() -> (bytes: Vec<u8>)
    ensures
        bytes@ == descriptor_bytes(device_name(), BUS_USB, 1, 1, 1),
        bytes@.len() == DESCRIPTOR_LEN,
{
    let mut name: Vec<u8> = Vec::new();
    name.push(107u8);
    name.push(101u8);
    name.push(121u8);
    name.push(99u8);
    name.push(102u8);
    assert(name@ =~= device_name());
    build_device_descriptor(name.as_slice(), BUS_USB, 1, 1, 1)
}

/// Decides what follows the attempt to open and grab the keyboard: the
/// registration steps if both succeeded, and nothing at all if either failed,
/// so that no synthetic device is registered for a keyboard that is not held
/// exclusively.
pub fn startup_plan(opened: bool, grabbed: bool) -> (steps: Option<Vec<SetupStep>>)
    ensures
        steps.is_some() <==> opened && grabbed,
        steps.is_some() ==> steps.unwrap()@ == setup_plan(),
{
    if opened && grabbed {
        Some(init_output_device())
    } else {
        None
    }
}

} // verus!
