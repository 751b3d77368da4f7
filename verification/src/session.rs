//! Per-connection protocol session state: lifecycle phases, seat
//! capabilities, emulated devices and the bind-time keymap ordering.
//!
//! A session walks `Connecting -> Handshaking -> Active -> Closed` and never
//! moves backwards. Devices are created by a peer's bind request; a device
//! bound with keyboard capability must have the keymap payload attached
//! before it is announced as resumed, which is what `spec_bind_actions`
//! prescribes and the ordering law below proves.

use vstd::prelude::*;

verus! {

/// Capability bit for a keyboard device. Bit positions follow the seat
/// capability order keyboard, pointer, pointer-absolute, button, scroll,
/// touch, one bit per capability.
pub const CAP_KEYBOARD: u32 = 0x01;

/// Capability bit for a relative pointer.
pub const CAP_POINTER: u32 = 0x02;

/// Capability bit for an absolute pointer.
pub const CAP_POINTER_ABSOLUTE: u32 = 0x04;

/// Capability bit for buttons.
pub const CAP_BUTTON: u32 = 0x08;

/// Capability bit for scroll axes.
pub const CAP_SCROLL: u32 = 0x10;

/// Capability bit for touch.
pub const CAP_TOUCH: u32 = 0x20;

/// Every capability the host supports; announced on each new seat.
pub const CAP_ALL: u32 = 0x3F;

/// Whether a capability mask includes a given capability bit.
pub open spec fn spec_has_cap(mask: u32, cap: u32) -> bool {
    mask & cap != 0
}

pub fn has_cap(mask: u32, cap: u32) -> (r: bool)
    ensures
        r == spec_has_cap(mask, cap),
{
    mask & cap != 0
}

/// Lifecycle of one accepted connection.
#[derive(Clone, Copy, Debug, PartialEq, Eq)]
pub enum SessionPhase {
    /// Socket accepted, no protocol bytes exchanged yet.
    Connecting,
    /// Version and name exchange in progress.
    Handshaking,
    /// Seat announced, request loop running.
    Active,
    /// Terminal: resources released, admission returned.
    Closed,
}

/// One emulated device bound to the session's seat.
#[derive(Clone, Copy, Debug, PartialEq, Eq)]
pub struct DeviceRecord {
    /// Capability subset declared by the peer at bind time.
    pub caps: u32,
    /// Whether the keymap payload was attached before the device resumed.
    pub keymap_attached: bool,
}

impl DeviceRecord {
    /// A keymap is only ever attached to a device bound with keyboard
    /// capability.
    pub open spec fn wf(&self) -> bool {
        self.keymap_attached ==> spec_has_cap(self.caps, CAP_KEYBOARD)
    }
}

/// One accepted connection's protocol state.
#[derive(Debug)]
pub struct Session {
    pub id: u64,
    pub phase: SessionPhase,
    pub devices: Vec<DeviceRecord>,
}

impl Session {
    pub open spec fn wf(&self) -> bool {
        forall|k: int| 0 <= k < self.devices@.len() ==> (#[trigger] self.devices@[k]).wf()
    }
}

/// Outgoing work a bind request produces, in the order the embedder must
/// perform it on the wire.
#[derive(Clone, Copy, Debug, PartialEq, Eq)]
pub enum BindAction {
    /// Transfer the keymap payload of this many bytes to the device.
    AttachKeymap { size: u32 },
    /// Announce the device as resumed (ready for use).
    ResumeDevice,
}

/// The wire work owed for a bind: when the peer asked for keyboard
/// capability and a keymap payload exists, its transfer comes strictly
/// before the resume announcement; the device is resumed in every case.
pub open spec fn spec_bind_actions(caps: u32, keymap_size: Option<u32>) -> Seq<BindAction> {
    match keymap_size {
        Some(size) => if spec_has_cap(caps, CAP_KEYBOARD) {
            seq![BindAction::AttachKeymap { size }, BindAction::ResumeDevice]
        } else {
            seq![BindAction::ResumeDevice]
        },
        None => seq![BindAction::ResumeDevice],
    }
}

/// Law: in every bind plan the keymap transfer is observed strictly before
/// the device's resume announcement, and the plan always ends by resuming
/// the device.
pub proof fn lemma_keymap_precedes_resume(caps: u32, keymap_size: Option<u32>)
    ensures
        forall|i: int, j: int|
            {
                &&& 0 <= i < spec_bind_actions(caps, keymap_size).len()
                &&& 0 <= j < spec_bind_actions(caps, keymap_size).len()
                &&& (#[trigger] spec_bind_actions(caps, keymap_size)[i]) matches
                    BindAction::AttachKeymap { .. }
                &&& (#[trigger] spec_bind_actions(caps, keymap_size)[j])
                    == BindAction::ResumeDevice
            } ==> i < j,
        spec_bind_actions(caps, keymap_size).last() == BindAction::ResumeDevice,
        spec_bind_actions(caps, keymap_size).len() >= 1,
{
    let plan = spec_bind_actions(caps, keymap_size);
    if keymap_size is Some && spec_has_cap(caps, CAP_KEYBOARD) {
        assert(plan.len() == 2);
        assert(plan[1] == BindAction::ResumeDevice);
        assert(plan[0] matches BindAction::AttachKeymap { .. });
    } else {
        assert(plan.len() == 1);
        assert(plan[0] == BindAction::ResumeDevice);
    }
}

/// A decoded protocol request from an active session's stream.
#[derive(Clone, Copy, Debug, PartialEq, Eq)]
pub enum ProtocolRequest {
    /// A request that asks for input to be emulated; goes to the translator.
    Input(crate::translate::InputRequest),
    /// Bind a device with a capability mask.
    Bind { caps: u32 },
    /// Device bookkeeping: no-ops at the injection layer.
    StartEmulating,
    StopEmulating,
    FrameBoundary,
    /// The peer asks to end the session.
    Disconnect,
    /// A request kind this bridge does not handle; logged and ignored.
    Unknown,
}

/// One readiness step's worth of protocol input for a session.
#[derive(Clone, Copy, Debug, PartialEq, Eq)]
pub enum FrameEvent {
    /// The frame failed to parse or referenced an unknown object.
    Malformed,
    /// A well-formed, decoded request.
    Request(ProtocolRequest),
}

/// What handling one frame did, and what the embedder must do next.
#[derive(Clone, Copy, Debug, PartialEq, Eq)]
pub enum FrameDisposition {
    /// No session with that identifier: nothing was done.
    NoSession,
    /// The session has not reached the request loop; the frame is ignored.
    NotReady,
    /// A malformed frame during the request loop: logged and skipped.
    SkippedMalformed,
    /// Device or frame bookkeeping: no injection.
    Bookkeeping,
    /// A bind was seen: fetch a keymap if asked, then complete the bind.
    BindRequested { caps: u32, needs_keymap: bool },
    /// The translator dropped the event; no host call may be made.
    Rejected(crate::translate::RejectReason),
    /// Perform exactly this injection on the host.
    Inject(crate::translate::Injection),
    /// The session reached its terminal state and its admission was
    /// released.
    SessionClosed,
}

/// A peer-supplied label cut to a bounded number of characters, so that an
/// untrusted name cannot grow the observability log without bound.
pub fn truncate_label(name: &Vec<char>, max: usize) -> (r: Vec<char>)
    ensures
        r@ == if name@.len() <= max {
            name@
        } else {
            name@.take(max as int)
        },
{
    let n = if name.len() < max {
        name.len()
    } else {
        max
    };
    let mut r: Vec<char> = Vec::new();
    let mut i: usize = 0;
    while i < n
        invariant
            i <= n,
            n <= name@.len(),
            r@ == name@.take(i as int),
        decreases n - i,
    {
        let c = name[i];
        r.push(c);
        proof {
            assert(name@.take(i + 1) =~= name@.take(i as int).push(name@[i as int]));
        }
        i = i + 1;
    }
    proof {
        if name@.len() <= max {
            assert(name@.take(n as int) =~= name@);
        }
    }
    r
}

} // verus!
