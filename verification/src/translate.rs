//! The request translator: the trust boundary between an untrusted peer and
//! the host's input stack.
//!
//! Every field of a peer request is validated here before any injection is
//! asked of the host: key and button codes against the platform maximum,
//! touch identifiers against a generous bound, and coordinates against the
//! finiteness classification made at the wire boundary. Pointer motion is
//! clamped into the geometry of the output that contains the new location
//! (falling back to the active output), so an emulated pointer can never be
//! placed outside any display's addressable space. The translator works on a
//! read-only snapshot of the host layout and returns plain injection
//! instructions; the embedder performs them afterwards, holding no snapshot,
//! which keeps layout lookups and the mutating injection call apart.

use vstd::prelude::*;

use crate::geometry::{
    spec_clamp_to_rect, spec_first_containing, spec_sat_add, clamp_to_rect, find_output,
    sat_add_i64, OutputRect, Pos,
};

verus! {

/// Largest valid key or button code the platform accepts.
pub const MAX_EVDEV_KEYCODE: u32 = 0x2FF;

/// Generous upper bound on touch identifiers; real devices stay far below.
pub const MAX_TOUCH_ID: u32 = 256;

/// A coordinate or delta as it crossed the wire boundary: the embedder
/// classifies the raw value, recording whether it was a finite number, and
/// carries finite values as fixed-point units saturated into `i64`.
#[derive(Clone, Copy, Debug, PartialEq, Eq)]
pub struct Coord {
    pub finite: bool,
    pub units: i64,
}

/// A decoded peer request that asks for input to be emulated.
#[derive(Clone, Copy, Debug, PartialEq, Eq)]
pub enum InputRequest {
    Key { keycode: u32, pressed: bool },
    Button { code: u32, pressed: bool },
    RelativeMotion { dx: Coord, dy: Coord },
    AbsoluteMotion { x: Coord, y: Coord },
    Scroll { dx: Coord, dy: Coord },
    TouchDown { id: u32, x: Coord, y: Coord },
    TouchMotion { id: u32, x: Coord, y: Coord },
    TouchUp { id: u32 },
    TouchCancel,
}

/// A read-only snapshot of the host layout, taken before translation and
/// released before any injection call is made.
pub struct HostSnapshot {
    /// Current pointer location in global units.
    pub pointer: Pos,
    /// Geometry of every active output.
    pub outputs: Vec<OutputRect>,
    /// Geometry of the active output, the fallback target.
    pub active_output: OutputRect,
}

impl HostSnapshot {
    pub open spec fn wf(&self) -> bool {
        &&& self.active_output.wf()
        &&& forall|j: int| 0 <= j < self.outputs@.len() ==> self.outputs@[j].wf()
    }
}

/// One validated, normalized injection for the host to perform. An output
/// index of `None` means the active output (for pointer motion) or no
/// containing output (for touch), matching the host's surface lookup rules.
#[derive(Clone, Copy, Debug, PartialEq, Eq)]
pub enum Injection {
    Key { keycode: u32, pressed: bool },
    Button { code: u32, pressed: bool },
    PointerMotion { pos: Pos, output: Option<usize> },
    Scroll { horizontal: Option<i64>, vertical: Option<i64> },
    TouchDown { id: u32, pos: Pos, output: Option<usize> },
    TouchMotion { id: u32, pos: Pos, output: Option<usize> },
    TouchUp { id: u32 },
    TouchCancel,
}

/// Why a request was dropped without any host call.
#[derive(Clone, Copy, Debug, PartialEq, Eq)]
pub enum RejectReason {
    KeycodeOutOfRange,
    ButtonCodeOutOfRange,
    NonFiniteCoordinate,
    TouchIdOutOfRange,
}

/// The translator's verdict on one request.
#[derive(Clone, Copy, Debug, PartialEq, Eq)]
pub enum TranslateOutcome {
    Inject(Injection),
    Dropped(RejectReason),
}

/// The output a pointer motion targets: the first output containing the
/// candidate position, else the active output as fallback.
pub open spec fn spec_motion_output(
    outputs: Seq<OutputRect>,
    active: OutputRect,
    candidate: Pos,
) -> (Option<usize>, OutputRect) {
    match spec_first_containing(outputs, candidate) {
        Some(i) => (Some(i as usize), outputs[i]),
        None => (None, active),
    }
}

/// The touch target: the first output containing the position, if any; no
/// fallback and no clamping for touch.
pub open spec fn spec_touch_output(outputs: Seq<OutputRect>, p: Pos) -> Option<usize> {
    match spec_first_containing(outputs, p) {
        Some(i) => Some(i as usize),
        None => None,
    }
}

/// What the translator owes for every request: exactly one injection for a
/// valid request, and a drop with the offending field's reason otherwise.
pub open spec fn spec_translate(
    req: InputRequest,
    pointer: Pos,
    outputs: Seq<OutputRect>,
    active: OutputRect,
) -> TranslateOutcome {
    match req {
        InputRequest::Key { keycode, pressed } => if keycode > MAX_EVDEV_KEYCODE {
            TranslateOutcome::Dropped(RejectReason::KeycodeOutOfRange)
        } else {
            TranslateOutcome::Inject(Injection::Key { keycode, pressed })
        },
        InputRequest::Button { code, pressed } => if code > MAX_EVDEV_KEYCODE {
            TranslateOutcome::Dropped(RejectReason::ButtonCodeOutOfRange)
        } else {
            TranslateOutcome::Inject(Injection::Button { code, pressed })
        },
        InputRequest::RelativeMotion { dx, dy } => if !dx.finite || !dy.finite {
            TranslateOutcome::Dropped(RejectReason::NonFiniteCoordinate)
        } else {
            let candidate = Pos {
                x: spec_sat_add(pointer.x as int, dx.units as int) as i64,
                y: spec_sat_add(pointer.y as int, dy.units as int) as i64,
            };
            let choice = spec_motion_output(outputs, active, candidate);
            TranslateOutcome::Inject(
                Injection::PointerMotion {
                    pos: spec_clamp_to_rect(candidate, choice.1),
                    output: choice.0,
                },
            )
        },
        InputRequest::AbsoluteMotion { x, y } => if !x.finite || !y.finite {
            TranslateOutcome::Dropped(RejectReason::NonFiniteCoordinate)
        } else {
            let candidate = Pos { x: x.units, y: y.units };
            let choice = spec_motion_output(outputs, active, candidate);
            TranslateOutcome::Inject(
                Injection::PointerMotion {
                    pos: spec_clamp_to_rect(candidate, choice.1),
                    output: choice.0,
                },
            )
        },
        InputRequest::Scroll { dx, dy } => if !dx.finite || !dy.finite {
            TranslateOutcome::Dropped(RejectReason::NonFiniteCoordinate)
        } else {
            TranslateOutcome::Inject(
                Injection::Scroll {
                    horizontal: if dx.units != 0 {
                        Some(dx.units)
                    } else {
                        None
                    },
                    vertical: if dy.units != 0 {
                        Some(dy.units)
                    } else {
                        None
                    },
                },
            )
        },
        InputRequest::TouchDown { id, x, y } => if id > MAX_TOUCH_ID {
            TranslateOutcome::Dropped(RejectReason::TouchIdOutOfRange)
        } else if !x.finite || !y.finite {
            TranslateOutcome::Dropped(RejectReason::NonFiniteCoordinate)
        } else {
            let p = Pos { x: x.units, y: y.units };
            TranslateOutcome::Inject(
                Injection::TouchDown { id, pos: p, output: spec_touch_output(outputs, p) },
            )
        },
        InputRequest::TouchMotion { id, x, y } => if id > MAX_TOUCH_ID {
            TranslateOutcome::Dropped(RejectReason::TouchIdOutOfRange)
        } else if !x.finite || !y.finite {
            TranslateOutcome::Dropped(RejectReason::NonFiniteCoordinate)
        } else {
            let p = Pos { x: x.units, y: y.units };
            TranslateOutcome::Inject(
                Injection::TouchMotion { id, pos: p, output: spec_touch_output(outputs, p) },
            )
        },
        InputRequest::TouchUp { id } => TranslateOutcome::Inject(Injection::TouchUp { id }),
        InputRequest::TouchCancel => TranslateOutcome::Inject(Injection::TouchCancel),
    }
}

/// Translate one peer request against a host snapshot. Returns exactly what
/// `spec_translate` prescribes: either one injection to perform or the
/// reason the request was dropped with no host call.
pub fn translate(req: &InputRequest, snap: &HostSnapshot) -> (r: TranslateOutcome)
    requires
        snap.wf(),
    ensures
        r == spec_translate(*req, snap.pointer, snap.outputs@, snap.active_output),
{
    match *req {
        InputRequest::Key { keycode, pressed } => {
            if keycode > MAX_EVDEV_KEYCODE {
                TranslateOutcome::Dropped(RejectReason::KeycodeOutOfRange)
            } else {
                TranslateOutcome::Inject(Injection::Key { keycode, pressed })
            }
        },
        InputRequest::Button { code, pressed } => {
            if code > MAX_EVDEV_KEYCODE {
                TranslateOutcome::Dropped(RejectReason::ButtonCodeOutOfRange)
            } else {
                TranslateOutcome::Inject(Injection::Button { code, pressed })
            }
        },
        InputRequest::RelativeMotion { dx, dy } => {
            if !dx.finite || !dy.finite {
                TranslateOutcome::Dropped(RejectReason::NonFiniteCoordinate)
            } else {
                let candidate = Pos {
                    x: sat_add_i64(snap.pointer.x, dx.units),
                    y: sat_add_i64(snap.pointer.y, dy.units),
                };
                let found = find_output(&snap.outputs, &candidate);
                let rect = match found {
                    Some(i) => snap.outputs[i],
                    None => snap.active_output,
                };
                let pos = clamp_to_rect(&candidate, &rect);
                TranslateOutcome::Inject(Injection::PointerMotion { pos, output: found })
            }
        },
        InputRequest::AbsoluteMotion { x, y } => {
            if !x.finite || !y.finite {
                TranslateOutcome::Dropped(RejectReason::NonFiniteCoordinate)
            } else {
                let candidate = Pos { x: x.units, y: y.units };
                let found = find_output(&snap.outputs, &candidate);
                let rect = match found {
                    Some(i) => snap.outputs[i],
                    None => snap.active_output,
                };
                let pos = clamp_to_rect(&candidate, &rect);
                TranslateOutcome::Inject(Injection::PointerMotion { pos, output: found })
            }
        },
        InputRequest::Scroll { dx, dy } => {
            if !dx.finite || !dy.finite {
                TranslateOutcome::Dropped(RejectReason::NonFiniteCoordinate)
            } else {
                let horizontal = if dx.units != 0 {
                    Some(dx.units)
                } else {
                    None
                };
                let vertical = if dy.units != 0 {
                    Some(dy.units)
                } else {
                    None
                };
                TranslateOutcome::Inject(Injection::Scroll { horizontal, vertical })
            }
        },
        InputRequest::TouchDown { id, x, y } => {
            if id > MAX_TOUCH_ID {
                TranslateOutcome::Dropped(RejectReason::TouchIdOutOfRange)
            } else if !x.finite || !y.finite {
                TranslateOutcome::Dropped(RejectReason::NonFiniteCoordinate)
            } else {
                let p = Pos { x: x.units, y: y.units };
                let found = find_output(&snap.outputs, &p);
                TranslateOutcome::Inject(Injection::TouchDown { id, pos: p, output: found })
            }
        },
        InputRequest::TouchMotion { id, x, y } => {
            if id > MAX_TOUCH_ID {
                TranslateOutcome::Dropped(RejectReason::TouchIdOutOfRange)
            } else if !x.finite || !y.finite {
                TranslateOutcome::Dropped(RejectReason::NonFiniteCoordinate)
            } else {
                let p = Pos { x: x.units, y: y.units };
                let found = find_output(&snap.outputs, &p);
                TranslateOutcome::Inject(Injection::TouchMotion { id, pos: p, output: found })
            }
        },
        InputRequest::TouchUp { id } => TranslateOutcome::Inject(Injection::TouchUp { id }),
        InputRequest::TouchCancel => TranslateOutcome::Inject(Injection::TouchCancel),
    }
}

/// Law: a key or button code above the platform maximum never reaches the
/// host; the translator yields a drop, not an injection.
pub proof fn lemma_out_of_range_code_never_injects(
    req: InputRequest,
    pointer: Pos,
    outputs: Seq<OutputRect>,
    active: OutputRect,
)
    requires
        (req matches InputRequest::Key { keycode, .. } && keycode > MAX_EVDEV_KEYCODE) || (
        req matches InputRequest::Button { code, .. } && code > MAX_EVDEV_KEYCODE),
    ensures
        spec_translate(req, pointer, outputs, active) matches TranslateOutcome::Dropped(reason)
            && (reason == RejectReason::KeycodeOutOfRange || reason
            == RejectReason::ButtonCodeOutOfRange),
{
}

/// Law: a motion or scroll request carrying a non-finite coordinate never
/// reaches the host.
pub proof fn lemma_non_finite_never_injects(
    req: InputRequest,
    pointer: Pos,
    outputs: Seq<OutputRect>,
    active: OutputRect,
)
    requires
        ({
            ||| req matches InputRequest::RelativeMotion { dx, dy } && (!dx.finite || !dy.finite)
            ||| req matches InputRequest::AbsoluteMotion { x, y } && (!x.finite || !y.finite)
            ||| req matches InputRequest::Scroll { dx, dy } && (!dx.finite || !dy.finite)
        }),
    ensures
        spec_translate(req, pointer, outputs, active) == TranslateOutcome::Dropped(
            RejectReason::NonFiniteCoordinate,
        ),
{
}

/// Law: a touch-down or touch-motion with an identifier above the bound
/// never reaches the host, while touch-up and touch-cancel are always
/// delivered whatever the identifier.
pub proof fn lemma_touch_id_policy(
    req: InputRequest,
    pointer: Pos,
    outputs: Seq<OutputRect>,
    active: OutputRect,
)
    ensures
        (req matches InputRequest::TouchDown { id, .. } && id > MAX_TOUCH_ID) ==> spec_translate(
            req,
            pointer,
            outputs,
            active,
        ) == TranslateOutcome::Dropped(RejectReason::TouchIdOutOfRange),
        (req matches InputRequest::TouchMotion { id, .. } && id > MAX_TOUCH_ID) ==> spec_translate(
            req,
            pointer,
            outputs,
            active,
        ) == TranslateOutcome::Dropped(RejectReason::TouchIdOutOfRange),
        (req matches InputRequest::TouchUp { id } ==> spec_translate(req, pointer, outputs, active)
            == TranslateOutcome::Inject(Injection::TouchUp { id })),
        req == InputRequest::TouchCancel ==> spec_translate(req, pointer, outputs, active)
            == TranslateOutcome::Inject(Injection::TouchCancel),
{
}

/// Law: whenever the translator asks for a pointer motion, the new location
/// lies inside the addressable rectangle of the output it names (or of the
/// active output when it names none), bounds inclusive of the last unit
/// inside each far edge.
pub proof fn lemma_motion_lands_inside_target(
    req: InputRequest,
    pointer: Pos,
    outputs: Seq<OutputRect>,
    active: OutputRect,
)
    requires
        active.wf(),
        outputs.len() <= usize::MAX,
        forall|j: int| 0 <= j < outputs.len() ==> outputs[j].wf(),
    ensures
        spec_translate(req, pointer, outputs, active) matches TranslateOutcome::Inject(
            Injection::PointerMotion { pos, output },
        ) ==> match output {
            Some(i) => {
                &&& i < outputs.len()
                &&& outputs[i as int].spec_contains(pos)
                &&& outputs[i as int].x <= pos.x <= outputs[i as int].x + outputs[i as int].w - 1
                &&& outputs[i as int].y <= pos.y <= outputs[i as int].y + outputs[i as int].h - 1
            },
            None => active.spec_contains(pos),
        },
{
    match req {
        InputRequest::RelativeMotion { dx, dy } => {
            if dx.finite && dy.finite {
                let candidate = Pos {
                    x: spec_sat_add(pointer.x as int, dx.units as int) as i64,
                    y: spec_sat_add(pointer.y as int, dy.units as int) as i64,
                };
                lemma_motion_target_contains(outputs, active, candidate);
            }
        },
        InputRequest::AbsoluteMotion { x, y } => {
            if x.finite && y.finite {
                let candidate = Pos { x: x.units, y: y.units };
                lemma_motion_target_contains(outputs, active, candidate);
            }
        },
        _ => {},
    }
}

/// The clamped motion target lies inside the chosen output's rectangle.
proof fn lemma_motion_target_contains(outputs: Seq<OutputRect>, active: OutputRect, candidate: Pos)
    requires
        active.wf(),
        outputs.len() <= usize::MAX,
        forall|j: int| 0 <= j < outputs.len() ==> outputs[j].wf(),
    ensures
        ({
            let choice = spec_motion_output(outputs, active, candidate);
            let pos = spec_clamp_to_rect(candidate, choice.1);
            match choice.0 {
                Some(i) => {
                    &&& i < outputs.len()
                    &&& outputs[i as int].spec_contains(pos)
                    &&& outputs[i as int].x <= pos.x <= outputs[i as int].x + outputs[i as int].w
                        - 1
                    &&& outputs[i as int].y <= pos.y <= outputs[i as int].y + outputs[i as int].h
                        - 1
                },
                None => active.spec_contains(pos),
            }
        }),
{
    crate::geometry::lemma_first_containing_characterization(outputs, candidate);
    let choice = spec_motion_output(outputs, active, candidate);
    crate::geometry::lemma_clamp_stays_inside(candidate, choice.1);
}

} // verus!
