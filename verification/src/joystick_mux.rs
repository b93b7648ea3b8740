//! The axis multiplexer: it remembers the most recent raw value of every
//! physical input axis and combines those values into the state of the
//! logical output axes.

use vstd::prelude::*;
use vstd::math::abs;
use std::collections::HashMap;
use crate::report::{sign_spec, sign_of, hat_direction_spec, hatxy_to_angle};

verus! {

broadcast use
    vstd::std_specs::hash::group_hash_axioms,
    vstd::seq_lib::group_to_multiset_ensures,
    vstd::multiset::group_multiset_axioms;

/// Logical output values span this symmetric range.
const OUTPUT_UPPER_BOUND: i64 = 32767;

const OUTPUT_LOWER_BOUND: i64 = -32767;

/// Errors of the multiplexer. No operation currently produces one: absent
/// or unresolvable data degrades to neutral values instead of erring.
#[derive(Debug, PartialEq, Eq, Structural, Copy, Clone)]
pub struct JoystickMuxError;

/// Identifies one physical source device. Assigned once at startup by the
/// device-enumeration layer and immutable thereafter.
#[derive(Debug, Hash, PartialEq, Eq, Structural, Copy, Clone)]
pub struct JoystickId(pub u16);

/// One raw event code as the kernel input layer reports it: the event type
/// (absolute axis, relative axis, key, synchronization marker) and the code
/// within that type. The multiplexer treats it as an opaque key.
#[derive(Debug, Hash, PartialEq, Eq, Structural, Copy, Clone, PartialOrd, Ord)]
pub struct AxisCode {
    pub ev_type: u16,
    pub code: u16,
}

/// Event type of synchronization markers (end-of-frame barriers).
pub const EV_SYN: u16 = 0;

/// Event type of key and button events.
pub const EV_KEY: u16 = 1;

/// Event type of relative axis events.
pub const EV_REL: u16 = 2;

/// Event type of absolute axis events.
pub const EV_ABS: u16 = 3;

/// Identifies one raw input channel across all devices.
#[derive(Debug, Hash, PartialEq, Eq, Structural, Copy, Clone)]
pub struct InputAxisId {
    pub joystick: JoystickId,
    pub axis: AxisCode,
}

/// One raw input channel together with its declared raw value range.
/// `lower_bound > upper_bound` signals polarity inversion.
#[derive(Debug, PartialEq, Eq, Structural, Copy, Clone)]
pub struct InputAxis {
    pub id: InputAxisId,
    pub lower_bound: i64,
    pub upper_bound: i64,
}

/// Identifies one logical output channel of the emitted virtual controller.
#[derive(Debug, Hash, PartialEq, Eq, Structural, Copy, Clone, PartialOrd, Ord)]
pub struct OutputAxisId(pub AxisCode);

impl InputAxis {
    /// The declared range is well formed when both bounds fit in the 32-bit
    /// range the kernel input layer reports and the range is not empty.
    pub open spec fn wf(self) -> bool {
        &&& i32::MIN <= self.lower_bound <= i32::MAX
        &&& i32::MIN <= self.upper_bound <= i32::MAX
        &&& self.lower_bound != self.upper_bound
    }

    /// The same channel with inverted polarity: the bounds change places.
    pub fn neg(self) -> (r: Self)
        ensures
            r.id == self.id,
            r.lower_bound == self.upper_bound,
            r.upper_bound == self.lower_bound,
    {
        Self { id: self.id, lower_bound: self.upper_bound, upper_bound: self.lower_bound }
    }
}

/// The default lower bound of a channel whose device declares no explicit
/// range: -350 for axes, 0 for buttons and keys.
pub fn lower_bound_for(code: AxisCode) -> (r: i64)
    ensures
        r == (if code.ev_type == EV_KEY {
            0int
        } else {
            -350int
        }),
{
    match code.ev_type {
        EV_ABS => -350,
        EV_REL => -350,
        EV_KEY => 0,
        _ => -350,
    }
}

/// The default upper bound of a channel whose device declares no explicit
/// range: 350 for axes, 1 for buttons and keys.
pub fn upper_bound_for(code: AxisCode) -> (r: i64)
    ensures
        r == (if code.ev_type == EV_KEY {
            1int
        } else {
            350int
        }),
{
    match code.ev_type {
        EV_ABS => 350,
        EV_REL => 350,
        EV_KEY => 1,
        _ => 350,
    }
}

/// An event code packed into one integer, ordered first by event type and
/// then by code, as the kernel input layer orders codes.
pub open spec fn pack_code(c: AxisCode) -> u32 {
    (c.ev_type * 0x10000 + c.code) as u32
}

/// An input channel id packed into one integer; the packing is injective, so
/// the packed value can serve as a map key standing for the id itself.
pub open spec fn pack_input(id: InputAxisId) -> u64 {
    (id.joystick.0 * 0x1_0000_0000 + id.axis.ev_type * 0x10000 + id.axis.code) as u64
}

/// Packing an input channel id loses nothing: distinct ids pack to distinct
/// keys.
pub proof fn lemma_pack_input_injective(a: InputAxisId, b: InputAxisId)
    ensures
        pack_input(a) == pack_input(b) ==> a == b,
{
    if pack_input(a) == pack_input(b) {
        assert(a.joystick.0 == b.joystick.0 && a.axis.ev_type == b.axis.ev_type && a.axis.code
            == b.axis.code) by (nonlinear_arith)
            requires
                a.joystick.0 * 0x1_0000_0000 + a.axis.ev_type * 0x10000 + a.axis.code
                    == b.joystick.0 * 0x1_0000_0000 + b.axis.ev_type * 0x10000 + b.axis.code,
                0 <= a.joystick.0 < 0x10000,
                0 <= b.joystick.0 < 0x10000,
                0 <= a.axis.ev_type < 0x10000,
                0 <= b.axis.ev_type < 0x10000,
                0 <= a.axis.code < 0x10000,
                0 <= b.axis.code < 0x10000,
        ;
    }
}

/// Pack an event code at run time.
pub fn pack_code_exec(c: AxisCode) -> (r: u32)
    ensures
        r == pack_code(c),
{
    (c.ev_type as u32) * 0x10000 + (c.code as u32)
}

/// Pack an input channel id at run time.
pub fn pack_input_exec(id: InputAxisId) -> (r: u64)
    ensures
        r == pack_input(id),
{
    (id.joystick.0 as u64) * 0x1_0000_0000 + (id.axis.ev_type as u64) * 0x10000 + (
    id.axis.code as u64)
}

/// Integer division truncating toward zero, as the hardware divides.
pub open spec fn div_trunc(a: int, b: int) -> int {
    if (a >= 0) == (b >= 0) {
        (abs(a) as int) / (abs(b) as int)
    } else {
        -((abs(a) as int) / (abs(b) as int))
    }
}

/// Divide two machine integers, truncating toward zero.
fn div_trunc_i64(a: i64, b: i64) -> (r: i64)
    requires
        b != 0,
        a != i64::MIN,
        b != i64::MIN,
    ensures
        r == div_trunc(a as int, b as int),
{
    let an: u64 = if a >= 0 {
        a as u64
    } else {
        (-a) as u64
    };
    let bn: u64 = if b >= 0 {
        b as u64
    } else {
        (-b) as u64
    };
    let q: u64 = an / bn;
    proof {
        assert(an as int / bn as int <= an as int) by (nonlinear_arith)
            requires
                bn >= 1,
                an >= 0,
        ;
    }
    if (a >= 0) == (b >= 0) {
        q as i64
    } else {
        -(q as i64)
    }
}

/// Linear rescaling of a raw value `v` from its declared range
/// `[lo, hi]` to the symmetric output range `[-32767, 32767]`, with
/// truncating integer division. An inverted declared range (`lo > hi`)
/// inverts the polarity of the result. For a raw value outside the
/// declared range the formula extrapolates past the output range;
/// evaluation clamps each candidate back into it.
pub open spec fn rescale_spec(v: int, lo: int, hi: int) -> int {
    -32767 + div_trunc((v - lo) * 65534, hi - lo)
}

/// A value forced into the symmetric output range.
pub open spec fn clamp_spec(v: int) -> int {
    if v < -32767 {
        -32767
    } else if v > 32767 {
        32767
    } else {
        v
    }
}

/// The rescaled value of a raw reading never strays far outside the output
/// range: it is bounded by the magnitude of the numerator.
proof fn lemma_div_trunc_bound(a: int, b: int)
    requires
        b != 0,
    ensures
        abs(div_trunc(a, b)) <= abs(a),
{
    assert((abs(a) as int) / (abs(b) as int) <= abs(a) as int && (abs(a) as int) / (abs(b) as int)
        >= 0) by (nonlinear_arith)
        requires
            abs(b) >= 1,
            abs(a) >= 0,
    ;
}

/// Every rescaled candidate fits comfortably in a 64-bit value: with both
/// bounds and the raw value in the 32-bit range, the numerator of the
/// rescaling is below `2^49`.
pub proof fn lemma_rescale_bound(v: int, lo: int, hi: int)
    requires
        lo != hi,
        i32::MIN <= v <= i32::MAX,
        i32::MIN <= lo <= i32::MAX,
        i32::MIN <= hi <= i32::MAX,
    ensures
        abs(rescale_spec(v, lo, hi)) < 0x4_0000_0000_0000,
{
    assert(abs((v - lo) * 65534) <= 0x1_0000_0000 * 65534) by (nonlinear_arith)
        requires
            abs(v - lo) <= 0x1_0000_0000,
    ;
    lemma_div_trunc_bound((v - lo) * 65534, hi - lo);
}

/// With the declared range equal to the output range, the rescaling
/// formula is the exact identity on the raw value: the multiplication and
/// the division cancel without loss. The clamping of candidates then
/// bounds it into the range.
pub proof fn lemma_rescale_identity(v: int)
    requires
        i32::MIN <= v <= i32::MAX,
    ensures
        rescale_spec(v, -32767, 32767) == v,
{
    let x = v + 32767;
    if x >= 0 {
        assert(x * 65534 >= 0 && abs(x * 65534) == x * 65534 && abs(65534int) == 65534)
            by (nonlinear_arith)
            requires
                x >= 0,
        ;
        vstd::arithmetic::div_mod::lemma_fundamental_div_mod_converse(x * 65534, 65534, x, 0);
    } else {
        assert(x * 65534 < 0 && abs(x * 65534) == (-x) * 65534 && abs(65534int) == 65534)
            by (nonlinear_arith)
            requires
                x < 0,
        ;
        vstd::arithmetic::div_mod::lemma_fundamental_div_mod_converse((-x) * 65534, 65534, -x, 0);
    }
}

/// With an inverted declared range, rescaling flips polarity: the declared
/// lower bound maps to the bottom of the output range, the declared upper
/// bound to the top, and 0 stays 0.
pub proof fn lemma_rescale_inverted()
    ensures
        rescale_spec(5, 5, -5) == -32767,
        rescale_spec(-5, 5, -5) == 32767,
        rescale_spec(0, 5, -5) == 0,
{
}

/// Rescale a raw reading at run time.
pub fn rescale(v: i64, lo: i64, hi: i64) -> (r: i64)
    requires
        lo != hi,
        i32::MIN <= v <= i32::MAX,
        i32::MIN <= lo <= i32::MAX,
        i32::MIN <= hi <= i32::MAX,
    ensures
        r == rescale_spec(v as int, lo as int, hi as int),
        abs(r as int) < 0x4_0000_0000_0000,
{
    proof {
        lemma_rescale_bound(v as int, lo as int, hi as int);
    }
    let num: i64 = (v - lo) * (OUTPUT_UPPER_BOUND - OUTPUT_LOWER_BOUND);
    let den: i64 = hi - lo;
    let q: i64 = div_trunc_i64(num, den);
    proof {
        lemma_div_trunc_bound(num as int, den as int);
    }
    OUTPUT_LOWER_BOUND + q
}

/// Packing an event code loses nothing: distinct codes pack to distinct
/// keys.
pub proof fn lemma_pack_code_injective(a: AxisCode, b: AxisCode)
    ensures
        pack_code(a) == pack_code(b) ==> a == b,
{
    if pack_code(a) == pack_code(b) {
        assert(a.ev_type == b.ev_type && a.code == b.code) by (nonlinear_arith)
            requires
                a.ev_type * 0x10000 + a.code == b.ev_type * 0x10000 + b.code,
                0 <= a.ev_type < 0x10000,
                0 <= b.ev_type < 0x10000,
                0 <= a.code < 0x10000,
                0 <= b.code < 0x10000,
        ;
    }
}

/// The canonical order of the entries of an output snapshot: by output axis
/// (event type first, then code, as the kernel input layer orders codes),
/// and among equal axes by value.
pub open spec fn pair_le(a: (OutputAxisId, i64), b: (OutputAxisId, i64)) -> bool {
    ||| pack_code(a.0.0) < pack_code(b.0.0)
    ||| (pack_code(a.0.0) == pack_code(b.0.0) && a.1 <= b.1)
}

/// The entry order as a relation value, for the ordering lemmas.
pub open spec fn pair_le_fn() -> spec_fn((OutputAxisId, i64), (OutputAxisId, i64)) -> bool {
    |a: (OutputAxisId, i64), b: (OutputAxisId, i64)| pair_le(a, b)
}

/// A snapshot is sorted when its entries ascend in the canonical order.
pub open spec fn sorted_pairs(s: Seq<(OutputAxisId, i64)>) -> bool {
    vstd::relations::sorted_by(s, pair_le_fn())
}

/// The canonical entry order is a total order.
pub proof fn lemma_pair_le_total_ordering()
    ensures
        vstd::relations::total_ordering(pair_le_fn()),
{
    let leq = pair_le_fn();
    assert forall|x: (OutputAxisId, i64), y: (OutputAxisId, i64)| #[trigger]
        leq(x, y) && #[trigger] leq(y, x) implies x == y by {
        lemma_pack_code_injective(x.0.0, y.0.0);
    }
    assert(vstd::relations::reflexive(leq));
    assert(vstd::relations::transitive(leq));
    assert(vstd::relations::strongly_connected(leq));
}

/// One combined snapshot of every configured output axis, canonically
/// sorted for deterministic comparison and serialization.
#[derive(Debug)]
pub struct OutputState {
    pub axes: Vec<(OutputAxisId, i64)>,
}

impl PartialEq for OutputState {
    fn eq(&self, other: &OutputState) -> (r: bool) {
        if self.axes.len() != other.axes.len() {
            return false;
        }
        let mut i: usize = 0;
        while i < self.axes.len()
            invariant
                0 <= i <= self.axes@.len(),
                self.axes@.len() == other.axes@.len(),
                forall|j: int| 0 <= j < i ==> self.axes@[j] == other.axes@[j],
            decreases self.axes@.len() - i,
        {
            let a: (OutputAxisId, i64) = self.axes[i];
            let b: (OutputAxisId, i64) = other.axes[i];
            if a.0 != b.0 || a.1 != b.1 {
                return false;
            }
            i = i + 1;
        }
        proof {
            assert(self.axes@ =~= other.axes@);
        }
        true
    }
}

impl vstd::std_specs::cmp::PartialEqSpecImpl for OutputState {
    open spec fn obeys_eq_spec() -> bool {
        true
    }

    open spec fn eq_spec(&self, other: &OutputState) -> bool {
        self.axes@ == other.axes@
    }
}

impl OutputState {
    /// Gather a collection of output entries into a canonically sorted
    /// snapshot.
    pub fn new(axes: Vec<(OutputAxisId, i64)>) -> (r: Self)
        ensures
            sorted_pairs(r.axes@),
            r.axes@.to_multiset() == axes@.to_multiset(),
    {
        let mut result = OutputState { axes };
        result.sort();
        result
    }

    /// Bring the entries into the canonical order, keeping exactly the same
    /// entries.
    pub fn sort(&mut self)
        ensures
            sorted_pairs(final(self).axes@),
            final(self).axes@.to_multiset() == old(self).axes@.to_multiset(),
    {
        let mut i: usize = 0;
        while i < self.axes.len()
            invariant
                0 <= i <= self.axes@.len(),
                sorted_pairs(self.axes@.take(i as int)),
                self.axes@.to_multiset() == old(self).axes@.to_multiset(),
            decreases self.axes@.len() - i,
        {
            let ghost v0 = self.axes@;
            let x: (OutputAxisId, i64) = self.axes[i];
            let mut j: usize = i;
            while j > 0 && !pair_le_exec(&self.axes[j - 1], &x)
                invariant
                    0 <= j <= i < self.axes@.len(),
                    self.axes@ == v0,
                    x == v0[i as int],
                    sorted_pairs(v0.take(i as int)),
                    forall|k: int| j <= k < i ==> !pair_le(#[trigger] v0[k], x),
                decreases j,
            {
                j = j - 1;
            }
            self.axes.remove(i);
            self.axes.insert(j, x);
            proof {
                lemma_pair_le_total_ordering();
                let v1 = v0.remove(i as int);
                let v2 = self.axes@;
                let ti = v0.take(i as int);
                assert(v1.to_multiset() =~= v0.to_multiset().remove(x));
                assert(v2.to_multiset() =~= v0.to_multiset().remove(x).insert(x));
                assert(v0.to_multiset().contains(x));
                assert(v2.to_multiset() =~= v0.to_multiset());
                v0.remove_ensures(i as int);
                v1.insert_ensures(j as int, x);
                assert(forall|q: int| 0 <= q < j ==> #[trigger] v2[q] == v0[q]);
                assert forall|q: int| j <= q < i implies #[trigger] v2[q + 1] == v0[q] by {
                    assert(v2[q + 1] == v1[q]);
                }
                assert(v2[j as int] == x);
                assert forall|s: int, t: int| 0 <= s < t < i implies pair_le(
                    #[trigger] v0[s],
                    #[trigger] v0[t],
                ) by {
                    assert(pair_le_fn()(ti[s], ti[t]));
                }
                assert forall|k: int| 0 <= k < j implies pair_le(#[trigger] v0[k], x) by {
                    assert(pair_le(v0[j - 1], x));
                }
                assert forall|k: int| j <= k < i implies pair_le(x, #[trigger] v0[k]) by {
                    assert(pair_le_fn()(x, v0[k]) || pair_le_fn()(v0[k], x));
                }
                let t2 = v2.take(i as int + 1);
                assert forall|s: int, t: int| 0 <= s < t < t2.len() implies #[trigger] pair_le_fn()(
                    t2[s],
                    t2[t],
                ) by {
                    assert(t2[s] == v2[s] && t2[t] == v2[t]);
                    if t < j {
                        assert(pair_le(v0[s], v0[t]));
                    } else if t == j {
                        assert(pair_le(v0[s], x));
                    } else {
                        assert(v2[t] == v0[t - 1]);
                        assert(pair_le(x, v0[t - 1]));
                        if s == j {
                            assert(v2[s] == x);
                        } else if s < j {
                            assert(pair_le(v0[s], x));
                        } else {
                            assert(v2[s] == v0[s - 1]);
                            assert(pair_le(v0[s - 1], v0[t - 1]));
                        }
                    }
                }
                assert(sorted_pairs(t2));
            }
            i = i + 1;
        }
        proof {
            assert(self.axes@.take(self.axes@.len() as int) =~= self.axes@);
        }
    }
}

/// Compare two snapshot entries in the canonical order at run time.
fn pair_le_exec(a: &(OutputAxisId, i64), b: &(OutputAxisId, i64)) -> (r: bool)
    ensures
        r == pair_le(*a, *b),
{
    let ka: u32 = pack_code_exec(a.0 .0);
    let kb: u32 = pack_code_exec(b.0 .0);
    ka < kb || (ka == kb && a.1 <= b.1)
}

/// How a button-style output decides that one input counts as pressed.
#[derive(Debug, Clone)]
pub enum ButtonMode {
    NonZero,
    Positive,
    Negative,
}

/// The rule by which the raw inputs feeding one output axis reduce to its
/// value.
#[derive(Debug, Clone)]
pub enum AxisCombineFn {
    LargestMagnitude { inputs: Vec<InputAxis> },
    Button { mode: ButtonMode, inputs: Vec<InputAxis> },
    Hat { x: InputAxisId, y: InputAxisId },
}

impl AxisCombineFn {
    /// A combine rule is well formed when every declared range it rescales
    /// through is well formed. Button and hat rules never rescale, so they
    /// place no demand on their inputs.
    pub open spec fn wf(self) -> bool {
        match self {
            AxisCombineFn::LargestMagnitude { inputs } => forall|i: int|
                0 <= i < inputs@.len() ==> (#[trigger] inputs@[i]).wf(),
            AxisCombineFn::Button { .. } => true,
            AxisCombineFn::Hat { .. } => true,
        }
    }
}

/// The most recent raw value observed for one input channel, or 0 while no
/// update for it has arrived.
pub open spec fn raw_value_spec(states: Map<u64, i32>, id: InputAxisId) -> int {
    if states.contains_key(pack_input(id)) {
        states[pack_input(id)] as int
    } else {
        0
    }
}

/// The contribution of one input to a largest-magnitude output: its last
/// raw value rescaled through its declared range and clamped into the
/// output range, or 0 while no update for it has arrived.
pub open spec fn candidate_spec(states: Map<u64, i32>, a: InputAxis) -> int {
    if states.contains_key(pack_input(a.id)) {
        clamp_spec(
            rescale_spec(
                states[pack_input(a.id)] as int,
                a.lower_bound as int,
                a.upper_bound as int,
            ),
        )
    } else {
        0
    }
}

/// The rescaled contributions of a whole input list, in declaration order.
pub open spec fn candidates_spec(states: Map<u64, i32>, inputs: Seq<InputAxis>) -> Seq<int> {
    inputs.map(|i: int, a: InputAxis| candidate_spec(states, a))
}

/// The candidate with the greatest absolute value; on equal magnitudes the
/// later candidate wins. An empty sequence yields 0.
pub open spec fn largest_magnitude_spec(s: Seq<int>) -> int
    decreases s.len(),
{
    if s.len() == 0 {
        0
    } else {
        let prev = largest_magnitude_spec(s.drop_last());
        if abs(s.last()) >= abs(prev) {
            s.last()
        } else {
            prev
        }
    }
}

/// With two candidates, the combined value is whichever has the larger
/// magnitude; when both tie in magnitude, the later-declared one is
/// returned.
pub proof fn lemma_largest_magnitude_pair(a: int, b: int)
    ensures
        largest_magnitude_spec(seq![a, b]) == (if abs(b) >= abs(a) {
            b
        } else {
            a
        }),
{
    let s = seq![a, b];
    assert(s.drop_last() =~= seq![a]);
    assert(seq![a].drop_last() =~= Seq::<int>::empty());
    assert(largest_magnitude_spec(Seq::<int>::empty()) == 0);
    assert(largest_magnitude_spec(seq![a]) == a);
    assert(largest_magnitude_spec(s) == (if abs(b) >= abs(a) {
        b
    } else {
        a
    }));
}

/// An input declared over the full output range contributes its observed
/// raw value clamped into that range; a value already within the range
/// comes back unchanged.
pub proof fn lemma_candidate_identity(states: Map<u64, i32>, a: InputAxis)
    requires
        a.lower_bound == -32767,
        a.upper_bound == 32767,
        states.contains_key(pack_input(a.id)),
    ensures
        candidate_spec(states, a) == clamp_spec(states[pack_input(a.id)] as int),
        -32767 <= states[pack_input(a.id)] <= 32767 ==> candidate_spec(states, a)
            == states[pack_input(a.id)],
{
    lemma_rescale_identity(states[pack_input(a.id)] as int);
}

/// Whether one input counts as pressed under the given button mode. An
/// input with no observed value is never pressed.
pub open spec fn button_pressed_spec(states: Map<u64, i32>, mode: ButtonMode, a: InputAxis) -> bool {
    &&& states.contains_key(pack_input(a.id))
    &&& match mode {
        ButtonMode::NonZero => states[pack_input(a.id)] != 0,
        ButtonMode::Positive => states[pack_input(a.id)] > 0,
        ButtonMode::Negative => states[pack_input(a.id)] < 0,
    }
}

/// Whether any input of a button-style output counts as pressed.
pub open spec fn any_pressed_spec(
    states: Map<u64, i32>,
    mode: ButtonMode,
    inputs: Seq<InputAxis>,
) -> bool {
    exists|i: int| 0 <= i < inputs.len() && button_pressed_spec(states, mode, #[trigger] inputs[i])
}

/// The value of one output axis under its combine rule, given the raw input
/// state. A largest-magnitude rule with no inputs yields no value at all
/// (its caller falls back to the neutral value 0).
pub open spec fn combine_value_spec(states: Map<u64, i32>, f: AxisCombineFn) -> Option<int> {
    match f {
        AxisCombineFn::LargestMagnitude { inputs } => {
            if inputs@.len() == 0 {
                None
            } else {
                Some(largest_magnitude_spec(candidates_spec(states, inputs@)))
            }
        },
        AxisCombineFn::Button { mode, inputs } => Some(
            if any_pressed_spec(states, mode, inputs@) {
                1int
            } else {
                0int
            },
        ),
        AxisCombineFn::Hat { x, y } => Some(
            hat_direction_spec(
                sign_spec(raw_value_spec(states, x)),
                sign_spec(raw_value_spec(states, y)),
            ),
        ),
    }
}

/// Look one input channel up in the raw state at run time.
fn raw_value(states: &HashMap<u64, i32>, id: InputAxisId) -> (r: i64)
    ensures
        r == raw_value_spec(states@, id),
        i32::MIN <= r <= i32::MAX,
{
    let key: u64 = pack_input_exec(id);
    match states.get(&key) {
        Some(v) => *v as i64,
        None => 0,
    }
}

/// Evaluate one combine rule against the current raw input state.
fn eval_combine(states: &HashMap<u64, i32>, f: &AxisCombineFn) -> (r: Option<i64>)
    requires
        f.wf(),
    ensures
        match r {
            Some(v) => combine_value_spec(states@, *f) == Some(v as int),
            None => combine_value_spec(states@, *f) is None,
        },
{
    match f {
        AxisCombineFn::LargestMagnitude { inputs } => {
            if inputs.len() == 0 {
                None
            } else {
                let ghost cands = candidates_spec(states@, inputs@);
                let mut best: i64 = 0;
                let mut i: usize = 0;
                while i < inputs.len()
                    invariant
                        0 <= i <= inputs@.len(),
                        cands == candidates_spec(states@, inputs@),
                        forall|j: int| 0 <= j < inputs@.len() ==> (#[trigger] inputs@[j]).wf(),
                        best == largest_magnitude_spec(cands.take(i as int)),
                        abs(best as int) <= 32767,
                    decreases inputs@.len() - i,
                {
                    let a: InputAxis = inputs[i];
                    let key: u64 = pack_input_exec(a.id);
                    let cand: i64 = match states.get(&key) {
                        Some(v) => {
                            let scaled: i64 = rescale(*v as i64, a.lower_bound, a.upper_bound);
                            if scaled > OUTPUT_UPPER_BOUND {
                                OUTPUT_UPPER_BOUND
                            } else if scaled < OUTPUT_LOWER_BOUND {
                                OUTPUT_LOWER_BOUND
                            } else {
                                scaled
                            }
                        },
                        None => 0,
                    };
                    assert(cand == cands[i as int]);
                    let cand_mag: i64 = if cand >= 0 {
                        cand
                    } else {
                        -cand
                    };
                    let best_mag: i64 = if best >= 0 {
                        best
                    } else {
                        -best
                    };
                    if cand_mag >= best_mag {
                        best = cand;
                    }
                    proof {
                        assert(cands.take(i + 1).drop_last() =~= cands.take(i as int));
                        assert(cands.take(i + 1).last() == cands[i as int]);
                    }
                    i = i + 1;
                }
                proof {
                    assert(cands.take(inputs@.len() as int) =~= cands);
                }
                Some(best)
            }
        },
        AxisCombineFn::Button { mode, inputs } => {
            let mut pressed: bool = false;
            let mut i: usize = 0;
            while i < inputs.len()
                invariant
                    0 <= i <= inputs@.len(),
                    pressed == any_pressed_spec(states@, *mode, inputs@.take(i as int)),
                decreases inputs@.len() - i,
            {
                let a: InputAxis = inputs[i];
                let key: u64 = pack_input_exec(a.id);
                let here: bool = match states.get(&key) {
                    Some(v) => match mode {
                        ButtonMode::NonZero => *v != 0,
                        ButtonMode::Positive => *v > 0,
                        ButtonMode::Negative => *v < 0,
                    },
                    None => false,
                };
                assert(here == button_pressed_spec(states@, *mode, inputs@[i as int]));
                proof {
                    assert(inputs@.take(i + 1).drop_last() =~= inputs@.take(i as int));
                    if here {
                        assert(button_pressed_spec(states@, *mode, inputs@.take(i + 1)[i as int]));
                    }
                    if !here && !pressed {
                        assert forall|j: int|
                            0 <= j < i + 1 implies !button_pressed_spec(
                            states@,
                            *mode,
                            #[trigger] inputs@.take(i + 1)[j],
                        ) by {
                            if j < i {
                                assert(inputs@.take(i + 1)[j] == inputs@.take(i as int)[j]);
                            }
                        }
                    }
                }
                pressed = pressed || here;
                i = i + 1;
            }
            proof {
                assert(inputs@.take(inputs@.len() as int) =~= inputs@);
            }
            if pressed {
                Some(1)
            } else {
                Some(0)
            }
        },
        AxisCombineFn::Hat { x, y } => {
            let sx: i64 = sign_of(raw_value(states, *x));
            let sy: i64 = sign_of(raw_value(states, *y));
            let angle: u8 = hatxy_to_angle(sx, sy);
            Some(angle as i64)
        },
    }
}

#[verifier::external_type_specification]
#[verifier::external_body]
#[verifier::reject_recursive_types(T)]
pub struct ExSender<T>(crossbeam_channel::Sender<T>);

/// Relies on crossbeam_channel::Sender::send: it delivers the message into
/// the channel, blocking while a bounded channel is full, and fails only
/// when every receiver has disconnected. Nothing is promised of the result:
/// whether the consumer is still there depends on the other threads.
#[verifier::external_body]
fn send_state(sender: &crossbeam_channel::Sender<OutputState>, state: OutputState) -> (delivered:
    bool) {
    sender.send(state).is_ok()
}

/// One raw event as a device reader hands it over: which code it is for and
/// its value. The kernel timestamp is not carried: the multiplexer never
/// reads it.
#[derive(Debug, PartialEq, Eq, Structural, Copy, Clone)]
pub struct InputEventData {
    pub code: AxisCode,
    pub value: i32,
}

/// One raw update message: which device produced it and the event itself.
#[derive(Debug, PartialEq, Eq, Structural, Copy, Clone)]
pub struct AxisUpdate {
    pub joystick: JoystickId,
    pub event: InputEventData,
}

/// The combine rule configured for an output axis: the configuration
/// entered last for that axis, if any.
pub open spec fn lookup_axis(
    axes: Seq<(OutputAxisId, AxisCombineFn)>,
    id: OutputAxisId,
) -> Option<AxisCombineFn>
    decreases axes.len(),
{
    if axes.len() == 0 {
        None
    } else if axes.last().0 == id {
        Some(axes.last().1)
    } else {
        lookup_axis(axes.drop_last(), id)
    }
}

/// Looking up an axis that appears nowhere yields nothing.
proof fn lemma_lookup_absent(axes: Seq<(OutputAxisId, AxisCombineFn)>, id: OutputAxisId)
    requires
        forall|i: int| 0 <= i < axes.len() ==> (#[trigger] axes[i]).0 != id,
    ensures
        lookup_axis(axes, id) is None,
    decreases axes.len(),
{
    if axes.len() > 0 {
        lemma_lookup_absent(axes.drop_last(), id);
    }
}

/// A lookup walks a concatenation from the back: the right part wins when
/// it knows the axis.
proof fn lemma_lookup_concat(
    a: Seq<(OutputAxisId, AxisCombineFn)>,
    b: Seq<(OutputAxisId, AxisCombineFn)>,
    id: OutputAxisId,
)
    ensures
        lookup_axis(a + b, id) == (match lookup_axis(b, id) {
            Some(f) => Some(f),
            None => lookup_axis(a, id),
        }),
    decreases b.len(),
{
    if b.len() == 0 {
        assert(a + b =~= a);
    } else {
        assert((a + b).drop_last() =~= a + b.drop_last());
        assert((a + b).last() == b.last());
        lemma_lookup_concat(a, b.drop_last(), id);
    }
}

/// A well-formed configuration: the axes ascend strictly by key, so every
/// axis appears at most once, and every stored combine rule is well formed.
pub open spec fn axes_wf(axes: Seq<(OutputAxisId, AxisCombineFn)>) -> bool {
    &&& forall|i: int, j: int|
        0 <= i < j < axes.len() ==> pack_code((#[trigger] axes[i]).0.0) < pack_code(
            (#[trigger] axes[j]).0.0,
        )
    &&& forall|i: int| 0 <= i < axes.len() ==> (#[trigger] axes[i]).1.wf()
}

/// In a well-formed configuration, looking up the axis stored at position
/// `k` yields exactly the rule stored there.
pub proof fn lemma_lookup_position(axes: Seq<(OutputAxisId, AxisCombineFn)>, k: int)
    requires
        axes_wf(axes),
        0 <= k < axes.len(),
    ensures
        lookup_axis(axes, axes[k].0) == Some(axes[k].1),
    decreases axes.len(),
{
    if k < axes.len() - 1 {
        assert(pack_code(axes[k].0.0) < pack_code(axes[axes.len() - 1].0.0));
        assert(axes.drop_last()[k] == axes[k]);
        lemma_lookup_position(axes.drop_last(), k);
    }
}

/// Whatever a lookup finds is stored somewhere in the configuration.
pub proof fn lemma_lookup_found(axes: Seq<(OutputAxisId, AxisCombineFn)>, id: OutputAxisId)
    requires
        lookup_axis(axes, id) is Some,
    ensures
        exists|k: int|
            0 <= k < axes.len() && axes[k] == (id, lookup_axis(axes, id)->Some_0),
    decreases axes.len(),
{
    if axes.last().0 == id {
        assert(axes[axes.len() - 1] == (id, lookup_axis(axes, id)->Some_0));
    } else {
        lemma_lookup_found(axes.drop_last(), id);
        let k = choose|k: int|
            0 <= k < axes.drop_last().len() && axes.drop_last()[k] == (
            id,
            lookup_axis(axes.drop_last(), id)->Some_0,
            );
        assert(axes[k] == (id, lookup_axis(axes, id)->Some_0));
    }
}

/// The multiplexer: the most recent raw value of every known input channel,
/// the combine rule of every configured output axis, and an optional channel
/// on which each synchronization barrier's snapshot is delivered.
#[derive(Debug)]
pub struct JoystickMux {
    axis_states: HashMap<u64, i32>,
    axes: Vec<(OutputAxisId, AxisCombineFn)>,
    output_s: Option<crossbeam_channel::Sender<OutputState>>,
}

/// The value an output axis contributes to a snapshot: its combined value,
/// or the neutral value 0 where its rule yields none.
pub open spec fn output_value_spec(states: Map<u64, i32>, f: AxisCombineFn) -> int {
    match combine_value_spec(states, f) {
        Some(v) => v,
        None => 0,
    }
}

impl JoystickMux {
    /// The raw input state: the last observed value of each updated channel,
    /// keyed by packed channel id.
    pub closed spec fn states(&self) -> Map<u64, i32> {
        self.axis_states@
    }

    /// The output channel as configured at construction, if any.
    pub closed spec fn sender(&self) -> Option<crossbeam_channel::Sender<OutputState>> {
        self.output_s
    }

    /// Whether an output channel is held.
    pub open spec fn has_sender(&self) -> bool {
        self.sender() is Some
    }

    /// The configured output axes with their combine rules, in ascending
    /// key order.
    pub closed spec fn axes_seq(&self) -> Seq<(OutputAxisId, AxisCombineFn)> {
        self.axes@
    }

    /// The combine rule configured for one output axis, if any.
    pub open spec fn axis_fn(&self, id: OutputAxisId) -> Option<AxisCombineFn> {
        lookup_axis(self.axes_seq(), id)
    }

    /// The multiplexer's invariant: its configuration is well formed.
    pub open spec fn wf(&self) -> bool {
        axes_wf(self.axes_seq())
    }

    /// The value of one output axis under the current raw input state, or
    /// nothing where the axis is unconfigured or its rule yields no value.
    pub open spec fn output_axis_spec(&self, id: OutputAxisId) -> Option<int> {
        match lookup_axis(self.axes_seq(), id) {
            None => None,
            Some(f) => combine_value_spec(self.states(), f),
        }
    }

    /// The full snapshot the multiplexer produces: every configured output
    /// axis with its combined value, in ascending key order.
    pub open spec fn snapshot_spec(&self) -> Seq<(OutputAxisId, i64)> {
        self.axes_seq().map(
            |k: int, p: (OutputAxisId, AxisCombineFn)|
                (p.0, output_value_spec(self.states(), p.1) as i64),
        )
    }

    /// A fresh multiplexer: no raw state, no configured axes. Snapshots are
    /// delivered on `output_s` when it is given.
    pub fn new(output_s: Option<crossbeam_channel::Sender<OutputState>>) -> (r: Self)
        ensures
            r.wf(),
            r.states() == Map::<u64, i32>::empty(),
            r.axes_seq() == Seq::<(OutputAxisId, AxisCombineFn)>::empty(),
            r.sender() == output_s,
    {
        Self { axis_states: HashMap::new(), axes: Vec::new(), output_s }
    }

    /// Configure one output axis: its combine rule is entered, replacing any
    /// rule the axis had before and leaving every other axis unchanged.
    pub fn configure_axis(&mut self, output_axis: OutputAxisId, combine_fn: AxisCombineFn)
        requires
            old(self).wf(),
            combine_fn.wf(),
        ensures
            final(self).wf(),
            final(self).states() == old(self).states(),
            final(self).sender() == old(self).sender(),
            forall|id: OutputAxisId| final(self).axis_fn(id) == (if id == output_axis {
                Some(combine_fn)
            } else {
                old(self).axis_fn(id)
            }),
    {
        let key: u32 = pack_code_exec(output_axis.0);
        let ghost v0 = self.axes@;
        let mut p: usize = 0;
        while p < self.axes.len() && pack_code_exec(self.axes[p].0 .0) < key
            invariant
                0 <= p <= self.axes@.len(),
                self.axes@ == v0,
                key == pack_code(output_axis.0),
                forall|q: int| 0 <= q < p ==> pack_code((#[trigger] v0[q]).0.0) < key,
            decreases self.axes@.len() - p,
        {
            p = p + 1;
        }
        let ghost single: Seq<(OutputAxisId, AxisCombineFn)> = seq![
            (output_axis, combine_fn),
        ];
        if p < self.axes.len() && pack_code_exec(self.axes[p].0 .0) == key {
            proof {
                lemma_pack_code_injective(v0[p as int].0.0, output_axis.0);
            }
            self.axes[p] = (output_axis, combine_fn);
            proof {
                let v2 = self.axes@;
                assert(v2 =~= v0.take(p as int) + (single + v0.skip(p as int + 1)));
                assert(v0 =~= v0.take(p as int) + (seq![v0[p as int]] + v0.skip(p as int + 1)));
                assert forall|id: OutputAxisId|
                    lookup_axis(v2, id) == (if id == output_axis {
                        Some(combine_fn)
                    } else {
                        lookup_axis(v0, id)
                    }) by {
                    lemma_lookup_concat(v0.take(p as int), single + v0.skip(p as int + 1), id);
                    lemma_lookup_concat(single, v0.skip(p as int + 1), id);
                    lemma_lookup_concat(
                        v0.take(p as int),
                        seq![v0[p as int]] + v0.skip(p as int + 1),
                        id,
                    );
                    lemma_lookup_concat(seq![v0[p as int]], v0.skip(p as int + 1), id);
                    assert forall|q: int| 0 <= q < v0.skip(p as int + 1).len() implies (
                    #[trigger] v0.skip(p as int + 1)[q]).0 != output_axis by {
                        assert(pack_code(v0[p as int].0.0) < pack_code(v0[q + p + 1].0.0));
                    }
                    lemma_lookup_absent(v0.skip(p as int + 1), output_axis);
                    if id != output_axis {
                        lemma_lookup_absent(single, id);
                        lemma_lookup_absent(seq![v0[p as int]], id);
                    }
                }
            }
        } else {
            self.axes.insert(p, (output_axis, combine_fn));
            proof {
                let v2 = self.axes@;
                assert(v2 =~= v0.take(p as int) + (single + v0.skip(p as int)));
                assert(v0 =~= v0.take(p as int) + v0.skip(p as int));
                assert forall|q: int| 0 <= q < v0.skip(p as int).len() implies pack_code(
                    (#[trigger] v0.skip(p as int)[q]).0.0,
                ) > key by {
                    assert(v0.skip(p as int)[q] == v0[q + p]);
                    if q > 0 {
                        assert(pack_code(v0[p as int].0.0) < pack_code(v0[q + p].0.0));
                    }
                }
                assert forall|id: OutputAxisId|
                    lookup_axis(v2, id) == (if id == output_axis {
                        Some(combine_fn)
                    } else {
                        lookup_axis(v0, id)
                    }) by {
                    lemma_lookup_concat(v0.take(p as int), single + v0.skip(p as int), id);
                    lemma_lookup_concat(single, v0.skip(p as int), id);
                    lemma_lookup_concat(v0.take(p as int), v0.skip(p as int), id);
                    assert forall|q: int| 0 <= q < v0.skip(p as int).len() implies (
                    #[trigger] v0.skip(p as int)[q]).0 != output_axis by {
                        lemma_pack_code_injective(v0.skip(p as int)[q].0.0, output_axis.0);
                    }
                    lemma_lookup_absent(v0.skip(p as int), output_axis);
                    if id != output_axis {
                        lemma_lookup_absent(single, id);
                    }
                }
                assert(axes_wf(v2)) by {
                    assert forall|s: int, t: int| 0 <= s < t < v2.len() implies pack_code(
                        (#[trigger] v2[s]).0.0,
                    ) < pack_code((#[trigger] v2[t]).0.0) by {
                        assert(forall|q: int| 0 <= q < p ==> #[trigger] v2[q] == v0[q]);
                        assert(forall|q: int|
                            p < q < v2.len() ==> #[trigger] v2[q] == v0.skip(p as int)[q - p
                                - 1]);
                        assert(v2[p as int] == (output_axis, combine_fn));
                    }
                    assert forall|q: int| 0 <= q < v2.len() implies (#[trigger] v2[q]).1.wf() by {
                        if q < p {
                            assert(v2[q] == v0[q]);
                        } else if q > p {
                            assert(v2[q] == v0[q - 1]);
                        }
                    }
                }
            }
        }
    }

    /// Enter one raw update. An ordinary event overwrites the stored value
    /// of its channel, touches nothing else, and always succeeds; a
    /// synchronization event leaves the multiplexer untouched and instead
    /// triggers a snapshot, which is delivered on the output channel when
    /// one is held. With no channel held the synchronization is a
    /// successful no-op. The result is false only when a synchronization
    /// snapshot was handed to the channel and the consumer is gone.
    pub fn update(&mut self, update: AxisUpdate) -> (delivered: bool)
        requires
            old(self).wf(),
        ensures
            final(self).wf(),
            final(self).axes_seq() == old(self).axes_seq(),
            final(self).sender() == old(self).sender(),
            final(self).states() == (if update.event.code.ev_type == EV_SYN {
                old(self).states()
            } else {
                old(self).states().insert(
                    pack_input(InputAxisId { joystick: update.joystick, axis: update.event.code }),
                    update.event.value,
                )
            }),
            update.event.code.ev_type != EV_SYN ==> delivered,
            !old(self).has_sender() ==> delivered,
    {
        if update.event.code.ev_type == EV_SYN {
            self.send_output()
        } else {
            let key: u64 = pack_input_exec(
                InputAxisId { joystick: update.joystick, axis: update.event.code },
            );
            self.axis_states.insert(key, update.event.value);
            true
        }
    }

    /// The value of one output axis under the current raw input state, or
    /// nothing where the axis is unconfigured or its rule yields no value.
    pub fn output_axis(&self, axis_id: &OutputAxisId) -> (r: Option<i64>)
        requires
            self.wf(),
        ensures
            match r {
                Some(v) => self.output_axis_spec(*axis_id) == Some(v as int),
                None => self.output_axis_spec(*axis_id) is None,
            },
    {
        let mut idx: usize = self.axes.len();
        proof {
            assert(self.axes@.take(idx as int) =~= self.axes@);
        }
        while idx > 0
            invariant
                0 <= idx <= self.axes@.len(),
                self.wf(),
                lookup_axis(self.axes@, *axis_id) == lookup_axis(
                    self.axes@.take(idx as int),
                    *axis_id,
                ),
            decreases idx,
        {
            idx = idx - 1;
            proof {
                assert(self.axes@.take(idx as int + 1).drop_last() =~= self.axes@.take(idx as int));
                assert(self.axes@.take(idx as int + 1).last() == self.axes@[idx as int]);
            }
            if self.axes[idx].0 == *axis_id {
                return eval_combine(&self.axis_states, &self.axes[idx].1);
            }
        }
        proof {
            assert(self.axes@.take(0) =~= Seq::<(OutputAxisId, AxisCombineFn)>::empty());
        }
        None
    }

    /// Take the full snapshot: every configured output axis with its
    /// combined value, in ascending key order.
    pub fn output(&self) -> (r: OutputState)
        requires
            self.wf(),
        ensures
            r.axes@ == self.snapshot_spec(),
    {
        let mut entries: Vec<(OutputAxisId, i64)> = Vec::new();
        let mut i: usize = 0;
        while i < self.axes.len()
            invariant
                0 <= i <= self.axes@.len(),
                self.wf(),
                entries@ =~= self.snapshot_spec().take(i as int),
            decreases self.axes@.len() - i,
        {
            let value: i64 = match eval_combine(&self.axis_states, &self.axes[i].1) {
                Some(v) => v,
                None => 0,
            };
            entries.push((self.axes[i].0, value));
            i = i + 1;
        }
        proof {
            assert(entries@ =~= self.snapshot_spec());
            lemma_pair_le_total_ordering();
            assert forall|s: int, t: int| 0 <= s < t < entries@.len() implies #[trigger] pair_le_fn()(
                entries@[s],
                entries@[t],
            ) by {
                assert(pack_code(self.axes@[s].0.0) < pack_code(self.axes@[t].0.0));
            }
            assert(sorted_pairs(entries@));
        }
        let ghost built = entries@;
        let r = OutputState::new(entries);
        proof {
            vstd::seq_lib::lemma_sorted_unique(r.axes@, built, pair_le_fn());
        }
        r
    }

    /// Taking a snapshot neither changes the multiplexer nor depends on
    /// anything but its state: two snapshots with no update between them
    /// are equal.
    pub proof fn lemma_snapshot_idempotent(&self, r1: OutputState, r2: OutputState)
        requires
            r1.axes@ == self.snapshot_spec(),
            r2.axes@ == self.snapshot_spec(),
        ensures
            r1.axes@ == r2.axes@,
    {
    }

    /// Take a snapshot and deliver it on the output channel, if one is
    /// held; with none held this is a successful no-op. The multiplexer
    /// itself is left exactly as it was. The result is false only when the
    /// snapshot was handed to the channel and the consumer end is gone.
    pub fn send_output(&mut self) -> (delivered: bool)
        requires
            old(self).wf(),
        ensures
            *final(self) == *old(self),
            !old(self).has_sender() ==> delivered,
    {
        let out = self.output();
        match &self.output_s {
            Some(sender) => send_state(sender, out),
            None => true,
        }
    }
}

} // verus!
