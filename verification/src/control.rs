//! The control step: once per tick it turns the input events into damping,
//! impulse and force requests on every controlled body and keeps their heat.
//!
//! Impulses and boosts share one cooldown; forces and braking are never
//! gated. The step is a function of the state and its inputs alone.

use crate::cooldown::{Cooldown, CooldownView};
use crate::heat::{clamp_heat, Heat, HEAT_MAX};
use crate::inputs::InputEvent;
use crate::vector::{Actuation, Vec2, Vector};
use vstd::prelude::*;

verus! {

/// The tuning of the control step. Dampings, values and heat increases are
/// in thousandths.
#[derive(Clone, Copy, Debug, PartialEq, Eq, Structural)]
pub struct Constants {
    /// Damping while the body moves freely.
    pub default_damping: i32,
    /// Damping while braking.
    pub stabilisation_damping: i32,
    /// Strength of an impulse.
    pub impulse_value: i32,
    /// Strength of a sustained force.
    pub force_value: i32,
    /// Share of the velocity that a boost adds as an impulse.
    pub acceleration_value: i32,
    /// Heat that an impulse or a boost adds.
    pub heat_increase: i32,
    /// Heat that a tick of sustained force adds.
    pub force_heat_increase: i32,
}

impl Default for Constants {
    fn default() -> (constants: Constants)
        ensures
            constants == (Constants {
                default_damping: 1_000,
                stabilisation_damping: 6_000,
                impulse_value: 1_500_000,
                force_value: 600_000,
                acceleration_value: 300,
                heat_increase: 200,
                force_heat_increase: 0,
            }),
    {
        Constants {
            default_damping: 1_000,
            stabilisation_damping: 6_000,
            impulse_value: 1_500_000,
            force_value: 600_000,
            acceleration_value: 300,
            heat_increase: 200,
            force_heat_increase: 0,
        }
    }
}

/// Nanoseconds between two impulses or boosts.
pub const IMPULSE_COOLDOWN: u128 = 350_000_000;

/// The cooldown that impulses and boosts share.
#[derive(Clone, Copy, Debug, PartialEq, Eq)]
pub struct ImpulseCooldown(pub Cooldown);

impl Default for ImpulseCooldown {
    fn default() -> (cooldown: ImpulseCooldown)
        ensures
            cooldown.0@ == CooldownView::charged(IMPULSE_COOLDOWN as nat),
    {
        ImpulseCooldown(Cooldown::new(IMPULSE_COOLDOWN))
    }
}

/// The mathematical state of a controlled body.
pub struct BodyView {
    /// Current velocity, in thousandths.
    pub velocity: Vector,
    /// Damping coefficient, in thousandths.
    pub damping: int,
    /// The impulse last requested, in millionths.
    pub impulse: Vector,
    /// The force requested for this tick, in millionths.
    pub force: Vector,
    /// Heat, in thousandths.
    pub heat: int,
}

impl BodyView {
    /// The heat lies within its bounds.
    pub open spec fn wf(self) -> bool {
        0 <= self.heat <= HEAT_MAX
    }

    /// The body with its force request cleared.
    pub open spec fn without_force(self) -> BodyView {
        BodyView { force: Vector::zero(), ..self }
    }

    /// The body after `event`, where `ready` tells whether the shared
    /// cooldown lets impulses and boosts through.
    pub open spec fn after(self, constants: Constants, ready: bool, event: InputEvent) -> BodyView {
        match event {
            InputEvent::Impulse { direction } => if ready {
                BodyView {
                    damping: constants.default_damping as int,
                    impulse: direction@.scale(constants.impulse_value as int),
                    heat: clamp_heat(self.heat + constants.heat_increase),
                    ..self
                }
            } else {
                self
            },
            InputEvent::Stabilisation => BodyView {
                damping: constants.stabilisation_damping as int,
                heat: clamp_heat(self.heat - HEAT_MAX),
                ..self
            },
            InputEvent::Accelerate => if ready {
                BodyView {
                    impulse: self.velocity.scale(constants.acceleration_value as int),
                    heat: clamp_heat(self.heat + constants.heat_increase),
                    ..self
                }
            } else {
                self
            },
            InputEvent::Force { direction } => BodyView {
                damping: constants.default_damping as int,
                force: direction@.scale(constants.force_value as int),
                heat: clamp_heat(self.heat + constants.force_heat_increase),
                ..self
            },
        }
    }
}

/// The body that the control step acts on: the velocity that it reads, the
/// damping, impulse and force that it requests, and the heat.
#[derive(Clone, Copy, Debug, PartialEq, Eq)]
pub struct ControlBody {
    pub velocity: Vec2,
    pub damping: i32,
    pub impulse: Actuation,
    pub force: Actuation,
    pub heat: Heat,
}

impl View for ControlBody {
    type V = BodyView;

    open spec fn view(&self) -> BodyView {
        BodyView {
            velocity: self.velocity@,
            damping: self.damping as int,
            impulse: self.impulse@,
            force: self.force@,
            heat: self.heat@,
        }
    }
}

impl ControlBody {
    /// A cold body with no request pending.
    pub fn new(velocity: Vec2, damping: i32) -> (body: ControlBody)
        ensures
            body@ == (BodyView {
                velocity: velocity@,
                damping: damping as int,
                impulse: Vector::zero(),
                force: Vector::zero(),
                heat: 0,
            }),
            body@.wf(),
    {
        ControlBody {
            velocity,
            damping,
            impulse: Actuation::zero(),
            force: Actuation::zero(),
            heat: Heat::new(),
        }
    }

    /// Applies `event` to this body; `ready` tells whether the shared
    /// cooldown lets impulses and boosts through.
    pub fn apply(&mut self, constants: &Constants, ready: bool, event: &InputEvent)
        ensures
            final(self)@ == old(self)@.after(*constants, ready, *event),
            final(self)@.wf(),
    {
        proof {
            use_type_invariant(&self.heat);
        }
        match event {
            InputEvent::Impulse { direction } => {
                if ready {
                    self.damping = constants.default_damping;
                    self.impulse = direction.scaled(constants.impulse_value);
                    self.heat.inc(constants.heat_increase);
                }
            },
            InputEvent::Stabilisation => {
                self.damping = constants.stabilisation_damping;
                self.heat.inc(-HEAT_MAX);
            },
            InputEvent::Accelerate => {
                if ready {
                    self.impulse = self.velocity.scaled(constants.acceleration_value);
                    self.heat.inc(constants.heat_increase);
                }
            },
            InputEvent::Force { direction } => {
                self.damping = constants.default_damping;
                self.force = direction.scaled(constants.force_value);
                self.heat.inc(constants.force_heat_increase);
            },
        }
    }
}

/// The state that the control step works on: the shared cooldown and the
/// controlled bodies.
pub struct ControlState {
    pub cooldown: CooldownView,
    pub bodies: Seq<BodyView>,
}

/// The views of `bodies`, one by one.
pub open spec fn body_views(bodies: Seq<ControlBody>) -> Seq<BodyView> {
    Seq::new(bodies.len(), |i: int| bodies[i]@)
}

impl ControlState {
    /// The cooldown and every body are well formed.
    pub open spec fn wf(self) -> bool {
        &&& self.cooldown.wf()
        &&& forall|i: int| 0 <= i < self.bodies.len() ==> (#[trigger] self.bodies[i]).wf()
    }

    /// Whether `event` is one that the cooldown gates.
    pub open spec fn gated(event: InputEvent) -> bool {
        event is Impulse || event is Accelerate
    }

    /// The state after one event: a gated event passes only where the
    /// cooldown is ready, and then starts it; every body sees the event with
    /// the readiness from before.
    pub open spec fn after(self, constants: Constants, event: InputEvent) -> ControlState {
        ControlState {
            cooldown: if Self::gated(event) && self.cooldown.ready() {
                self.cooldown.start()
            } else {
                self.cooldown
            },
            bodies: Seq::new(
                self.bodies.len(),
                |i: int| self.bodies[i].after(constants, self.cooldown.ready(), event),
            ),
        }
    }

    /// The state after `events`, applied in order.
    pub open spec fn after_all(self, constants: Constants, events: Seq<InputEvent>) -> ControlState
        decreases events.len(),
    {
        if events.len() == 0 {
            self
        } else {
            self.after_all(constants, events.drop_last()).after(constants, events.last())
        }
    }

    /// The state with every force request cleared.
    pub open spec fn without_forces(self) -> ControlState {
        ControlState {
            cooldown: self.cooldown,
            bodies: Seq::new(self.bodies.len(), |i: int| self.bodies[i].without_force()),
        }
    }

    /// The state with `delta` nanoseconds more on the cooldown.
    pub open spec fn ticked(self, delta: nat) -> ControlState {
        ControlState { cooldown: self.cooldown.tick(delta), bodies: self.bodies }
    }

    /// The state after one tick of the simulation: old forces are cleared,
    /// the cooldown advances by `delta`, then the events apply in order.
    pub open spec fn step(self, constants: Constants, delta: nat, events: Seq<InputEvent>)
        -> ControlState {
        self.without_forces().ticked(delta).after_all(constants, events)
    }
}

/// Cancels the force applied to each body in the tick before.
pub fn cancel_force(players: &mut Vec<ControlBody>)
    ensures
        final(players)@.len() == old(players)@.len(),
        body_views(final(players)@) == Seq::new(
            old(players)@.len(),
            |i: int| old(players)@[i]@.without_force(),
        ),
        forall|i: int| 0 <= i < final(players)@.len() ==> (#[trigger] final(players)@[i]@).wf(),
{
    let mut index: usize = 0;
    while index < players.len()
        invariant
            index <= players@.len(),
            players@.len() == old(players)@.len(),
            forall|i: int| 0 <= i < index ==> players@[i]@ == old(players)@[i]@.without_force(),
            forall|i: int| 0 <= i < index ==> (#[trigger] players@[i]@).wf(),
            forall|i: int| index <= i < players@.len() ==> players@[i] == old(players)@[i],
        decreases players@.len() - index,
    {
        let mut body = players[index];
        proof {
            use_type_invariant(&body.heat);
        }
        body.force = Actuation::zero();
        players.set(index, body);
        index = index + 1;
    }
    assert(body_views(players@) =~= Seq::new(
        old(players)@.len(),
        |i: int| old(players)@[i]@.without_force(),
    ));
}

/// Hands `event` to every body.
fn apply_to_all(
    constants: &Constants,
    ready: bool,
    event: &InputEvent,
    players: &mut Vec<ControlBody>,
)
    ensures
        final(players)@.len() == old(players)@.len(),
        body_views(final(players)@) == Seq::new(
            old(players)@.len(),
            |i: int| old(players)@[i]@.after(*constants, ready, *event),
        ),
        forall|i: int| 0 <= i < final(players)@.len() ==> (#[trigger] final(players)@[i]@).wf(),
{
    let mut index: usize = 0;
    while index < players.len()
        invariant
            index <= players@.len(),
            players@.len() == old(players)@.len(),
            forall|i: int| 0 <= i < index ==> (#[trigger] players@[i]@).wf(),
            forall|i: int|
                0 <= i < index ==> players@[i]@ == old(players)@[i]@.after(
                    *constants,
                    ready,
                    *event,
                ),
            forall|i: int| index <= i < players@.len() ==> players@[i] == old(players)@[i],
        decreases players@.len() - index,
    {
        let mut body = players[index];
        body.apply(constants, ready, event);
        players.set(index, body);
        index = index + 1;
    }
    assert(body_views(players@) =~= Seq::new(
        old(players)@.len(),
        |i: int| old(players)@[i]@.after(*constants, ready, *event),
    ));
}

/// The state made of a cooldown and bodies as the program holds them.
pub open spec fn control_state(cooldown: Cooldown, players: Seq<ControlBody>) -> ControlState {
    ControlState { cooldown: cooldown@, bodies: body_views(players) }
}

/// Advances the shared cooldown by `delta` nanoseconds, then applies the
/// input events of this tick, in order, to every body.
pub fn apply_forces(
    constants: &Constants,
    impulse_cooldown: &mut Cooldown,
    delta: u128,
    input_events: &Vec<InputEvent>,
    players: &mut Vec<ControlBody>,
)
    ensures
        final(players)@.len() == old(players)@.len(),
        control_state(*final(impulse_cooldown), final(players)@) == control_state(
            *old(impulse_cooldown),
            old(players)@,
        ).ticked(delta as nat).after_all(*constants, input_events@),
        forall|i: int|
            0 <= i < final(players)@.len() && old(players)@[i]@.wf() ==> (
            #[trigger] final(players)@[i]@).wf(),
{
    impulse_cooldown.tick(delta);
    let ghost start = control_state(*impulse_cooldown, players@);
    let mut index: usize = 0;
    while index < input_events.len()
        invariant
            index <= input_events@.len(),
            players@.len() == old(players)@.len(),
            forall|i: int|
                0 <= i < players@.len() && old(players)@[i]@.wf() ==> (#[trigger] players@[i]@).wf(),
            control_state(*impulse_cooldown, players@) == start.after_all(
                *constants,
                input_events@.take(index as int),
            ),
        decreases input_events@.len() - index,
    {
        let ghost before = control_state(*impulse_cooldown, players@);
        let event = input_events[index];
        let ready = impulse_cooldown.finished();
        match event {
            InputEvent::Impulse { .. } | InputEvent::Accelerate => {
                if ready {
                    impulse_cooldown.start();
                }
            },
            _ => {},
        }
        apply_to_all(constants, ready, &event, players);
        proof {
            let events = input_events@.take(index + 1);
            assert(events.drop_last() == input_events@.take(index as int));
            assert(body_views(players@) =~= before.after(*constants, event).bodies);
        }
        index = index + 1;
    }
    assert(input_events@.take(index as int) == input_events@);
}

/// One tick of the simulation: cancels the forces of the tick before,
/// advances the shared cooldown by `delta` nanoseconds and applies the input
/// events, in order, to every body.
pub fn step(
    constants: &Constants,
    impulse_cooldown: &mut Cooldown,
    delta: u128,
    input_events: &Vec<InputEvent>,
    players: &mut Vec<ControlBody>,
)
    ensures
        final(players)@.len() == old(players)@.len(),
        control_state(*final(impulse_cooldown), final(players)@) == control_state(
            *old(impulse_cooldown),
            old(players)@,
        ).step(*constants, delta as nat, input_events@),
        forall|i: int| 0 <= i < final(players)@.len() ==> (#[trigger] final(players)@[i]@).wf(),
{
    cancel_force(players);
    assert(body_views(players@) =~= control_state(
        *impulse_cooldown,
        old(players)@,
    ).without_forces().bodies);
    apply_forces(constants, impulse_cooldown, delta, input_events, players);
}

/// The events leave the number of bodies as it is, and a well-formed state
/// stays well formed: no heat leaves its bounds.
pub proof fn lemma_after_all_keeps_shape(
    state: ControlState,
    constants: Constants,
    events: Seq<InputEvent>,
)
    ensures
        state.after_all(constants, events).bodies.len() == state.bodies.len(),
        state.after_all(constants, events).cooldown.duration == state.cooldown.duration,
        state.wf() ==> state.after_all(constants, events).wf(),
    decreases events.len(),
{
    if events.len() > 0 {
        lemma_after_all_keeps_shape(state, constants, events.drop_last());
    }
}

/// A single event, applied as a sequence, is that event applied.
pub proof fn lemma_after_one(state: ControlState, constants: Constants, event: InputEvent)
    ensures
        state.after_all(constants, seq![event]) == state.after(constants, event),
{
    let events = seq![event];
    assert(state.after_all(constants, events.drop_last()) == state);
}

/// While the shared cooldown is not ready, an impulse or a boost is dropped:
/// it changes neither the cooldown nor any body.
pub proof fn lemma_gated_event_is_dropped(
    state: ControlState,
    constants: Constants,
    event: InputEvent,
)
    requires
        ControlState::gated(event),
        !state.cooldown.ready(),
    ensures
        state.after(constants, event) == state,
{
    assert(state.after(constants, event).bodies =~= state.bodies);
}

/// Impulses and boosts share the cooldown. When an impulse fires on a ready
/// cooldown of positive duration, every body gets the impulse along the
/// direction, and a boost that follows is dropped: in the same tick, and in
/// a later tick that comes less than the duration after.
pub proof fn lemma_boost_after_impulse_is_dropped(
    state: ControlState,
    constants: Constants,
    direction: Vec2,
    delta: nat,
)
    requires
        state.cooldown.wf(),
        state.cooldown.ready(),
        delta < state.cooldown.duration,
    ensures
        ({
            let impulse = InputEvent::Impulse { direction };
            let fired = state.after(constants, impulse);
            &&& fired.cooldown == state.cooldown.start()
            &&& fired.bodies.len() == state.bodies.len()
            &&& forall|i: int|
                #![trigger fired.bodies[i]]
                0 <= i < fired.bodies.len() ==> {
                    &&& fired.bodies[i].impulse == direction@.scale(constants.impulse_value as int)
                    &&& fired.bodies[i].heat == clamp_heat(
                        state.bodies[i].heat + constants.heat_increase,
                    )
                }
            &&& state.after_all(constants, seq![impulse, InputEvent::Accelerate]) == fired
            &&& fired.step(constants, delta, seq![InputEvent::Accelerate])
                == fired.without_forces().ticked(delta)
        }),
{
    let impulse = InputEvent::Impulse { direction };
    let boost = InputEvent::Accelerate;
    let fired = state.after(constants, impulse);
    lemma_gated_event_is_dropped(fired, constants, boost);
    let both = seq![impulse, boost];
    assert(both.drop_last() =~= seq![impulse]);
    lemma_after_one(state, constants, impulse);
    let later = fired.without_forces().ticked(delta);
    lemma_gated_event_is_dropped(later, constants, boost);
    lemma_after_one(later, constants, boost);
}

/// Braking is never gated: whatever the state of the cooldown, it sets the
/// braking damping on every body, takes the body's heat to zero, and leaves
/// the cooldown alone.
pub proof fn lemma_stabilisation_always_applies(state: ControlState, constants: Constants)
    ensures
        ({
            let braked = state.after(constants, InputEvent::Stabilisation);
            &&& braked.cooldown == state.cooldown
            &&& braked.bodies.len() == state.bodies.len()
            &&& forall|i: int|
                #![trigger braked.bodies[i]]
                0 <= i < braked.bodies.len() ==> {
                    &&& braked.bodies[i].damping == constants.stabilisation_damping
                    &&& braked.bodies[i].heat == clamp_heat(state.bodies[i].heat - HEAT_MAX)
                    &&& braked.bodies[i].heat <= state.bodies[i].heat || braked.bodies[i].heat == 0
                    &&& state.bodies[i].wf() ==> braked.bodies[i].heat == 0
                }
        }),
{
}

/// A sustained force is never gated either: whatever the state of the
/// cooldown, it sets the default damping and the force along the direction
/// on every body.
pub proof fn lemma_force_always_applies(
    state: ControlState,
    constants: Constants,
    direction: Vec2,
)
    ensures
        ({
            let pushed = state.after(constants, InputEvent::Force { direction });
            &&& pushed.cooldown == state.cooldown
            &&& pushed.bodies.len() == state.bodies.len()
            &&& forall|i: int|
                #![trigger pushed.bodies[i]]
                0 <= i < pushed.bodies.len() ==> {
                    &&& pushed.bodies[i].damping == constants.default_damping
                    &&& pushed.bodies[i].force == direction@.scale(constants.force_value as int)
                }
        }),
{
}

/// Events other than a force leave the force request of every body as it is.
proof fn lemma_force_kept_without_force_event(
    state: ControlState,
    constants: Constants,
    events: Seq<InputEvent>,
)
    requires
        forall|k: int| 0 <= k < events.len() ==> !(events[k] is Force),
    ensures
        state.after_all(constants, events).bodies.len() == state.bodies.len(),
        forall|i: int|
            0 <= i < state.bodies.len() ==> (#[trigger] state.after_all(
                constants,
                events,
            ).bodies[i]).force == state.bodies[i].force,
    decreases events.len(),
{
    if events.len() > 0 {
        lemma_force_kept_without_force_event(state, constants, events.drop_last());
    }
}

/// Forces do not linger: after a tick without a force event, no body has a
/// force request, whatever was requested in the tick before.
pub proof fn lemma_force_cleared_without_force_event(
    state: ControlState,
    constants: Constants,
    delta: nat,
    events: Seq<InputEvent>,
)
    requires
        forall|k: int| 0 <= k < events.len() ==> !(events[k] is Force),
    ensures
        state.step(constants, delta, events).bodies.len() == state.bodies.len(),
        forall|i: int|
            0 <= i < state.bodies.len() ==> (#[trigger] state.step(
                constants,
                delta,
                events,
            ).bodies[i]).force == Vector::zero(),
{
    lemma_force_kept_without_force_event(
        state.without_forces().ticked(delta),
        constants,
        events,
    );
}

/// While the shared cooldown runs, nothing gets through it: whatever the
/// events of a tick are, they leave the cooldown and the impulse request of
/// every body as they were.
pub proof fn lemma_no_impulse_while_cooling(
    state: ControlState,
    constants: Constants,
    events: Seq<InputEvent>,
)
    requires
        !state.cooldown.ready(),
    ensures
        state.after_all(constants, events).cooldown == state.cooldown,
        state.after_all(constants, events).bodies.len() == state.bodies.len(),
        forall|i: int|
            0 <= i < state.bodies.len() ==> (#[trigger] state.after_all(
                constants,
                events,
            ).bodies[i]).impulse == state.bodies[i].impulse,
    decreases events.len(),
{
    if events.len() > 0 {
        lemma_no_impulse_while_cooling(state, constants, events.drop_last());
    }
}

} // verus!
