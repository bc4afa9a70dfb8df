//! The physics world's bookkeeping: which entity owns which collider, which collider pairs
//! are touching, and what the scripts are told when the step reports that a contact or a
//! sensor overlap began or ended.
use vstd::prelude::*;
use crate::components::RigidBodyType;
use crate::graph::vec_contains;

verus! {

/// A collider handle by its raw parts.
#[derive(Debug, Clone, Copy, PartialEq, Eq, Structural)]
pub struct ColliderId {
    pub index: u32,
    pub generation: u32,
}

/// An unordered pair of colliders, stored with the smaller handle first.
#[derive(Debug, Clone, Copy, PartialEq, Eq, Structural)]
pub struct ColliderPair {
    pub first: ColliderId,
    pub second: ColliderId,
}

/// Handles are ordered by slot index, then by generation.
pub open spec fn id_le(a: ColliderId, b: ColliderId) -> bool {
    a.index < b.index || (a.index == b.index && a.generation <= b.generation)
}

pub open spec fn spec_pair_key(a: ColliderId, b: ColliderId) -> ColliderPair {
    if id_le(a, b) {
        ColliderPair { first: a, second: b }
    } else {
        ColliderPair { first: b, second: a }
    }
}

/// The key under which the pair `a`, `b` is tracked.
pub fn collider_pair_key(a: ColliderId, b: ColliderId) -> (k: ColliderPair)
    ensures
        k == spec_pair_key(a, b),
{
    if a.index < b.index || (a.index == b.index && a.generation <= b.generation) {
        ColliderPair { first: a, second: b }
    } else {
        ColliderPair { first: b, second: a }
    }
}

/// The key of a pair does not depend on the order in which its colliders are named.
pub proof fn law_pair_key_symmetric(a: ColliderId, b: ColliderId)
    ensures
        spec_pair_key(a, b) == spec_pair_key(b, a),
{
}

/// Kinematic bodies follow their entity's transform instead of the simulation.
pub open spec fn spec_is_kinematic(t: RigidBodyType) -> bool {
    t == RigidBodyType::KinematicPositionBased || t == RigidBodyType::KinematicVelocityBased
}

pub fn is_kinematic(t: RigidBodyType) -> (b: bool)
    ensures
        b == spec_is_kinematic(t),
{
    match t {
        RigidBodyType::KinematicPositionBased => true,
        RigidBodyType::KinematicVelocityBased => true,
        _ => false,
    }
}

/// One entity registered with the physics world: its body kind and its collider.
#[derive(Debug, Clone, Copy, PartialEq, Eq, Structural)]
pub struct RegisteredBody {
    pub entity: u64,
    pub body_type: RigidBodyType,
    pub collider: ColliderId,
    /// Whether the collider only reports overlaps instead of colliding.
    pub is_sensor: bool,
}

/// Whether a contact or sensor overlap began, lasts, or ended.
#[derive(Debug, Clone, Copy, PartialEq, Eq, Structural)]
pub enum CallbackPhase {
    Enter,
    Stay,
    Exit,
}

/// One call into the scripts: `entity` is told about `other`, through the contact
/// callbacks or, when `sensor` is set, through the sensor callbacks.
#[derive(Debug, Clone, Copy, PartialEq, Eq, Structural)]
pub struct ScriptCallback {
    pub sensor: bool,
    pub phase: CallbackPhase,
    pub entity: u64,
    pub other: u64,
}

/// A collision event reported by a physics step.
#[derive(Debug, Clone, Copy, PartialEq, Eq, Structural)]
pub struct CollisionEvent {
    pub collider1: ColliderId,
    pub collider2: ColliderId,
    /// Whether one of the two colliders is a sensor.
    pub sensor: bool,
    /// Whether the contact began (else it ended).
    pub started: bool,
}

/// The registered body that owns collider `c` (the latest registered, should there be two).
pub open spec fn body_of_collider(bodies: Seq<RegisteredBody>, c: ColliderId) -> Option<RegisteredBody>
    decreases bodies.len(),
{
    if bodies.len() == 0 {
        None
    } else if bodies.last().collider == c {
        Some(bodies.last())
    } else {
        body_of_collider(bodies.drop_last(), c)
    }
}

pub open spec fn spec_entity_for_collider(bodies: Seq<RegisteredBody>, c: ColliderId) -> Option<u64> {
    match body_of_collider(bodies, c) {
        Some(b) => Some(b.entity),
        None => None,
    }
}

pub open spec fn spec_collider_is_sensor(bodies: Seq<RegisteredBody>, c: ColliderId) -> bool {
    match body_of_collider(bodies, c) {
        Some(b) => b.is_sensor,
        None => false,
    }
}

pub open spec fn is_registered(bodies: Seq<RegisteredBody>, entity: u64) -> bool {
    exists|i: int| 0 <= i < bodies.len() && #[trigger] bodies[i].entity == entity
}

pub open spec fn uses_collider(bodies: Seq<RegisteredBody>, c: ColliderId) -> bool {
    exists|i: int| 0 <= i < bodies.len() && #[trigger] bodies[i].collider == c
}

pub open spec fn mentions(p: ColliderPair, c: ColliderId) -> bool {
    p.first == c || p.second == c
}

fn find_body_of_collider(bodies: &Vec<RegisteredBody>, c: ColliderId) -> (r: Option<RegisteredBody>)
    ensures
        r == body_of_collider(bodies@, c),
{
    let mut i: usize = bodies.len();
    assert(bodies@.take(i as int) =~= bodies@);
    while i > 0
        invariant
            i <= bodies@.len(),
            body_of_collider(bodies@, c) == body_of_collider(bodies@.take(i as int), c),
        decreases i,
    {
        let b = bodies[i - 1];
        assert(bodies@.take(i as int).drop_last() =~= bodies@.take(i - 1));
        if b.collider == c {
            return Some(b);
        }
        i = i - 1;
    }
    assert(bodies@.take(0) =~= Seq::<RegisteredBody>::empty());
    None
}

/// The registered body of `entity` (the latest, should there be two).
pub open spec fn body_of_entity(bodies: Seq<RegisteredBody>, entity: u64) -> Option<RegisteredBody>
    decreases bodies.len(),
{
    if bodies.len() == 0 {
        None
    } else if bodies.last().entity == entity {
        Some(bodies.last())
    } else {
        body_of_entity(bodies.drop_last(), entity)
    }
}

pub open spec fn other_entity(entity: u64) -> spec_fn(RegisteredBody) -> bool {
    |b: RegisteredBody| b.entity != entity
}

pub open spec fn not_touching(c: ColliderId) -> spec_fn(ColliderPair) -> bool {
    |p: ColliderPair| !mentions(p, c)
}

proof fn lemma_filter_no_duplicates<A>(s: Seq<A>, pred: spec_fn(A) -> bool)
    requires
        s.no_duplicates(),
    ensures
        s.filter(pred).no_duplicates(),
    decreases s.len(),
{
    reveal(Seq::filter);
    if s.len() > 0 {
        let r = s.drop_last();
        assert(r.no_duplicates()) by {
            assert forall|i: int, j: int| 0 <= i < r.len() && 0 <= j < r.len() && i != j implies r[i] != r[j] by {
                assert(r[i] == s[i] && r[j] == s[j]);
            }
        }
        lemma_filter_no_duplicates(r, pred);
        if pred(s.last()) && r.filter(pred).contains(s.last()) {
            r.lemma_filter_contains_rev(pred, s.last());
            let k = choose|k: int| 0 <= k < r.len() && r[k] == s.last();
            assert(s[k] == s[s.len() - 1]);
        }
        assert(s.filter(pred) == if pred(s.last()) { r.filter(pred).push(s.last()) } else { r.filter(pred) });
    }
}

proof fn lemma_filter_keeps_all<A>(s: Seq<A>, pred: spec_fn(A) -> bool)
    requires
        forall|i: int| 0 <= i < s.len() ==> #[trigger] pred(s[i]),
    ensures
        s.filter(pred) == s,
    decreases s.len(),
{
    reveal(Seq::filter);
    if s.len() > 0 {
        let r = s.drop_last();
        assert forall|i: int| 0 <= i < r.len() implies #[trigger] pred(r[i]) by {
            assert(r[i] == s[i]);
        }
        lemma_filter_keeps_all(r, pred);
        assert(pred(s[s.len() - 1]));
        assert(r.push(s.last()) =~= s);
    }
}

proof fn lemma_filter_drops_one<A>(s: Seq<A>, pred: spec_fn(A) -> bool, i: int)
    requires
        0 <= i < s.len(),
        !pred(s[i]),
        forall|j: int| 0 <= j < s.len() && j != i ==> #[trigger] pred(s[j]),
    ensures
        s.filter(pred) == s.remove(i),
    decreases s.len(),
{
    reveal(Seq::filter);
    let r = s.drop_last();
    if i == s.len() - 1 {
        assert forall|j: int| 0 <= j < r.len() implies #[trigger] pred(r[j]) by {
            assert(r[j] == s[j]);
        }
        lemma_filter_keeps_all(r, pred);
        assert(s.remove(i) =~= r);
    } else {
        assert forall|j: int| 0 <= j < r.len() && j != i implies #[trigger] pred(r[j]) by {
            assert(r[j] == s[j]);
        }
        assert(r[i] == s[i]);
        lemma_filter_drops_one(r, pred, i);
        assert(pred(s[s.len() - 1]));
        assert(r.remove(i).push(s.last()) =~= s.remove(i));
    }
}

fn find_entity_index(bodies: &Vec<RegisteredBody>, entity: u64) -> (r: Option<usize>)
    ensures
        match r {
            Some(i) => i < bodies@.len() && bodies@[i as int].entity == entity
                && body_of_entity(bodies@, entity) == Some(bodies@[i as int]),
            None => body_of_entity(bodies@, entity) is None
                && forall|k: int| 0 <= k < bodies@.len() ==> #[trigger] bodies@[k].entity != entity,
        },
{
    let mut i: usize = bodies.len();
    assert(bodies@.take(i as int) =~= bodies@);
    while i > 0
        invariant
            i <= bodies@.len(),
            body_of_entity(bodies@, entity) == body_of_entity(bodies@.take(i as int), entity),
            forall|k: int| i <= k < bodies@.len() ==> #[trigger] bodies@[k].entity != entity,
        decreases i,
    {
        assert(bodies@.take(i as int).drop_last() =~= bodies@.take(i - 1));
        if bodies[i - 1].entity == entity {
            return Some(i - 1);
        }
        i = i - 1;
    }
    assert(bodies@.take(0) =~= Seq::<RegisteredBody>::empty());
    None
}

fn pairs_not_touching(pairs: &Vec<ColliderPair>, c: ColliderId) -> (out: Vec<ColliderPair>)
    ensures
        out@ == pairs@.filter(not_touching(c)),
{
    let mut out: Vec<ColliderPair> = Vec::new();
    let mut i: usize = 0;
    while i < pairs.len()
        invariant
            i <= pairs@.len(),
            out@ == pairs@.take(i as int).filter(not_touching(c)),
        decreases pairs@.len() - i,
    {
        let p = pairs[i];
        proof {
            pairs@.take(i as int).lemma_filter_push(p, not_touching(c));
            assert(pairs@.take(i as int).push(p) =~= pairs@.take(i + 1));
        }
        if !(p.first == c || p.second == c) {
            out.push(p);
        }
        i = i + 1;
    }
    assert(pairs@.take(pairs@.len() as int) =~= pairs@);
    out
}

pub open spec fn entities_of(s: Seq<RegisteredBody>) -> Seq<u64> {
    s.map_values(|b: RegisteredBody| b.entity)
}

pub open spec fn kinematic_body() -> spec_fn(RegisteredBody) -> bool {
    |b: RegisteredBody| spec_is_kinematic(b.body_type)
}

pub open spec fn entity_outside(list: Seq<u64>) -> spec_fn(RegisteredBody) -> bool {
    |b: RegisteredBody| !list.contains(b.entity)
}

pub open spec fn entity_inside(list: Seq<u64>) -> spec_fn(RegisteredBody) -> bool {
    |b: RegisteredBody| list.contains(b.entity)
}

/// Which registered bodies a query picks.
enum Selection {
    Kinematic,
    Outside,
    Inside,
}

spec fn selection_pred(sel: Selection, list: Seq<u64>) -> spec_fn(RegisteredBody) -> bool {
    match sel {
        Selection::Kinematic => kinematic_body(),
        Selection::Outside => entity_outside(list),
        Selection::Inside => entity_inside(list),
    }
}

/// The entities of the bodies that `sel` picks, in registration order.
fn select_entities(bodies: &Vec<RegisteredBody>, list: &Vec<u64>, sel: Selection) -> (out: Vec<u64>)
    ensures
        out@ == entities_of(bodies@.filter(selection_pred(sel, list@))),
{
    let ghost keep = selection_pred(sel, list@);
    let mut out: Vec<u64> = Vec::new();
    let mut i: usize = 0;
    while i < bodies.len()
        invariant
            i <= bodies@.len(),
            keep == selection_pred(sel, list@),
            out@ == entities_of(bodies@.take(i as int).filter(keep)),
        decreases bodies@.len() - i,
    {
        let b = bodies[i];
        proof {
            bodies@.take(i as int).lemma_filter_push(b, keep);
            assert(bodies@.take(i as int).push(b) =~= bodies@.take(i + 1));
        }
        let wanted = match sel {
            Selection::Kinematic => is_kinematic(b.body_type),
            Selection::Outside => !vec_contains(list, b.entity),
            Selection::Inside => vec_contains(list, b.entity),
        };
        if wanted {
            out.push(b.entity);
            proof {
                assert(entities_of(bodies@.take(i as int).filter(keep).push(b)) =~= entities_of(
                    bodies@.take(i as int).filter(keep),
                ).push(b.entity));
            }
        }
        i = i + 1;
    }
    assert(bodies@.take(bodies@.len() as int) =~= bodies@);
    out
}

pub open spec fn spec_entities_for_pair(bodies: Seq<RegisteredBody>, a: ColliderId, b: ColliderId) -> Option<(u64, u64)> {
    match (spec_entity_for_collider(bodies, a), spec_entity_for_collider(bodies, b)) {
        (Some(x), Some(y)) => Some((x, y)),
        _ => None,
    }
}

pub open spec fn call(sensor: bool, phase: CallbackPhase, entity: u64, other: u64) -> ScriptCallback {
    ScriptCallback { sensor, phase, entity, other }
}

/// What the scripts are told of the pair `a`, `b` in `phase`. For a contact both entities
/// hear of each other through the contact callbacks. For a sensor overlap the entity of
/// the sensor collider hears through the contact callbacks and the other one through the
/// sensor callbacks; when both colliders are sensors each hears through both. Nothing is
/// said when one of the colliders has no entity.
pub open spec fn pair_calls(
    bodies: Seq<RegisteredBody>,
    sensor: bool,
    phase: CallbackPhase,
    a: ColliderId,
    b: ColliderId,
) -> Seq<ScriptCallback> {
    match spec_entities_for_pair(bodies, a, b) {
        None => seq![],
        Some((e1, e2)) => if !sensor {
            seq![call(false, phase, e1, e2), call(false, phase, e2, e1)]
        } else {
            let s1 = spec_collider_is_sensor(bodies, a);
            let s2 = spec_collider_is_sensor(bodies, b);
            if s1 && s2 {
                seq![
                    call(false, phase, e1, e2),
                    call(false, phase, e2, e1),
                    call(true, phase, e1, e2),
                    call(true, phase, e2, e1),
                ]
            } else if s1 {
                seq![call(false, phase, e1, e2), call(true, phase, e2, e1)]
            } else if s2 {
                seq![call(false, phase, e2, e1), call(true, phase, e1, e2)]
            } else {
                seq![]
            }
        },
    }
}

pub open spec fn other_pair(k: ColliderPair) -> spec_fn(ColliderPair) -> bool {
    |p: ColliderPair| p != k
}

pub open spec fn with_pair(s: Seq<ColliderPair>, k: ColliderPair) -> Seq<ColliderPair> {
    if s.contains(k) {
        s
    } else {
        s.push(k)
    }
}

pub open spec fn without_pair(s: Seq<ColliderPair>, k: ColliderPair) -> Seq<ColliderPair> {
    s.filter(other_pair(k))
}

pub open spec fn event_phase(started: bool) -> CallbackPhase {
    if started {
        CallbackPhase::Enter
    } else {
        CallbackPhase::Exit
    }
}

/// Whether event `e` is one of the kind tracked in the sensor (or contact) set and is acted
/// on: contact events whose colliders have no entities are passed over.
pub open spec fn counts_for(bodies: Seq<RegisteredBody>, sensor: bool, e: CollisionEvent) -> bool {
    e.sensor == sensor && (sensor || spec_entities_for_pair(bodies, e.collider1, e.collider2) is Some)
}

/// The active pairs of one kind, and the calls sent, after the events of that kind in
/// `events`, taken in order.
pub open spec fn apply_events(
    bodies: Seq<RegisteredBody>,
    sensor: bool,
    pairs: Seq<ColliderPair>,
    events: Seq<CollisionEvent>,
) -> (Seq<ColliderPair>, Seq<ScriptCallback>)
    decreases events.len(),
{
    if events.len() == 0 {
        (pairs, seq![])
    } else {
        let (p, calls) = apply_events(bodies, sensor, pairs, events.drop_last());
        let e = events.last();
        if !counts_for(bodies, sensor, e) {
            (p, calls)
        } else {
            let k = spec_pair_key(e.collider1, e.collider2);
            (
                if e.started { with_pair(p, k) } else { without_pair(p, k) },
                calls + pair_calls(bodies, sensor, event_phase(e.started), e.collider1, e.collider2),
            )
        }
    }
}

/// The calls for the pairs of `now` that were already active (`before`), in the order of `now`.
pub open spec fn stay_calls(
    bodies: Seq<RegisteredBody>,
    sensor: bool,
    now: Seq<ColliderPair>,
    before: Seq<ColliderPair>,
) -> Seq<ScriptCallback>
    decreases now.len(),
{
    if now.len() == 0 {
        seq![]
    } else {
        let rest = stay_calls(bodies, sensor, now.drop_last(), before);
        let k = now.last();
        if before.contains(k) {
            rest + pair_calls(bodies, sensor, CallbackPhase::Stay, k.first, k.second)
        } else {
            rest
        }
    }
}

/// The contact pairs, the sensor pairs, and the calls after one step's events: the calls for
/// contact events, then those for lasting contacts, then those for sensor events, then those
/// for lasting sensor overlaps.
pub open spec fn spec_dispatch(
    bodies: Seq<RegisteredBody>,
    contacts: Seq<ColliderPair>,
    sensors: Seq<ColliderPair>,
    events: Seq<CollisionEvent>,
) -> (Seq<ColliderPair>, Seq<ColliderPair>, Seq<ScriptCallback>) {
    let (c, contact_calls) = apply_events(bodies, false, contacts, events);
    let (s, sensor_calls) = apply_events(bodies, true, sensors, events);
    (c, s, contact_calls + stay_calls(bodies, false, c, contacts) + sensor_calls + stay_calls(
        bodies,
        true,
        s,
        sensors,
    ))
}

proof fn lemma_without_pair_contains(s: Seq<ColliderPair>, k: ColliderPair, q: ColliderPair)
    ensures
        without_pair(s, k).contains(q) == (s.contains(q) && q != k),
{
    let f = s.filter(other_pair(k));
    if f.contains(q) {
        s.lemma_filter_contains_rev(other_pair(k), q);
        let i = choose|i: int| 0 <= i < f.len() && f[i] == q;
        s.lemma_filter_pred(other_pair(k), i);
    }
    if s.contains(q) && q != k {
        let i = choose|i: int| 0 <= i < s.len() && s[i] == q;
        s.lemma_filter_contains(other_pair(k), i);
    }
}

/// The last event among `events` that is acted on for pair `k` in the set of the given kind:
/// `Some(started)`, or `None` when no event touches the pair.
pub open spec fn last_word(
    bodies: Seq<RegisteredBody>,
    sensor: bool,
    events: Seq<CollisionEvent>,
    k: ColliderPair,
) -> Option<bool>
    decreases events.len(),
{
    if events.len() == 0 {
        None
    } else if counts_for(bodies, sensor, events.last()) && spec_pair_key(
        events.last().collider1,
        events.last().collider2,
    ) == k {
        Some(events.last().started)
    } else {
        last_word(bodies, sensor, events.drop_last(), k)
    }
}

/// After a step, a pair is active exactly when the last event acted on for it says the
/// contact began; a pair that no event touches keeps its state.
pub proof fn law_last_event_decides(
    bodies: Seq<RegisteredBody>,
    sensor: bool,
    pairs: Seq<ColliderPair>,
    events: Seq<CollisionEvent>,
    k: ColliderPair,
)
    ensures
        apply_events(bodies, sensor, pairs, events).0.contains(k) == match last_word(bodies, sensor, events, k) {
            Some(started) => started,
            None => pairs.contains(k),
        },
    decreases events.len(),
{
    if events.len() > 0 {
        law_last_event_decides(bodies, sensor, pairs, events.drop_last(), k);
        let p = apply_events(bodies, sensor, pairs, events.drop_last()).0;
        let e = events.last();
        if counts_for(bodies, sensor, e) {
            let key = spec_pair_key(e.collider1, e.collider2);
            if e.started {
                if !p.contains(key) {
                    assert(p.push(key)[p.len() as int] == key);
                    if p.contains(k) {
                        let i = choose|i: int| 0 <= i < p.len() && p[i] == k;
                        assert(p.push(key)[i] == k);
                    }
                }
            } else {
                lemma_without_pair_contains(p, key, k);
            }
        }
    }
}

/// Once an entity's body is removed, no active pair involves its collider.
pub proof fn law_removed_collider_has_no_pairs(pairs: Seq<ColliderPair>, c: ColliderId, q: ColliderPair)
    requires
        pairs.filter(not_touching(c)).contains(q),
    ensures
        !mentions(q, c),
{
    let f = pairs.filter(not_touching(c));
    let i = choose|i: int| 0 <= i < f.len() && f[i] == q;
    pairs.lemma_filter_pred(not_touching(c), i);
}

/// Every lasting-phase call for pair `k` is among the stay calls when `k` is active both
/// before and now.
proof fn lemma_stay_calls_include(
    bodies: Seq<RegisteredBody>,
    sensor: bool,
    now: Seq<ColliderPair>,
    before: Seq<ColliderPair>,
    k: ColliderPair,
    c: ScriptCallback,
)
    requires
        now.contains(k),
        before.contains(k),
        pair_calls(bodies, sensor, CallbackPhase::Stay, k.first, k.second).contains(c),
    ensures
        stay_calls(bodies, sensor, now, before).contains(c),
    decreases now.len(),
{
    let rest = stay_calls(bodies, sensor, now.drop_last(), before);
    let last = now.last();
    let pc = pair_calls(bodies, sensor, CallbackPhase::Stay, last.first, last.second);
    if last == k {
        let j = choose|j: int| 0 <= j < pc.len() && pc[j] == c;
        assert((rest + pc)[rest.len() + j] == c);
    } else {
        let i = choose|i: int| 0 <= i < now.len() && now[i] == k;
        assert(i < now.len() - 1);
        assert(now.drop_last()[i] == k);
        lemma_stay_calls_include(bodies, sensor, now.drop_last(), before, k, c);
        if before.contains(last) {
            let j = choose|j: int| 0 <= j < rest.len() && rest[j] == c;
            assert((rest + pc)[j] == c);
        }
    }
}

/// A sensor overlap that lasts through a step (active before it and after it) is reported
/// as lasting in that step: the entity of the sensor collider hears of the other entity
/// through the contact callback, and the other entity hears of it through the sensor
/// callback.
pub proof fn law_lasting_sensor_overlap_stays(
    bodies: Seq<RegisteredBody>,
    contacts: Seq<ColliderPair>,
    sensors: Seq<ColliderPair>,
    events: Seq<CollisionEvent>,
    k: ColliderPair,
    e1: u64,
    e2: u64,
)
    requires
        sensors.contains(k),
        spec_dispatch(bodies, contacts, sensors, events).1.contains(k),
        spec_entity_for_collider(bodies, k.first) == Some(e1),
        spec_entity_for_collider(bodies, k.second) == Some(e2),
    ensures
        spec_collider_is_sensor(bodies, k.first) ==> spec_dispatch(bodies, contacts, sensors, events).2.contains(
            ScriptCallback { sensor: false, phase: CallbackPhase::Stay, entity: e1, other: e2 },
        ) && spec_dispatch(bodies, contacts, sensors, events).2.contains(
            ScriptCallback { sensor: true, phase: CallbackPhase::Stay, entity: e2, other: e1 },
        ),
        spec_collider_is_sensor(bodies, k.second) ==> spec_dispatch(bodies, contacts, sensors, events).2.contains(
            ScriptCallback { sensor: false, phase: CallbackPhase::Stay, entity: e2, other: e1 },
        ) && spec_dispatch(bodies, contacts, sensors, events).2.contains(
            ScriptCallback { sensor: true, phase: CallbackPhase::Stay, entity: e1, other: e2 },
        ),
{
    let (c, contact_calls) = apply_events(bodies, false, contacts, events);
    let (s, sensor_calls) = apply_events(bodies, true, sensors, events);
    let head = contact_calls + stay_calls(bodies, false, c, contacts) + sensor_calls;
    let tail = stay_calls(bodies, true, s, sensors);
    let all = spec_dispatch(bodies, contacts, sensors, events).2;
    assert(all == head + tail);
    let pc = pair_calls(bodies, true, CallbackPhase::Stay, k.first, k.second);
    assert forall|x: ScriptCallback| pc.contains(x) implies all.contains(x) by {
        lemma_stay_calls_include(bodies, true, s, sensors, k, x);
        let j = choose|j: int| 0 <= j < tail.len() && tail[j] == x;
        assert((head + tail)[head.len() + j] == x);
    }
    let s1 = spec_collider_is_sensor(bodies, k.first);
    let s2 = spec_collider_is_sensor(bodies, k.second);
    if s1 && s2 {
        assert(pc[0] == call(false, CallbackPhase::Stay, e1, e2));
        assert(pc[1] == call(false, CallbackPhase::Stay, e2, e1));
        assert(pc[2] == call(true, CallbackPhase::Stay, e1, e2));
        assert(pc[3] == call(true, CallbackPhase::Stay, e2, e1));
        assert(pc.contains(pc[0]) && pc.contains(pc[1]) && pc.contains(pc[2]) && pc.contains(pc[3]));
    } else if s1 {
        assert(pc[0] == call(false, CallbackPhase::Stay, e1, e2));
        assert(pc[1] == call(true, CallbackPhase::Stay, e2, e1));
        assert(pc.contains(pc[0]) && pc.contains(pc[1]));
    } else if s2 {
        assert(pc[0] == call(false, CallbackPhase::Stay, e2, e1));
        assert(pc[1] == call(true, CallbackPhase::Stay, e1, e2));
        assert(pc.contains(pc[0]) && pc.contains(pc[1]));
    }
}

/// A contact that lasts through a step (active before it and after it) is reported to both
/// of its entities as lasting in that step, through the contact callbacks.
pub proof fn law_lasting_contact_stays(
    bodies: Seq<RegisteredBody>,
    contacts: Seq<ColliderPair>,
    sensors: Seq<ColliderPair>,
    events: Seq<CollisionEvent>,
    k: ColliderPair,
    e1: u64,
    e2: u64,
)
    requires
        contacts.contains(k),
        spec_dispatch(bodies, contacts, sensors, events).0.contains(k),
        spec_entity_for_collider(bodies, k.first) == Some(e1),
        spec_entity_for_collider(bodies, k.second) == Some(e2),
    ensures
        spec_dispatch(bodies, contacts, sensors, events).2.contains(
            ScriptCallback { sensor: false, phase: CallbackPhase::Stay, entity: e1, other: e2 },
        ),
        spec_dispatch(bodies, contacts, sensors, events).2.contains(
            ScriptCallback { sensor: false, phase: CallbackPhase::Stay, entity: e2, other: e1 },
        ),
{
    let (c, contact_calls) = apply_events(bodies, false, contacts, events);
    let (s, sensor_calls) = apply_events(bodies, true, sensors, events);
    let mid = stay_calls(bodies, false, c, contacts);
    let all = spec_dispatch(bodies, contacts, sensors, events).2;
    let rest = sensor_calls + stay_calls(bodies, true, s, sensors);
    assert(all =~= contact_calls + mid + rest);
    let pc = pair_calls(bodies, false, CallbackPhase::Stay, k.first, k.second);
    assert(pc[0] == call(false, CallbackPhase::Stay, e1, e2));
    assert(pc[1] == call(false, CallbackPhase::Stay, e2, e1));
    assert forall|x: ScriptCallback| pc.contains(x) implies all.contains(x) by {
        lemma_stay_calls_include(bodies, false, c, contacts, k, x);
        let j = choose|j: int| 0 <= j < mid.len() && mid[j] == x;
        assert((contact_calls + mid + rest)[contact_calls.len() + j] == x);
    }
    assert(pc.contains(pc[0]) && pc.contains(pc[1]));
}

pub open spec fn mirror(c: ScriptCallback) -> ScriptCallback {
    ScriptCallback { sensor: c.sensor, phase: c.phase, entity: c.other, other: c.entity }
}

/// Every call is matched by one that tells the other entity the same thing.
pub open spec fn mirrored(calls: Seq<ScriptCallback>) -> bool {
    forall|i: int| 0 <= i < calls.len() ==> calls.contains(mirror(#[trigger] calls[i]))
}

proof fn lemma_concat_mirrored(a: Seq<ScriptCallback>, b: Seq<ScriptCallback>)
    requires
        mirrored(a),
        mirrored(b),
    ensures
        mirrored(a + b),
{
    let s = a + b;
    assert forall|i: int| 0 <= i < s.len() implies s.contains(mirror(#[trigger] s[i])) by {
        if i < a.len() {
            assert(s[i] == a[i]);
            let j = choose|j: int| 0 <= j < a.len() && a[j] == mirror(a[i]);
            assert(s[j] == a[j]);
        } else {
            let ib = i - a.len();
            assert(s[i] == b[ib]);
            let j = choose|j: int| 0 <= j < b.len() && b[j] == mirror(b[ib]);
            assert(s[j + a.len()] == b[j]);
        }
    }
}

proof fn lemma_contact_pair_calls_mirrored(bodies: Seq<RegisteredBody>, phase: CallbackPhase, a: ColliderId, b: ColliderId)
    ensures
        mirrored(pair_calls(bodies, false, phase, a, b)),
{
    let s = pair_calls(bodies, false, phase, a, b);
    if s.len() > 0 {
        assert(s[0] == mirror(s[1]) && s[1] == mirror(s[0]));
    }
}

/// Both entities of a contact are told of it: every contact call, whether for a contact
/// that began, lasts or ended, is matched by the call that tells the other entity.
pub proof fn law_contact_calls_are_mirrored(
    bodies: Seq<RegisteredBody>,
    pairs: Seq<ColliderPair>,
    events: Seq<CollisionEvent>,
    now: Seq<ColliderPair>,
)
    ensures
        mirrored(apply_events(bodies, false, pairs, events).1),
        mirrored(stay_calls(bodies, false, now, pairs)),
    decreases events.len() + now.len(),
{
    if events.len() > 0 {
        law_contact_calls_are_mirrored(bodies, pairs, events.drop_last(), seq![]);
        let e = events.last();
        if counts_for(bodies, false, e) {
            lemma_contact_pair_calls_mirrored(bodies, event_phase(e.started), e.collider1, e.collider2);
            lemma_concat_mirrored(
                apply_events(bodies, false, pairs, events.drop_last()).1,
                pair_calls(bodies, false, event_phase(e.started), e.collider1, e.collider2),
            );
        }
    }
    if now.len() > 0 {
        law_contact_calls_are_mirrored(bodies, pairs, seq![], now.drop_last());
        let k = now.last();
        if pairs.contains(k) {
            lemma_contact_pair_calls_mirrored(bodies, CallbackPhase::Stay, k.first, k.second);
            lemma_concat_mirrored(
                stay_calls(bodies, false, now.drop_last(), pairs),
                pair_calls(bodies, false, CallbackPhase::Stay, k.first, k.second),
            );
        }
    }
}

fn entity_of(bodies: &Vec<RegisteredBody>, c: ColliderId) -> (e: Option<u64>)
    ensures
        e == spec_entity_for_collider(bodies@, c),
{
    match find_body_of_collider(bodies, c) {
        Some(b) => Some(b.entity),
        None => None,
    }
}

fn sensor_of(bodies: &Vec<RegisteredBody>, c: ColliderId) -> (s: bool)
    ensures
        s == spec_collider_is_sensor(bodies@, c),
{
    match find_body_of_collider(bodies, c) {
        Some(b) => b.is_sensor,
        None => false,
    }
}

fn push_pair_calls(
    bodies: &Vec<RegisteredBody>,
    sensor: bool,
    phase: CallbackPhase,
    a: ColliderId,
    b: ColliderId,
    out: &mut Vec<ScriptCallback>,
)
    ensures
        final(out)@ == old(out)@ + pair_calls(bodies@, sensor, phase, a, b),
{
    let (e1, e2) = match (entity_of(bodies, a), entity_of(bodies, b)) {
        (Some(x), Some(y)) => (x, y),
        _ => {
            assert(old(out)@ + pair_calls(bodies@, sensor, phase, a, b) =~= old(out)@);
            return;
        },
    };
    if !sensor {
        out.push(ScriptCallback { sensor: false, phase, entity: e1, other: e2 });
        out.push(ScriptCallback { sensor: false, phase, entity: e2, other: e1 });
        assert(out@ =~= old(out)@ + pair_calls(bodies@, sensor, phase, a, b));
        return;
    }
    let s1 = sensor_of(bodies, a);
    let s2 = sensor_of(bodies, b);
    if s1 && s2 {
        out.push(ScriptCallback { sensor: false, phase, entity: e1, other: e2 });
        out.push(ScriptCallback { sensor: false, phase, entity: e2, other: e1 });
        out.push(ScriptCallback { sensor: true, phase, entity: e1, other: e2 });
        out.push(ScriptCallback { sensor: true, phase, entity: e2, other: e1 });
    } else if s1 {
        out.push(ScriptCallback { sensor: false, phase, entity: e1, other: e2 });
        out.push(ScriptCallback { sensor: true, phase, entity: e2, other: e1 });
    } else if s2 {
        out.push(ScriptCallback { sensor: false, phase, entity: e2, other: e1 });
        out.push(ScriptCallback { sensor: true, phase, entity: e1, other: e2 });
    }
    assert(out@ =~= old(out)@ + pair_calls(bodies@, sensor, phase, a, b));
}

fn pairs_contain(pairs: &Vec<ColliderPair>, k: ColliderPair) -> (b: bool)
    ensures
        b == pairs@.contains(k),
{
    let mut i: usize = 0;
    while i < pairs.len()
        invariant
            i <= pairs@.len(),
            forall|j: int| 0 <= j < i ==> pairs@[j] != k,
        decreases pairs@.len() - i,
    {
        if pairs[i] == k {
            return true;
        }
        i = i + 1;
    }
    false
}

fn insert_pair(pairs: &mut Vec<ColliderPair>, k: ColliderPair)
    ensures
        final(pairs)@ == with_pair(old(pairs)@, k),
        old(pairs)@.no_duplicates() ==> final(pairs)@.no_duplicates(),
{
    if !pairs_contain(pairs, k) {
        pairs.push(k);
        proof {
            let s = pairs@;
            assert forall|i: int, j: int| 0 <= i < s.len() && 0 <= j < s.len() && i != j && old(pairs)@.no_duplicates()
                implies s[i] != s[j] by {
                if i == s.len() - 1 {
                    assert(old(pairs)@[j] == s[j]);
                } else if j == s.len() - 1 {
                    assert(old(pairs)@[i] == s[i]);
                } else {
                    assert(old(pairs)@[i] == s[i] && old(pairs)@[j] == s[j]);
                }
            }
        }
    }
}

fn remove_pair(pairs: &mut Vec<ColliderPair>, k: ColliderPair)
    ensures
        final(pairs)@ == without_pair(old(pairs)@, k),
        old(pairs)@.no_duplicates() ==> final(pairs)@.no_duplicates(),
{
    let mut out: Vec<ColliderPair> = Vec::new();
    let mut i: usize = 0;
    while i < pairs.len()
        invariant
            i <= pairs@.len(),
            pairs@ == old(pairs)@,
            out@ == pairs@.take(i as int).filter(other_pair(k)),
        decreases pairs@.len() - i,
    {
        let p = pairs[i];
        proof {
            pairs@.take(i as int).lemma_filter_push(p, other_pair(k));
            assert(pairs@.take(i as int).push(p) =~= pairs@.take(i + 1));
        }
        if p != k {
            out.push(p);
        }
        i = i + 1;
    }
    assert(pairs@.take(pairs@.len() as int) =~= pairs@);
    proof {
        if old(pairs)@.no_duplicates() {
            lemma_filter_no_duplicates(old(pairs)@, other_pair(k));
        }
    }
    *pairs = out;
}

fn apply_events_to(
    bodies: &Vec<RegisteredBody>,
    sensor: bool,
    pairs: &mut Vec<ColliderPair>,
    events: &Vec<CollisionEvent>,
    out: &mut Vec<ScriptCallback>,
)
    requires
        old(pairs)@.no_duplicates(),
    ensures
        final(pairs)@ == apply_events(bodies@, sensor, old(pairs)@, events@).0,
        final(out)@ == old(out)@ + apply_events(bodies@, sensor, old(pairs)@, events@).1,
        final(pairs)@.no_duplicates(),
{
    let ghost pairs0 = pairs@;
    let ghost out0 = out@;
    let mut i: usize = 0;
    assert(events@.take(0) =~= Seq::<CollisionEvent>::empty());
    assert(out0 + Seq::<ScriptCallback>::empty() =~= out0);
    while i < events.len()
        invariant
            i <= events@.len(),
            pairs@ == apply_events(bodies@, sensor, pairs0, events@.take(i as int)).0,
            out@ == out0 + apply_events(bodies@, sensor, pairs0, events@.take(i as int)).1,
            pairs@.no_duplicates(),
        decreases events@.len() - i,
    {
        let e = events[i];
        let ghost prev = apply_events(bodies@, sensor, pairs0, events@.take(i as int));
        assert(events@.take(i + 1).drop_last() =~= events@.take(i as int));
        assert(events@.take(i + 1).last() == e);
        if e.sensor == sensor {
            let known = if sensor {
                true
            } else {
                entity_of(bodies, e.collider1).is_some() && entity_of(bodies, e.collider2).is_some()
            };
            if known {
                let k = collider_pair_key(e.collider1, e.collider2);
                let phase = if e.started { CallbackPhase::Enter } else { CallbackPhase::Exit };
                if e.started {
                    insert_pair(pairs, k);
                } else {
                    remove_pair(pairs, k);
                }
                push_pair_calls(bodies, sensor, phase, e.collider1, e.collider2, out);
                assert(out@ =~= out0 + (prev.1 + pair_calls(bodies@, sensor, event_phase(e.started), e.collider1, e.collider2)));
            }
        }
        i = i + 1;
    }
    assert(events@.take(events@.len() as int) =~= events@);
}

fn push_stay_calls(
    bodies: &Vec<RegisteredBody>,
    sensor: bool,
    now: &Vec<ColliderPair>,
    before: &Vec<ColliderPair>,
    out: &mut Vec<ScriptCallback>,
)
    ensures
        final(out)@ == old(out)@ + stay_calls(bodies@, sensor, now@, before@),
{
    let ghost out0 = out@;
    let mut i: usize = 0;
    assert(now@.take(0) =~= Seq::<ColliderPair>::empty());
    assert(out0 + Seq::<ScriptCallback>::empty() =~= out0);
    while i < now.len()
        invariant
            i <= now@.len(),
            out@ == out0 + stay_calls(bodies@, sensor, now@.take(i as int), before@),
        decreases now@.len() - i,
    {
        let k = now[i];
        let ghost prev = stay_calls(bodies@, sensor, now@.take(i as int), before@);
        assert(now@.take(i + 1).drop_last() =~= now@.take(i as int));
        assert(now@.take(i + 1).last() == k);
        if pairs_contain(before, k) {
            push_pair_calls(bodies, sensor, CallbackPhase::Stay, k.first, k.second, out);
            assert(out@ =~= out0 + (prev + pair_calls(bodies@, sensor, CallbackPhase::Stay, k.first, k.second)));
        }
        i = i + 1;
    }
    assert(now@.take(now@.len() as int) =~= now@);
}

/// The bodies registered with the physics world and the collider pairs now in contact.
pub struct BodyRegistry {
    pub bodies: Vec<RegisteredBody>,
    /// Pairs of non-sensor colliders that are touching.
    pub contact_pairs: Vec<ColliderPair>,
    /// Pairs with a sensor that overlap.
    pub sensor_pairs: Vec<ColliderPair>,
}

impl BodyRegistry {
    /// Each entity and each collider is registered once, and each active pair listed once.
    pub open spec fn wf(&self) -> bool {
        &&& forall|i: int, j: int| 0 <= i < j < self.bodies@.len()
            ==> #[trigger] self.bodies@[i].entity != #[trigger] self.bodies@[j].entity
        &&& forall|i: int, j: int| 0 <= i < j < self.bodies@.len()
            ==> #[trigger] self.bodies@[i].collider != #[trigger] self.bodies@[j].collider
        &&& self.contact_pairs@.no_duplicates()
        &&& self.sensor_pairs@.no_duplicates()
    }

    /// A registry with nothing in it.
    pub fn new() -> (r: BodyRegistry)
        ensures
            r.wf(),
            r.bodies@.len() == 0,
            r.contact_pairs@.len() == 0,
            r.sensor_pairs@.len() == 0,
    {
        BodyRegistry { bodies: Vec::new(), contact_pairs: Vec::new(), sensor_pairs: Vec::new() }
    }

    /// Whether `entity` already has a body.
    pub fn contains_entity(&self, entity: u64) -> (b: bool)
        ensures
            b == is_registered(self.bodies@, entity),
    {
        let mut i: usize = 0;
        while i < self.bodies.len()
            invariant
                i <= self.bodies@.len(),
                forall|k: int| 0 <= k < i ==> #[trigger] self.bodies@[k].entity != entity,
            decreases self.bodies@.len() - i,
        {
            if self.bodies[i].entity == entity {
                return true;
            }
            i = i + 1;
        }
        false
    }

    /// Records the body of `body.entity`, unless that entity already has one. The collider
    /// is the one the physics world has just created for it, so no registered body uses it.
    pub fn register_entity(&mut self, body: RegisteredBody)
        requires
            old(self).wf(),
            !is_registered(old(self).bodies@, body.entity) ==> !uses_collider(old(self).bodies@, body.collider),
        ensures
            final(self).wf(),
            final(self).bodies@ == if is_registered(old(self).bodies@, body.entity) {
                old(self).bodies@
            } else {
                old(self).bodies@.push(body)
            },
            final(self).contact_pairs@ == old(self).contact_pairs@,
            final(self).sensor_pairs@ == old(self).sensor_pairs@,
    {
        if self.contains_entity(body.entity) {
            return;
        }
        self.bodies.push(body);
        proof {
            let b = self.bodies@;
            assert forall|i: int, j: int| 0 <= i < j < b.len() implies #[trigger] b[i].entity != #[trigger] b[j].entity by {
                if j == b.len() - 1 {
                    assert(b[i] == old(self).bodies@[i]);
                }
            }
            assert forall|i: int, j: int| 0 <= i < j < b.len() implies #[trigger] b[i].collider != #[trigger] b[j].collider by {
                if j == b.len() - 1 {
                    assert(b[i] == old(self).bodies@[i]);
                }
            }
        }
    }

    /// Forgets the body of `entity`, with every active pair that involves its collider.
    /// Nothing changes when the entity has no body.
    pub fn remove_entity(&mut self, entity: u64)
        requires
            old(self).wf(),
        ensures
            final(self).wf(),
            match body_of_entity(old(self).bodies@, entity) {
                None => final(self).bodies@ == old(self).bodies@
                    && final(self).contact_pairs@ == old(self).contact_pairs@
                    && final(self).sensor_pairs@ == old(self).sensor_pairs@,
                Some(b) => final(self).bodies@ == old(self).bodies@.filter(other_entity(entity))
                    && final(self).contact_pairs@ == old(self).contact_pairs@.filter(not_touching(b.collider))
                    && final(self).sensor_pairs@ == old(self).sensor_pairs@.filter(not_touching(b.collider)),
            },
    {
        let idx = match find_entity_index(&self.bodies, entity) {
            Some(i) => i,
            None => return,
        };
        let c = self.bodies[idx].collider;
        let ghost before = self.bodies@;
        self.bodies.remove(idx);
        proof {
            assert forall|j: int| 0 <= j < before.len() && j != idx implies #[trigger] other_entity(entity)(before[j]) by {
                if j < idx {
                    assert(before[idx as int].entity != before[j].entity);
                } else {
                    assert(before[j].entity != before[idx as int].entity);
                }
            }
            lemma_filter_drops_one(before, other_entity(entity), idx as int);
            let b = self.bodies@;
            assert forall|i: int, j: int| 0 <= i < j < b.len() implies #[trigger] b[i].entity != #[trigger] b[j].entity by {
                let oi = if i < idx { i } else { i + 1 };
                let oj = if j < idx { j } else { j + 1 };
                assert(b[i] == before[oi] && b[j] == before[oj]);
            }
            assert forall|i: int, j: int| 0 <= i < j < b.len() implies #[trigger] b[i].collider != #[trigger] b[j].collider by {
                let oi = if i < idx { i } else { i + 1 };
                let oj = if j < idx { j } else { j + 1 };
                assert(b[i] == before[oi] && b[j] == before[oj]);
            }
            lemma_filter_no_duplicates(self.contact_pairs@, not_touching(c));
            lemma_filter_no_duplicates(self.sensor_pairs@, not_touching(c));
        }
        self.contact_pairs = pairs_not_touching(&self.contact_pairs, c);
        self.sensor_pairs = pairs_not_touching(&self.sensor_pairs, c);
    }

    /// The entities with a kinematic body: their transforms drive the simulation.
    pub fn kinematic_entities(&self) -> (out: Vec<u64>)
        ensures
            out@ == entities_of(self.bodies@.filter(kinematic_body())),
    {
        let none: Vec<u64> = Vec::new();
        select_entities(&self.bodies, &none, Selection::Kinematic)
    }

    /// The registered entities that are not among `active`: their bodies are dropped
    /// before the scene's bodies are registered again.
    pub fn stale_entities(&self, active: &Vec<u64>) -> (out: Vec<u64>)
        ensures
            out@ == entities_of(self.bodies@.filter(entity_outside(active@))),
    {
        select_entities(&self.bodies, active, Selection::Outside)
    }

    /// The registered entities that are among `inactive`: disabled entities leave the simulation.
    pub fn inactive_entities(&self, inactive: &Vec<u64>) -> (out: Vec<u64>)
        ensures
            out@ == entities_of(self.bodies@.filter(entity_inside(inactive@))),
    {
        select_entities(&self.bodies, inactive, Selection::Inside)
    }

    /// Updates the active pairs from one step's collision events and returns what the scripts
    /// are told, in order: contacts that began or ended, contacts that last, sensor overlaps
    /// that began or ended, sensor overlaps that last.
    pub fn dispatch_script_collision_events(&mut self, events: &Vec<CollisionEvent>) -> (calls: Vec<ScriptCallback>)
        requires
            old(self).wf(),
        ensures
            final(self).wf(),
            final(self).bodies@ == old(self).bodies@,
            (final(self).contact_pairs@, final(self).sensor_pairs@, calls@) == spec_dispatch(
                old(self).bodies@,
                old(self).contact_pairs@,
                old(self).sensor_pairs@,
                events@,
            ),
    {
        let previous_contacts = self.contact_pairs.clone();
        let previous_sensors = self.sensor_pairs.clone();
        assert(previous_contacts@ =~= self.contact_pairs@);
        assert(previous_sensors@ =~= self.sensor_pairs@);
        let mut calls: Vec<ScriptCallback> = Vec::new();
        apply_events_to(&self.bodies, false, &mut self.contact_pairs, events, &mut calls);
        push_stay_calls(&self.bodies, false, &self.contact_pairs, &previous_contacts, &mut calls);
        apply_events_to(&self.bodies, true, &mut self.sensor_pairs, events, &mut calls);
        push_stay_calls(&self.bodies, true, &self.sensor_pairs, &previous_sensors, &mut calls);
        calls
    }

    /// The entity whose collider is `c`.
    pub fn entity_for_collider(&self, c: ColliderId) -> (e: Option<u64>)
        ensures
            e == spec_entity_for_collider(self.bodies@, c),
    {
        entity_of(&self.bodies, c)
    }

    /// Whether `c` is a registered sensor collider.
    pub fn collider_is_sensor(&self, c: ColliderId) -> (s: bool)
        ensures
            s == spec_collider_is_sensor(self.bodies@, c),
    {
        sensor_of(&self.bodies, c)
    }
}

} // verus!
