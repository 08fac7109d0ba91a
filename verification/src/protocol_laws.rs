//! What holds of the driver and of the protocol state whatever they are given.

use vstd::prelude::*;
use crate::finality_detector::{lemma_final_blocks_in_a_row, lemma_threshold_is_floor, threshold};
use crate::keyed::as_map;
use crate::outcome::OutcomeView;
use crate::protocol::{finalized_outcomes, ProtocolView};
use crate::state::{unit_conflicts, Block, FaultView, Params, StateView};
use crate::time::Timestamp;
use crate::vertex::{Endorsement, Observation, UnitHash, UnitView, VertexView};

verus! {

/// The standstill alert is raised exactly when the era is under way and the panorama is as it
/// was at the last check.
pub proof fn lemma_standstill_alert(view: ProtocolView, now: Timestamp)
    ensures
        view.standstill_checked(now).1.contains(OutcomeView::StandstillAlert) <==> (
        !view.era_has_ended() && view.last_panorama == view.highway.state.panorama),
{
    let outcomes = view.standstill_checked(now).1;
    if !view.era_has_ended() && view.last_panorama == view.highway.state.panorama {
        assert(outcomes[0] == OutcomeView::StandstillAlert);
    }
}

/// With a threshold that is a share of at most the whole of the total weight, the era is
/// found lost exactly when the faulty validators weigh more than that share of the total
/// weight, rounded down; and then no block becomes final.
pub proof fn lemma_ftt_decision(view: ProtocolView, numer: u64, denom: u64)
    requires
        0 < denom,
        numer <= denom,
        view.highway.state.total_weight() <= u64::MAX,
        view.finality_detector.ftt == threshold(
            view.highway.state.total_weight() as u64,
            numer,
            denom,
        ),
    ensures
        view.finality_detected().1.contains(OutcomeView::FttExceeded) <==> view.highway.state.faulty_weight()
            > view.highway.state.total_weight() * numer / denom as int,
        view.highway.state.faulty_weight() > view.highway.state.total_weight() * numer / denom as int
            ==> view.finality_detected() == (view, seq![OutcomeView::FttExceeded]),
{
    crate::state::lemma_sum_u64_sign(view.highway.state.weights);
    lemma_threshold_is_floor(view.highway.state.total_weight() as u64, numer, denom);
    let outcomes = view.finality_detected().1;
    if view.highway.state.faulty_weight() > view.finality_detector.ftt {
        assert(outcomes[0] == OutcomeView::FttExceeded);
    } else {
        let blocks = view.highway.state.newly_final(
            view.finality_detector.last_finalized,
            view.finality_detector.next_height,
            view.finality_detector.ftt,
        );
        if outcomes.contains(OutcomeView::FttExceeded) {
            let i = choose|i: int| 0 <= i < outcomes.len() && outcomes[i] == OutcomeView::FttExceeded;
            assert(outcomes[i] == OutcomeView::FinalizedBlock(blocks[i]));
        }
    }
}

/// The blocks that the driver reports as final are in a row without a gap: the first at the
/// height that the detector waits for, each next one a height above, and the detector then
/// waits for the height above the last.
pub proof fn lemma_finalized_heights(view: ProtocolView)
    requires
        view.highway.state.wf(),
        view.highway.state.faulty_weight() <= view.finality_detector.ftt,
    ensures
        ({
            let blocks = view.highway.state.newly_final(
                view.finality_detector.last_finalized,
                view.finality_detector.next_height,
                view.finality_detector.ftt,
            );
            let (after, outcomes) = view.finality_detected();
            &&& outcomes == finalized_outcomes(blocks)
            &&& after.finality_detector.next_height == view.finality_detector.next_height
                + blocks.len()
            &&& forall|i: int|
                0 <= i < blocks.len() ==> (#[trigger] blocks[i]).height
                    == view.finality_detector.next_height + i
            &&& forall|i: int|
                0 < i < blocks.len() ==> view.highway.state.block((#[trigger] blocks[i]).hash).parent
                    == Some(blocks[i - 1].hash)
        }),
{
    lemma_final_blocks_in_a_row(
        view.highway.state,
        view.finality_detector.last_finalized,
        view.finality_detector.next_height,
        view.finality_detector.ftt,
    );
}

} // verus!

verus! {

/// What a state holds, without regard to the order in which it came.
pub struct StateContent {
    pub params: Params,
    pub weights: Seq<u64>,
    pub units: Map<UnitHash, UnitView>,
    pub blocks: Map<UnitHash, Block>,
    pub panorama: Seq<Observation>,
    pub faults: Seq<Option<FaultView>>,
    pub pings: Seq<Timestamp>,
    pub endorsements: Set<Endorsement>,
}

impl StateView {
    /// What the state holds, without regard to the order in which it came.
    pub open spec fn content(self) -> StateContent {
        StateContent {
            params: self.params,
            weights: self.weights,
            units: as_map(self.units),
            blocks: as_map(self.blocks),
            panorama: self.panorama,
            faults: self.faults,
            pings: self.pings,
            endorsements: self.endorsements.to_set(),
        }
    }

    /// Whether a unit is new to the state and of a validator of the era.
    pub open spec fn takes_unit(self, unit: UnitView) -> bool {
        !self.has_unit(unit.hash) && unit.creator < self.num_validators()
    }

    /// The fault that stands for the creator of a unit once the unit is added.
    pub open spec fn fault_with(self, unit: UnitView) -> Option<FaultView> {
        if self.is_faulty(unit.creator) {
            self.faults[unit.creator as int]
        } else {
            match self.conflict(unit) {
                Some(i) => Some(
                    FaultView::Direct(crate::state::evidence_of(self.units[i].1, unit)),
                ),
                None => self.faults[unit.creator as int],
            }
        }
    }

    /// The observation that stands for the creator of a unit once the unit is added.
    pub open spec fn observation_with(self, unit: UnitView) -> Observation {
        if self.is_faulty(unit.creator) {
            self.panorama[unit.creator as int]
        } else {
            match self.conflict(unit) {
                Some(_) => Observation::Faulty,
                None => Observation::Correct(unit.hash),
            }
        }
    }
}

/// Whether two vertices have nothing to do with each other: they are not two units of one
/// validator or of one hash, neither is a block that the other builds on, and they do not
/// bear on the faults of one validator.
pub open spec fn independent(a: VertexView, b: VertexView) -> bool {
    match (a, b) {
        (VertexView::Unit(u), VertexView::Unit(v)) => u.hash != v.hash && u.creator != v.creator
            && u.parent != Some(v.hash) && v.parent != Some(u.hash),
        (VertexView::Unit(u), VertexView::Evidence(e)) => u.creator != e.perpetrator(),
        (VertexView::Evidence(e), VertexView::Unit(u)) => u.creator != e.perpetrator(),
        (VertexView::Evidence(e), VertexView::Evidence(f)) => e.perpetrator() != f.perpetrator(),
        _ => true,
    }
}

/// A unit that is new to the state changes it in four places.
proof fn lemma_added_unit_form(s: StateView, u: UnitView)
    requires
        s.wf(),
        s.takes_unit(u),
    ensures
        s.added_unit(u) == (StateView {
            units: s.units.push((u.hash, u)),
            blocks: s.blocks_with(u),
            faults: s.faults.update(u.creator as int, s.fault_with(u)),
            panorama: s.panorama.update(u.creator as int, s.observation_with(u)),
            ..s
        }),
{
    let c = u.creator as int;
    assert(s.faults.update(c, s.faults[c]) =~= s.faults);
    assert(s.panorama.update(c, s.panorama[c]) =~= s.panorama);
}

/// The first conflict of a unit depends on the units of a state only.
proof fn lemma_conflict_frame(s1: StateView, s2: StateView, u: UnitView, n: int)
    requires
        s1.units == s2.units,
    ensures
        s1.conflict_before(u, n) == s2.conflict_before(u, n),
    decreases n,
{
    if n > 0 {
        lemma_conflict_frame(s1, s2, u, n - 1);
    }
}

/// One more unit at the end, which does not conflict, leaves the first conflict as it was.
proof fn lemma_conflict_push(s1: StateView, s2: StateView, x: UnitView, v: UnitView, n: int)
    requires
        s2.units == s1.units.push((x.hash, x)),
        !unit_conflicts(x, v),
        0 <= n <= s1.units.len(),
    ensures
        s2.conflict_before(v, n) == s1.conflict_before(v, n),
        s2.conflict(v) == s1.conflict(v),
        s1.conflict(v) matches Some(i) ==> 0 <= i < s1.units.len() && s2.units[i] == s1.units[i],
    decreases s1.units.len() - n,
{
    lemma_conflict_prefix(s1, s2, x, v, n);
    lemma_conflict_prefix(s1, s2, x, v, s1.units.len() as int);
    crate::state::lemma_conflict_is_conflict(s1, v, s1.units.len() as int);
}

/// Among the units that two states share, the first conflict is the same.
proof fn lemma_conflict_prefix(s1: StateView, s2: StateView, x: UnitView, v: UnitView, n: int)
    requires
        s2.units == s1.units.push((x.hash, x)),
        0 <= n <= s1.units.len(),
    ensures
        s2.conflict_before(v, n) == s1.conflict_before(v, n),
    decreases n,
{
    if n > 0 {
        lemma_conflict_prefix(s1, s2, x, v, n - 1);
        assert(s2.units[n - 1] == s1.units[n - 1]);
    }
}

/// A unit that has nothing to do with a unit added before it changes the state as it would
/// have without that unit.
proof fn lemma_unit_frame(s: StateView, u: UnitView, v: UnitView)
    requires
        s.wf(),
        s.takes_unit(u),
        s.takes_unit(v),
        independent(VertexView::Unit(u), VertexView::Unit(v)),
    ensures
        s.added_unit(u).fault_with(v) == s.fault_with(v),
        s.added_unit(u).observation_with(v) == s.observation_with(v),
{
    let s1 = s.added_unit(u);
    lemma_added_unit_form(s, u);
    lemma_conflict_push(s, s1, u, v, 0);
}

/// Two units that have nothing to do with each other can be added in either order.
proof fn lemma_units_commute(s: StateView, u: UnitView, v: UnitView)
    requires
        s.wf(),
        independent(VertexView::Unit(u), VertexView::Unit(v)),
    ensures
        s.added_unit(u).added_unit(v).content() == s.added_unit(v).added_unit(u).content(),
{
    let su = s.added_unit(u);
    let sv = s.added_unit(v);
    crate::state::lemma_added_wf(s, VertexView::Unit(u));
    crate::state::lemma_added_wf(s, VertexView::Unit(v));
    if !s.takes_unit(u) {
        // The unit changes nothing, before or after the other.
        assert(su == s);
        assert(!sv.takes_unit(u)) by {
            if s.has_unit(u.hash) {
                let i = choose|i: int| 0 <= i < s.units.len() && (#[trigger] s.units[i]).0 == u.hash;
                if s.takes_unit(v) {
                    assert(sv.units[i].0 == u.hash);
                }
            }
        }
    } else if !s.takes_unit(v) {
        assert(sv == s);
        assert(!su.takes_unit(v)) by {
            if s.has_unit(v.hash) {
                let i = choose|i: int| 0 <= i < s.units.len() && (#[trigger] s.units[i]).0 == v.hash;
                assert(su.units[i].0 == v.hash);
            }
        }
    } else {
        lemma_blocks_commute(s, u, v);
        lemma_unit_frame(s, u, v);
        lemma_unit_frame(s, v, u);
        lemma_added_unit_form(s, u);
        lemma_added_unit_form(s, v);
        lemma_added_unit_form(su, v);
        lemma_added_unit_form(sv, u);
        let suv = su.added_unit(v);
        let svu = sv.added_unit(u);
        assert(suv.faults =~= svu.faults);
        assert(suv.panorama =~= svu.panorama);
    }
}

} // verus!

verus! {

/// A unit changes a state as it changes another that has the same units and blocks and the
/// same to say of the unit's creator.
proof fn lemma_unit_on_changed(s: StateView, t: StateView, u: UnitView)
    requires
        t.units == s.units,
        t.blocks == s.blocks,
        t.weights == s.weights,
        t.faults.len() == s.faults.len(),
        t.panorama.len() == s.panorama.len(),
        u.creator < s.faults.len(),
        u.creator < s.panorama.len(),
        t.faults[u.creator as int] == s.faults[u.creator as int],
        t.panorama[u.creator as int] == s.panorama[u.creator as int],
    ensures
        t.takes_unit(u) == s.takes_unit(u),
        t.fault_with(u) == s.fault_with(u),
        t.observation_with(u) == s.observation_with(u),
        t.blocks_with(u) == s.blocks_with(u),
        t.is_faulty(u.creator) == s.is_faulty(u.creator),
{
    lemma_conflict_frame(s, t, u, s.units.len() as int);
}

/// A unit and a vertex of another kind, which have nothing to do with each other, can be
/// added in either order.
proof fn lemma_unit_and_other_commute(s: StateView, u: UnitView, b: VertexView)
    requires
        s.wf(),
        !(b is Unit),
        independent(VertexView::Unit(u), b),
    ensures
        s.added_unit(u).added(b).content() == s.added(b).added_unit(u).content(),
{
    let su = s.added_unit(u);
    let sb = s.added(b);
    crate::state::lemma_added_wf(s, VertexView::Unit(u));
    crate::state::lemma_added_wf(s, b);
    if u.creator < s.num_validators() {
        lemma_unit_on_changed(s, sb, u);
    }
    if s.takes_unit(u) {
        lemma_added_unit_form(s, u);
        lemma_added_unit_form(sb, u);
    }
    let sub = su.added(b);
    let sbu = sb.added_unit(u);
    assert(sub.units == sbu.units);
    assert(sub.blocks == sbu.blocks);
    assert(sub.faults =~= sbu.faults);
    assert(sub.panorama =~= sbu.panorama);
    assert(sub.pings =~= sbu.pings);
    assert(sub.endorsements =~= sbu.endorsements);
}

/// Two vertices that are no units, and have nothing to do with each other, can be added in
/// either order.
proof fn lemma_others_commute(s: StateView, a: VertexView, b: VertexView)
    requires
        s.wf(),
        !(a is Unit),
        !(b is Unit),
        independent(a, b),
    ensures
        s.added(a).added(b).content() == s.added(b).added(a).content(),
{
    let sab = s.added(a).added(b);
    let sba = s.added(b).added(a);
    assert(sab.units == sba.units);
    assert(sab.blocks == sba.blocks);
    assert(sab.faults =~= sba.faults);
    assert(sab.panorama =~= sba.panorama);
    assert(sab.pings =~= sba.pings);
    assert(sab.endorsements.to_set() =~= sba.endorsements.to_set()) by {
        match (a, b) {
            (VertexView::Endorsement(e), VertexView::Endorsement(f)) => {
                let se = s.added_endorsement(e);
                let sf = s.added_endorsement(f);
                assert forall|x: Endorsement| sab.endorsements.contains(x)
                    <==> sba.endorsements.contains(x) by {
                    lemma_endorsements(s, e, x);
                    lemma_endorsements(s, f, x);
                    lemma_endorsements(se, f, x);
                    lemma_endorsements(sf, e, x);
                }
            },
            _ => {},
        }
    }
}

/// The endorsements after one was added are those before and the one.
proof fn lemma_endorsements(s: StateView, e: Endorsement, x: Endorsement)
    ensures
        s.added_endorsement(e).endorsements.contains(x) <==> (s.endorsements.contains(x) || x
            == e),
{
    let after = s.added_endorsement(e).endorsements;
    if s.endorsements.contains(e) {
    } else {
        assert(after == s.endorsements.push(e));
        if s.endorsements.contains(x) {
            let i = choose|i: int| 0 <= i < s.endorsements.len() && s.endorsements[i] == x;
            assert(after[i] == x);
        }
        if x == e {
            assert(after[after.len() - 1] == x);
        }
        if after.contains(x) {
            let i = choose|i: int| 0 <= i < after.len() && after[i] == x;
            if i < s.endorsements.len() {
                assert(s.endorsements[i] == x);
            }
        }
    }
}

/// Two vertices that have nothing to do with each other can be added in either order: the
/// state then holds the same units and blocks, the same observations and faults, the same
/// pings and endorsements.
pub proof fn lemma_independent_vertices_commute(s: StateView, a: VertexView, b: VertexView)
    requires
        s.wf(),
        independent(a, b),
    ensures
        s.added(a).added(b).content() == s.added(b).added(a).content(),
{
    match (a, b) {
        (VertexView::Unit(u), VertexView::Unit(v)) => {
            lemma_units_commute(s, u, v);
        },
        (VertexView::Unit(u), _) => {
            lemma_unit_and_other_commute(s, u, b);
        },
        (_, VertexView::Unit(v)) => {
            lemma_unit_and_other_commute(s, v, a);
        },
        _ => {
            lemma_others_commute(s, a, b);
        },
    }
}

} // verus!

verus! {

impl StateView {
    /// Whether adding the unit would make new proof against its creator: the unit is new, its
    /// creator not faulty yet, and a unit of the state conflicts with it.
    pub open spec fn unit_makes_proof(self, unit: UnitView) -> bool {
        self.takes_unit(unit) && !self.is_faulty(unit.creator) && self.conflict(unit) is Some
    }
}

/// Whether two vertices that bear on one validator can still be added in either order to the
/// given state. Two units of one validator can where one of them changes nothing, where the
/// validator is faulty already, where exactly one of them conflicts with a unit of the state,
/// or where neither does and they have one number. A unit and evidence against its creator can
/// unless the unit makes proof of its own. Two pieces of evidence against one validator can
/// where the state holds proof already.
pub open spec fn settled(s: StateView, a: VertexView, b: VertexView) -> bool {
    match (a, b) {
        (VertexView::Unit(u), VertexView::Unit(v)) => {
            &&& u.hash != v.hash
            &&& u.parent != Some(v.hash)
            &&& v.parent != Some(u.hash)
            &&& u.creator == v.creator
            &&& {
                ||| !s.takes_unit(u)
                ||| !s.takes_unit(v)
                ||| s.is_faulty(u.creator)
                ||| (s.conflict(u) is Some) != (s.conflict(v) is Some)
                ||| (s.conflict(u) is None && s.conflict(v) is None && u.seq_number
                    == v.seq_number)
            }
        },
        (VertexView::Unit(u), VertexView::Evidence(e)) => !s.unit_makes_proof(u),
        (VertexView::Evidence(e), VertexView::Unit(u)) => !s.unit_makes_proof(u),
        (VertexView::Evidence(e), VertexView::Evidence(f)) => e.perpetrator() == f.perpetrator()
            && (s.has_evidence(e.perpetrator()) || e.perpetrator() >= s.num_validators()),
        _ => true,
    }
}

/// A conflict with the last unit, and none before it, is the first conflict.
proof fn lemma_conflict_last(s1: StateView, s2: StateView, x: UnitView, v: UnitView)
    requires
        s2.units == s1.units.push((x.hash, x)),
        s1.conflict(v) is None,
        unit_conflicts(x, v),
    ensures
        s2.conflict(v) == Some(s1.units.len() as int),
{
    lemma_conflict_prefix(s1, s2, x, v, s1.units.len() as int);
}

/// A conflict among the units of a state is still the first conflict when one more unit is
/// at the end.
proof fn lemma_conflict_stays(s1: StateView, s2: StateView, x: UnitView, v: UnitView)
    requires
        s2.units == s1.units.push((x.hash, x)),
        s1.conflict(v) is Some,
    ensures
        s2.conflict(v) == s1.conflict(v),
        0 <= s1.conflict(v).unwrap() < s1.units.len(),
        s2.units[s1.conflict(v).unwrap()] == s1.units[s1.conflict(v).unwrap()],
{
    lemma_conflict_prefix(s1, s2, x, v, s1.units.len() as int);
    crate::state::lemma_conflict_is_conflict(s1, v, s1.units.len() as int);
}

/// The blocks after two units of different hash were added, neither building on the other,
/// are the same in either order.
proof fn lemma_blocks_commute(s: StateView, u: UnitView, v: UnitView)
    requires
        s.wf(),
        s.takes_unit(u),
        s.takes_unit(v),
        u.hash != v.hash,
        u.parent != Some(v.hash),
        v.parent != Some(u.hash),
    ensures
        as_map(s.added_unit(u).added_unit(v).blocks) == as_map(
            s.added_unit(v).added_unit(u).blocks,
        ),
        as_map(s.added_unit(u).added_unit(v).units) == as_map(s.added_unit(v).added_unit(u).units),
        s.added_unit(u).takes_unit(v),
        s.added_unit(v).takes_unit(u),
{
    lemma_added_unit_form(s, u);
    lemma_added_unit_form(s, v);
    let su = s.added_unit(u);
    let sv = s.added_unit(v);
    crate::state::lemma_added_wf(s, VertexView::Unit(u));
    crate::state::lemma_added_wf(s, VertexView::Unit(v));
    assert(!su.has_unit(v.hash)) by {
        if su.has_unit(v.hash) {
            let i = choose|i: int| 0 <= i < su.units.len() && (#[trigger] su.units[i]).0 == v.hash;
            if i < s.units.len() {
                assert(s.units[i].0 == v.hash);
            }
        }
    }
    assert(!sv.has_unit(u.hash)) by {
        if sv.has_unit(u.hash) {
            let i = choose|i: int| 0 <= i < sv.units.len() && (#[trigger] sv.units[i]).0 == u.hash;
            if i < s.units.len() {
                assert(s.units[i].0 == u.hash);
            }
        }
    }
    lemma_added_unit_form(su, v);
    lemma_added_unit_form(sv, u);
    crate::keyed::lemma_as_map_push(s.units, u.hash, u);
    crate::keyed::lemma_as_map_push(s.units, v.hash, v);
    crate::keyed::lemma_as_map_push(su.units, v.hash, v);
    crate::keyed::lemma_as_map_push(sv.units, u.hash, u);
    assert(as_map(su.added_unit(v).units) =~= as_map(sv.added_unit(u).units));
    lemma_block_frame(s, u, v);
    lemma_block_frame(s, v, u);
    crate::keyed::lemma_as_map_dom(s.blocks_with(u));
    crate::keyed::lemma_as_map_dom(s.blocks_with(v));
    crate::keyed::lemma_as_map_dom(s.blocks);
    if s.blocks_with(u).len() > s.blocks.len() {
        crate::keyed::lemma_as_map_push(s.blocks, u.hash, s.blocks_with(u).last().1);
    }
    if s.blocks_with(v).len() > s.blocks.len() {
        crate::keyed::lemma_as_map_push(s.blocks, v.hash, s.blocks_with(v).last().1);
    }
    assert(as_map(su.added_unit(v).blocks) =~= as_map(sv.added_unit(u).blocks));
}

/// The block of a unit is the same after another unit that it does not build on.
proof fn lemma_block_frame(s: StateView, u: UnitView, v: UnitView)
    requires
        s.wf(),
        s.takes_unit(u),
        u.hash != v.hash,
        v.parent != Some(u.hash),
    ensures
        as_map(s.added_unit(u).blocks_with(v)) == as_map(s.blocks_with(u)).union_prefer_right(
            as_map(s.blocks_with(v)),
        ),
{
    let s1 = s.added_unit(u);
    lemma_added_unit_form(s, u);
    crate::keyed::lemma_as_map_dom(s.blocks);
    crate::keyed::lemma_as_map_dom(s1.blocks);
    crate::keyed::lemma_as_map_dom(s.blocks_with(v));
    crate::keyed::lemma_as_map_dom(s1.blocks_with(v));
    if s1.blocks.len() > s.blocks.len() {
        crate::keyed::lemma_as_map_push(s.blocks, u.hash, s1.blocks.last().1);
        assert(s1.blocks.last().0 == u.hash);
    }
    assert(s1.has_block(v.hash) == s.has_block(v.hash)) by {
        assert(as_map(s1.blocks).contains_key(v.hash) == as_map(s.blocks).contains_key(v.hash));
    }
    match v.parent {
        Some(parent) => {
            assert(as_map(s1.blocks).contains_key(parent) == as_map(s.blocks).contains_key(parent));
            assert(s1.has_block(parent) == s.has_block(parent));
            if s.has_block(parent) {
                assert(s1.block(parent) == s.block(parent));
            }
        },
        None => {},
    }
    assert(s1.height_on(v.parent) == s.height_on(v.parent));
    if s1.blocks_with(v).len() > s1.blocks.len() {
        crate::keyed::lemma_as_map_push(s1.blocks, v.hash, s1.blocks_with(v).last().1);
        crate::keyed::lemma_as_map_push(s.blocks, v.hash, s.blocks_with(v).last().1);
    }
    assert(as_map(s1.blocks_with(v)) =~= as_map(s.blocks_with(u)).union_prefer_right(
        as_map(s.blocks_with(v)),
    ));
}

/// Two units of one validator can be added in either order where `settled` says so.
proof fn lemma_units_of_one_validator_commute(s: StateView, u: UnitView, v: UnitView)
    requires
        s.wf(),
        settled(s, VertexView::Unit(u), VertexView::Unit(v)),
    ensures
        s.added_unit(u).added_unit(v).content() == s.added_unit(v).added_unit(u).content(),
{
    let su = s.added_unit(u);
    let sv = s.added_unit(v);
    let c = u.creator as int;
    crate::state::lemma_added_wf(s, VertexView::Unit(u));
    crate::state::lemma_added_wf(s, VertexView::Unit(v));
    if !s.takes_unit(u) {
        assert(su == s);
        assert(!sv.takes_unit(u)) by {
            if s.has_unit(u.hash) {
                let i = choose|i: int| 0 <= i < s.units.len() && (#[trigger] s.units[i]).0 == u.hash;
                if s.takes_unit(v) {
                    assert(sv.units[i].0 == u.hash);
                }
            }
        }
    } else if !s.takes_unit(v) {
        assert(sv == s);
        assert(!su.takes_unit(v)) by {
            if s.has_unit(v.hash) {
                let i = choose|i: int| 0 <= i < s.units.len() && (#[trigger] s.units[i]).0 == v.hash;
                assert(su.units[i].0 == v.hash);
            }
        }
    } else {
        lemma_blocks_commute(s, u, v);
        lemma_added_unit_form(s, u);
        lemma_added_unit_form(s, v);
        lemma_added_unit_form(su, v);
        lemma_added_unit_form(sv, u);
        let suv = su.added_unit(v);
        let svu = sv.added_unit(u);
        if s.is_faulty(u.creator) {
        } else if s.conflict(u) is Some && s.conflict(v) is None {
            lemma_conflict_stays(s, sv, v, u);
        } else if s.conflict(v) is Some && s.conflict(u) is None {
            lemma_conflict_stays(s, su, u, v);
        } else {
            lemma_conflict_last(s, su, u, v);
            lemma_conflict_last(s, sv, v, u);
            assert(crate::state::evidence_of(u, v) == crate::state::evidence_of(v, u));
        }
        assert(suv.faults =~= svu.faults);
        assert(suv.panorama =~= svu.panorama);
    }
}

/// A unit and evidence against its creator can be added in either order unless the unit makes
/// proof of its own.
proof fn lemma_unit_and_evidence_commute(s: StateView, u: UnitView, e: crate::vertex::EvidenceView)
    requires
        s.wf(),
        !s.unit_makes_proof(u),
    ensures
        s.added_unit(u).added_evidence(e).content() == s.added_evidence(e).added_unit(u).content(),
{
    let su = s.added_unit(u);
    let se = s.added_evidence(e);
    crate::state::lemma_added_wf(s, VertexView::Unit(u));
    crate::state::lemma_added_wf(s, VertexView::Evidence(e));
    lemma_conflict_frame(s, se, u, s.units.len() as int);
    if s.takes_unit(u) {
        lemma_added_unit_form(s, u);
        lemma_added_unit_form(se, u);
    }
    let sue = su.added_evidence(e);
    let seu = se.added_unit(u);
    assert(sue.units == seu.units);
    assert(sue.blocks == seu.blocks);
    assert(sue.faults =~= seu.faults);
    assert(sue.panorama =~= seu.panorama);
}

/// Two vertices can be added in either order where they have nothing to do with each other,
/// and also where they bear on one validator as long as at most one of them makes new proof
/// against it: the state then holds the same units and blocks, the same observations and
/// faults, the same pings and endorsements.
pub proof fn lemma_vertices_commute(s: StateView, a: VertexView, b: VertexView)
    requires
        s.wf(),
        independent(a, b) || settled(s, a, b),
    ensures
        s.added(a).added(b).content() == s.added(b).added(a).content(),
{
    if independent(a, b) {
        lemma_independent_vertices_commute(s, a, b);
    } else {
        match (a, b) {
            (VertexView::Unit(u), VertexView::Unit(v)) => {
                lemma_units_of_one_validator_commute(s, u, v);
            },
            (VertexView::Unit(u), VertexView::Evidence(e)) => {
                lemma_unit_and_evidence_commute(s, u, e);
            },
            (VertexView::Evidence(e), VertexView::Unit(u)) => {
                lemma_unit_and_evidence_commute(s, u, e);
            },
            (VertexView::Evidence(e), VertexView::Evidence(f)) => {},
            _ => {},
        }
    }
}

} // verus!
