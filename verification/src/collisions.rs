//! The collision resolver: one frame's batch of collision events, drained
//! in arrival order.
//!
//! A `Begin` event with exactly one side equal to the player label removes
//! the other entity and scores one point — but only if that entity is
//! still live when the event is processed, so a duplicate event within one
//! batch neither removes nor scores twice. `End` events, and events where
//! neither or both sides are the player, are ignored.

use vstd::prelude::*;
use crate::label::Label;
use crate::registry::Registry;
use crate::registry::EntityModel;
use crate::registry::contains_label;
use crate::registry::spec_remove;
use crate::registry::unique_labels;
use crate::registry::lemma_remove_unique;
use crate::registry::lemma_remove_keeps_others;
use crate::score::ScoreState;

verus! {

/// Whether an overlap just began or just ended.
#[derive(Clone, Copy, PartialEq, Eq, Structural, Debug)]
pub enum CollisionState {
    Begin,
    End,
}

/// One overlap transition between two labelled entities, as reported by
/// the host's collision detection.
pub struct CollisionEvent {
    pub a: Label,
    pub b: Label,
    pub state: CollisionState,
}

/// Mathematical image of one collision event.
pub ghost struct EventModel {
    pub a: Seq<u8>,
    pub b: Seq<u8>,
    pub begin: bool,
}

impl View for CollisionEvent {
    type V = EventModel;

    open spec fn view(&self) -> EventModel {
        EventModel { a: self.a@, b: self.b@, begin: self.state == CollisionState::Begin }
    }
}

/// The images of a batch of events, in arrival order.
pub open spec fn event_models(es: Seq<CollisionEvent>) -> Seq<EventModel> {
    es.map_values(|e: CollisionEvent| e@)
}

/// The images of a list of labels.
pub open spec fn label_views(ls: Seq<Label>) -> Seq<Seq<u8>> {
    ls.map_values(|l: Label| l@)
}

/// Joint state the resolver works on: the live entities, both scores,
/// and the labels destroyed so far this batch.
pub ghost struct ResolveModel {
    pub entities: Seq<EntityModel>,
    pub current: int,
    pub high: int,
    pub destroyed: Seq<Seq<u8>>,
}

/// Whether exactly one side of the event is the player.
pub open spec fn exactly_one_is(e: EventModel, player: Seq<u8>) -> bool {
    (e.a == player) != (e.b == player)
}

/// The non-player side of the event.
pub open spec fn other_of(e: EventModel, player: Seq<u8>) -> Seq<u8> {
    if e.a == player {
        e.b
    } else {
        e.a
    }
}

/// Whether the event scores: it begins an overlap, exactly one side is
/// the player, and the other side is still live.
pub open spec fn event_scores(s: Seq<EntityModel>, e: EventModel, player: Seq<u8>) -> bool {
    e.begin && exactly_one_is(e, player) && contains_label(s, other_of(e, player))
}

/// The current score after one point: up by one, saturating at the
/// machine limit.
pub open spec fn spec_score_current(c: int) -> int {
    if c < u32::MAX {
        c + 1
    } else {
        c
    }
}

/// The high score after the current score reached `c2`: raised to `c2`
/// exactly when `c2` passes it.
pub open spec fn spec_score_high(c2: int, h: int) -> int {
    if c2 > h {
        c2
    } else {
        h
    }
}

/// The joint state assembled from its four parts.
pub open spec fn resolver_state(
    entities: Seq<EntityModel>,
    current: int,
    high: int,
    destroyed: Seq<Seq<u8>>,
) -> ResolveModel {
    ResolveModel { entities, current, high, destroyed }
}

/// Effect of one event on the joint state.
pub open spec fn resolve_one(st: ResolveModel, e: EventModel, player: Seq<u8>) -> ResolveModel {
    if event_scores(st.entities, e, player) {
        ResolveModel {
            entities: spec_remove(st.entities, other_of(e, player)),
            current: spec_score_current(st.current),
            high: spec_score_high(spec_score_current(st.current), st.high),
            destroyed: st.destroyed.push(other_of(e, player)),
        }
    } else {
        st
    }
}

/// Effect of a whole batch, drained in arrival order.
pub open spec fn resolve_all(st: ResolveModel, events: Seq<EventModel>, player: Seq<u8>) -> ResolveModel
    decreases events.len(),
{
    if events.len() == 0 {
        st
    } else {
        resolve_all(resolve_one(st, events[0], player), events.drop_first(), player)
    }
}

/// A duplicated `Begin` event removes and scores only once: when the
/// entity labels are unique, delivering the same event twice in one batch
/// leaves exactly the state that delivering it once leaves, because the
/// second delivery finds the entity already gone.
pub proof fn lemma_duplicate_begin_scores_once(st: ResolveModel, e: EventModel, player: Seq<u8>)
    requires
        unique_labels(st.entities),
    ensures
        resolve_all(st, seq![e, e], player) == resolve_all(st, seq![e], player),
{
    reveal_with_fuel(resolve_all, 3);
    let s1 = resolve_one(st, e, player);
    assert(seq![e, e].drop_first() =~= seq![e]);
    assert(seq![e].drop_first() =~= Seq::<EventModel>::empty());
    assert(seq![e, e][0] == e);
    assert(seq![e][0] == e);
    assert(resolve_all(st, seq![e], player) == s1);
    assert(resolve_all(st, seq![e, e], player) == resolve_all(s1, seq![e], player));
    assert(resolve_all(s1, seq![e], player) == resolve_one(s1, e, player));
    if event_scores(st.entities, e, player) {
        lemma_remove_unique(st.entities, other_of(e, player));
        assert(!contains_label(s1.entities, other_of(e, player)));
        assert(!event_scores(s1.entities, e, player));
        assert(resolve_one(s1, e, player) == s1);
    } else {
        assert(s1 == st);
        assert(resolve_one(s1, e, player) == s1);
    }
}

/// The player is never destroyed by gameplay: a scoring event removes
/// only its non-player side, so however many events a batch holds, the
/// player entity survives the whole drain.
pub proof fn lemma_player_never_destroyed(st: ResolveModel, events: Seq<EventModel>, player: Seq<u8>)
    requires
        contains_label(st.entities, player),
    ensures
        contains_label(resolve_all(st, events, player).entities, player),
    decreases events.len(),
{
    if events.len() > 0 {
        let e = events[0];
        let st1 = resolve_one(st, e, player);
        if event_scores(st.entities, e, player) {
            assert(other_of(e, player) != player);
            lemma_remove_keeps_others(st.entities, other_of(e, player), player);
        }
        lemma_player_never_destroyed(st1, events.drop_first(), player);
    }
}

/// Drain one frame's batch of collision events, in arrival order.
///
/// Exactly the scoring events take effect: each removes its non-player
/// entity, raises the current score by one (raising the high score along
/// with it as soon as it is passed), and reports the destroyed label for
/// the host's audio layer. The returned list holds the destroyed labels
/// in the order they fell.
pub fn resolve_collisions(
    registry: &mut Registry,
    score: &mut ScoreState,
    events: &Vec<CollisionEvent>,
    player: &Label,
) -> (destroyed: Vec<Label>)
    requires
        old(registry).wf(),
        old(score).wf(),
    ensures
        final(registry).wf(),
        final(score).wf(),
        ({
            let r = resolve_all(
                resolver_state(
                    old(registry)@,
                    old(score).current as int,
                    old(score).high as int,
                    Seq::empty(),
                ),
                event_models(events@),
                player@,
            );
            &&& final(registry)@ == r.entities
            &&& final(score).current == r.current
            &&& final(score).high == r.high
            &&& label_views(destroyed@) == r.destroyed
        }),
{
    let ghost init = resolver_state(
        registry@,
        score.current as int,
        score.high as int,
        Seq::empty(),
    );
    let ghost all = event_models(events@);
    let mut destroyed: Vec<Label> = Vec::new();
    proof {
        assert(label_views(destroyed@) =~= Seq::<Seq<u8>>::empty());
    }
    let mut i: usize = 0;
    proof {
        assert(all.skip(0) =~= all);
    }
    while i < events.len()
        invariant
            i <= events.len(),
            registry.wf(),
            score.wf(),
            all == event_models(events@),
            resolve_all(
                resolver_state(
                    registry@,
                    score.current as int,
                    score.high as int,
                    label_views(destroyed@),
                ),
                all.skip(i as int),
                player@,
            ) == resolve_all(init, all, player@),
        decreases events.len() - i,
    {
        let ghost pre = resolver_state(
            registry@,
            score.current as int,
            score.high as int,
            label_views(destroyed@),
        );
        proof {
            assert(all.skip(i as int).len() > 0);
            assert(all.skip(i as int)[0] == all[i as int]);
            assert(all.skip(i as int).drop_first() =~= all.skip(i as int + 1));
        }
        let e = &events[i];
        proof {
            assert(e@ == all[i as int]);
        }
        let begin = e.state == CollisionState::Begin;
        let a_is_player = e.a.same_as(player);
        let b_is_player = e.b.same_as(player);
        if begin && (a_is_player != b_is_player) {
            let other = if a_is_player {
                &e.b
            } else {
                &e.a
            };
            proof {
                assert(other@ == other_of(all[i as int], player@));
            }
            let removed = registry.remove(other);
            if removed {
                score.register_point();
                destroyed.push(other.duplicate());
                proof {
                    assert(label_views(destroyed@) =~= pre.destroyed.push(
                        other_of(all[i as int], player@),
                    ));
                }
            }
        }
        proof {
            let post = resolver_state(
                registry@,
                score.current as int,
                score.high as int,
                label_views(destroyed@),
            );
            assert(post == resolve_one(pre, all[i as int], player@));
        }
        i = i + 1;
    }
    proof {
        assert(all.skip(i as int) =~= Seq::<EventModel>::empty());
    }
    destroyed
}

} // verus!
