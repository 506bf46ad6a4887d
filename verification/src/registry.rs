//! The entity registry: every live entity of the simulation, by label.
//!
//! Labels are unique; spawning an already-present label is refused, while
//! removing an absent label is a silent no-op, since a collision event may
//! name an entity that an earlier event of the same batch already removed.

use vstd::prelude::*;
use crate::label::Label;
use crate::motion::sat_add_i64;
use crate::motion::sat_i64;

verus! {

/// What the registry remembers about one entity.
pub struct Entity {
    pub label: Label,
    pub x: i64,
    pub y: i64,
    pub rotation: i64,
    pub collision: bool,
    pub preset: u64,
}

/// Mathematical image of one entity.
pub ghost struct EntityModel {
    pub label: Seq<u8>,
    pub x: int,
    pub y: int,
    pub rotation: int,
    pub collision: bool,
    pub preset: u64,
}

impl View for Entity {
    type V = EntityModel;

    open spec fn view(&self) -> EntityModel {
        EntityModel {
            label: self.label@,
            x: self.x as int,
            y: self.y as int,
            rotation: self.rotation as int,
            collision: self.collision,
            preset: self.preset,
        }
    }
}

/// Whether some entity of `s` carries `label`.
pub open spec fn contains_label(s: Seq<EntityModel>, label: Seq<u8>) -> bool {
    exists|i: int| 0 <= i < s.len() && s[i].label == label
}

/// Index of the first entity of `s` carrying `label`, or -1.
pub open spec fn find_label(s: Seq<EntityModel>, label: Seq<u8>) -> int
    decreases s.len(),
{
    if s.len() == 0 {
        -1
    } else if s[0].label == label {
        0
    } else if find_label(s.drop_first(), label) == -1 {
        -1
    } else {
        find_label(s.drop_first(), label) + 1
    }
}

/// No two entities of `s` carry the same label.
pub open spec fn unique_labels(s: Seq<EntityModel>) -> bool {
    forall|i: int, j: int| 0 <= i < j < s.len() ==> s[i].label != s[j].label
}

/// `s` with the first entity carrying `label` taken out; `s` itself if
/// none does.
pub open spec fn spec_remove(s: Seq<EntityModel>, label: Seq<u8>) -> Seq<EntityModel> {
    if find_label(s, label) == -1 {
        s
    } else {
        s.remove(find_label(s, label))
    }
}

/// `m` moved by `(dx, dy)`, each coordinate clamped to the `i64` range.
pub open spec fn spec_moved(m: EntityModel, dx: int, dy: int) -> EntityModel {
    EntityModel { x: sat_i64(m.x + dx), y: sat_i64(m.y + dy), ..m }
}

/// `s` with the first entity carrying `label` moved by `(dx, dy)`; `s`
/// itself if none does.
pub open spec fn spec_translate(s: Seq<EntityModel>, label: Seq<u8>, dx: int, dy: int) -> Seq<
    EntityModel,
> {
    if find_label(s, label) == -1 {
        s
    } else {
        s.update(find_label(s, label), spec_moved(s[find_label(s, label)], dx, dy))
    }
}

/// `find_label` finds exactly the first index carrying the label, and
/// fails exactly when no index does.
pub proof fn lemma_find_label(s: Seq<EntityModel>, label: Seq<u8>)
    ensures
        (find_label(s, label) == -1) <==> !contains_label(s, label),
        find_label(s, label) != -1 ==> {
            &&& 0 <= find_label(s, label) < s.len()
            &&& s[find_label(s, label)].label == label
            &&& forall|j: int| 0 <= j < find_label(s, label) ==> s[j].label != label
        },
    decreases s.len(),
{
    if s.len() > 0 {
        lemma_find_label(s.drop_first(), label);
        let rest = s.drop_first();
        if s[0].label == label {
        } else {
            if find_label(rest, label) == -1 {
                assert forall|i: int| 0 <= i < s.len() implies s[i].label != label by {
                    if i >= 1 {
                        assert(s[i] == rest[i - 1]);
                        assert(rest[i - 1].label != label);
                    }
                }
            } else {
                let k = find_label(rest, label);
                assert(rest[k] == s[k + 1]);
                assert(s[k + 1].label == label);
                assert forall|j: int| 0 <= j < k + 1 implies s[j].label != label by {
                    if j >= 1 {
                        assert(s[j] == rest[j - 1]);
                        assert(rest[j - 1].label != label);
                    }
                }
            }
        }
    }
}

/// Removing a label from a registry with unique labels leaves the labels
/// unique and the removed label gone.
pub proof fn lemma_remove_unique(s: Seq<EntityModel>, label: Seq<u8>)
    requires
        unique_labels(s),
    ensures
        unique_labels(spec_remove(s, label)),
        !contains_label(spec_remove(s, label), label),
{
    lemma_find_label(s, label);
    let f = find_label(s, label);
    if f == -1 {
    } else {
        let r = s.remove(f);
        assert(forall|k: int| 0 <= k < f ==> r[k] == s[k]);
        assert(forall|k: int| f <= k < r.len() ==> r[k] == s[k + 1]);
        assert(unique_labels(r));
        assert(!contains_label(r, label)) by {
            assert(forall|k: int|
                0 <= k < r.len() ==> !(#[trigger] r[k].label == label)) by {
                assert(forall|k: int|
                    0 <= k < f ==> r[k] == s[k] && !(#[trigger] r[k].label == label));
                assert(forall|k: int|
                    f <= k < r.len() ==> r[k] == s[k + 1] && !(#[trigger] r[k].label == label));
            }
        }
    }
}

/// Removing one label leaves every other label present: the removed
/// entity carries `label`, so an entity carrying a different label
/// survives.
pub proof fn lemma_remove_keeps_others(s: Seq<EntityModel>, label: Seq<u8>, kept: Seq<u8>)
    requires
        kept != label,
        contains_label(s, kept),
    ensures
        contains_label(spec_remove(s, label), kept),
{
    lemma_find_label(s, label);
    let f = find_label(s, label);
    if f != -1 {
        let r = s.remove(f);
        let i = choose|i: int| 0 <= i < s.len() && s[i].label == kept;
        assert(i != f);
        if i < f {
            assert(r[i] == s[i]);
        } else {
            assert(r[i - 1] == s[i]);
        }
    }
}

/// Moving an entity changes no label: length and every label stay as they
/// were, so uniqueness and membership are untouched.
pub proof fn lemma_translate_labels(s: Seq<EntityModel>, label: Seq<u8>, dx: int, dy: int)
    ensures
        spec_translate(s, label, dx, dy).len() == s.len(),
        forall|k: int|
            0 <= k < s.len() ==> #[trigger] spec_translate(s, label, dx, dy)[k].label
                == s[k].label,
        unique_labels(s) ==> unique_labels(spec_translate(s, label, dx, dy)),
        forall|l: Seq<u8>|
            #[trigger] contains_label(spec_translate(s, label, dx, dy), l) == contains_label(
                s,
                l,
            ),
{
    lemma_find_label(s, label);
    let t = spec_translate(s, label, dx, dy);
    assert(forall|k: int| 0 <= k < s.len() ==> #[trigger] t[k].label == s[k].label);
    assert forall|l: Seq<u8>| #[trigger] contains_label(t, l) == contains_label(s, l) by {
        if contains_label(t, l) {
            let i = choose|i: int| 0 <= i < t.len() && t[i].label == l;
            assert(s[i].label == l);
        }
        if contains_label(s, l) {
            let i = choose|i: int| 0 <= i < s.len() && s[i].label == l;
            assert(t[i].label == l);
        }
    }
}

/// The fault a registry operation can report.
#[derive(Clone, Copy, PartialEq, Eq, Structural, Debug)]
pub enum RegistryError {
    /// A spawn named a label that is already present.
    DuplicateLabel,
    /// A lookup named a label that is absent.
    NotFound,
}

/// All live entities of the simulation, with unique labels.
pub struct Registry {
    pub items: Vec<Entity>,
}

impl View for Registry {
    type V = Seq<EntityModel>;

    open spec fn view(&self) -> Seq<EntityModel> {
        self.items@.map_values(|e: Entity| e@)
    }
}

impl Registry {
    /// Label uniqueness, the registry's invariant.
    pub open spec fn wf(self) -> bool {
        unique_labels(self@)
    }

    /// An empty registry.
    pub fn new() -> (r: Registry)
        ensures
            r@ == Seq::<EntityModel>::empty(),
            r.wf(),
    {
        let r = Registry { items: Vec::new() };
        assert(r@ =~= Seq::<EntityModel>::empty());
        r
    }

    /// How many entities are live.
    pub fn len(&self) -> (n: usize)
        ensures
            n == self@.len(),
    {
        self.items.len()
    }

    /// The entity at a position of the snapshot, for the host's
    /// rendering sync.
    pub fn entity_at(&self, i: usize) -> (e: &Entity)
        requires
            i < self@.len(),
        ensures
            e@ == self@[i as int],
    {
        &self.items[i]
    }

    /// Index of the first entity carrying `label`, if any.
    fn index_of(&self, label: &Label) -> (r: Option<usize>)
        ensures
            match r {
                Some(i) => i == find_label(self@, label@) && i < self@.len()
                    && self@[i as int].label == label@,
                None => !contains_label(self@, label@),
            },
    {
        proof {
            lemma_find_label(self@, label@);
        }
        let mut i: usize = 0;
        while i < self.items.len()
            invariant
                i <= self.items.len(),
                forall|j: int| 0 <= j < i ==> self@[j].label != label@,
            decreases self.items.len() - i,
        {
            if self.items[i].label.same_as(label) {
                proof {
                    assert(self@[i as int] == self.items@[i as int]@);
                    assert(0 <= i < self@.len() && self@[i as int].label == label@);
                    lemma_find_label(self@, label@);
                    let f = find_label(self@, label@);
                    assert(contains_label(self@, label@));
                    assert(f != -1);
                    assert(f >= i);
                    assert(f <= i);
                }
                return Some(i);
            }
            i = i + 1;
        }
        None
    }

    /// Whether an entity carrying `label` is live.
    pub fn contains(&self, label: &Label) -> (r: bool)
        ensures
            r == contains_label(self@, label@),
    {
        match self.index_of(label) {
            Some(_) => true,
            None => false,
        }
    }

    /// Position of the entity carrying `label`, if it is live.
    pub fn position_of(&self, label: &Label) -> (r: Option<(i64, i64)>)
        ensures
            match r {
                Some(p) => contains_label(self@, label@) && {
                    let m = self@[find_label(self@, label@)];
                    p.0 == m.x && p.1 == m.y
                },
                None => !contains_label(self@, label@),
            },
    {
        match self.index_of(label) {
            Some(i) => Some((self.items[i].x, self.items[i].y)),
            None => None,
        }
    }

    /// Bring a new entity to life.
    ///
    /// Succeeds exactly when no live entity carries the new entity's
    /// label; the registry is unchanged on failure.
    pub fn spawn(&mut self, e: Entity) -> (r: Result<(), RegistryError>)
        requires
            old(self).wf(),
        ensures
            final(self).wf(),
            match r {
                Ok(()) => !contains_label(old(self)@, e@.label) && final(self)@ == old(
                    self,
                )@.push(e@),
                Err(err) => err == RegistryError::DuplicateLabel && contains_label(
                    old(self)@,
                    e@.label,
                ) && final(self)@ == old(self)@,
            },
    {
        if self.contains(&e.label) {
            return Err(RegistryError::DuplicateLabel);
        }
        self.items.push(e);
        proof {
            assert(self@ =~= old(self)@.push(e@));
            assert(forall|k: int|
                0 <= k < old(self)@.len() ==> #[trigger] self@[k] == old(self)@[k]);
        }
        Ok(())
    }

    /// Take the entity carrying `label` out of the registry; a silent
    /// no-op if none does. Reports whether one was removed.
    pub fn remove(&mut self, label: &Label) -> (removed: bool)
        requires
            old(self).wf(),
        ensures
            final(self).wf(),
            removed == contains_label(old(self)@, label@),
            final(self)@ == spec_remove(old(self)@, label@),
            !removed ==> final(self)@ == old(self)@,
            !contains_label(final(self)@, label@),
    {
        proof {
            lemma_find_label(old(self)@, label@);
            lemma_remove_unique(old(self)@, label@);
        }
        match self.index_of(label) {
            Some(i) => {
                self.items.remove(i);
                proof {
                    assert(self@ =~= old(self)@.remove(i as int));
                }
                true
            },
            None => false,
        }
    }

    /// Move the entity carrying `label` by `(dx, dy)`, each coordinate
    /// clamped to the `i64` range.
    ///
    /// Fails with `NotFound`, leaving the registry unchanged, exactly
    /// when no live entity carries `label`.
    pub fn translate(&mut self, label: &Label, dx: i64, dy: i64) -> (r: Result<
        (),
        RegistryError,
    >)
        requires
            old(self).wf(),
        ensures
            final(self).wf(),
            r is Ok <==> contains_label(old(self)@, label@),
            r is Err ==> r == Err::<(), RegistryError>(RegistryError::NotFound),
            final(self)@ == spec_translate(old(self)@, label@, dx as int, dy as int),
    {
        proof {
            lemma_find_label(old(self)@, label@);
            lemma_translate_labels(old(self)@, label@, dx as int, dy as int);
        }
        match self.index_of(label) {
            Some(i) => {
                let e = self.items.remove(i);
                let nx = sat_add_i64(e.x, dx);
                let ny = sat_add_i64(e.y, dy);
                let moved = Entity { x: nx, y: ny, ..e };
                self.items.insert(i, moved);
                proof {
                    assert(self@ =~= spec_translate(old(self)@, label@, dx as int, dy as int));
                }
                Ok(())
            },
            None => Err(RegistryError::NotFound),
        }
    }
}

} // verus!
