//! Resources shared by the systems: the registry of sprites and the spritesheets.
use vstd::prelude::*;

use crate::entities::EntitySpriteRender;

verus! {

/// An enum of all spritesheets used by Toppa Drill; each has a texture id.
#[derive(PartialEq, Eq, Structural, Copy, Clone, Debug, Hash, PartialOrd, Ord)]
pub enum ToppaSpriteSheet {
    Player,
    Drill,
    Tracks,
    Rotor,
    Tiles,
}

impl ToppaSpriteSheet {
    /// The texture id of the spritesheet: its place in the enumeration.
    pub open spec fn spec_texture_id(self) -> u64 {
        match self {
            ToppaSpriteSheet::Player => 0,
            ToppaSpriteSheet::Drill => 1,
            ToppaSpriteSheet::Tracks => 2,
            ToppaSpriteSheet::Rotor => 3,
            ToppaSpriteSheet::Tiles => 4,
        }
    }

    /// The texture id of the spritesheet.
    pub fn texture_id(&self) -> (r: u64)
        ensures
            r == self.spec_texture_id(),
    {
        match self {
            ToppaSpriteSheet::Player => 0,
            ToppaSpriteSheet::Drill => 1,
            ToppaSpriteSheet::Tracks => 2,
            ToppaSpriteSheet::Rotor => 3,
            ToppaSpriteSheet::Tiles => 4,
        }
    }
}

/// Distinct spritesheets have distinct texture ids.
pub proof fn lemma_texture_ids_distinct(a: ToppaSpriteSheet, b: ToppaSpriteSheet)
    requires
        a != b,
    ensures
        a.spec_texture_id() != b.spec_texture_id(),
{
}

/// Contains all sprites used in this session, each under the entity kind it is shown for.
/// `S` is the renderer's sprite type.
pub struct GameSprites<S> {
    sprite_renders: Vec<(EntitySpriteRender, S)>,
}

impl<S> GameSprites<S> {
    /// The registered sprites, by entity kind.
    pub closed spec fn sprites(&self) -> Map<EntitySpriteRender, S> {
        Map::new(
            |k: EntitySpriteRender| exists|i: int| 0 <= i < self.sprite_renders@.len() && self.sprite_renders@[i].0 == k,
            |k: EntitySpriteRender| self.sprite_renders@[self.slot(k)].1,
        )
    }

    /// Where the sprite of `k` is kept.
    closed spec fn slot(&self, k: EntitySpriteRender) -> int {
        choose|i: int| 0 <= i < self.sprite_renders@.len() && self.sprite_renders@[i].0 == k
    }

    /// No entity kind has two sprites.
    pub closed spec fn wf(&self) -> bool {
        forall|i: int, j: int| 0 <= i < j < self.sprite_renders@.len()
            ==> self.sprite_renders@[i].0 != self.sprite_renders@[j].0
    }

    /// A registry without sprites.
    pub fn new() -> (r: Self)
        ensures
            r.wf(),
            r.sprites() == Map::<EntitySpriteRender, S>::empty(),
    {
        let r = GameSprites { sprite_renders: Vec::new() };
        proof {
            assert(r.sprites() =~= Map::<EntitySpriteRender, S>::empty());
        }
        r
    }

    /// Where the sprite of `name` is kept, if it has one.
    fn find(&self, name: &EntitySpriteRender) -> (r: Option<usize>)
        requires
            self.wf(),
        ensures
            match r {
                Some(i) => i < self.sprite_renders@.len() && self.sprite_renders@[i as int].0 == *name,
                None => forall|i: int| 0 <= i < self.sprite_renders@.len() ==> self.sprite_renders@[i].0 != *name,
            },
    {
        let mut i: usize = 0;
        while i < self.sprite_renders.len()
            invariant
                i <= self.sprite_renders@.len(),
                forall|j: int| 0 <= j < i ==> self.sprite_renders@[j].0 != *name,
            decreases self.sprite_renders@.len() - i,
        {
            if self.sprite_renders[i].0 == *name {
                return Some(i);
            }
            i = i + 1;
        }
        None
    }

    /// Registers `sprite` for `name`, replacing and handing back the sprite registered
    /// before, if any (the caller warns about an overridden sprite).
    pub fn add(&mut self, name: EntitySpriteRender, sprite: S) -> (prev: Option<S>)
        requires
            old(self).wf(),
        ensures
            final(self).wf(),
            final(self).sprites() == old(self).sprites().insert(name, sprite),
            prev == if old(self).sprites().contains_key(name) {
                Some(old(self).sprites()[name])
            } else {
                None::<S>
            },
    {
        match self.find(&name) {
            Some(i) => {
                let ghost old_entries = self.sprite_renders@;
                let (_k, prev) = self.sprite_renders.remove(i);
                self.sprite_renders.insert(i, (name, sprite));
                proof {
                    assert(self.sprite_renders@ =~= old_entries.update(i as int, (name, sprite)));
                    assert(old(self).slot(name) == i as int);
                    assert(self.sprite_renders@[i as int].0 == name);
                    assert(self.slot(name) == i as int);
                    assert forall|k: EntitySpriteRender| #[trigger] self.sprites().contains_key(k)
                        <==> (k == name || old(self).sprites().contains_key(k)) by {
                        if k != name && old(self).sprites().contains_key(k) {
                            let b = old(self).slot(k);
                            assert(self.sprite_renders@[b].0 == k);
                        }
                        if self.sprites().contains_key(k) && k != name {
                            let a = self.slot(k);
                            assert(old_entries[a].0 == k);
                        }
                    }
                    assert forall|k: EntitySpriteRender| k != name && #[trigger] old(self).sprites().contains_key(k)
                        implies self.slot(k) == old(self).slot(k) by {
                        let a = self.slot(k);
                        let b = old(self).slot(k);
                        assert(self.sprite_renders@[b].0 == k);
                    }
                    assert(self.sprites() =~= old(self).sprites().insert(name, sprite));
                }
                Some(prev)
            },
            None => {
                let ghost old_entries = self.sprite_renders@;
                self.sprite_renders.push((name, sprite));
                proof {
                    assert forall|k: EntitySpriteRender| k != name && #[trigger] old(self).sprites().contains_key(k)
                        implies self.slot(k) == old(self).slot(k) by {
                        let a = self.slot(k);
                        let b = old(self).slot(k);
                        assert(self.sprite_renders@[b].0 == k);
                    }
                    assert(self.sprite_renders@[old_entries.len() as int].0 == name);
                    assert(self.slot(name) == old_entries.len() as int);
                    assert forall|k: EntitySpriteRender| #[trigger] self.sprites().contains_key(k)
                        <==> (k == name || old(self).sprites().contains_key(k)) by {
                        if k != name && old(self).sprites().contains_key(k) {
                            let b = old(self).slot(k);
                            assert(self.sprite_renders@[b].0 == k);
                        }
                        if self.sprites().contains_key(k) && k != name {
                            let a = self.slot(k);
                            assert(old_entries[a].0 == k);
                        }
                    }
                    assert(self.sprites() =~= old(self).sprites().insert(name, sprite));
                }
                None
            },
        }
    }

    /// Removes the sprite registered for `name`, if any.
    pub fn remove(&mut self, name: EntitySpriteRender)
        requires
            old(self).wf(),
        ensures
            final(self).wf(),
            final(self).sprites() == old(self).sprites().remove(name),
    {
        match self.find(&name) {
            Some(i) => {
                let ghost old_entries = self.sprite_renders@;
                let _removed = self.sprite_renders.remove(i);
                proof {
                    assert forall|k: EntitySpriteRender| k != name && #[trigger] old(self).sprites().contains_key(k)
                        implies self.sprites().contains_key(k) && self.sprites()[k] == old(self).sprites()[k] by {
                        let b = old(self).slot(k);
                        if b < i {
                            assert(self.sprite_renders@[b].0 == k);
                        } else {
                            assert(self.sprite_renders@[b - 1].0 == k);
                        }
                        let a = self.slot(k);
                        if a < i {
                            assert(old_entries[a].0 == k);
                        } else {
                            assert(old_entries[a + 1].0 == k);
                        }
                    }
                    assert forall|k: EntitySpriteRender| #[trigger] self.sprites().contains_key(k)
                        implies k != name && old(self).sprites().contains_key(k) by {
                        let a = self.slot(k);
                        if a < i {
                            assert(old_entries[a].0 == k);
                        } else {
                            assert(old_entries[a + 1].0 == k);
                        }
                    }
                    assert(self.sprites() =~= old(self).sprites().remove(name));
                }
            },
            None => {
                proof {
                    assert(self.sprites() =~= old(self).sprites().remove(name));
                }
            },
        }
    }

    /// The sprite registered for `name`, if any.
    pub fn get(&self, name: &EntitySpriteRender) -> (r: Option<&S>)
        requires
            self.wf(),
        ensures
            match r {
                Some(s) => self.sprites().contains_key(*name) && *s == self.sprites()[*name],
                None => !self.sprites().contains_key(*name),
            },
    {
        match self.find(name) {
            Some(i) => {
                proof {
                    assert(self.slot(*name) == i as int);
                }
                Some(&self.sprite_renders[i].1)
            },
            None => None,
        }
    }
}

/// A sprite registered with `add` is the one found for its kind afterwards, and every
/// other kind keeps what it had.
pub proof fn lemma_sprite_found_after_add<S>(
    before: GameSprites<S>,
    after: GameSprites<S>,
    name: EntitySpriteRender,
    sprite: S,
    other: EntitySpriteRender,
)
    requires
        after.sprites() == before.sprites().insert(name, sprite),
    ensures
        after.sprites().contains_key(name),
        after.sprites()[name] == sprite,
        other != name ==> (after.sprites().contains_key(other) <==> before.sprites().contains_key(other)),
        other != name && before.sprites().contains_key(other) ==> after.sprites()[other] == before.sprites()[other],
{
}

/// After `remove`, no sprite is found for the kind, and every other kind keeps what it had.
pub proof fn lemma_sprite_gone_after_remove<S>(
    before: GameSprites<S>,
    after: GameSprites<S>,
    name: EntitySpriteRender,
    other: EntitySpriteRender,
)
    requires
        after.sprites() == before.sprites().remove(name),
    ensures
        !after.sprites().contains_key(name),
        other != name ==> (after.sprites().contains_key(other) <==> before.sprites().contains_key(other)),
        other != name && before.sprites().contains_key(other) ==> after.sprites()[other] == before.sprites()[other],
{
}

impl<S> Default for GameSprites<S> {
    /// A registry without sprites.
    fn default() -> (r: Self)
        ensures
            r.wf(),
            r.sprites() == Map::<EntitySpriteRender, S>::empty(),
    {
        Self::new()
    }
}

} // verus!
