//! The animation registry: a lookup from logical animation identifiers to
//! renderer handles. Spawn paths depend only on whether an identifier
//! resolves; a missing entry is a non-fatal lookup miss.

use vstd::prelude::*;

verus! {

broadcast use vstd::std_specs::hash::group_hash_axioms;

/// A logical animation or atlas identifier.
#[derive(Clone, Copy, Debug, PartialEq, Eq, Structural)]
pub enum Animation {
    MaskRun,
    MaskIdle,
    MaskJump,
    MaskDoubleJump,
    MaskFall,
    Strawberry,
    Bananas,
    NinjaRun,
    NinjaIdle,
    NinjaJump,
    NinjaDoubleJump,
    NinjaFall,
    PinkRun,
    PinkIdle,
    PinkJump,
    PinkDoubleJump,
    PinkFall,
    GuyRun,
    GuyIdle,
    GuyJump,
    GuyDoubleJump,
    GuyFall,
    Terrain,
}

/// The registry key of an identifier; each identifier has its own key.
pub open spec fn spec_anim_key(a: Animation) -> u64 {
    match a {
        Animation::MaskRun => 0,
        Animation::MaskIdle => 1,
        Animation::MaskJump => 2,
        Animation::MaskDoubleJump => 3,
        Animation::MaskFall => 4,
        Animation::Strawberry => 5,
        Animation::Bananas => 6,
        Animation::NinjaRun => 7,
        Animation::NinjaIdle => 8,
        Animation::NinjaJump => 9,
        Animation::NinjaDoubleJump => 10,
        Animation::NinjaFall => 11,
        Animation::PinkRun => 12,
        Animation::PinkIdle => 13,
        Animation::PinkJump => 14,
        Animation::PinkDoubleJump => 15,
        Animation::PinkFall => 16,
        Animation::GuyRun => 17,
        Animation::GuyIdle => 18,
        Animation::GuyJump => 19,
        Animation::GuyDoubleJump => 20,
        Animation::GuyFall => 21,
        Animation::Terrain => 22,
    }
}

fn anim_key(a: Animation) -> (r: u64)
    ensures
        r == spec_anim_key(a),
{
    match a {
        Animation::MaskRun => 0,
        Animation::MaskIdle => 1,
        Animation::MaskJump => 2,
        Animation::MaskDoubleJump => 3,
        Animation::MaskFall => 4,
        Animation::Strawberry => 5,
        Animation::Bananas => 6,
        Animation::NinjaRun => 7,
        Animation::NinjaIdle => 8,
        Animation::NinjaJump => 9,
        Animation::NinjaDoubleJump => 10,
        Animation::NinjaFall => 11,
        Animation::PinkRun => 12,
        Animation::PinkIdle => 13,
        Animation::PinkJump => 14,
        Animation::PinkDoubleJump => 15,
        Animation::PinkFall => 16,
        Animation::GuyRun => 17,
        Animation::GuyIdle => 18,
        Animation::GuyJump => 19,
        Animation::GuyDoubleJump => 20,
        Animation::GuyFall => 21,
        Animation::Terrain => 22,
    }
}

/// An opaque renderer handle. The renderer owns the real assets; the engine
/// only stores and hands back their numeric identities.
pub type AnimationHandle = u64;

/// The registry itself: animation-strip handles and tile-atlas handles, each
/// keyed by logical identifier.
pub struct Animations {
    animations: std::collections::HashMap<u64, AnimationHandle>,
    atlas: std::collections::HashMap<u64, AnimationHandle>,
}

impl Animations {
    /// The animation-strip entries, as a map from identifier key to handle.
    pub closed spec fn spec_animations(self) -> Map<u64, AnimationHandle> {
        self.animations@
    }

    /// The tile-atlas entries, as a map from identifier key to handle.
    pub closed spec fn spec_atlas(self) -> Map<u64, AnimationHandle> {
        self.atlas@
    }

    /// What `get_animation` returns for an identifier.
    pub open spec fn spec_get_animation(self, id: Animation) -> Option<AnimationHandle> {
        if self.spec_animations().contains_key(spec_anim_key(id)) {
            Some(self.spec_animations()[spec_anim_key(id)])
        } else {
            None
        }
    }

    /// What `get_atlas` returns for an identifier.
    pub open spec fn spec_get_atlas(self, id: Animation) -> Option<AnimationHandle> {
        if self.spec_atlas().contains_key(spec_anim_key(id)) {
            Some(self.spec_atlas()[spec_anim_key(id)])
        } else {
            None
        }
    }

    pub fn new() -> (r: Animations)
        ensures
            r.spec_animations() == Map::<u64, AnimationHandle>::empty(),
            r.spec_atlas() == Map::<u64, AnimationHandle>::empty(),
    {
        Animations {
            animations: std::collections::HashMap::new(),
            atlas: std::collections::HashMap::new(),
        }
    }

    pub fn add_animation(&mut self, id: Animation, handle: AnimationHandle)
        ensures
            final(self).spec_animations() == old(self).spec_animations().insert(
                spec_anim_key(id),
                handle,
            ),
            final(self).spec_atlas() == old(self).spec_atlas(),
    {
        self.animations.insert(anim_key(id), handle);
    }

    pub fn get_animation(&self, id: Animation) -> (r: Option<AnimationHandle>)
        ensures
            r == self.spec_get_animation(id),
    {
        match self.animations.get(&anim_key(id)) {
            Some(h) => Some(*h),
            None => None,
        }
    }

    pub fn add_atlas(&mut self, id: Animation, handle: AnimationHandle)
        ensures
            final(self).spec_atlas() == old(self).spec_atlas().insert(spec_anim_key(id), handle),
            final(self).spec_animations() == old(self).spec_animations(),
    {
        self.atlas.insert(anim_key(id), handle);
    }

    pub fn get_atlas(&self, id: Animation) -> (r: Option<AnimationHandle>)
        ensures
            r == self.spec_get_atlas(id),
    {
        match self.atlas.get(&anim_key(id)) {
            Some(h) => Some(*h),
            None => None,
        }
    }
}

} // verus!
