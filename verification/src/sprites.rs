//! Assignment of sprite identifiers.
//!
//! The sprite manager hands out sprite identifiers that no other program holds:
//! a returned sprite is reused before a fresh identifier is made, and a sprite
//! that is returned twice is only kept once.

use vstd::prelude::*;
use crate::ids::ProgramId;

verus! {

/// Requests to the sprite manager.
#[derive(Clone, Copy, Debug, PartialEq, Eq, Structural)]
pub enum SpriteManager {
    /// Assign a sprite and send the assigned sprite to the given program
    RequestSprite(ProgramId),
    /// A sprite is finished with and can be assigned to another program
    ReturnSprite(u64),
}

/// The reply to a request: the sprite that was assigned.
#[derive(Clone, Copy, Debug, PartialEq, Eq, Structural)]
pub struct AssignedSprite(pub u64);

/// The state of the sprite manager: the returned sprites that are not assigned
/// (the last returned is reused first) and the next fresh identifier.
pub struct SpriteAllocator {
    unused: Vec<u64>,
    next_id: u64,
}

/// The mathematical state of the sprite manager.
pub struct SpriteModel {
    pub unused: Seq<u64>,
    pub next_id: u64,
}

impl View for SpriteAllocator {
    type V = SpriteModel;

    closed spec fn view(&self) -> SpriteModel {
        SpriteModel { unused: self.unused@, next_id: self.next_id }
    }
}

/// A request can be met: a returned sprite is waiting, or a fresh identifier is left.
pub open spec fn can_assign(m: SpriteModel) -> bool {
    m.unused.len() > 0 || m.next_id < u64::MAX
}

/// Assigning a sprite: the last returned one, or else a fresh identifier.
pub open spec fn spec_request(m: SpriteModel) -> (SpriteModel, u64) {
    if m.unused.len() > 0 {
        (SpriteModel { unused: m.unused.drop_last(), next_id: m.next_id }, m.unused.last())
    } else {
        (SpriteModel { unused: m.unused, next_id: (m.next_id + 1) as u64 }, m.next_id)
    }
}

/// Returning a sprite: it joins the unused sprites unless it is already there.
pub open spec fn spec_return(m: SpriteModel, sprite: u64) -> SpriteModel {
    if m.unused.contains(sprite) {
        m
    } else {
        SpriteModel { unused: m.unused.push(sprite), next_id: m.next_id }
    }
}

/// The sprites that are not assigned are all below the next fresh identifier,
/// and none is kept twice.
pub open spec fn sprites_consistent(m: SpriteModel) -> bool {
    &&& m.unused.no_duplicates()
    &&& forall|i: int| 0 <= i < m.unused.len() ==> #[trigger] m.unused[i] < m.next_id
}

impl SpriteAllocator {
    /// A sprite manager that has assigned nothing.
    pub fn new() -> (s: Self)
        ensures
            s@.unused == Seq::<u64>::empty(),
            s@.next_id == 0,
    {
        SpriteAllocator { unused: Vec::new(), next_id: 0 }
    }

    /// Whether a sprite can be assigned: a returned sprite is waiting, or a fresh identifier is left.
    pub fn can_request(&self) -> (r: bool)
        ensures
            r == can_assign(self@),
    {
        self.unused.len() > 0 || self.next_id < u64::MAX
    }

    /// Assigns a sprite.
    pub fn request_sprite(&mut self) -> (sprite: u64)
        requires
            can_assign(old(self)@),
        ensures
            (final(self)@, sprite) == spec_request(old(self)@),
    {
        match self.unused.pop() {
            Some(sprite) => sprite,
            None => {
                let sprite = self.next_id;
                self.next_id = self.next_id + 1;
                sprite
            },
        }
    }

    /// Takes back a sprite that is finished with.
    pub fn return_sprite(&mut self, sprite: u64)
        ensures
            final(self)@ == spec_return(old(self)@, sprite),
    {
        let mut i: usize = 0;
        while i < self.unused.len()
            invariant
                i <= self.unused@.len(),
                self@ == old(self)@,
                forall|j: int| 0 <= j < i ==> self.unused@[j] != sprite,
            decreases self.unused@.len() - i,
        {
            if self.unused[i] == sprite {
                assert(self.unused@[i as int] == sprite);
                return;
            }
            i = i + 1;
        }
        self.unused.push(sprite);
    }

    /// Handles one request: a sprite request is answered with the assigned
    /// sprite for the requesting program; a returned sprite gets no answer.
    pub fn handle(&mut self, req: SpriteManager) -> (reply: Option<(ProgramId, AssignedSprite)>)
        requires
            req is RequestSprite ==> can_assign(old(self)@),
        ensures
            match req {
                SpriteManager::RequestSprite(target) => final(self)@ == spec_request(old(self)@).0
                    && reply == Some((target, AssignedSprite(spec_request(old(self)@).1))),
                SpriteManager::ReturnSprite(sprite) => final(self)@ == spec_return(old(self)@, sprite)
                    && reply.is_none(),
            },
    {
        match req {
            SpriteManager::RequestSprite(target) => {
                let sprite = self.request_sprite();
                Some((target, AssignedSprite(sprite)))
            },
            SpriteManager::ReturnSprite(sprite) => {
                self.return_sprite(sprite);
                None
            },
        }
    }
}

/// A sprite that was just returned is the next one assigned.
pub proof fn law_return_then_request(m: SpriteModel, sprite: u64)
    requires
        !m.unused.contains(sprite),
    ensures
        spec_request(spec_return(m, sprite)).1 == sprite,
        spec_request(spec_return(m, sprite)).0.unused == m.unused,
{
    assert(m.unused.push(sprite).drop_last() =~= m.unused);
}

/// No sprite is ever kept twice among the unused sprites, whatever is returned.
pub proof fn law_return_keeps_unused_distinct(m: SpriteModel, sprite: u64)
    requires
        m.unused.no_duplicates(),
    ensures
        spec_return(m, sprite).unused.no_duplicates(),
{
    if !m.unused.contains(sprite) {
        let s = m.unused.push(sprite);
        assert forall|i: int, j: int| 0 <= i < s.len() && 0 <= j < s.len() && i != j implies s[i] != s[j] by {
            if i == m.unused.len() as int {
                assert(m.unused[j] == s[j]);
            } else if j == m.unused.len() as int {
                assert(m.unused[i] == s[i]);
            }
        }
    }
}

/// Assigning keeps the state consistent, and the assigned sprite is not among
/// the unused sprites afterwards: no two programs hold the same sprite.
pub proof fn law_request_assigns_unheld_sprite(m: SpriteModel)
    requires
        sprites_consistent(m),
        can_assign(m),
    ensures
        sprites_consistent(spec_request(m).0),
        !spec_request(m).0.unused.contains(spec_request(m).1),
{
    let (m2, sprite) = spec_request(m);
    if m.unused.len() > 0 {
        let n = m.unused.len() - 1;
        assert forall|i: int| 0 <= i < m2.unused.len() implies #[trigger] m2.unused[i] != sprite by {
            assert(m2.unused[i] == m.unused[i]);
            assert(m.unused[n] == sprite);
        }
        assert forall|i: int, j: int| 0 <= i < m2.unused.len() && 0 <= j < m2.unused.len() && i != j
            implies m2.unused[i] != m2.unused[j] by {
            assert(m2.unused[i] == m.unused[i]);
            assert(m2.unused[j] == m.unused[j]);
        }
    } else {
        assert forall|i: int| 0 <= i < m2.unused.len() implies #[trigger] m2.unused[i] != sprite by {
            assert(m.unused[i] < m.next_id);
        }
    }
}

/// Returning a sprite below the next fresh identifier keeps the state consistent.
pub proof fn law_return_keeps_consistent(m: SpriteModel, sprite: u64)
    requires
        sprites_consistent(m),
        sprite < m.next_id,
    ensures
        sprites_consistent(spec_return(m, sprite)),
{
    law_return_keeps_unused_distinct(m, sprite);
    let m2 = spec_return(m, sprite);
    assert forall|i: int| 0 <= i < m2.unused.len() implies #[trigger] m2.unused[i] < m2.next_id by {
        if i < m.unused.len() {
            assert(m2.unused[i] == m.unused[i]);
        }
    }
}

} // verus!
