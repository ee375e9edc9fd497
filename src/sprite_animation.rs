//! Sprite animations: named frame lists, one of them playing, stepping one
//! frame each time the frame timer fires.
use vstd::prelude::*;

verus! {

/// Relies on `str == str`: equal exactly when the characters are.
#[verifier::external_body]
fn same_name(a: &str, b: &str) -> (r: bool)
    ensures
        r == (a@ == b@),
{
    a == b
}

/// Named frame lists, the one playing and the frame counter.
#[derive(Clone, Debug)]
pub struct SpriteAnimation {
    pub current: Option<&'static str>,
    pub anim_index: usize,
    pub anims: Vec<(&'static str, Vec<u32>)>,
    pub flip_x: bool,
}

/// The first position in `anims` of the animation named `name`.
pub open spec fn find_anim(anims: Seq<(&'static str, Vec<u32>)>, name: Seq<char>) -> Option<int>
    decreases anims.len(),
{
    if anims.len() == 0 {
        None
    } else {
        match find_anim(anims.drop_last(), name) {
            Some(i) => Some(i),
            None => if anims.last().0@ == name {
                Some(anims.len() - 1)
            } else {
                None
            },
        }
    }
}

impl SpriteAnimation {
    /// Whether every frame list holds a frame.
    pub open spec fn wf(&self) -> bool {
        forall|k: int| 0 <= k < self.anims@.len() ==> (#[trigger] self.anims@[k]).1@.len() > 0
    }

    /// The sprite shown now: frame `anim_index` of the playing animation,
    /// counted round its frames; 0 when nothing known plays.
    pub open spec fn index_spec(&self) -> u32 {
        match self.current {
            Some(name) => match find_anim(self.anims@, name@) {
                Some(i) => {
                    let frames = self.anims@[i].1@;
                    frames[self.anim_index as int % frames.len() as int]
                },
                None => 0,
            },
            None => 0,
        }
    }

    /// Animations `anims`, the first one playing from its first frame.
    pub fn new(anims: Vec<(&'static str, Vec<u32>)>) -> (r: SpriteAnimation)
        ensures
            r.anims@ == anims@,
            r.anim_index == 0,
            !r.flip_x,
            anims@.len() == 0 ==> r.current is None,
            anims@.len() > 0 ==> r.current == Some(anims@[0].0),
    {
        let current = if anims.len() > 0 {
            Some(anims[0].0)
        } else {
            None
        };
        SpriteAnimation { current, anim_index: 0, anims, flip_x: false }
    }

    /// The sprite shown now.
    pub fn index(&self) -> (r: u32)
        requires
            self.wf(),
        ensures
            r == self.index_spec(),
    {
        match self.current {
            Some(name) => {
                let mut i: usize = 0;
                while i < self.anims.len()
                    invariant
                        self.wf(),
                        self.current == Some(name),
                        i <= self.anims@.len(),
                        find_anim(self.anims@.take(i as int), name@) is None,
                    decreases self.anims@.len() - i,
                {
                    proof {
                        assert(self.anims@.take(i + 1).drop_last() =~= self.anims@.take(i as int));
                    }
                    if same_name(self.anims[i].0, name) {
                        proof {
                            assert(self.anims@.take(i + 1).last() == self.anims@[i as int]);
                            lemma_find_prefix(self.anims@, name@, i as int + 1);
                            assert(self.anims@[i as int].1@.len() > 0);
                        }
                        let frames = &self.anims[i].1;
                        return frames[self.anim_index % frames.len()];
                    }
                    i = i + 1;
                }
                assert(self.anims@.take(self.anims@.len() as int) =~= self.anims@);
                0
            },
            None => 0,
        }
    }

    /// Plays the animation named `name`.
    pub fn set(&mut self, name: &'static str)
        ensures
            *final(self) == (SpriteAnimation { current: Some(name), ..*old(self) }),
    {
        self.current = Some(name);
    }

    /// The name of the animation playing.
    pub fn get(&self) -> (r: Option<&'static str>)
        ensures
            r == self.current,
    {
        self.current
    }

    /// Steps to the next frame when the frame timer has fired; the counter
    /// wraps around.
    pub fn update(&mut self, fired: bool)
        ensures
            final(self).anim_index == if !fired {
                old(self).anim_index
            } else if old(self).anim_index == usize::MAX {
                0
            } else {
                (old(self).anim_index + 1) as usize
            },
            final(self).current == old(self).current,
            final(self).anims@ == old(self).anims@,
            final(self).flip_x == old(self).flip_x,
    {
        if fired {
            self.anim_index = if self.anim_index == usize::MAX {
                0
            } else {
                self.anim_index + 1
            };
        }
    }
}

/// Finding an animation in a prefix finds it in the whole list.
proof fn lemma_find_prefix(anims: Seq<(&'static str, Vec<u32>)>, name: Seq<char>, i: int)
    requires
        0 <= i <= anims.len(),
        find_anim(anims.take(i), name) is Some,
    ensures
        find_anim(anims, name) == find_anim(anims.take(i), name),
    decreases anims.len() - i,
{
    if i < anims.len() {
        assert(anims.take(i + 1).drop_last() =~= anims.take(i));
        lemma_find_prefix(anims, name, i + 1);
    } else {
        assert(anims.take(i) =~= anims);
    }
}

} // verus!
