use vstd::prelude::*;

verus! {

/// State of the sixteen-key hexadecimal keypad, replaced by the host once per frame.
pub struct Keyboard {
    keys: [bool; 16],
    pressed: Option<u8>,
}

impl Keyboard {
    /// Which keys are down, by key index.
    pub closed spec fn keys(&self) -> Seq<bool> {
        self.keys@
    }

    /// The key that was newly pressed in the current frame, if any.
    pub closed spec fn pressed(&self) -> Option<u8> {
        self.pressed
    }

    /// The newly pressed key, if any, is a key index.
    pub open spec fn wf(&self) -> bool {
        &&& self.keys().len() == 16
        &&& self.pressed() matches Some(k) ==> k < 16
    }

    /// All keys up, no key newly pressed.
    pub fn new() -> (r: Self)
        ensures
            r.wf(),
            r.keys() == Seq::new(16, |i: int| false),
            r.pressed() is None,
    {
        let r = Keyboard { keys: [false; 16], pressed: None };
        assert(r.keys() =~= Seq::new(16, |i: int| false));
        r
    }

    /// Replaces the down/up state of all sixteen keys.
    pub fn set_keys(&mut self, keys: [bool; 16])
        requires
            old(self).wf(),
        ensures
            final(self).wf(),
            final(self).keys() == keys@,
            final(self).pressed() == old(self).pressed(),
    {
        self.keys = keys;
    }

    /// Replaces the newly pressed key of this frame.
    pub fn set_just_pressed(&mut self, key: Option<u8>)
        requires
            old(self).wf(),
            key matches Some(k) ==> k < 16,
        ensures
            final(self).wf(),
            final(self).keys() == old(self).keys(),
            final(self).pressed() == key,
    {
        self.pressed = key;
    }

    /// Whether key `key` is down.
    pub fn is_down(&self, key: u8) -> (r: bool)
        requires
            self.wf(),
            key < 16,
        ensures
            r == self.keys()[key as int],
    {
        self.keys[key as usize]
    }

    /// The key newly pressed in this frame, if any.
    pub fn just_pressed(&self) -> (r: Option<u8>)
        ensures
            r == self.pressed(),
    {
        self.pressed
    }
}

} // verus!
