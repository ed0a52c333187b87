use vstd::prelude::*;

verus! {

/// What a shell does when fired.
#[derive(Debug, Clone, Copy, PartialEq, Eq, Structural)]
pub enum ShellType {
    Live,
    Blank,
}

/// A shell in the shotgun's queue.
#[derive(Debug, Clone, Copy, PartialEq, Eq, Structural)]
pub struct Shell(pub ShellType);

/// The damage dealt by one shot; the flag says whether the target was killed.
#[derive(Debug, Clone, Copy, PartialEq, Eq, Structural)]
pub enum ShotgunDamage {
    Blank,
    RegularShot(bool),
    SawedShot(bool),
}

/// The other shell type.
pub open spec fn flipped(t: ShellType) -> ShellType {
    match t {
        ShellType::Live => ShellType::Blank,
        ShellType::Blank => ShellType::Live,
    }
}

impl Shell {
    pub fn new(shell_type: ShellType) -> (r: Self)
        ensures
            r.0 == shell_type,
    {
        Shell(shell_type)
    }

    pub fn shell_type(&self) -> (r: ShellType)
        ensures
            r == self.0,
    {
        self.0
    }

    /// Flips the shell between live and blank.
    pub fn invert(&mut self)
        ensures
            final(self).0 == flipped(old(self).0),
    {
        match self.0 {
            ShellType::Live => self.0 = ShellType::Blank,
            ShellType::Blank => self.0 = ShellType::Live,
        }
    }

    /// Fires the shell; true when it was live.
    pub fn fire(self) -> (r: bool)
        ensures
            r == (self.0 == ShellType::Live),
    {
        self.0 == ShellType::Live
    }
}

} // verus!
