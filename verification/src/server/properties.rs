use vstd::prelude::*;

verus! {

/// How hard the world is.
#[derive(Clone, Copy, PartialEq, Eq, Structural, Debug)]
pub enum Difficulty {
    Easy,
    Medium,
    Hard,
}

/// Settings of a server world.
pub struct ServerWorldProperties {
    pub difficulty: Difficulty,
    pub name: String,
}

impl ServerWorldProperties {
    pub fn new(name: String, difficulty: Difficulty) -> (p: ServerWorldProperties)
        ensures
            p.name@ == name@,
            p.difficulty == difficulty,
    {
        ServerWorldProperties { difficulty, name }
    }
}

} // verus!
