//! The modes a node can be started in and the themes of the spicy mode.
use vstd::prelude::*;

verus! {

/// The themes of the messages a node in spicy mode sends.
#[derive(Debug, Clone, Copy, PartialEq, Eq, Structural, Hash)]
pub enum FlyPathThemes {
    Batman,
    Rocket,
    Quackable,
    HarryPotter,
    DarkSouls,
    Bloodborne,
    Pingu,
}

impl FlyPathThemes {
    /// The name under which the messages of the theme are filed.
    pub open spec fn name(self) -> Seq<char> {
        match self {
            FlyPathThemes::Batman => "Batman"@,
            FlyPathThemes::Rocket => "Rocket"@,
            FlyPathThemes::Quackable => "Quackable"@,
            FlyPathThemes::HarryPotter => "HarryPotter"@,
            FlyPathThemes::DarkSouls => "DarkSoul"@,
            FlyPathThemes::Bloodborne => "Bloodborne"@,
            FlyPathThemes::Pingu => "Pingu"@,
        }
    }

    /// The name under which the messages of the theme are filed.
    pub fn as_str(&self) -> (res: &'static str)
        ensures
            res@ == self.name(),
    {
        match self {
            FlyPathThemes::Batman => "Batman",
            FlyPathThemes::Rocket => "Rocket",
            FlyPathThemes::Quackable => "Quackable",
            FlyPathThemes::HarryPotter => "HarryPotter",
            FlyPathThemes::DarkSouls => "DarkSoul",
            FlyPathThemes::Bloodborne => "Bloodborne",
            FlyPathThemes::Pingu => "Pingu",
        }
    }

    /// The name under which the messages of the theme are filed, as an owned
    /// string.
    pub fn to_string(&self) -> (res: String)
        ensures
            res@ == self.name(),
    {
        self.as_str().to_owned()
    }
}

/// How a node behaves towards its controller. Routing is the same in every
/// mode: the modes differ in the messages that the node sends along.
#[derive(Debug, Clone, Copy, PartialEq, Eq, Structural, Hash)]
pub enum FlyPathModes {
    /// The node sends no messages.
    Default,
    /// The node sends messages of the chosen theme.
    Spicy(FlyPathThemes),
    /// The node sends the messages of a node gone mad.
    BrainRot,
}

} // verus!
