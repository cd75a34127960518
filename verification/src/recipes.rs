//! Domain model of the hosted application: the kinds of drink, glass and
//! measure its recipes speak of.

use vstd::prelude::*;

verus! {

/// A base spirit.
#[derive(Clone, Debug, PartialEq, Eq)]
pub enum Spirit {
    Gin,
    Mezcal,
    Vodka,
    Rum,
    Whiskey(Whiskey),
}

/// A whiskey family.
#[derive(Clone, Copy, Debug, PartialEq, Eq, Structural)]
pub enum Whiskey {
    Scotch,
    Irish,
    Bourbon,
}

/// The glass a drink is served in.
#[derive(Clone, Copy, Debug, PartialEq, Eq, Structural)]
pub enum Glassware {
    Lowball,
    Highball,
    Martini,
    NickAndNora,
    Hurricane,
    Tiki,
    Wine,
}

/// How an ingredient is measured.
#[derive(Clone, Copy, Debug, PartialEq, Eq, Structural)]
pub enum UnitKind {
    Volume,
    Quanity,
    Mass,
}

/// How a drink is prepared.
#[derive(Clone, Debug, PartialEq, Eq)]
pub enum Preperation {
    Stirred,
    Shaken,
    Blended,
    BuildInGlass,
    Other(String),
}

impl Preperation {
    /// The expected dilution of this preparation, in percent of the mixed
    /// volume, where a standard figure exists.
    pub fn dilution(&self) -> (r: Option<u64>)
        ensures
            r == (match self {
                Preperation::Stirred => Some(20u64),
                Preperation::Shaken => Some(20u64),
                Preperation::Blended => None::<u64>,
                Preperation::BuildInGlass => Some(0u64),
                Preperation::Other(_) => None::<u64>,
            }),
    {
        match self {
            Preperation::Stirred => Some(20),
            Preperation::Shaken => Some(20),
            Preperation::Blended => None,
            Preperation::BuildInGlass => Some(0),
            Preperation::Other(_) => None,
        }
    }
}

} // verus!
