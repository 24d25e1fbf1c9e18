use vstd::prelude::*;

verus! {

/// The substance held by one cell of the grid.
#[derive(Clone, Copy, Debug, PartialEq, Eq, Structural)]
pub enum Material {
    Sand,
    Water,
    Air,
}

/// A display colour, one byte per channel.
#[derive(Clone, Copy, Debug, PartialEq, Eq, Structural)]
pub struct Rgb {
    pub r: u8,
    pub g: u8,
    pub b: u8,
}

impl Material {
    /// Density rank: a total order with `Air < Water < Sand`.
    pub open spec fn density(self) -> int {
        match self {
            Material::Air => 0,
            Material::Water => 1,
            Material::Sand => 2,
        }
    }

    /// `other` may sink into a cell that holds `self`.
    pub open spec fn displaced_by(self, other: Material) -> bool {
        other.density() > self.density()
    }

    /// The colour a cell of this material is drawn in.
    pub open spec fn rgb(self) -> Rgb {
        match self {
            Material::Sand => Rgb { r: 252, g: 249, b: 0 },
            Material::Water => Rgb { r: 0, g: 119, b: 242 },
            Material::Air => Rgb { r: 0, g: 0, b: 0 },
        }
    }

    /// True iff `other` is denser than `self`, so that `other` may swap into
    /// a cell that currently holds `self`.
    pub fn is_displaceable_by(self, other: Material) -> (r: bool)
        ensures
            r == self.displaced_by(other),
    {
        match (self, other) {
            (Material::Air, Material::Water) => true,
            (Material::Air, Material::Sand) => true,
            (Material::Water, Material::Sand) => true,
            _ => false,
        }
    }

    /// Sand is yellow, water blue, air black.
    pub fn color(&self) -> (r: Rgb)
        ensures
            r == self.rgb(),
    {
        match self {
            Material::Sand => Rgb { r: 252, g: 249, b: 0 },
            Material::Water => Rgb { r: 0, g: 119, b: 242 },
            Material::Air => Rgb { r: 0, g: 0, b: 0 },
        }
    }
}

/// The displacement relation: air gives way to water and sand, water gives
/// way to sand alone, and sand gives way to nothing; no material displaces
/// itself.
pub proof fn lemma_displacement_order(m: Material)
    ensures
        Material::Air.displaced_by(Material::Sand),
        Material::Air.displaced_by(Material::Water),
        Material::Water.displaced_by(Material::Sand),
        !Material::Sand.displaced_by(m),
        !m.displaced_by(m),
        !Material::Water.displaced_by(Material::Water),
{
}

} // verus!
