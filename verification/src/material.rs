//! Material definitions and alchemical traits.
//!
//! A material's numeric properties are floating-point values and are checked by
//! the runtime shell; the definition kept here holds what the alchemy rules read.

use vstd::prelude::*;

use crate::ids::{IdError, MaterialId};
use crate::text::{is_blank, owned, push_str};

verus! {

/// Initial alchemical trait tags for materials.
#[derive(Debug, Clone, Copy, PartialEq, Eq, Hash, Structural)]
pub enum AlchemyTrait {
    Growth,
    Heat,
    Cold,
    Stability,
    Volatility,
    Conductive,
}

/// Validation failures for material definitions.
#[derive(Debug, Clone, PartialEq, Eq)]
pub enum MaterialDefinitionError {
    InvalidId(IdError),
    NumericOutOfRange { field: &'static str },
}

impl MaterialDefinitionError {
    /// The error as a message.
    pub fn to_string(&self) -> (r: String)
        ensures
            r@ == match *self {
                MaterialDefinitionError::InvalidId(IdError::Empty { kind }) => "invalid material id: "@ + kind@ + " cannot be empty"@,
                MaterialDefinitionError::NumericOutOfRange { field } => "material field "@ + field@ + " is out of range"@,
            },
    {
        match self {
            MaterialDefinitionError::InvalidId(error) => {
                let mut out = owned("invalid material id: ");
                let inner = error.to_string();
                push_str(&mut out, inner.as_str());
                out
            },
            MaterialDefinitionError::NumericOutOfRange { field } => {
                let mut out = owned("material field ");
                push_str(&mut out, field);
                push_str(&mut out, " is out of range");
                out
            },
        }
    }
}

/// A copy of a list of traits.
pub fn copy_traits(traits: &[AlchemyTrait]) -> (r: Vec<AlchemyTrait>)
    ensures
        r@ == traits@,
{
    let mut out: Vec<AlchemyTrait> = Vec::new();
    let mut i: usize = 0;
    while i < traits.len()
        invariant
            i <= traits@.len(),
            out@ == traits@.take(i as int),
        decreases traits@.len() - i,
    {
        out.push(traits[i]);
        i = i + 1;
        assert(out@ =~= traits@.take(i as int));
    }
    assert(traits@.take(traits@.len() as int) =~= traits@);
    out
}

/// Data-driven material definition used by crafting and alchemy.
#[derive(Debug, PartialEq, Eq)]
pub struct MaterialDefinition {
    id: MaterialId,
    display_name: String,
    traits: Vec<AlchemyTrait>,
}

/// What a material definition states.
pub struct MaterialView {
    pub id: Seq<char>,
    pub display_name: Seq<char>,
    pub traits: Seq<AlchemyTrait>,
}

impl View for MaterialDefinition {
    type V = MaterialView;

    closed spec fn view(&self) -> MaterialView {
        MaterialView { id: self.id@, display_name: self.display_name@, traits: self.traits@ }
    }
}

impl MaterialDefinition {
    /// Creates a material definition whose numeric properties were already found
    /// in range; fails exactly when the id trims to the empty string.
    pub fn new(id: &str, display_name: &str, traits: Vec<AlchemyTrait>) -> (r: Result<Self, MaterialDefinitionError>)
        ensures
            is_blank(id@) ==> (r matches Err(MaterialDefinitionError::InvalidId(IdError::Empty { kind }))
                && kind@ == "MaterialId"@),
            !is_blank(id@) ==> (r matches Ok(m) && m@ == (MaterialView {
                id: id@,
                display_name: display_name@,
                traits: traits@,
            })),
    {
        match MaterialId::new(id) {
            Ok(material_id) => Ok(MaterialDefinition { id: material_id, display_name: owned(display_name), traits }),
            Err(e) => Err(MaterialDefinitionError::InvalidId(e)),
        }
    }

    pub fn id(&self) -> (r: &MaterialId)
        ensures
            r@ == self@.id,
    {
        &self.id
    }

    pub fn display_name(&self) -> (r: &str)
        ensures
            r@ == self@.display_name,
    {
        self.display_name.as_str()
    }

    pub fn traits(&self) -> (r: &[AlchemyTrait])
        ensures
            r@ == self@.traits,
    {
        self.traits.as_slice()
    }
}

} // verus!
