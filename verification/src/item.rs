//! Item definitions and material classes.

use vstd::prelude::*;

use crate::ids::{IdError, ItemId};
use crate::text::{is_blank, owned, push_str};

verus! {

/// Broad material class used by recipes that can accept equivalent materials.
#[derive(Debug, Clone, Copy, PartialEq, Eq, Hash, Structural)]
pub enum MaterialClass {
    Wood,
    Stone,
    Metal,
    Fiber,
    Plant,
    Soil,
    Crystal,
}

/// Validation failures for item definitions.
#[derive(Debug, Clone, PartialEq, Eq)]
pub enum ItemDefinitionError {
    InvalidId(IdError),
    InvalidStackLimit,
}

impl ItemDefinitionError {
    /// The error as a message.
    pub fn to_string(&self) -> (r: String)
        ensures
            r@ == match *self {
                ItemDefinitionError::InvalidId(IdError::Empty { kind }) => "invalid item id: "@ + kind@ + " cannot be empty"@,
                ItemDefinitionError::InvalidStackLimit => "item stack_limit must be greater than zero"@,
            },
    {
        match self {
            ItemDefinitionError::InvalidId(error) => {
                let mut out = owned("invalid item id: ");
                let inner = error.to_string();
                push_str(&mut out, inner.as_str());
                out
            },
            ItemDefinitionError::InvalidStackLimit => owned("item stack_limit must be greater than zero"),
        }
    }
}

/// Pure data definition for an item type.
#[derive(Debug, Clone, PartialEq, Eq)]
pub struct ItemDefinition {
    id: ItemId,
    display_name: String,
    material_class: MaterialClass,
    stack_limit: u16,
}

/// What an item definition states.
pub struct ItemDefinitionView {
    pub id: Seq<char>,
    pub display_name: Seq<char>,
    pub material_class: MaterialClass,
    pub stack_limit: u16,
}

impl View for ItemDefinition {
    type V = ItemDefinitionView;

    closed spec fn view(&self) -> ItemDefinitionView {
        ItemDefinitionView {
            id: self.id@,
            display_name: self.display_name@,
            material_class: self.material_class,
            stack_limit: self.stack_limit,
        }
    }
}

impl ItemDefinition {
    /// Creates an item definition. A zero stack limit is rejected first, then an id
    /// that trims to the empty string.
    pub fn new(id: &str, display_name: &str, material_class: MaterialClass, stack_limit: u16) -> (r: Result<Self, ItemDefinitionError>)
        ensures
            stack_limit == 0 ==> r == Err::<Self, ItemDefinitionError>(ItemDefinitionError::InvalidStackLimit),
            stack_limit > 0 && is_blank(id@) ==> (r matches Err(ItemDefinitionError::InvalidId(IdError::Empty { kind }))
                && kind@ == "ItemId"@),
            stack_limit > 0 && !is_blank(id@) ==> (r matches Ok(d) && d@ == (ItemDefinitionView {
                id: id@,
                display_name: display_name@,
                material_class,
                stack_limit,
            })),
    {
        if stack_limit == 0 {
            return Err(ItemDefinitionError::InvalidStackLimit);
        }
        match ItemId::new(id) {
            Ok(item_id) => Ok(ItemDefinition {
                id: item_id,
                display_name: owned(display_name),
                material_class,
                stack_limit,
            }),
            Err(e) => Err(ItemDefinitionError::InvalidId(e)),
        }
    }

    pub fn id(&self) -> (r: &ItemId)
        ensures
            r@ == self@.id,
    {
        &self.id
    }

    pub fn display_name(&self) -> (r: &str)
        ensures
            r@ == self@.display_name,
    {
        self.display_name.as_str()
    }

    pub fn material_class(&self) -> (r: MaterialClass)
        ensures
            r == self@.material_class,
    {
        self.material_class
    }

    pub fn stack_limit(&self) -> (r: u16)
        ensures
            r == self@.stack_limit,
    {
        self.stack_limit
    }
}

} // verus!
