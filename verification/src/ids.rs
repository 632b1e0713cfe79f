//! Strongly typed stable identifiers for Alchimera domain objects.

use vstd::prelude::*;

use crate::seed::{derived_child, WorldSeed};
use vstd::string::{StrSliceExecFns, StringSliceAdditionalSpecFns};
use crate::text::{is_blank, owned, push_str, str_is_blank};

verus! {

/// Validation error for stable string identifiers.
#[derive(Debug, Clone, PartialEq, Eq)]
pub enum IdError {
    Empty { kind: &'static str },
}

impl IdError {
    /// The error as a message.
    pub fn to_string(&self) -> (r: String)
        ensures
            r@ == match *self {
                IdError::Empty { kind } => kind@ + " cannot be empty"@,
            },
    {
        match self {
            IdError::Empty { kind } => {
                let mut out = owned(kind);
                push_str(&mut out, " cannot be empty");
                out
            },
        }
    }
}

/// The check shared by every string identifier: the value must not trim to nothing.
fn validate_string_id(kind: &'static str, value: &str) -> (r: Result<(), IdError>)
    ensures
        r is Err <==> is_blank(value@),
        r matches Err(IdError::Empty { kind: t }) ==> t == kind,
{
    if str_is_blank(value) {
        return Err(IdError::Empty { kind });
    }
    Ok(())
}

/// Identifier of an object prototype.
#[derive(Debug, Eq, PartialOrd, Ord, Hash)]
pub struct PrototypeId(String);

impl View for PrototypeId {
    type V = Seq<char>;

    closed spec fn view(&self) -> Seq<char> {
        self.0@
    }
}

impl PrototypeId {
    /// Creates the identifier; fails exactly when the value trims to the empty string.
    pub fn new(value: &str) -> (r: Result<Self, IdError>)
        ensures
            r is Err <==> is_blank(value@),
            r matches Ok(id) ==> id@ == value@,
            r matches Err(IdError::Empty { kind }) ==> kind@ == "PrototypeId"@,
    {
        match validate_string_id("PrototypeId", value) {
            Ok(()) => Ok(PrototypeId(owned(value))),
            Err(e) => Err(e),
        }
    }

    /// The identifier's text.
    pub fn as_str(&self) -> (r: &str)
        ensures
            r@ == self@,
    {
        self.0.as_str()
    }

    /// The identifier rendered as text (its value, unchanged).
    pub fn to_string(&self) -> (r: String)
        ensures
            r@ == self@,
    {
        self.0.clone()
    }
}

impl PartialEq for PrototypeId {
    fn eq(&self, other: &Self) -> (r: bool) {
        self.0 == other.0
    }
}

impl vstd::std_specs::cmp::PartialEqSpecImpl for PrototypeId {
    open spec fn obeys_eq_spec() -> bool {
        true
    }

    open spec fn eq_spec(&self, other: &Self) -> bool {
        self@ == other@
    }
}

impl Clone for PrototypeId {
    fn clone(&self) -> (r: Self)
        ensures
            r@ == self@,
    {
        PrototypeId(self.0.clone())
    }
}

/// Identifier of a material definition.
#[derive(Debug, Eq, PartialOrd, Ord, Hash)]
pub struct MaterialId(String);

impl View for MaterialId {
    type V = Seq<char>;

    closed spec fn view(&self) -> Seq<char> {
        self.0@
    }
}

impl MaterialId {
    /// Creates the identifier; fails exactly when the value trims to the empty string.
    pub fn new(value: &str) -> (r: Result<Self, IdError>)
        ensures
            r is Err <==> is_blank(value@),
            r matches Ok(id) ==> id@ == value@,
            r matches Err(IdError::Empty { kind }) ==> kind@ == "MaterialId"@,
    {
        match validate_string_id("MaterialId", value) {
            Ok(()) => Ok(MaterialId(owned(value))),
            Err(e) => Err(e),
        }
    }

    /// The identifier's text.
    pub fn as_str(&self) -> (r: &str)
        ensures
            r@ == self@,
    {
        self.0.as_str()
    }

    /// The identifier rendered as text (its value, unchanged).
    pub fn to_string(&self) -> (r: String)
        ensures
            r@ == self@,
    {
        self.0.clone()
    }
}

impl PartialEq for MaterialId {
    fn eq(&self, other: &Self) -> (r: bool) {
        self.0 == other.0
    }
}

impl vstd::std_specs::cmp::PartialEqSpecImpl for MaterialId {
    open spec fn obeys_eq_spec() -> bool {
        true
    }

    open spec fn eq_spec(&self, other: &Self) -> bool {
        self@ == other@
    }
}

impl Clone for MaterialId {
    fn clone(&self) -> (r: Self)
        ensures
            r@ == self@,
    {
        MaterialId(self.0.clone())
    }
}

/// Identifier of an item type.
#[derive(Debug, Eq, PartialOrd, Ord, Hash)]
pub struct ItemId(String);

impl View for ItemId {
    type V = Seq<char>;

    closed spec fn view(&self) -> Seq<char> {
        self.0@
    }
}

impl ItemId {
    /// Creates the identifier; fails exactly when the value trims to the empty string.
    pub fn new(value: &str) -> (r: Result<Self, IdError>)
        ensures
            r is Err <==> is_blank(value@),
            r matches Ok(id) ==> id@ == value@,
            r matches Err(IdError::Empty { kind }) ==> kind@ == "ItemId"@,
    {
        match validate_string_id("ItemId", value) {
            Ok(()) => Ok(ItemId(owned(value))),
            Err(e) => Err(e),
        }
    }

    /// The identifier's text.
    pub fn as_str(&self) -> (r: &str)
        ensures
            r@ == self@,
    {
        self.0.as_str()
    }

    /// The identifier rendered as text (its value, unchanged).
    pub fn to_string(&self) -> (r: String)
        ensures
            r@ == self@,
    {
        self.0.clone()
    }
}

impl PartialEq for ItemId {
    fn eq(&self, other: &Self) -> (r: bool) {
        self.0 == other.0
    }
}

impl vstd::std_specs::cmp::PartialEqSpecImpl for ItemId {
    open spec fn obeys_eq_spec() -> bool {
        true
    }

    open spec fn eq_spec(&self, other: &Self) -> bool {
        self@ == other@
    }
}

impl Clone for ItemId {
    fn clone(&self) -> (r: Self)
        ensures
            r@ == self@,
    {
        ItemId(self.0.clone())
    }
}

/// Identifier of a crafting recipe.
#[derive(Debug, Eq, PartialOrd, Ord, Hash)]
pub struct RecipeId(String);

impl View for RecipeId {
    type V = Seq<char>;

    closed spec fn view(&self) -> Seq<char> {
        self.0@
    }
}

impl RecipeId {
    /// Creates the identifier; fails exactly when the value trims to the empty string.
    pub fn new(value: &str) -> (r: Result<Self, IdError>)
        ensures
            r is Err <==> is_blank(value@),
            r matches Ok(id) ==> id@ == value@,
            r matches Err(IdError::Empty { kind }) ==> kind@ == "RecipeId"@,
    {
        match validate_string_id("RecipeId", value) {
            Ok(()) => Ok(RecipeId(owned(value))),
            Err(e) => Err(e),
        }
    }

    /// The identifier's text.
    pub fn as_str(&self) -> (r: &str)
        ensures
            r@ == self@,
    {
        self.0.as_str()
    }

    /// The identifier rendered as text (its value, unchanged).
    pub fn to_string(&self) -> (r: String)
        ensures
            r@ == self@,
    {
        self.0.clone()
    }
}

impl PartialEq for RecipeId {
    fn eq(&self, other: &Self) -> (r: bool) {
        self.0 == other.0
    }
}

impl vstd::std_specs::cmp::PartialEqSpecImpl for RecipeId {
    open spec fn obeys_eq_spec() -> bool {
        true
    }

    open spec fn eq_spec(&self, other: &Self) -> bool {
        self@ == other@
    }
}

impl Clone for RecipeId {
    fn clone(&self) -> (r: Self)
        ensures
            r@ == self@,
    {
        RecipeId(self.0.clone())
    }
}

/// Identifier of a world chunk.
#[derive(Debug, Eq, PartialOrd, Ord, Hash)]
pub struct ChunkId(String);

impl View for ChunkId {
    type V = Seq<char>;

    closed spec fn view(&self) -> Seq<char> {
        self.0@
    }
}

impl ChunkId {
    /// Creates the identifier; fails exactly when the value trims to the empty string.
    pub fn new(value: &str) -> (r: Result<Self, IdError>)
        ensures
            r is Err <==> is_blank(value@),
            r matches Ok(id) ==> id@ == value@,
            r matches Err(IdError::Empty { kind }) ==> kind@ == "ChunkId"@,
    {
        match validate_string_id("ChunkId", value) {
            Ok(()) => Ok(ChunkId(owned(value))),
            Err(e) => Err(e),
        }
    }

    /// The identifier's text.
    pub fn as_str(&self) -> (r: &str)
        ensures
            r@ == self@,
    {
        self.0.as_str()
    }

    /// The identifier rendered as text (its value, unchanged).
    pub fn to_string(&self) -> (r: String)
        ensures
            r@ == self@,
    {
        self.0.clone()
    }
}

impl PartialEq for ChunkId {
    fn eq(&self, other: &Self) -> (r: bool) {
        self.0 == other.0
    }
}

impl vstd::std_specs::cmp::PartialEqSpecImpl for ChunkId {
    open spec fn obeys_eq_spec() -> bool {
        true
    }

    open spec fn eq_spec(&self, other: &Self) -> bool {
        self@ == other@
    }
}

impl Clone for ChunkId {
    fn clone(&self) -> (r: Self)
        ensures
            r@ == self@,
    {
        ChunkId(self.0.clone())
    }
}

/// Stable identifier for a generated object instance.
#[derive(Debug, Clone, Copy, PartialEq, Eq, PartialOrd, Ord, Hash)]
pub struct ObjectId(u64);

impl ObjectId {
    /// The raw value of the identifier.
    pub closed spec fn value(self) -> u64 {
        self.0
    }

    /// Derives an object ID from deterministic generation inputs: the child seed of
    /// `seed` under the label `object.instance`, the chunk coordinates and the index.
    pub fn from_seed_chunk_and_index(seed: WorldSeed, chunk: [i32; 2], index: u64) -> (r: Self)
        ensures
            r.value() == derived_child(seed.value(), "object.instance".spec_bytes(), chunk@, index),
    {
        let coordinates: &[i32] = &chunk;
        ObjectId(seed.derive_child("object.instance", coordinates, index).as_u64())
    }

    /// The raw value of the identifier.
    pub fn as_u64(self) -> (r: u64)
        ensures
            r == self.value(),
    {
        self.0
    }
}


/// The lowercase hexadecimal digit of a value below sixteen.
pub open spec fn hex_char(nibble: u64) -> char {
    if nibble < 10 { (nibble + 48) as char } else { (nibble + 87) as char }
}

/// The sixteen lowercase hexadecimal digits of a 64-bit value, most significant first.
pub open spec fn hex16(value: u64) -> Seq<char> {
    Seq::new(16, |k: int| hex_char((value >> ((4 * (15 - k)) as u64)) & 0xf))
}

fn hex_digit(nibble: u64) -> (r: &'static str)
    requires
        nibble < 16,
    ensures
        r@ == seq![hex_char(nibble)],
{
    match nibble {
        0 => {
            proof {
                reveal_strlit("0");
            }
            "0"
        },
        1 => {
            proof {
                reveal_strlit("1");
            }
            "1"
        },
        2 => {
            proof {
                reveal_strlit("2");
            }
            "2"
        },
        3 => {
            proof {
                reveal_strlit("3");
            }
            "3"
        },
        4 => {
            proof {
                reveal_strlit("4");
            }
            "4"
        },
        5 => {
            proof {
                reveal_strlit("5");
            }
            "5"
        },
        6 => {
            proof {
                reveal_strlit("6");
            }
            "6"
        },
        7 => {
            proof {
                reveal_strlit("7");
            }
            "7"
        },
        8 => {
            proof {
                reveal_strlit("8");
            }
            "8"
        },
        9 => {
            proof {
                reveal_strlit("9");
            }
            "9"
        },
        10 => {
            proof {
                reveal_strlit("a");
            }
            "a"
        },
        11 => {
            proof {
                reveal_strlit("b");
            }
            "b"
        },
        12 => {
            proof {
                reveal_strlit("c");
            }
            "c"
        },
        13 => {
            proof {
                reveal_strlit("d");
            }
            "d"
        },
        14 => {
            proof {
                reveal_strlit("e");
            }
            "e"
        },
        15 => {
            proof {
                reveal_strlit("f");
            }
            "f"
        },
        _ => {
            proof {
                reveal_strlit("f");
            }
            "f"
        },
    }
}

impl ObjectId {
    /// The identifier rendered as `object.` followed by its value in sixteen
    /// lowercase hexadecimal digits.
    pub fn to_string(&self) -> (r: String)
        ensures
            r@ == "object."@ + hex16(self.value()),
    {
        let value = self.0;
        let mut out = owned("object.");
        let mut k: u64 = 0;
        while k < 16
            invariant
                k <= 16,
                value == self.0,
                out@ == "object."@ + hex16(value).take(k as int),
            decreases 16 - k,
        {
            let shift: u64 = 4 * (15 - k);
            let nibble = (value >> shift) & 0xf;
            assert(nibble < 16) by (bit_vector)
                requires nibble == (value >> shift) & 0xf;
            out.append(hex_digit(nibble));
            assert(hex16(value).take(k + 1) =~= hex16(value).take(k as int).push(hex_char(nibble)));
            assert(out@ =~= "object."@ + hex16(value).take(k + 1));
            k = k + 1;
        }
        assert(hex16(value).take(16) =~= hex16(value));
        out
    }
}

} // verus!
