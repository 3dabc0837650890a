//! What leaves the compiler: symbols, one for each function, and their
//! places in the sections of an object file.

use object::write::SectionId;
use vstd::prelude::*;

pub mod elf;
pub mod symbol;

verus! {

/// `object::write::SectionId` names a section of an object file that is
/// being written. The library only carries such a name from where it was
/// given to where it is used.
#[verifier::external_type_specification]
#[verifier::external_body]
pub struct ExSectionId(SectionId);

/// The section that a symbol belongs to.
#[derive(Debug)]
pub enum Section {
    /// Machine code.
    Text,
    /// Data with initial values.
    Data,
    /// Data without initial values.
    Bss,
    /// Notes.
    Note,
    /// A section of another name, and the section of the object file that
    /// stands for it, once there is one.
    Other(String, Option<SectionId>),
}

} // verus!
