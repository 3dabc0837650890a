//! The plan of an ELF object file: which sections it has, what goes into
//! them, and which symbols name what.
//!
//! The plan holds everything as plain values. Symbols of the text section
//! follow each other: each begins where the bytes added before it end.

use super::symbol::{Symbol, SymbolType};
use super::Section;
use object::{Architecture, Endianness};
use vstd::prelude::*;

verus! {

/// `object::Architecture` names the machine that an object file is for. The
/// library keeps it for whoever writes the file.
#[verifier::external_type_specification]
#[verifier::external_body]
pub struct ExArchitecture(Architecture);

/// `object::Endianness` is the byte order of an object file. The library
/// keeps it for whoever writes the file.
#[verifier::external_type_specification]
#[verifier::external_body]
pub struct ExEndianness(Endianness);

/// What a section holds.
#[derive(Debug, PartialEq, Eq, Clone, Copy, Structural)]
pub enum SectionKind {
    /// Machine code.
    Text,
    /// Data with initial values.
    Data,
    /// Notes.
    Note,
    /// Data without initial values.
    UninitializedData,
    /// Something else.
    Unknown,
}

/// What a symbol names.
#[derive(Debug, PartialEq, Eq, Clone, Copy, Structural)]
pub enum SymbolKind {
    /// Machine code.
    Text,
}

/// How far a symbol is visible.
#[derive(Debug, PartialEq, Eq, Clone, Copy, Structural)]
pub enum SymbolScope {
    /// Within its own unit.
    Compilation,
    /// To everything that is linked with it.
    Linkage,
}

/// Type and binding of a symbol that is private to its unit.
pub const ST_INFO_PRIVATE: u8 = 0x10;

/// Type and binding of a symbol that other units can see.
pub const ST_INFO_GLOBAL: u8 = 0x12;

/// The alignment, in bytes, of what is added to the text section.
pub const TEXT_ALIGN: u64 = 4;

/// A section of the file: its name, its kind, and the pieces that were added
/// to it, in their order. Each piece is to begin at a multiple of `align`.
#[derive(Debug, PartialEq, Eq)]
pub struct SectionEntry {
    pub name: String,
    pub kind: SectionKind,
    pub align: u64,
    pub pieces: Vec<Vec<u8>>,
}

/// An entry of the symbol table.
#[derive(Debug, PartialEq, Eq)]
pub struct SymbolEntry {
    /// Which section the symbol is in, counted from zero.
    pub section: usize,
    pub name: String,
    pub kind: SymbolKind,
    /// How many bytes the symbol names.
    pub size: u64,
    pub weak: bool,
    /// Where in its section the symbol begins.
    pub value: u64,
    pub scope: SymbolScope,
    pub st_info: u8,
    pub st_other: u8,
}

/// The plan of an ELF object file.
#[derive(Debug)]
pub struct Elf {
    pub architecture: Architecture,
    pub endianness: Endianness,
    pub sections: Vec<SectionEntry>,
    pub symbols: Vec<SymbolEntry>,
    /// The section that symbols are written to: the one made last.
    pub text_id: Option<usize>,
    /// How many bytes were written to it so far.
    pub current_tvalue: u64,
}

/// What a [`SectionEntry`] stands for.
pub ghost struct SectionView {
    pub name: Seq<char>,
    pub kind: SectionKind,
    pub align: u64,
    pub pieces: Seq<Seq<u8>>,
}

/// What a [`SymbolEntry`] stands for.
pub ghost struct SymbolView {
    pub section: usize,
    pub name: Seq<char>,
    pub kind: SymbolKind,
    pub size: u64,
    pub weak: bool,
    pub value: u64,
    pub scope: SymbolScope,
    pub st_info: u8,
    pub st_other: u8,
}

/// What an [`Elf`] stands for.
pub ghost struct ElfView {
    pub sections: Seq<SectionView>,
    pub symbols: Seq<SymbolView>,
    pub text_id: Option<usize>,
    pub current_tvalue: u64,
}

impl DeepView for SectionEntry {
    type V = SectionView;

    open spec fn deep_view(&self) -> SectionView {
        SectionView {
            name: self.name@,
            kind: self.kind,
            align: self.align,
            pieces: self.pieces.deep_view(),
        }
    }
}

impl DeepView for SymbolEntry {
    type V = SymbolView;

    open spec fn deep_view(&self) -> SymbolView {
        SymbolView {
            section: self.section,
            name: self.name@,
            kind: self.kind,
            size: self.size,
            weak: self.weak,
            value: self.value,
            scope: self.scope,
            st_info: self.st_info,
            st_other: self.st_other,
        }
    }
}

impl View for Elf {
    type V = ElfView;

    open spec fn view(&self) -> ElfView {
        ElfView {
            sections: self.sections.deep_view(),
            symbols: self.symbols.deep_view(),
            text_id: self.text_id,
            current_tvalue: self.current_tvalue,
        }
    }
}

/// The name of the section of the file that stands for a section of the
/// compiler.
pub open spec fn section_name(section: Section) -> Seq<char> {
    match section {
        Section::Text => "text"@,
        Section::Data => "data"@,
        Section::Note => "note"@,
        Section::Bss => "bss"@,
        Section::Other(name, _) => name@,
    }
}

/// The kind of the section of the file that stands for a section of the
/// compiler.
pub open spec fn section_kind(section: Section) -> SectionKind {
    match section {
        Section::Text => SectionKind::Text,
        Section::Data => SectionKind::Data,
        Section::Note => SectionKind::Note,
        Section::Bss => SectionKind::UninitializedData,
        Section::Other(_, _) => SectionKind::Unknown,
    }
}

/// The entry of the symbol table for a symbol of the given name,
/// visibility and size that begins at `value` in the section `section`.
pub open spec fn symbol_entry(
    name: Seq<char>,
    symbol_type: SymbolType,
    size: nat,
    section: usize,
    value: u64,
) -> SymbolView {
    SymbolView {
        section,
        name,
        kind: SymbolKind::Text,
        size: size as u64,
        weak: false,
        value,
        scope: if symbol_type == SymbolType::Private {
            SymbolScope::Compilation
        } else {
            SymbolScope::Linkage
        },
        st_info: if symbol_type == SymbolType::Private {
            ST_INFO_PRIVATE
        } else {
            ST_INFO_GLOBAL
        },
        st_other: 0,
    }
}

impl ElfView {
    /// Whether the section that symbols are written to is one of the plan.
    pub open spec fn well_formed(self) -> bool {
        self.text_id matches Some(id) ==> id < self.sections.len()
    }

    /// The plan with one more section, empty, which symbols are written to
    /// from now on.
    pub open spec fn with_section(self, name: Seq<char>, kind: SectionKind) -> ElfView {
        ElfView {
            sections: self.sections.push(
                SectionView { name, kind, align: 1, pieces: Seq::empty() },
            ),
            text_id: Some(self.sections.len() as usize),
            ..self
        }
    }

    /// The plan with a text section to write to: the plan itself if it has
    /// a section to write to, else the plan with a new section `text`.
    pub open spec fn with_text(self) -> ElfView {
        if self.text_id is Some {
            self
        } else {
            self.with_section("text"@, SectionKind::Text)
        }
    }

    /// The plan with a symbol written to its text section: the symbol
    /// begins where the bytes written so far end, and its bytes are added
    /// to the section as one more piece.
    pub open spec fn with_symbol(
        self,
        name: Seq<char>,
        symbol_type: SymbolType,
        content: Seq<u8>,
    ) -> ElfView {
        let plan = self.with_text();
        let id = plan.text_id->Some_0;
        let section = plan.sections[id as int];
        ElfView {
            sections: plan.sections.update(
                id as int,
                SectionView {
                    align: if section.align < TEXT_ALIGN {
                        TEXT_ALIGN
                    } else {
                        section.align
                    },
                    pieces: section.pieces.push(content),
                    ..section
                },
            ),
            symbols: plan.symbols.push(
                symbol_entry(name, symbol_type, content.len(), id, plan.current_tvalue),
            ),
            text_id: plan.text_id,
            current_tvalue: (plan.current_tvalue + content.len()) as u64,
        }
    }

    /// How many bytes the pieces of a section hold together.
    pub open spec fn pieces_len(pieces: Seq<Seq<u8>>) -> nat
        decreases pieces.len(),
    {
        if pieces.len() == 0 {
            0
        } else {
            Self::pieces_len(pieces.drop_last()) + pieces.last().len()
        }
    }
}

impl Elf {
    /// A plan without sections or symbols.
    pub fn new(arch: Architecture, endianness: Endianness) -> (elf: Elf)
        ensures
            elf@ == (ElfView {
                sections: Seq::empty(),
                symbols: Seq::empty(),
                text_id: None,
                current_tvalue: 0,
            }),
            elf.architecture == arch,
            elf.endianness == endianness,
    {
        let elf = Elf {
            architecture: arch,
            endianness,
            sections: Vec::new(),
            symbols: Vec::new(),
            text_id: None,
            current_tvalue: 0,
        };
        assert(elf.sections.deep_view() =~= Seq::<SectionView>::empty());
        assert(elf.symbols.deep_view() =~= Seq::<SymbolView>::empty());
        elf
    }

    /// Adds an empty section; symbols are written to it from now on.
    fn asection(&mut self, name: String, kind: SectionKind)
        ensures
            final(self)@ == old(self)@.with_section(name@, kind),
            final(self).architecture == old(self).architecture,
            final(self).endianness == old(self).endianness,
    {
        let ghost before = self.sections.deep_view();
        let ghost added = SectionView { name: name@, kind, align: 1, pieces: Seq::empty() };
        let id = self.sections.len();
        let entry = SectionEntry { name, kind, align: 1, pieces: Vec::new() };
        assert(entry.pieces.deep_view() =~= Seq::<Seq<u8>>::empty());
        self.sections.push(entry);
        assert(self.sections.deep_view() =~= before.push(added));
        self.text_id = Some(id);
    }

    /// Makes the section of the file that stands for a section of the
    /// compiler; symbols are written to it from now on.
    pub fn create_section(&mut self, section: Section)
        ensures
            final(self)@ == old(self)@.with_section(section_name(section), section_kind(section)),
            final(self).architecture == old(self).architecture,
            final(self).endianness == old(self).endianness,
    {
        match section {
            Section::Text => self.asection("text".to_owned(), SectionKind::Text),
            Section::Data => self.asection("data".to_owned(), SectionKind::Data),
            Section::Note => self.asection("note".to_owned(), SectionKind::Note),
            Section::Bss => self.asection("bss".to_owned(), SectionKind::UninitializedData),
            Section::Other(name, _) => self.asection(name, SectionKind::Unknown),
        }
    }

    /// Whether there is room for a symbol: the count of bytes written stays
    /// within 64 bits.
    pub fn has_room(&self, symbol: &Symbol) -> (ok: bool)
        ensures
            ok == (self.current_tvalue + symbol.content@.len() <= u64::MAX),
    {
        symbol.content.len() as u64 <= u64::MAX - self.current_tvalue
    }

    /// Writes a symbol to the text section, which is made if there is no
    /// section to write to. Symbols of other sections are not written.
    pub fn write_section(&mut self, section: Section, symbol: Symbol)
        requires
            old(self)@.well_formed(),
            section is Text ==> old(self).current_tvalue + symbol.content@.len() <= u64::MAX,
        ensures
            final(self)@.well_formed(),
            final(self)@ == if section is Text {
                old(self)@.with_symbol(symbol.name@, symbol.symbol_type, symbol.content@)
            } else {
                old(self)@
            },
            final(self).architecture == old(self).architecture,
            final(self).endianness == old(self).endianness,
    {
        self.wsection(section, symbol);
    }

    fn wsection(&mut self, section: Section, symbol: Symbol)
        requires
            old(self)@.well_formed(),
            section is Text ==> old(self).current_tvalue + symbol.content@.len() <= u64::MAX,
        ensures
            final(self)@.well_formed(),
            final(self)@ == if section is Text {
                old(self)@.with_symbol(symbol.name@, symbol.symbol_type, symbol.content@)
            } else {
                old(self)@
            },
            final(self).architecture == old(self).architecture,
            final(self).endianness == old(self).endianness,
    {
        match section {
            Section::Text => {
                if self.text_id.is_none() {
                    self.asection("text".to_owned(), SectionKind::Text);
                }
                let ghost plan = self@;
                let text_id = self.text_id.unwrap();
                assert(plan.sections.len() == self.sections@.len());
                assert(text_id < self.sections@.len());
                let (st_info, scope) = match symbol.symbol_type {
                    SymbolType::Private => (ST_INFO_PRIVATE, SymbolScope::Compilation),
                    SymbolType::Global => (ST_INFO_GLOBAL, SymbolScope::Linkage),
                };
                let size = symbol.content.len() as u64;
                let ghost entry = symbol_entry(
                    symbol.name@,
                    symbol.symbol_type,
                    symbol.content@.len(),
                    text_id,
                    self.current_tvalue,
                );
                self.symbols.push(
                    SymbolEntry {
                        section: text_id,
                        name: symbol.name,
                        kind: SymbolKind::Text,
                        size,
                        weak: false,
                        value: self.current_tvalue,
                        scope,
                        st_info,
                        st_other: 0,
                    },
                );
                assert(self.symbols.deep_view() =~= plan.symbols.push(entry));
                self.current_tvalue = self.current_tvalue + size;
                let ghost content = symbol.content@;
                let ghost before = self.sections[text_id as int].pieces.deep_view();
                let ghost piece = symbol.content;
                let entry = &mut self.sections[text_id];
                if entry.align < TEXT_ALIGN {
                    entry.align = TEXT_ALIGN;
                }
                entry.pieces.push(symbol.content);
                assert(piece.deep_view() =~= content);
                assert(self.sections[text_id as int].pieces.deep_view() =~= before.push(content));
                assert(self.sections.deep_view() =~= plan.sections.update(
                    text_id as int,
                    self.sections[text_id as int].deep_view(),
                ));
            },
            _ => {},
        }
    }
}

} // verus!
