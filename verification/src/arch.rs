//! The hardware generations of the device.
use crate::text;
use vstd::prelude::*;

verus! {

/// A hardware generation.
///
/// The cores of all generations work on tiles of 32 by 32 elements; the warp size is
/// the width of a tile.
#[derive(Clone, Copy, Debug, PartialEq, Eq, Hash, Structural)]
pub enum TtArchitecture {
    Wormhole,
    Blackhole,
    Other,
}

impl Default for TtArchitecture {
    fn default() -> (arch: Self)
        ensures
            arch == TtArchitecture::Wormhole,
    {
        TtArchitecture::Wormhole
    }
}

/// A text in lower case.
pub uninterp spec fn lowercase(text: Seq<char>) -> Seq<char>;

/// The lower case of an ASCII character.
pub open spec fn ascii_lowercase(c: char) -> char {
    if 'A' <= c && c <= 'Z' {
        (c as int + 32) as char
    } else {
        c
    }
}

/// Bring a text into lower case.
///
/// Trusted: `str::to_lowercase` is a function of the text alone; on ASCII text it
/// replaces the letters A to Z by a to z. How it treats other text is left to its name.
#[verifier::external_body]
fn to_lowercase(given: &str) -> (lower: String)
    ensures
        lower@ == lowercase(given@),
        vstd::string::is_ascii(given) ==> lower@ == given@.map_values(|c: char| ascii_lowercase(c)),
{
    given.to_lowercase()
}

/// The generation whose name a text in lower case starts with.
pub open spec fn arch_of(norm: Seq<char>) -> TtArchitecture {
    if text::stands_at(norm, "wormhole"@, 0) {
        TtArchitecture::Wormhole
    } else if text::stands_at(norm, "blackhole"@, 0) {
        TtArchitecture::Blackhole
    } else {
        TtArchitecture::Other
    }
}

impl TtArchitecture {
    /// The generation whose name a text starts with, whatever the case of its letters.
    pub fn parse(arg: &str) -> (result: Result<Self, String>)
        ensures
            result == Ok::<TtArchitecture, String>(arch_of(lowercase(arg@))),
            vstd::string::is_ascii(arg) ==> result == Ok::<TtArchitecture, String>(
                arch_of(arg@.map_values(|c: char| ascii_lowercase(c))),
            ),
    {
        let norm = to_lowercase(arg);
        Ok(Self::parse_lowercase(norm.as_str()))
    }

    /// The generation whose name a text in lower case starts with.
    pub fn parse_lowercase(norm: &str) -> (arch: Self)
        ensures
            arch == arch_of(norm@),
    {
        if text::starts_with_text(norm, "wormhole") {
            TtArchitecture::Wormhole
        } else if text::starts_with_text(norm, "blackhole") {
            TtArchitecture::Blackhole
        } else {
            TtArchitecture::Other
        }
    }

    pub open spec fn label(self) -> Seq<char> {
        match self {
            TtArchitecture::Wormhole => "wormhole"@,
            TtArchitecture::Blackhole => "blackhole"@,
            TtArchitecture::Other => "other"@,
        }
    }

    /// The name of the generation.
    pub fn name(self) -> (name: &'static str)
        ensures
            name@ == self.label(),
    {
        match self {
            TtArchitecture::Wormhole => "wormhole",
            TtArchitecture::Blackhole => "blackhole",
            TtArchitecture::Other => "other",
        }
    }

    pub fn warp_size(&self) -> (size: u32)
        ensures
            size == 32,
    {
        32
    }

    /// Matrices are multiplied by the matrix engine, not by cooperating threads.
    pub fn is_wmma_capable(&self) -> (capable: bool)
        ensures
            !capable,
    {
        false
    }

    pub fn is_mfma_capable(&self) -> (capable: bool)
        ensures
            !capable,
    {
        false
    }
}

/// The name of a generation stands for it.
pub proof fn law_name_parses_back(arch: TtArchitecture)
    ensures
        arch_of(arch.label()) == arch,
{
    reveal_strlit("wormhole");
    reveal_strlit("blackhole");
    reveal_strlit("other");
    let w = "wormhole"@;
    let b = "blackhole"@;
    assert(w.subrange(0, 8) =~= w);
    assert(b.subrange(0, 9) =~= b);
    assert(!text::stands_at(b, w, 0)) by {
        assert(b.subrange(0, 8)[0] != w[0]);
    }
}

/// The name of a generation decides wherever a text starts with it, whatever comes behind; all
/// other texts stand for no known generation.
pub proof fn law_names_decide_at_the_start(arch: TtArchitecture, rest: Seq<char>, norm: Seq<char>)
    ensures
        !(arch is Other) ==> arch_of(arch.label() + rest) == arch,
        arch_of(norm) is Other <==> !text::stands_at(norm, "wormhole"@, 0) && !text::stands_at(
            norm,
            "blackhole"@,
            0,
        ),
{
    reveal_strlit("wormhole");
    reveal_strlit("blackhole");
    let w = "wormhole"@;
    let b = "blackhole"@;
    assert((w + rest).subrange(0, 8) =~= w);
    assert((b + rest).subrange(0, 9) =~= b);
    assert(!text::stands_at(b + rest, w, 0)) by {
        assert((b + rest).subrange(0, 8)[0] != w[0]);
    }
}

/// Letters lose their case and nothing else changes.
pub proof fn law_lower_case_keeps_all_but_the_case(c: char)
    ensures
        'A' <= c && c <= 'Z' ==> 'a' <= ascii_lowercase(c) && ascii_lowercase(c) <= 'z'
            && ascii_lowercase(c) as int - 'a' as int == c as int - 'A' as int,
        !('A' <= c && c <= 'Z') ==> ascii_lowercase(c) == c,
        ascii_lowercase(ascii_lowercase(c)) == ascii_lowercase(c),
{
}

} // verus!
