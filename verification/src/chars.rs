use vstd::prelude::*;

verus! {

#[derive(Debug, Clone)]
enum CharSetType {
    Unicode,
    Nerd,
}

/// The icon characters used throughout the client: plain unicode
/// symbols, or their Nerd Fonts counterparts.
#[derive(Debug, Clone)]
pub struct CharSet {
    char_type: CharSetType,
}

impl CharSet {
    /// Whether this set uses the Nerd Fonts glyphs.
    pub closed spec fn spec_is_nerd(self) -> bool {
        self.char_type is Nerd
    }

    pub fn unicode() -> (r: CharSet)
        ensures
            !r.spec_is_nerd(),
    {
        CharSet { char_type: CharSetType::Unicode }
    }

    pub fn nerd() -> (r: CharSet)
        ensures
            r.spec_is_nerd(),
    {
        CharSet { char_type: CharSetType::Nerd }
    }

    /// The speaker glyph of this set.
    pub open spec fn spec_volume(self) -> char {
        if self.spec_is_nerd() {
            '\u{f028}'
        } else {
            '\u{1F50A}'
        }
    }

    /// The muted-speaker glyph of this set.
    pub open spec fn spec_volume_off(self) -> char {
        if self.spec_is_nerd() {
            '\u{f026}'
        } else {
            '\u{1F508}'
        }
    }

    /// The attachment glyph of this set.
    pub open spec fn spec_paper_clip(self) -> char {
        if self.spec_is_nerd() {
            '\u{f5ff}'
        } else {
            '\u{1f4f7}'
        }
    }

    pub fn volume(&self) -> (r: char)
        ensures
            r == self.spec_volume(),
    {
        match self.char_type {
            CharSetType::Unicode => '\u{1F50A}',
            CharSetType::Nerd => '\u{f028}',
        }
    }

    pub fn volume_off(&self) -> (r: char)
        ensures
            r == self.spec_volume_off(),
    {
        match self.char_type {
            CharSetType::Unicode => '\u{1F508}',
            CharSetType::Nerd => '\u{f026}',
        }
    }

    pub fn paper_clip(&self) -> (r: char)
        ensures
            r == self.spec_paper_clip(),
    {
        match self.char_type {
            CharSetType::Unicode => '\u{1f4f7}',
            CharSetType::Nerd => '\u{f5ff}',
        }
    }
}

} // verus!
