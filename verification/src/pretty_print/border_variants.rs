use vstd::prelude::*;

use crate::environment::Environment;
use crate::text::{spec_contains_seq, str_contains};

verus! {

/// The character set used to draw borders
#[derive(Debug, Clone, Copy, PartialEq, Eq, PartialOrd, Ord, Hash, Default)]
pub enum BorderVariants {
    #[default]
    /// Unicode characters
    Unicode,
    /// Code page 437
    CodePage437,
    /// Ascii
    Ascii,
}

impl BorderVariants {
    /// Whether the environment asks for Unicode: `LANG` is set and contains `UTF`
    pub open spec fn spec_lang_is_utf(env: Environment) -> bool {
        env.spec_var("LANG"@) matches Ok(lang) && spec_contains_seq(lang, "UTF"@)
    }

    /// Determine the encoding for the current environment
    pub fn determine_codec(env: &Environment) -> (r: Self)
        ensures
            r == (if Self::spec_lang_is_utf(*env) {
                BorderVariants::Unicode
            } else {
                BorderVariants::Ascii
            }),
    {
        match env.var("LANG") {
            Ok(lang) => if str_contains(lang.as_str(), "UTF") {
                BorderVariants::Unicode
            } else {
                BorderVariants::Ascii
            },
            Err(_) => BorderVariants::Ascii,
        }
    }

    /// The character set chosen where the choice may be forced, as the
    /// `force_unicode`, `force_code_page_437` and `force_ascii` build options
    /// do, in that order of precedence. Forcing code page 437 gives the ASCII
    /// set, which code page 437 displays as well. Where nothing is forced,
    /// the environment decides as in [`Self::determine_codec`].
    pub open spec fn spec_codec_forced(
        force_unicode: bool,
        force_code_page_437: bool,
        force_ascii: bool,
        env: Environment,
    ) -> Self {
        if force_unicode {
            BorderVariants::Unicode
        } else if force_code_page_437 || force_ascii {
            BorderVariants::Ascii
        } else if Self::spec_lang_is_utf(env) {
            BorderVariants::Unicode
        } else {
            BorderVariants::Ascii
        }
    }

    /// Determine the encoding, where the build options may force one, see
    /// [`Self::spec_codec_forced`]
    pub fn determine_codec_forced(
        force_unicode: bool,
        force_code_page_437: bool,
        force_ascii: bool,
        env: &Environment,
    ) -> (r: Self)
        ensures
            r == Self::spec_codec_forced(force_unicode, force_code_page_437, force_ascii, *env),
    {
        if force_unicode {
            BorderVariants::Unicode
        } else if force_code_page_437 || force_ascii {
            BorderVariants::Ascii
        } else {
            Self::determine_codec(env)
        }
    }

    /// The top left border corner
    pub open spec fn spec_top_left(self) -> char {
        match self {
            BorderVariants::Ascii => '+',
            _ => '╔',
        }
    }

    /// Get the top left border corner
    pub fn get_top_left(&self) -> (c: char)
        ensures
            c == self.spec_top_left(),
    {
        match self {
            BorderVariants::Ascii => '+',
            BorderVariants::CodePage437 | BorderVariants::Unicode => '╔',
        }
    }

    /// The top right border corner
    pub open spec fn spec_top_right(self) -> char {
        match self {
            BorderVariants::Ascii => '+',
            _ => '╗',
        }
    }

    /// Get the top right border corner
    pub fn get_top_right(&self) -> (c: char)
        ensures
            c == self.spec_top_right(),
    {
        match self {
            BorderVariants::Ascii => '+',
            BorderVariants::CodePage437 | BorderVariants::Unicode => '╗',
        }
    }

    /// The bottom right border corner
    pub open spec fn spec_bottom_right(self) -> char {
        match self {
            BorderVariants::Ascii => '+',
            _ => '╝',
        }
    }

    /// Get the bottom right border corner
    pub fn get_bottom_right(&self) -> (c: char)
        ensures
            c == self.spec_bottom_right(),
    {
        match self {
            BorderVariants::Ascii => '+',
            BorderVariants::CodePage437 | BorderVariants::Unicode => '╝',
        }
    }

    /// The bottom left border corner
    pub open spec fn spec_bottom_left(self) -> char {
        match self {
            BorderVariants::Ascii => '+',
            _ => '╚',
        }
    }

    /// Get the bottom left border corner
    pub fn get_bottom_left(&self) -> (c: char)
        ensures
            c == self.spec_bottom_left(),
    {
        match self {
            BorderVariants::Ascii => '+',
            BorderVariants::CodePage437 | BorderVariants::Unicode => '╚',
        }
    }

    /// The straight horizontal border
    pub open spec fn spec_horizontal(self) -> char {
        match self {
            BorderVariants::Ascii => '-',
            _ => '═',
        }
    }

    /// Get the straight horizontal border
    pub fn get_horizontal(&self) -> (c: char)
        ensures
            c == self.spec_horizontal(),
    {
        match self {
            BorderVariants::Ascii => '-',
            BorderVariants::CodePage437 | BorderVariants::Unicode => '═',
        }
    }

    /// The straight vertical border
    pub open spec fn spec_vertical(self) -> char {
        match self {
            BorderVariants::Ascii => '|',
            _ => '║',
        }
    }

    /// Get the straight vertical border
    pub fn get_vertical(&self) -> (c: char)
        ensures
            c == self.spec_vertical(),
    {
        match self {
            BorderVariants::Ascii => '|',
            BorderVariants::CodePage437 | BorderVariants::Unicode => '║',
        }
    }

    /// The straight vertical border with a connection to the left
    pub open spec fn spec_vertical_left(self) -> char {
        match self {
            BorderVariants::Ascii => '<',
            _ => '╣',
        }
    }

    /// Get the straight vertical border with a connection to the left
    pub fn get_vertical_left(&self) -> (c: char)
        ensures
            c == self.spec_vertical_left(),
    {
        match self {
            BorderVariants::Ascii => '<',
            BorderVariants::CodePage437 | BorderVariants::Unicode => '╣',
        }
    }

    /// The straight vertical border with a connection to the right
    pub open spec fn spec_vertical_right(self) -> char {
        match self {
            BorderVariants::Ascii => '>',
            _ => '╠',
        }
    }

    /// Get the straight vertical border with a connection to the right
    pub fn get_vertical_right(&self) -> (c: char)
        ensures
            c == self.spec_vertical_right(),
    {
        match self {
            BorderVariants::Ascii => '>',
            BorderVariants::CodePage437 | BorderVariants::Unicode => '╠',
        }
    }
}

} // verus!
