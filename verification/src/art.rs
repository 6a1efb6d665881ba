//! The block font, kept as art rather than as arrays of escaped strings.
//!
//! Each glyph opens with `@` and the character it draws, and its rows follow
//! as they should look. Rows are padded to the widest in their glyph and short
//! glyphs lifted onto the baseline when the font is read, so trailing spaces
//! do not need to be kept.

use vstd::prelude::*;

verus! {

/// The art the block font is read from.
pub const FONT_SOURCE: &'static str = "# Seven rows to a glyph; a clock needs 0-9 and the colon.
@ 0
  ▄▄▄▄
 ██▀▀██
██    ██
██ ██ ██
██    ██
 ██▄▄██
  ▀▀▀▀
@ 1
  ▄▄▄
 █▀██
   ██
   ██
   ██
▄▄▄██▄▄▄
▀▀▀▀▀▀▀▀
@ 2
 ▄▄▄▄▄
█▀▀▀▀██▄
      ██
    ▄█▀
  ▄█▀
▄██▄▄▄▄▄
▀▀▀▀▀▀▀▀
@ 3
 ▄▄▄▄▄
█▀▀▀▀██▄
     ▄██
  █████
     ▀██
█▄▄▄▄██▀
 ▀▀▀▀▀
@ 4
    ▄▄▄
   ▄███
  █▀ ██
▄█▀  ██
████████
     ██
     ▀▀
@ 5
▄▄▄▄▄▄▄
██▀▀▀▀▀
██▄▄▄▄
█▀▀▀▀██▄
      ██
█▄▄▄▄██▀
 ▀▀▀▀▀
@ 6
  ▄▄▄▄
 ██▀▀▀█
██ ▄▄▄
███▀▀██▄
██    ██
▀██▄▄██▀
  ▀▀▀▀
@ 7
▄▄▄▄▄▄▄▄
▀▀▀▀▀███
    ▄██
    ██
   ██
  ██
  ▀▀
@ 8
 ▄▄▄▄▄▄
██▀  ▀██
▀██▄▄██▀
▄██▀▀██▄
██    ██
▀██▄▄██▀
  ▀▀▀▀
@ 9
  ▄▄▄▄
▄██▀▀██▄
██    ██
▀██▄▄███
  ▀▀▀ ██
 █▄▄▄██▀
  ▀▀▀▀
@ :
  
██
▀▀
  
  
██
▀▀
";

} // verus!
