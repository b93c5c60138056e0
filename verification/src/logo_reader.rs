//! Turning the text of a `.lg` file into a program.
//!
//! Reading the file is left to the caller; this module decides whether a
//! path's extension names a Logo file and parses the text read from it.

use vstd::prelude::*;
use crate::text::chars_of;
use crate::logo_syntax::{Program, SpecStatement};
use crate::logo_grammar::spec_parse_program;
use crate::logo_parser::parse_program;

verus! {

/// Why a path does not name a Logo file.
#[derive(Debug, PartialEq, Eq, Clone, Copy)]
pub enum LogoFileError {
    /// The file name has no extension.
    NoExtension,
    /// The extension is not `lg`.
    WrongExtension,
}

/// The extension of Logo files.
pub open spec fn logo_extension() -> Seq<char> {
    seq!['l', 'g']
}

/// Accepts exactly the extension `lg`; `None` stands for a file name
/// without an extension.
pub fn check_logo_extension(extension: Option<&str>) -> (r: Result<(), LogoFileError>)
    ensures
        r == match extension {
            None => Err(LogoFileError::NoExtension),
            Some(e) => if e@ == logo_extension() {
                Ok(())
            } else {
                Err(LogoFileError::WrongExtension)
            },
        },
{
    match extension {
        None => Err(LogoFileError::NoExtension),
        Some(e) => {
            let cs = chars_of(e);
            if cs.len() == 2 && cs[0] == 'l' && cs[1] == 'g' {
                assert(cs@ =~= logo_extension());
                Ok(())
            } else {
                assert(e@ != logo_extension()) by {
                    if e@ == logo_extension() {
                        assert(cs@[0] == 'l' && cs@[1] == 'g');
                    }
                }
                Err(LogoFileError::WrongExtension)
            }
        },
    }
}

/// Parses the text of a Logo file into the program it holds: the
/// statements that parse from the start, text after them being ignored.
pub fn parse_logo_file(contents: &str) -> (r: Program)
    ensures
        spec_parse_program(contents@) matches Some((_, statements)) && statements == r@,
{
    let cs = chars_of(contents);
    match parse_program(cs.as_slice()) {
        Some((_, program)) => program,
        None => Program { statements: Vec::new() },
    }
}

} // verus!
