//! Properties of the grammar that hold for every text.

use vstd::prelude::*;
use crate::logo_syntax::SpecStatement;
use crate::logo_grammar::{CharClass, ws, lemma_span, spec_parse_program, spec_program_item};

verus! {

/// The white-space characters: space, tab, carriage return and line feed.
pub open spec fn is_white_space(c: char) -> bool {
    c == ' ' || c == '\t' || c == '\r' || c == '\n'
}

/// Optional white space takes exactly the space, tab, carriage-return and
/// line-feed characters at the start of a text.
pub proof fn law_white_space(c: char, s: Seq<char>)
    ensures
        ws(seq![c] + s) == if is_white_space(c) {
            1 + ws(s)
        } else {
            0
        },
{
    let t = seq![c] + s;
    assert(t[0] == c);
    assert(t.drop_first() =~= s);
}

/// White space before a program changes nothing of what it parses to:
/// a space, tab, carriage return or line feed in front of the text gives
/// the same statements.
pub proof fn law_program_ignores_leading_white_space(c: char, s: Seq<char>)
    requires
        is_white_space(c),
    ensures
        match (spec_parse_program(seq![c] + s), spec_parse_program(s)) {
            (Some((_, a)), Some((_, b))) => a == b,
            (None, None) => true,
            _ => false,
        },
{
    let t = seq![c] + s;
    law_white_space(c, s);
    lemma_span(s, CharClass::Space);
    let w = ws(s);
    assert(t.skip(1 + w) =~= s.skip(w));
    match spec_program_item(s.skip(w)) {
        Some((n, item)) => {
            if 0 <= n && w + n <= s.len() {
                assert(t.skip(1 + w + n) =~= s.skip(w + n));
                lemma_span(s.skip(w + n), CharClass::Space);
                let w1 = ws(s.skip(w + n));
                assert(ws(t.skip(1 + w + n)) == w1);
                assert(t.skip(1 + w + n + w1) =~= s.skip(w + n + w1));
                if w + n + w1 == 0 {
                    assert(t.skip(1) =~= s);
                    assert(spec_parse_program(s) is None);
                    assert(spec_parse_program(t) is None);
                } else {
                    let rest = spec_parse_program(s.skip(w + n + w1));
                    assert(spec_parse_program(t) == match rest {
                        Some((m, r)) => Some((1 + w + n + w1 + m, match item {
                            Some(st) => seq![st] + r,
                            None => r,
                        })),
                        None => None,
                    });
                }
            }
        },
        None => {},
    }
}

} // verus!
