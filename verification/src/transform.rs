//! The transform: the whole text scanned, each keyword token replaced, every
//! other token passed through.

use vstd::prelude::*;
use vstd::string::StringExecFns;
use crate::grammar::{lemma_scan_bounds, scan};
use crate::scanner::Scanner;
use crate::token::emitted;

verus! {

/// The output for the part of the text from index `i` on, where a token
/// starts at `i`: what the token at `i` contributes, then the output for the
/// rest.
pub open spec fn rewritten_from(s: Seq<char>, i: int) -> Seq<char>
    decreases s.len() - i,
    via rewritten_from_decreases
{
    if 0 <= i < s.len() {
        let (kind, end) = scan(s, i);
        emitted(kind, s.subrange(i, end)) + rewritten_from(s, end)
    } else {
        Seq::empty()
    }
}

#[via_fn]
proof fn rewritten_from_decreases(s: Seq<char>, i: int) {
    if 0 <= i < s.len() {
        lemma_scan_bounds(s, i);
    }
}

/// The output for the whole text.
pub open spec fn rewritten(s: Seq<char>) -> Seq<char> {
    rewritten_from(s, 0)
}

/// Rewrites one file's text: every `AND`, `OR`, `EQ`, `NEQ`, `XOR` and `NULL`
/// that stands as a word of its own outside comments and literals is
/// replaced, and everything else is kept as it is.
pub fn handle_file(src: &str) -> (out: String)
    ensures
        out@ == rewritten(src@),
{
    let ghost s = src@;
    let mut scanner = Scanner::new(src);
    let mut out = String::new();
    loop
        invariant
            scanner.wf(),
            scanner.source() == s,
            rewritten(s) == out@ + rewritten_from(s, scanner.position()),
        ensures
            out@ == rewritten(s),
        decreases s.len() - scanner.position(),
    {
        proof {
            scanner.lemma_positions();
        }
        match scanner.next() {
            Some(token) => {
                out.append(token.output());
            },
            None => {
                break;
            },
        }
    }
    out
}

} // verus!
