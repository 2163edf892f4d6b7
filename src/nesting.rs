//! An upper bound on how deeply a TOML text nests, found before the text is
//! handed to a parser that recurses once per level.
use vstd::prelude::*;
use vstd::string::StringSliceAdditionalSpecFns;

verus! {

/// The deepest nesting that a configuration text may have: a list of entries
/// needs two levels.
pub const MAX_NESTING: usize = 32;

/// Where a scan of TOML text stands: outside any string or comment, or in one.
#[derive(Clone, Copy, PartialEq, Eq, Structural)]
pub enum LexState {
    Normal,
    Comment,
    Basic,
    Literal,
    MultiBasic,
    MultiLiteral,
}

/// The byte at `j`, or zero past the end.
pub open spec fn byte_at(b: Seq<u8>, j: int) -> u8 {
    if 0 <= j < b.len() {
        b[j]
    } else {
        0
    }
}

/// Whether three bytes from `j` are all `q`.
pub open spec fn triple_at(b: Seq<u8>, j: int, q: u8) -> bool {
    byte_at(b, j) == q && byte_at(b, j + 1) == q && byte_at(b, j + 2) == q
}

/// Where a multi-line string that closes with three `q` at `j` ends: up to
/// two more `q` belong to it.
pub open spec fn after_close(b: Seq<u8>, j: int, q: u8) -> int {
    let k = j + 3;
    if byte_at(b, k) == q {
        if byte_at(b, k + 1) == q {
            k + 2
        } else {
            k + 1
        }
    } else {
        k
    }
}

/// The largest nesting measure from byte `i` on, where the scan is in state
/// `st`, inside `depth` open brackets and braces, after `dots` dots on the
/// current line. The measure at a point is `depth + dots`: each open bracket
/// or brace is one level of nested values, and each dot of a dotted key or
/// table header, which stand on one line, is one level of nested tables.
/// Brackets, braces and dots count only outside strings and comments; a
/// string or comment opens and closes as TOML says.
pub open spec fn scan_from(b: Seq<u8>, i: int, st: LexState, depth: nat, dots: nat) -> nat
    decreases b.len() + 8 - i,
{
    let here = depth + dots;
    if i < 0 || i >= b.len() {
        here
    } else {
        let c = b[i];
        let rest = match st {
            LexState::Normal => if c == 0x5b || c == 0x7b {
                scan_from(b, i + 1, st, depth + 1, dots)
            } else if c == 0x5d || c == 0x7d {
                scan_from(b, i + 1, st, if depth > 0 { (depth - 1) as nat } else { 0 }, dots)
            } else if c == 0x2e {
                scan_from(b, i + 1, st, depth, dots + 1)
            } else if c == 0x0a {
                scan_from(b, i + 1, st, depth, 0)
            } else if c == 0x23 {
                scan_from(b, i + 1, LexState::Comment, depth, dots)
            } else if c == 0x22 || c == 0x27 {
                if triple_at(b, i, c) {
                    scan_from(b, i + 3, if c == 0x22 { LexState::MultiBasic } else { LexState::MultiLiteral }, depth, dots)
                } else if byte_at(b, i + 1) == c {
                    scan_from(b, i + 2, st, depth, dots)
                } else {
                    scan_from(b, i + 1, if c == 0x22 { LexState::Basic } else { LexState::Literal }, depth, dots)
                }
            } else {
                scan_from(b, i + 1, st, depth, dots)
            },
            LexState::Comment => if c == 0x0a {
                scan_from(b, i + 1, LexState::Normal, depth, 0)
            } else {
                scan_from(b, i + 1, st, depth, dots)
            },
            LexState::Basic => if c == 0x5c {
                scan_from(b, i + 2, st, depth, dots)
            } else if c == 0x22 || c == 0x0a {
                scan_from(b, i + 1, LexState::Normal, depth, dots)
            } else {
                scan_from(b, i + 1, st, depth, dots)
            },
            LexState::Literal => if c == 0x27 || c == 0x0a {
                scan_from(b, i + 1, LexState::Normal, depth, dots)
            } else {
                scan_from(b, i + 1, st, depth, dots)
            },
            LexState::MultiBasic => if c == 0x5c {
                scan_from(b, i + 2, st, depth, dots)
            } else if triple_at(b, i, 0x22) {
                scan_from(b, after_close(b, i, 0x22), LexState::Normal, depth, dots)
            } else {
                scan_from(b, i + 1, st, depth, dots)
            },
            LexState::MultiLiteral => if triple_at(b, i, 0x27) {
                scan_from(b, after_close(b, i, 0x27), LexState::Normal, depth, dots)
            } else {
                scan_from(b, i + 1, st, depth, dots)
            },
        };
        if here >= rest { here } else { rest }
    }
}

/// An upper bound on how deeply a TOML text, given as its UTF-8 bytes, nests.
pub open spec fn nesting_bound(b: Seq<u8>) -> nat {
    scan_from(b, 0, LexState::Normal, 0, 0)
}

/// A scan that has run past the end gives what it gives at the end.
proof fn lemma_scan_past_end(b: Seq<u8>, j: int, st: LexState, depth: nat, dots: nat)
    requires
        j >= b.len(),
    ensures
        scan_from(b, j, st, depth, dots) == scan_from(b, b.len() as int, st, depth, dots),
{
}

/// The byte `off` places after `i`, or zero past the end.
fn peek(b: &[u8], i: usize, off: usize) -> (r: u8)
    requires
        i <= b.len(),
    ensures
        r == byte_at(b@, i + off),
{
    if off < b.len() - i {
        b[i + off]
    } else {
        0
    }
}

/// The position `off` places after `i`, held at the end.
fn advance(len: usize, i: usize, off: usize) -> (r: usize)
    requires
        i <= len,
    ensures
        r == (if i + off <= len { i + off } else { len as int }),
{
    if off <= len - i {
        i + off
    } else {
        len
    }
}

/// How far past `i` a multi-line string that closes with three `q` at `i`
/// ends.
fn close_len(b: &[u8], i: usize, q: u8) -> (r: usize)
    requires
        i <= b.len(),
    ensures
        i + r == after_close(b@, i as int, q),
{
    if peek(b, i, 3) == q {
        if peek(b, i, 4) == q {
            5
        } else {
            4
        }
    } else {
        3
    }
}

/// Computes `nesting_bound` of a text's UTF-8 bytes.
pub fn nesting_of(text: &str) -> (r: usize)
    ensures
        r == nesting_bound(text.spec_bytes()),
{
    let b = text.as_bytes();
    let len = b.len();
    let mut i: usize = 0;
    let mut st = LexState::Normal;
    let mut depth: usize = 0;
    let mut dots: usize = 0;
    let mut peak: usize = 0;
    while i < len
        invariant
            len == b@.len(),
            b@ == text.spec_bytes(),
            i <= len,
            depth + dots <= i,
            peak <= len,
            nesting_bound(b@) == (if peak >= scan_from(b@, i as int, st, depth as nat, dots as nat) {
                peak as nat
            } else {
                scan_from(b@, i as int, st, depth as nat, dots as nat)
            }),
        decreases len - i,
    {
        let ghost (i0, st0, d0, t0) = (i as int, st, depth as nat, dots as nat);
        if depth + dots > peak {
            peak = depth + dots;
        }
        let c = b[i];
        let mut off: usize = 1;
        match st {
            LexState::Normal => {
                if c == 0x5b || c == 0x7b {
                    depth = depth + 1;
                } else if c == 0x5d || c == 0x7d {
                    if depth > 0 {
                        depth = depth - 1;
                    }
                } else if c == 0x2e {
                    dots = dots + 1;
                } else if c == 0x0a {
                    dots = 0;
                } else if c == 0x23 {
                    st = LexState::Comment;
                } else if c == 0x22 || c == 0x27 {
                    if peek(b, i, 1) == c && peek(b, i, 2) == c {
                        st = if c == 0x22 { LexState::MultiBasic } else { LexState::MultiLiteral };
                        off = 3;
                    } else if peek(b, i, 1) == c {
                        off = 2;
                    } else {
                        st = if c == 0x22 { LexState::Basic } else { LexState::Literal };
                    }
                }
            },
            LexState::Comment => {
                if c == 0x0a {
                    st = LexState::Normal;
                    dots = 0;
                }
            },
            LexState::Basic => {
                if c == 0x5c {
                    off = 2;
                } else if c == 0x22 || c == 0x0a {
                    st = LexState::Normal;
                }
            },
            LexState::Literal => {
                if c == 0x27 || c == 0x0a {
                    st = LexState::Normal;
                }
            },
            LexState::MultiBasic => {
                if c == 0x5c {
                    off = 2;
                } else if c == 0x22 && peek(b, i, 1) == 0x22 && peek(b, i, 2) == 0x22 {
                    off = close_len(b, i, 0x22);
                    st = LexState::Normal;
                }
            },
            LexState::MultiLiteral => {
                if c == 0x27 && peek(b, i, 1) == 0x27 && peek(b, i, 2) == 0x27 {
                    off = close_len(b, i, 0x27);
                    st = LexState::Normal;
                }
            },
        }
        let next = advance(len, i, off);
        proof {
            if i0 + off > len {
                lemma_scan_past_end(b@, i0 + off, st, depth as nat, dots as nat);
            }
            assert(scan_from(b@, i0, st0, d0, t0) == (if d0 + t0 >= scan_from(b@, i0 + off, st, depth as nat, dots as nat) {
                d0 + t0
            } else {
                scan_from(b@, i0 + off, st, depth as nat, dots as nat)
            }));
        }
        i = next;
    }
    if depth + dots > peak {
        peak = depth + dots;
    }
    peak
}

} // verus!
