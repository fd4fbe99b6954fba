//! Lexical stage: splits the raw bytes of a VCD file into
//! whitespace-delimited tokens, each tagged with the 1-based line on
//! which it starts.
//!
//! The stage is specified as a byte-at-a-time state machine
//! ([`lex_step`]); [`spec_tokens`] is the fold of that machine over the
//! input, and [`tokenize`] is proved to return exactly its result.

use vstd::prelude::*;

verus! {

/// One whitespace-delimited token, with the 1-based line it starts on.
#[derive(Debug, Clone, PartialEq, Eq)]
pub struct Token {
    pub text: Vec<u8>,
    pub line: u64,
}

/// The mathematical value of a [`Token`].
#[verifier::ext_equal]
pub struct TokenV {
    pub text: Seq<u8>,
    pub line: int,
}

impl View for Token {
    type V = TokenV;

    open spec fn view(&self) -> TokenV {
        TokenV { text: self.text@, line: self.line as int }
    }
}

/// Whether a byte separates tokens: space, tab, carriage return, newline.
pub open spec fn is_ws(b: u8) -> bool {
    b == 32 || b == 9 || b == 13 || b == 10
}

/// Whether a byte tests as whitespace.
pub fn is_ws_byte(b: u8) -> (r: bool)
    ensures
        r == is_ws(b),
{
    b == 32 || b == 9 || b == 13 || b == 10
}

/// The lexer state after consuming some prefix of the input: the tokens
/// already emitted, the bytes of the token currently being read, the line
/// that token started on, and the current line.
#[verifier::ext_equal]
pub struct LexStateV {
    pub toks: Seq<TokenV>,
    pub cur: Seq<u8>,
    pub cur_line: int,
    pub line: int,
}

/// The lexer state before any byte has been read.
pub open spec fn lex_init() -> LexStateV {
    LexStateV { toks: Seq::empty(), cur: Seq::empty(), cur_line: 1, line: 1 }
}

/// One step of the lexer: a whitespace byte ends the current token (if
/// any) and a newline advances the line counter; any other byte extends
/// the current token, remembering the line it started on.
pub open spec fn lex_step(st: LexStateV, b: u8) -> LexStateV {
    if is_ws(b) {
        LexStateV {
            toks: if st.cur.len() > 0 {
                st.toks.push(TokenV { text: st.cur, line: st.cur_line })
            } else {
                st.toks
            },
            cur: Seq::empty(),
            cur_line: st.cur_line,
            line: if b == 10 {
                st.line + 1
            } else {
                st.line
            },
        }
    } else {
        LexStateV {
            toks: st.toks,
            cur: st.cur.push(b),
            cur_line: if st.cur.len() == 0 {
                st.line
            } else {
                st.cur_line
            },
            line: st.line,
        }
    }
}

/// The lexer state after consuming the first `i` bytes of `s`.
pub open spec fn lex_state(s: Seq<u8>, i: int) -> LexStateV
    decreases i,
{
    if i <= 0 {
        lex_init()
    } else {
        lex_step(lex_state(s, i - 1), s[i - 1])
    }
}

/// Emits the token still being read, if any, at end of input.
pub open spec fn lex_finish(st: LexStateV) -> Seq<TokenV> {
    if st.cur.len() > 0 {
        st.toks.push(TokenV { text: st.cur, line: st.cur_line })
    } else {
        st.toks
    }
}

/// The tokens of the whole input: the maximal runs of non-whitespace
/// bytes, in order, each with its starting line.
pub open spec fn spec_tokens(s: Seq<u8>) -> Seq<TokenV> {
    lex_finish(lex_state(s, s.len() as int))
}

/// The 1-based number of the last line of the input.
pub open spec fn spec_end_line(s: Seq<u8>) -> int {
    lex_state(s, s.len() as int).line
}

/// Compares two byte strings for equality.
pub fn bytes_eq(a: &Vec<u8>, b: &Vec<u8>) -> (r: bool)
    ensures
        r == (a@ == b@),
{
    if a.len() != b.len() {
        proof {
            assert(a@ != b@);
        }
        return false;
    }
    let mut j: usize = 0;
    while j < a.len()
        invariant
            a@.len() == b@.len(),
            j <= a@.len(),
            forall|k: int| 0 <= k < j ==> a@[k] == b@[k],
        decreases a@.len() - j,
    {
        if a[j] != b[j] {
            proof {
                assert(a@ != b@);
            }
            return false;
        }
        j = j + 1;
    }
    proof {
        assert(a@ =~= b@);
    }
    true
}

/// Splits the input into tokens; also returns the number of the last
/// line, used to report errors at end of input.
pub fn tokenize(input: &Vec<u8>) -> (r: (Vec<Token>, u64))
    requires
        input@.len() < u64::MAX,
    ensures
        r.0@.map_values(|t: Token| t@) == spec_tokens(input@),
        r.1 == spec_end_line(input@),
{
    let mut toks: Vec<Token> = Vec::new();
    let mut cur: Vec<u8> = Vec::new();
    let mut cur_line: u64 = 1;
    let mut line: u64 = 1;
    let mut i: usize = 0;
    while i < input.len()
        invariant
            i <= input.len(),
            input@.len() < u64::MAX,
            line <= 1 + i,
            lex_state(input@, i as int).toks =~= toks@.map_values(|t: Token| t@),
            lex_state(input@, i as int).cur =~= cur@,
            lex_state(input@, i as int).cur_line == cur_line as int,
            lex_state(input@, i as int).line == line as int,
        decreases input@.len() - i,
    {
        let b = input[i];
        proof {
            assert(lex_state(input@, i + 1) == lex_step(lex_state(input@, i as int), input@[i as int]));
        }
        if is_ws_byte(b) {
            if cur.len() > 0 {
                let text = cur;
                toks.push(Token { text, line: cur_line });
                cur = Vec::new();
                proof {
                    assert(lex_state(input@, i + 1).toks =~= toks@.map_values(|t: Token| t@));
                }
            }
            if b == 10 {
                line = line + 1;
            }
        } else {
            if cur.len() == 0 {
                cur_line = line;
            }
            cur.push(b);
        }
        i = i + 1;
    }
    if cur.len() > 0 {
        let text = cur;
        toks.push(Token { text, line: cur_line });
        proof {
            assert(spec_tokens(input@) =~= toks@.map_values(|t: Token| t@));
        }
    }
    (toks, line)
}

} // verus!
