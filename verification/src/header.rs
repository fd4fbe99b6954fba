//! Header builder: consumes the declaration tokens of a VCD file and
//! assembles the header metadata (date, version, timescale) together
//! with the nested scope tree, up to and including
//! `$enddefinitions $end`.
//!
//! The builder is specified as a token-at-a-time state machine
//! ([`h_step`]); [`run_header`] folds it over the token sequence, and
//! [`build_header`] is proved to return exactly its result.
//!
//! Policy, following the declared grammar: `$date`, `$version` and
//! `$timescale` are optional and the last occurrence wins; a timescale
//! magnitude must be 1, 10 or 100 and its unit one of s, ms, us, ns,
//! ps, fs; `$scope`/`$upscope` must balance; a missing
//! `$enddefinitions` is a malformed header.

use vstd::prelude::*;
use crate::lex::{Token, TokenV, bytes_eq};
use crate::model::{Header, HeaderV, ScopeItem, ScopeItemV, ScopeNode, ScopeNodeV, TimeUnit, VarV, VcdError, Variable, lemma_deep_items_push};
use crate::digits::{parse_u64_from, spec_u64};

verus! {

/// The bytes of the keyword `$date`.
pub open spec fn kw_date() -> Seq<u8> {
    seq![36u8, 100u8, 97u8, 116u8, 101u8]
}

/// The bytes of the keyword `$version`.
pub open spec fn kw_version() -> Seq<u8> {
    seq![36u8, 118u8, 101u8, 114u8, 115u8, 105u8, 111u8, 110u8]
}

/// The bytes of the keyword `$timescale`.
pub open spec fn kw_timescale() -> Seq<u8> {
    seq![36u8, 116u8, 105u8, 109u8, 101u8, 115u8, 99u8, 97u8, 108u8, 101u8]
}

/// The bytes of the keyword `$comment`.
pub open spec fn kw_comment() -> Seq<u8> {
    seq![36u8, 99u8, 111u8, 109u8, 109u8, 101u8, 110u8, 116u8]
}

/// The bytes of the keyword `$scope`.
pub open spec fn kw_scope() -> Seq<u8> {
    seq![36u8, 115u8, 99u8, 111u8, 112u8, 101u8]
}

/// The bytes of the keyword `$upscope`.
pub open spec fn kw_upscope() -> Seq<u8> {
    seq![36u8, 117u8, 112u8, 115u8, 99u8, 111u8, 112u8, 101u8]
}

/// The bytes of the keyword `$var`.
pub open spec fn kw_var() -> Seq<u8> {
    seq![36u8, 118u8, 97u8, 114u8]
}

/// The bytes of the keyword `$enddefinitions`.
pub open spec fn kw_enddefinitions() -> Seq<u8> {
    seq![
        36u8, 101u8, 110u8, 100u8, 100u8, 101u8, 102u8, 105u8, 110u8, 105u8, 116u8, 105u8,
        111u8, 110u8, 115u8,
    ]
}

/// The bytes of the keyword `$end`.
pub open spec fn kw_end() -> Seq<u8> {
    seq![36u8, 101u8, 110u8, 100u8]
}

/// The header-phase keyword a token is, if any.
#[derive(Debug, Clone, Copy, PartialEq, Eq, Structural)]
pub enum Kw {
    Date,
    Version,
    Timescale,
    Comment,
    Scope,
    Upscope,
    Var,
    Enddefinitions,
    End,
    Other,
}

/// Classifies a header-phase token.
pub open spec fn spec_kw(t: Seq<u8>) -> Kw {
    if t == kw_date() {
        Kw::Date
    } else if t == kw_version() {
        Kw::Version
    } else if t == kw_timescale() {
        Kw::Timescale
    } else if t == kw_comment() {
        Kw::Comment
    } else if t == kw_scope() {
        Kw::Scope
    } else if t == kw_upscope() {
        Kw::Upscope
    } else if t == kw_var() {
        Kw::Var
    } else if t == kw_enddefinitions() {
        Kw::Enddefinitions
    } else if t == kw_end() {
        Kw::End
    } else {
        Kw::Other
    }
}

/// Tests a token for the keyword `$end`.
pub fn is_end_tok(t: &Vec<u8>) -> (r: bool)
    ensures
        r == (t@ == kw_end()),
{
    let kw: Vec<u8> = vec![36u8, 101u8, 110u8, 100u8];
    proof {
        assert(kw@ =~= kw_end());
    }
    bytes_eq(t, &kw)
}

/// Classifies a header-phase token.
pub fn kw_of(t: &Vec<u8>) -> (r: Kw)
    ensures
        r == spec_kw(t@),
{
    let kw: Vec<u8> = vec![36u8, 100u8, 97u8, 116u8, 101u8];
    proof {
        assert(kw@ =~= kw_date());
    }
    if bytes_eq(t, &kw) {
        return Kw::Date;
    }
    let kw: Vec<u8> = vec![36u8, 118u8, 101u8, 114u8, 115u8, 105u8, 111u8, 110u8];
    proof {
        assert(kw@ =~= kw_version());
    }
    if bytes_eq(t, &kw) {
        return Kw::Version;
    }
    let kw: Vec<u8> = vec![36u8, 116u8, 105u8, 109u8, 101u8, 115u8, 99u8, 97u8, 108u8, 101u8];
    proof {
        assert(kw@ =~= kw_timescale());
    }
    if bytes_eq(t, &kw) {
        return Kw::Timescale;
    }
    let kw: Vec<u8> = vec![36u8, 99u8, 111u8, 109u8, 109u8, 101u8, 110u8, 116u8];
    proof {
        assert(kw@ =~= kw_comment());
    }
    if bytes_eq(t, &kw) {
        return Kw::Comment;
    }
    let kw: Vec<u8> = vec![36u8, 115u8, 99u8, 111u8, 112u8, 101u8];
    proof {
        assert(kw@ =~= kw_scope());
    }
    if bytes_eq(t, &kw) {
        return Kw::Scope;
    }
    let kw: Vec<u8> = vec![36u8, 117u8, 112u8, 115u8, 99u8, 111u8, 112u8, 101u8];
    proof {
        assert(kw@ =~= kw_upscope());
    }
    if bytes_eq(t, &kw) {
        return Kw::Upscope;
    }
    let kw: Vec<u8> = vec![36u8, 118u8, 97u8, 114u8];
    proof {
        assert(kw@ =~= kw_var());
    }
    if bytes_eq(t, &kw) {
        return Kw::Var;
    }
    let kw: Vec<u8> = vec![
        36u8, 101u8, 110u8, 100u8, 100u8, 101u8, 102u8, 105u8, 110u8, 105u8, 116u8, 105u8,
        111u8, 110u8, 115u8,
    ];
    proof {
        assert(kw@ =~= kw_enddefinitions());
    }
    if bytes_eq(t, &kw) {
        return Kw::Enddefinitions;
    }
    if is_end_tok(t) {
        return Kw::End;
    }
    Kw::Other
}

/// The timescale unit a byte string names, if any: `s`, `ms`, `us`,
/// `ns`, `ps` or `fs`.
pub open spec fn unit_of(s: Seq<u8>) -> Option<TimeUnit> {
    if s.len() == 1 && s[0] == 115 {
        Option::Some(TimeUnit::S)
    } else if s.len() == 2 && s[1] == 115 {
        if s[0] == 109 {
            Option::Some(TimeUnit::MS)
        } else if s[0] == 117 {
            Option::Some(TimeUnit::US)
        } else if s[0] == 110 {
            Option::Some(TimeUnit::NS)
        } else if s[0] == 112 {
            Option::Some(TimeUnit::PS)
        } else if s[0] == 102 {
            Option::Some(TimeUnit::FS)
        } else {
            Option::None
        }
    } else {
        Option::None
    }
}

/// The timescale magnitude a byte string names, if any: `1`, `10` or
/// `100`.
pub open spec fn mag_of(s: Seq<u8>) -> Option<u64> {
    if s.len() == 1 && s[0] == 49 {
        Option::Some(1u64)
    } else if s.len() == 2 && s[0] == 49 && s[1] == 48 {
        Option::Some(10u64)
    } else if s.len() == 3 && s[0] == 49 && s[1] == 48 && s[2] == 48 {
        Option::Some(100u64)
    } else {
        Option::None
    }
}

/// A one-token timescale such as `10ns`: a magnitude immediately
/// followed by a unit.
pub open spec fn ts_token(t: Seq<u8>) -> Option<(u64, TimeUnit)> {
    if t.len() >= 3 && t[0] == 49 && t[1] == 48 && t[2] == 48 && unit_of(
        t.subrange(3, t.len() as int),
    ) is Some {
        Option::Some((100u64, unit_of(t.subrange(3, t.len() as int))->Some_0))
    } else if t.len() >= 2 && t[0] == 49 && t[1] == 48 && unit_of(
        t.subrange(2, t.len() as int),
    ) is Some {
        Option::Some((10u64, unit_of(t.subrange(2, t.len() as int))->Some_0))
    } else if t.len() >= 1 && t[0] == 49 && unit_of(t.subrange(1, t.len() as int)) is Some {
        Option::Some((1u64, unit_of(t.subrange(1, t.len() as int))->Some_0))
    } else {
        Option::None
    }
}

/// The timescale a `$timescale ... $end` declaration names: either one
/// token (`10ns`) or a magnitude token and a unit token (`10 ns`).
pub open spec fn spec_timescale(args: Seq<Seq<u8>>) -> Option<(u64, TimeUnit)> {
    if args.len() == 1 {
        ts_token(args[0])
    } else if args.len() == 2 {
        if mag_of(args[0]) is Some && unit_of(args[1]) is Some {
            Option::Some((mag_of(args[0])->Some_0, unit_of(args[1])->Some_0))
        } else {
            Option::None
        }
    } else {
        Option::None
    }
}

/// Reads a unit name from `t[start..]`.
fn unit_from(t: &Vec<u8>, start: usize) -> (r: Option<TimeUnit>)
    requires
        start <= t@.len(),
    ensures
        r == unit_of(t@.subrange(start as int, t@.len() as int)),
{
    let ghost sub = t@.subrange(start as int, t@.len() as int);
    let n = t.len() - start;
    if n == 1 {
        proof {
            assert(sub[0] == t@[start as int]);
        }
        if t[start] == 115 {
            Option::Some(TimeUnit::S)
        } else {
            Option::None
        }
    } else if n == 2 {
        proof {
            assert(sub[0] == t@[start as int]);
            assert(sub[1] == t@[start + 1]);
        }
        if t[start + 1] != 115 {
            return Option::None;
        }
        let b = t[start];
        if b == 109 {
            Option::Some(TimeUnit::MS)
        } else if b == 117 {
            Option::Some(TimeUnit::US)
        } else if b == 110 {
            Option::Some(TimeUnit::NS)
        } else if b == 112 {
            Option::Some(TimeUnit::PS)
        } else if b == 102 {
            Option::Some(TimeUnit::FS)
        } else {
            Option::None
        }
    } else {
        Option::None
    }
}

/// Reads a one-token timescale such as `10ns`.
fn ts_token_from(t: &Vec<u8>) -> (r: Option<(u64, TimeUnit)>)
    ensures
        r == ts_token(t@),
{
    if t.len() >= 3 && t[0] == 49 && t[1] == 48 && t[2] == 48 {
        let u = unit_from(t, 3);
        if u.is_some() {
            return Option::Some((100, u.unwrap()));
        }
    }
    if t.len() >= 2 && t[0] == 49 && t[1] == 48 {
        let u = unit_from(t, 2);
        if u.is_some() {
            proof {
                assert(!(t@.len() >= 3 && t@[0] == 49 && t@[1] == 48 && t@[2] == 48 && unit_of(
                    t@.subrange(3, t@.len() as int),
                ) is Some));
            }
            return Option::Some((10, u.unwrap()));
        }
    }
    if t.len() >= 1 && t[0] == 49 {
        let u = unit_from(t, 1);
        if u.is_some() {
            return Option::Some((1, u.unwrap()));
        }
    }
    Option::None
}

/// Reads a magnitude token: `1`, `10` or `100`.
fn mag_from(t: &Vec<u8>) -> (r: Option<u64>)
    ensures
        r == mag_of(t@),
{
    if t.len() == 1 && t[0] == 49 {
        Option::Some(1)
    } else if t.len() == 2 && t[0] == 49 && t[1] == 48 {
        Option::Some(10)
    } else if t.len() == 3 && t[0] == 49 && t[1] == 48 && t[2] == 48 {
        Option::Some(100)
    } else {
        Option::None
    }
}

/// Reads the collected argument tokens of a `$timescale` declaration.
fn timescale_from(args: &Vec<Vec<u8>>) -> (r: Option<(u64, TimeUnit)>)
    ensures
        r == spec_timescale(args@.map_values(|a: Vec<u8>| a@)),
{
    let ghost av = args@.map_values(|a: Vec<u8>| a@);
    if args.len() == 1 {
        proof {
            assert(av[0] == args@[0]@);
        }
        ts_token_from(&args[0])
    } else if args.len() == 2 {
        proof {
            assert(av[0] == args@[0]@);
            assert(av[1] == args@[1]@);
        }
        let m = mag_from(&args[0]);
        let u = unit_from(&args[1], 0);
        proof {
            assert(args@[1]@.subrange(0, args@[1]@.len() as int) =~= args@[1]@);
        }
        if m.is_some() && u.is_some() {
            Option::Some((m.unwrap(), u.unwrap()))
        } else {
            Option::None
        }
    } else {
        Option::None
    }
}

/// Joins declaration text tokens with single spaces.
pub open spec fn join_text(acc: Seq<u8>, t: Seq<u8>) -> Seq<u8> {
    if acc.len() == 0 {
        t
    } else {
        acc + seq![32u8] + t
    }
}

/// The mode of the header builder: what the next token is read as.
#[verifier::ext_equal]
pub enum HModeV {
    /// Expecting a declaration keyword.
    AtCommand,
    /// Collecting `$date` text until `$end`.
    InDate { acc: Seq<u8> },
    /// Collecting `$version` text until `$end`.
    InVersion { acc: Seq<u8> },
    /// Skipping `$comment` text until `$end`.
    InComment,
    /// Collecting `$timescale` arguments until `$end`.
    InTimescale { args: Seq<Seq<u8>> },
    /// Collecting `$scope` arguments until `$end`.
    InScope { args: Seq<Seq<u8>> },
    /// Expecting the `$end` of `$upscope`.
    InUpscope,
    /// Collecting `$var` arguments until `$end`.
    InVar { args: Seq<Seq<u8>> },
    /// Expecting the `$end` of `$enddefinitions`.
    InEnddef,
}

/// The whole state of the header builder.
#[verifier::ext_equal]
pub struct HStateV {
    pub date: Option<Seq<u8>>,
    pub version: Option<Seq<u8>>,
    pub timescale: Option<(u64, TimeUnit)>,
    /// The open scopes, outermost first; the first entry is the
    /// unnamed root.
    pub stack: Seq<ScopeNodeV>,
    pub mode: HModeV,
}

/// What one step of the builder does.
#[verifier::ext_equal]
pub enum HStep {
    /// Keep reading.
    Cont(HStateV),
    /// `$enddefinitions $end` was read: the header is complete.
    Done(HStateV),
    /// The header is invalid.
    Fail(VcdError),
}

/// The state before any token has been read: nothing declared, only
/// the unnamed root scope open.
pub open spec fn h_init() -> HStateV {
    HStateV {
        date: Option::None,
        version: Option::None,
        timescale: Option::None,
        stack: seq![ScopeNodeV { name: Seq::empty(), items: Seq::empty() }],
        mode: HModeV::AtCommand,
    }
}

/// Appends an item to the innermost open scope.
pub open spec fn push_top_item(stack: Seq<ScopeNodeV>, item: ScopeItemV) -> Seq<ScopeNodeV> {
    if stack.len() == 0 {
        stack
    } else {
        let top = stack[stack.len() - 1];
        stack.update(stack.len() - 1, ScopeNodeV { name: top.name, items: top.items.push(item) })
    }
}

/// One step of the header builder on one token.
pub open spec fn h_step(st: HStateV, tok: TokenV) -> HStep {
    let line = tok.line as u64;
    match st.mode {
        HModeV::AtCommand => match spec_kw(tok.text) {
            Kw::Date => HStep::Cont(HStateV { mode: HModeV::InDate { acc: Seq::empty() }, ..st }),
            Kw::Version => HStep::Cont(
                HStateV { mode: HModeV::InVersion { acc: Seq::empty() }, ..st },
            ),
            Kw::Comment => HStep::Cont(HStateV { mode: HModeV::InComment, ..st }),
            Kw::Timescale => HStep::Cont(
                HStateV { mode: HModeV::InTimescale { args: Seq::empty() }, ..st },
            ),
            Kw::Scope => HStep::Cont(
                HStateV { mode: HModeV::InScope { args: Seq::empty() }, ..st },
            ),
            Kw::Upscope => HStep::Cont(HStateV { mode: HModeV::InUpscope, ..st }),
            Kw::Var => HStep::Cont(HStateV { mode: HModeV::InVar { args: Seq::empty() }, ..st }),
            Kw::Enddefinitions => HStep::Cont(HStateV { mode: HModeV::InEnddef, ..st }),
            Kw::End => HStep::Fail(VcdError::MalformedHeader { line }),
            Kw::Other => HStep::Fail(VcdError::MalformedHeader { line }),
        },
        HModeV::InDate { acc } => if tok.text == kw_end() {
            HStep::Cont(
                HStateV { date: Option::Some(acc), mode: HModeV::AtCommand, ..st },
            )
        } else {
            HStep::Cont(HStateV { mode: HModeV::InDate { acc: join_text(acc, tok.text) }, ..st })
        },
        HModeV::InVersion { acc } => if tok.text == kw_end() {
            HStep::Cont(
                HStateV { version: Option::Some(acc), mode: HModeV::AtCommand, ..st },
            )
        } else {
            HStep::Cont(
                HStateV { mode: HModeV::InVersion { acc: join_text(acc, tok.text) }, ..st },
            )
        },
        HModeV::InComment => if tok.text == kw_end() {
            HStep::Cont(HStateV { mode: HModeV::AtCommand, ..st })
        } else {
            HStep::Cont(st)
        },
        HModeV::InTimescale { args } => if tok.text == kw_end() {
            match spec_timescale(args) {
                Option::Some(ts) => HStep::Cont(
                    HStateV { timescale: Option::Some(ts), mode: HModeV::AtCommand, ..st },
                ),
                Option::None => HStep::Fail(VcdError::InvalidTimescale { line }),
            }
        } else {
            HStep::Cont(
                HStateV { mode: HModeV::InTimescale { args: args.push(tok.text) }, ..st },
            )
        },
        HModeV::InScope { args } => if tok.text == kw_end() {
            if args.len() == 2 {
                HStep::Cont(
                    HStateV {
                        stack: st.stack.push(ScopeNodeV { name: args[1], items: Seq::empty() }),
                        mode: HModeV::AtCommand,
                        ..st
                    },
                )
            } else {
                HStep::Fail(VcdError::MalformedHeader { line })
            }
        } else {
            HStep::Cont(HStateV { mode: HModeV::InScope { args: args.push(tok.text) }, ..st })
        },
        HModeV::InUpscope => if tok.text == kw_end() {
            if st.stack.len() >= 2 {
                HStep::Cont(
                    HStateV {
                        stack: push_top_item(
                            st.stack.subrange(0, st.stack.len() - 1),
                            ScopeItemV::Scope(st.stack[st.stack.len() - 1]),
                        ),
                        mode: HModeV::AtCommand,
                        ..st
                    },
                )
            } else {
                HStep::Fail(VcdError::UnbalancedScope { line })
            }
        } else {
            HStep::Fail(VcdError::MalformedHeader { line })
        },
        HModeV::InVar { args } => if tok.text == kw_end() {
            if (args.len() == 4 || args.len() == 5) && spec_u64(args[1]) is Some {
                HStep::Cont(
                    HStateV {
                        stack: push_top_item(
                            st.stack,
                            ScopeItemV::Var(
                                VarV {
                                    reference: args[3],
                                    code: args[2],
                                    width: spec_u64(args[1])->Some_0,
                                    index: if args.len() == 5 {
                                        Option::Some(args[4])
                                    } else {
                                        Option::None
                                    },
                                },
                            ),
                        ),
                        mode: HModeV::AtCommand,
                        ..st
                    },
                )
            } else {
                HStep::Fail(VcdError::MalformedHeader { line })
            }
        } else {
            HStep::Cont(HStateV { mode: HModeV::InVar { args: args.push(tok.text) }, ..st })
        },
        HModeV::InEnddef => if tok.text == kw_end() {
            HStep::Done(HStateV { mode: HModeV::AtCommand, ..st })
        } else {
            HStep::Fail(VcdError::MalformedHeader { line })
        },
    }
}

/// A complete header: the metadata, the root of the scope tree, and
/// the index of the first body token.
#[verifier::ext_equal]
pub struct HeaderOut {
    pub header: HeaderV,
    pub root: ScopeNodeV,
    pub body_start: int,
}

/// The outcome of the header phase.
#[verifier::ext_equal]
pub enum HRun {
    Complete(HeaderOut),
    Fail(VcdError),
}

/// Folds the header builder over the tokens from position `i` on.
/// Running out of tokens before `$enddefinitions $end` is a malformed
/// header, reported at the last line of the input; a scope still open
/// at `$enddefinitions` is an unbalanced scope.
pub open spec fn run_header(toks: Seq<TokenV>, i: int, st: HStateV, end_line: int) -> HRun
    decreases toks.len() - i,
{
    if i < 0 || i >= toks.len() {
        HRun::Fail(VcdError::MalformedHeader { line: end_line as u64 })
    } else {
        match h_step(st, toks[i]) {
            HStep::Cont(st2) => run_header(toks, i + 1, st2, end_line),
            HStep::Done(st2) => if st2.stack.len() == 1 {
                HRun::Complete(
                    HeaderOut {
                        header: HeaderV {
                            date: st2.date,
                            version: st2.version,
                            timescale: st2.timescale,
                        },
                        root: st2.stack[0],
                        body_start: i + 1,
                    },
                )
            } else {
                HRun::Fail(VcdError::UnbalancedScope { line: toks[i].line as u64 })
            },
            HStep::Fail(e) => HRun::Fail(e),
        }
    }
}

/// An `$upscope $end` with no open `$scope` fails with
/// `UnbalancedScope`. The stack always holds the unnamed root, so
/// fewer than two entries means no user scope is open.
pub proof fn lemma_unbalanced_upscope(st: HStateV, tok: TokenV)
    requires
        st.mode is InUpscope,
        tok.text == kw_end(),
        st.stack.len() < 2,
    ensures
        h_step(st, tok) == HStep::Fail(VcdError::UnbalancedScope { line: tok.line as u64 }),
{
}

/// A header never completes without `$enddefinitions`: from any state
/// that has not already read that keyword, a token stream holding no
/// `$enddefinitions` can only fail. A missing terminator is always an
/// error, never a truncated result.
pub proof fn lemma_no_enddefinitions_fails(toks: Seq<TokenV>, i: int, st: HStateV, end_line: int)
    requires
        !(st.mode is InEnddef),
        forall|j: int| i <= j < toks.len() ==> toks[j].text != kw_enddefinitions(),
    ensures
        run_header(toks, i, st, end_line) is Fail,
    decreases toks.len() - i,
{
    if 0 <= i < toks.len() {
        match h_step(st, toks[i]) {
            HStep::Cont(st2) => {
                assert(toks[i].text != kw_enddefinitions());
                assert(!(st2.mode is InEnddef));
                lemma_no_enddefinitions_fails(toks, i + 1, st2, end_line);
            }
            HStep::Done(st2) => {
                assert(st.mode is InEnddef);
            }
            HStep::Fail(e) => {
            }
        }
    }
}

/// Exhausting the tokens before `$enddefinitions $end` is a malformed
/// header, reported at the last line of the input.
pub proof fn lemma_exhausted_header_malformed(
    toks: Seq<TokenV>,
    i: int,
    st: HStateV,
    end_line: int,
)
    requires
        i >= toks.len(),
    ensures
        run_header(toks, i, st, end_line) == HRun::Fail(
            VcdError::MalformedHeader { line: end_line as u64 },
        ),
{
}

/// The mode tag of the executable builder; the token payloads live in
/// the `acc` and `args` locals of [`build_header`].
#[derive(Debug, Clone, Copy, PartialEq, Eq, Structural)]
pub enum Mode {
    AtCommand,
    InDate,
    InVersion,
    InComment,
    InTimescale,
    InScope,
    InUpscope,
    InVar,
    InEnddef,
}

/// The builder mode the executable locals stand for.
pub open spec fn mode_view(mode: Mode, acc: Seq<u8>, args: Seq<Seq<u8>>) -> HModeV {
    match mode {
        Mode::AtCommand => HModeV::AtCommand,
        Mode::InDate => HModeV::InDate { acc },
        Mode::InVersion => HModeV::InVersion { acc },
        Mode::InComment => HModeV::InComment,
        Mode::InTimescale => HModeV::InTimescale { args },
        Mode::InScope => HModeV::InScope { args },
        Mode::InUpscope => HModeV::InUpscope,
        Mode::InVar => HModeV::InVar { args },
        Mode::InEnddef => HModeV::InEnddef,
    }
}

/// The view of an optional byte string.
pub open spec fn opt_bytes(o: Option<Vec<u8>>) -> Option<Seq<u8>> {
    match o {
        Option::Some(v) => Option::Some(v@),
        Option::None => Option::None,
    }
}

/// The builder state the executable locals stand for.
pub open spec fn st_of(
    date: Option<Vec<u8>>,
    version: Option<Vec<u8>>,
    timescale: Option<(u64, TimeUnit)>,
    stack: Seq<ScopeNode>,
    mode: Mode,
    acc: Seq<u8>,
    args: Seq<Seq<u8>>,
) -> HStateV {
    HStateV {
        date: opt_bytes(date),
        version: opt_bytes(version),
        timescale,
        stack: stack.map_values(|n: ScopeNode| n.deep()),
        mode: mode_view(mode, acc, args),
    }
}

/// Appends the bytes of `t` to `acc`, separated from earlier text by a
/// single space.
fn join_into(acc: &mut Vec<u8>, t: &Vec<u8>)
    ensures
        final(acc)@ == join_text(old(acc)@, t@),
{
    if acc.len() > 0 {
        acc.push(32);
    }
    let mut c = t.clone();
    acc.append(&mut c);
    proof {
        assert(final(acc)@ =~= join_text(old(acc)@, t@));
    }
}

/// Consumes the header tokens and builds the header record and the
/// scope tree. On success also returns the index of the first token
/// after `$enddefinitions $end`. The result is exactly what
/// [`run_header`] yields on the token views from the initial state.
pub fn build_header(toks: &Vec<Token>, end_line: u64) -> (r: Result<
    (Header, ScopeNode, usize),
    VcdError,
>)
    ensures
        match r {
            Result::Ok(out) => run_header(
                toks@.map_values(|t: Token| t@),
                0,
                h_init(),
                end_line as int,
            ) == HRun::Complete(
                HeaderOut {
                    header: out.0@,
                    root: out.1.deep(),
                    body_start: out.2 as int,
                },
            ) && out.2 <= toks@.len(),
            Result::Err(e) => run_header(
                toks@.map_values(|t: Token| t@),
                0,
                h_init(),
                end_line as int,
            ) == HRun::Fail(e),
        },
{
    let ghost tvv = toks@.map_values(|t: Token| t@);
    let ghost el = end_line as int;
    let mut date: Option<Vec<u8>> = Option::None;
    let mut version: Option<Vec<u8>> = Option::None;
    let mut timescale: Option<(u64, TimeUnit)> = Option::None;
    let mut stack: Vec<ScopeNode> = Vec::new();
    stack.push(ScopeNode { name: Vec::new(), items: Vec::new() });
    let mut mode: Mode = Mode::AtCommand;
    let mut acc: Vec<u8> = Vec::new();
    let mut args: Vec<Vec<u8>> = Vec::new();
    let mut i: usize = 0;
    proof {
        assert(stack@.map_values(|n: ScopeNode| n.deep()) =~= h_init().stack);
        assert(st_of(
            date,
            version,
            timescale,
            stack@,
            mode,
            acc@,
            args@.map_values(|a: Vec<u8>| a@),
        ) =~= h_init());
    }
    while i < toks.len()
        invariant
            i <= toks@.len(),
            tvv == toks@.map_values(|t: Token| t@),
            el == end_line as int,
            stack@.len() >= 1,
            run_header(tvv, 0, h_init(), el) == run_header(
                tvv,
                i as int,
                st_of(date, version, timescale, stack@, mode, acc@, args@.map_values(|a: Vec<u8>| a@)),
                el,
            ),
        decreases toks@.len() - i,
    {
        let ghost st0 = st_of(
            date,
            version,
            timescale,
            stack@,
            mode,
            acc@,
            args@.map_values(|a: Vec<u8>| a@),
        );
        let ghost tokv = tvv[i as int];
        proof {
            assert(tokv == toks@[i as int]@);
            assert(run_header(tvv, i as int, st0, el) == match h_step(st0, tokv) {
                HStep::Cont(st2) => run_header(tvv, i + 1, st2, el),
                HStep::Done(st2) => if st2.stack.len() == 1 {
                    HRun::Complete(
                        HeaderOut {
                            header: HeaderV {
                                date: st2.date,
                                version: st2.version,
                                timescale: st2.timescale,
                            },
                            root: st2.stack[0],
                            body_start: i + 1,
                        },
                    )
                } else {
                    HRun::Fail(VcdError::UnbalancedScope { line: tokv.line as u64 })
                },
                HStep::Fail(e) => HRun::Fail(e),
            });
        }
        let line = toks[i].line;
        match mode {
            Mode::AtCommand => {
                match kw_of(&toks[i].text) {
                    Kw::Date => {
                        mode = Mode::InDate;
                        acc = Vec::new();
                    }
                    Kw::Version => {
                        mode = Mode::InVersion;
                        acc = Vec::new();
                    }
                    Kw::Comment => {
                        mode = Mode::InComment;
                    }
                    Kw::Timescale => {
                        mode = Mode::InTimescale;
                        args = Vec::new();
                    }
                    Kw::Scope => {
                        mode = Mode::InScope;
                        args = Vec::new();
                    }
                    Kw::Upscope => {
                        mode = Mode::InUpscope;
                    }
                    Kw::Var => {
                        mode = Mode::InVar;
                        args = Vec::new();
                    }
                    Kw::Enddefinitions => {
                        mode = Mode::InEnddef;
                    }
                    Kw::End => {
                        return Result::Err(VcdError::MalformedHeader { line });
                    }
                    Kw::Other => {
                        return Result::Err(VcdError::MalformedHeader { line });
                    }
                }
            }
            Mode::InDate => {
                if is_end_tok(&toks[i].text) {
                    date = Option::Some(acc);
                    acc = Vec::new();
                    mode = Mode::AtCommand;
                } else {
                    join_into(&mut acc, &toks[i].text);
                }
            }
            Mode::InVersion => {
                if is_end_tok(&toks[i].text) {
                    version = Option::Some(acc);
                    acc = Vec::new();
                    mode = Mode::AtCommand;
                } else {
                    join_into(&mut acc, &toks[i].text);
                }
            }
            Mode::InComment => {
                if is_end_tok(&toks[i].text) {
                    mode = Mode::AtCommand;
                }
            }
            Mode::InTimescale => {
                if is_end_tok(&toks[i].text) {
                    match timescale_from(&args) {
                        Option::Some(ts) => {
                            timescale = Option::Some(ts);
                            args = Vec::new();
                            mode = Mode::AtCommand;
                        }
                        Option::None => {
                            return Result::Err(VcdError::InvalidTimescale { line });
                        }
                    }
                } else {
                    let ghost args_prev = args@.map_values(|a: Vec<u8>| a@);
                    args.push(toks[i].text.clone());
                    proof {
                        assert(args@.map_values(|a: Vec<u8>| a@) =~~= args_prev.push(tokv.text));
                    }
                }
            }
            Mode::InScope => {
                if is_end_tok(&toks[i].text) {
                    if args.len() == 2 {
                        let ghost av0 = args@.map_values(|a: Vec<u8>| a@);
                        let name = args[1].clone();
                        args = Vec::new();
                        stack.push(ScopeNode { name, items: Vec::new() });
                        mode = Mode::AtCommand;
                        proof {
                            assert(av0[1] == st0.mode->InScope_args[1]);
                            assert(stack@.map_values(|n: ScopeNode| n.deep()) =~~= st0.stack.push(
                                ScopeNodeV { name: av0[1], items: Seq::empty() },
                            ));
                        }
                    } else {
                        return Result::Err(VcdError::MalformedHeader { line });
                    }
                } else {
                    let ghost args_prev = args@.map_values(|a: Vec<u8>| a@);
                    args.push(toks[i].text.clone());
                    proof {
                        assert(args@.map_values(|a: Vec<u8>| a@) =~~= args_prev.push(tokv.text));
                    }
                }
            }
            Mode::InUpscope => {
                if is_end_tok(&toks[i].text) {
                    if stack.len() >= 2 {
                        let ghost os = stack@;
                        let top = stack.pop().unwrap();
                        let mut parent = stack.pop().unwrap();
                        let ghost parent0 = parent;
                        parent.items.push(ScopeItem::Scope(top));
                        stack.push(parent);
                        mode = Mode::AtCommand;
                        proof {
                            assert(top == os[os.len() - 1]);
                            assert(parent0 == os[os.len() - 2]);
                            lemma_deep_items_push(parent0.items@, ScopeItem::Scope(top));
                            assert(stack@ =~= os.subrange(0, os.len() - 2).push(parent));
                            assert(stack@.map_values(|n: ScopeNode| n.deep()) =~~= push_top_item(
                                st0.stack.subrange(0, st0.stack.len() - 1),
                                ScopeItemV::Scope(st0.stack[st0.stack.len() - 1]),
                            ));
                        }
                    } else {
                        return Result::Err(VcdError::UnbalancedScope { line });
                    }
                } else {
                    return Result::Err(VcdError::MalformedHeader { line });
                }
            }
            Mode::InVar => {
                if is_end_tok(&toks[i].text) {
                    if args.len() == 4 || args.len() == 5 {
                        let w = parse_u64_from(&args[1], 0);
                        proof {
                            assert(args@[1]@.subrange(0, args@[1]@.len() as int) =~= args@[1]@);
                        }
                        match w {
                            Option::Some(width) => {
                                let ghost av0 = args@.map_values(|a: Vec<u8>| a@);
                                let code = args[2].clone();
                                let reference = args[3].clone();
                                let index: Option<Vec<u8>> = if args.len() == 5 {
                                    Option::Some(args[4].clone())
                                } else {
                                    Option::None
                                };
                                args = Vec::new();
                                let var = Variable { reference, code, width, index };
                                let ghost os = stack@;
                                let mut top = stack.pop().unwrap();
                                let ghost top0 = top;
                                top.items.push(ScopeItem::Var(var));
                                stack.push(top);
                                mode = Mode::AtCommand;
                                proof {
                                    assert(var@ =~~= VarV {
                                        reference: av0[3],
                                        code: av0[2],
                                        width: width,
                                        index: if av0.len() == 5 {
                                            Option::Some(av0[4])
                                        } else {
                                            Option::None
                                        },
                                    });
                                    assert(top0 == os[os.len() - 1]);
                                    lemma_deep_items_push(top0.items@, ScopeItem::Var(var));
                                    assert(stack@ =~= os.subrange(0, os.len() - 1).push(top));
                                    assert(stack@.map_values(|n: ScopeNode| n.deep())
                                        =~~= push_top_item(st0.stack, ScopeItemV::Var(var@)));
                                }
                            }
                            Option::None => {
                                return Result::Err(VcdError::MalformedHeader { line });
                            }
                        }
                    } else {
                        return Result::Err(VcdError::MalformedHeader { line });
                    }
                } else {
                    let ghost args_prev = args@.map_values(|a: Vec<u8>| a@);
                    args.push(toks[i].text.clone());
                    proof {
                        assert(args@.map_values(|a: Vec<u8>| a@) =~~= args_prev.push(tokv.text));
                    }
                }
            }
            Mode::InEnddef => {
                if is_end_tok(&toks[i].text) {
                    if stack.len() == 1 {
                        let root = stack.pop().unwrap();
                        let h = Header { date, version, timescale };
                        return Result::Ok((h, root, i + 1));
                    } else {
                        return Result::Err(VcdError::UnbalancedScope { line });
                    }
                } else {
                    return Result::Err(VcdError::MalformedHeader { line });
                }
            }
        }
        proof {
            let st1 = st_of(
                date,
                version,
                timescale,
                stack@,
                mode,
                acc@,
                args@.map_values(|a: Vec<u8>| a@),
            );
            assert(h_step(st0, tokv) =~~= HStep::Cont(st1));
        }
        i = i + 1;
    }
    Result::Err(VcdError::MalformedHeader { line: end_line })
}

} // verus!
