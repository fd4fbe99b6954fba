//! Event stream processor: consumes the value-change tokens that follow
//! `$enddefinitions $end`, tracking the current simulation time and the
//! last known value of every declared identifier code.
//!
//! The processor is specified as a token-at-a-time state machine
//! ([`b_step`]); [`run_body`] folds it over the remaining tokens, and
//! [`process_body`] is proved to return exactly its result.
//!
//! Policy, following the declared behavior: value changes seen before
//! the first `#` timestamp (the initial dump block) are attributed to
//! time 0; `$comment` blocks and `$dumpvars`/`$dumpall`/`$dumpon`/
//! `$dumpoff` markers have no state effect; any other unrecognized
//! token is reported in a diagnostics list with its line number and
//! processing continues; a scalar change whose value character is a
//! non-binary digit is a malformed command; a change naming an
//! undeclared code stops the pass with `UnknownIdentifier`.

use vstd::prelude::*;
use crate::lex::{Token, TokenV, bytes_eq};
use crate::model::{VarV, VcdError, Variable};
use crate::digits::{all_digits, is_digit, parse_u64_from, spec_u64};
use crate::header::{kw_comment, kw_end, is_end_tok};

verus! {

/// One scalar signal level: 0, 1, unknown (`x`), or high-impedance
/// (`z`).
#[derive(Debug, Clone, Copy, PartialEq, Eq, Structural)]
pub enum Bit {
    B0,
    B1,
    X,
    Z,
}

/// The last known value of a signal, tagged by the kind of change that
/// set it. A real value keeps its decimal literal bytes: the library
/// stores it without interpreting it.
#[derive(Debug, Clone, PartialEq, Eq)]
pub enum Value {
    Scalar(Bit),
    Vector(Vec<Bit>),
    Real(Vec<u8>),
    Text(Vec<u8>),
}

/// The mathematical value of a [`Value`].
#[verifier::ext_equal]
pub enum ValueV {
    Scalar(Bit),
    Vector(Seq<Bit>),
    Real(Seq<u8>),
    Text(Seq<u8>),
}

impl View for Value {
    type V = ValueV;

    open spec fn view(&self) -> ValueV {
        match self {
            Value::Scalar(b) => ValueV::Scalar(*b),
            Value::Vector(v) => ValueV::Vector(v@),
            Value::Real(r) => ValueV::Real(r@),
            Value::Text(t) => ValueV::Text(t@),
        }
    }
}

/// One entry of the value table: an identifier code and its last known
/// value.
#[derive(Debug, Clone, PartialEq, Eq)]
pub struct CodeValue {
    pub code: Vec<u8>,
    pub value: Value,
}

/// The mathematical value of a [`CodeValue`].
#[verifier::ext_equal]
pub struct CodeValueV {
    pub code: Seq<u8>,
    pub value: ValueV,
}

impl View for CodeValue {
    type V = CodeValueV;

    open spec fn view(&self) -> CodeValueV {
        CodeValueV { code: self.code@, value: self.value@ }
    }
}

/// The bytes of the marker `$dumpvars`.
pub open spec fn kw_dumpvars() -> Seq<u8> {
    seq![36u8, 100u8, 117u8, 109u8, 112u8, 118u8, 97u8, 114u8, 115u8]
}

/// The bytes of the marker `$dumpall`.
pub open spec fn kw_dumpall() -> Seq<u8> {
    seq![36u8, 100u8, 117u8, 109u8, 112u8, 97u8, 108u8, 108u8]
}

/// The bytes of the marker `$dumpon`.
pub open spec fn kw_dumpon() -> Seq<u8> {
    seq![36u8, 100u8, 117u8, 109u8, 112u8, 111u8, 110u8]
}

/// The bytes of the marker `$dumpoff`.
pub open spec fn kw_dumpoff() -> Seq<u8> {
    seq![36u8, 100u8, 117u8, 109u8, 112u8, 111u8, 102u8, 102u8]
}

/// Whether a byte is a scalar value character: `0`, `1`, `x`, `X`,
/// `z`, `Z`.
pub open spec fn is_bit_char(b: u8) -> bool {
    b == 48 || b == 49 || b == 120 || b == 88 || b == 122 || b == 90
}

/// The bit a scalar value character stands for.
pub open spec fn bit_of(b: u8) -> Bit {
    if b == 48 {
        Bit::B0
    } else if b == 49 {
        Bit::B1
    } else if b == 120 || b == 88 {
        Bit::X
    } else {
        Bit::Z
    }
}

/// Whether every byte of `s` is a scalar value character.
pub open spec fn all_bits(s: Seq<u8>) -> bool {
    forall|i: int| 0 <= i < s.len() ==> is_bit_char(s[i])
}

/// The bit string a vector value literal stands for.
pub open spec fn bits_of(s: Seq<u8>) -> Seq<Bit> {
    s.map_values(|b: u8| bit_of(b))
}

/// The position of the first exponent marker (`e` or `E`) in the
/// unsigned part of a real literal, or its length when it has none.
pub open spec fn epos(body: Seq<u8>) -> int
    decreases body.len(),
{
    if body.len() == 0 {
        0
    } else if body[0] == 101 || body[0] == 69 {
        0
    } else {
        1 + epos(body.subrange(1, body.len() as int))
    }
}

/// Where the first exponent marker stands: nothing before it is one,
/// and it is one unless the literal has none.
pub proof fn lemma_epos(body: Seq<u8>)
    ensures
        0 <= epos(body) <= body.len(),
        forall|i: int| 0 <= i < epos(body) ==> !(body[i] == 101 || body[i] == 69),
        epos(body) < body.len() ==> (body[epos(body)] == 101 || body[epos(body)] == 69),
    decreases body.len(),
{
    if body.len() > 0 && !(body[0] == 101 || body[0] == 69) {
        let tail = body.subrange(1, body.len() as int);
        lemma_epos(tail);
        assert forall|i: int| 0 <= i < epos(body) implies !(body[i] == 101 || body[i] == 69) by {
            if i > 0 {
                assert(tail[i - 1] == body[i]);
            }
        }
        if epos(body) < body.len() {
            assert(tail[epos(tail)] == body[epos(body)]);
        }
    }
}

/// Whether the mantissa of a real literal is well formed: digits with
/// at most one decimal point and at least one digit.
pub open spec fn mantissa_ok(m: Seq<u8>) -> bool {
    &&& m.len() > 0
    &&& forall|i: int| 0 <= i < m.len() ==> (is_digit(m[i]) || m[i] == 46)
    &&& forall|i: int, j: int|
        0 <= i < m.len() && 0 <= j < m.len() && m[i] == 46 && m[j] == 46 ==> i == j
    &&& exists|i: int| 0 <= i < m.len() && is_digit(m[i])
}

/// Whether an exponent part is well formed: `e` or `E`, an optional
/// sign, and at least one digit.
pub open spec fn exp_ok(t: Seq<u8>) -> bool {
    &&& t.len() >= 2
    &&& (t[0] == 101 || t[0] == 69)
    &&& {
        let d = if t[1] == 43 || t[1] == 45 {
            t.subrange(2, t.len() as int)
        } else {
            t.subrange(1, t.len() as int)
        };
        d.len() > 0 && all_digits(d)
    }
}

/// Whether the unsigned part of a real literal is well formed: a
/// mantissa, then an optional exponent part.
pub open spec fn real_body_ok(body: Seq<u8>) -> bool {
    let k = epos(body);
    &&& mantissa_ok(body.subrange(0, k))
    &&& (k == body.len() || exp_ok(body.subrange(k, body.len() as int)))
}

/// Whether `s` is a decimal real literal: an optional sign, digits
/// with at most one decimal point and at least one digit, then an
/// optional exponent part (`e` or `E`, an optional sign, digits).
pub open spec fn is_real_lit(s: Seq<u8>) -> bool {
    if s.len() > 0 && (s[0] == 43 || s[0] == 45) {
        real_body_ok(s.subrange(1, s.len() as int))
    } else {
        real_body_ok(s)
    }
}

/// Whether an identifier code was declared in the variable table.
pub open spec fn code_known(vars: Seq<VarV>, code: Seq<u8>) -> bool {
    exists|i: int| 0 <= i < vars.len() && vars[i].code == code
}

/// The position of a code in the value table, or -1.
pub open spec fn tbl_find(table: Seq<CodeValueV>, code: Seq<u8>) -> int
    decreases table.len(),
{
    if table.len() == 0 {
        -1
    } else if table[0].code == code {
        0
    } else {
        let r = tbl_find(table.subrange(1, table.len() as int), code);
        if r < 0 {
            -1
        } else {
            r + 1
        }
    }
}

/// Sets the last known value of a code: in place if the code already
/// has an entry, appended in first-seen order otherwise.
pub open spec fn tbl_update(table: Seq<CodeValueV>, code: Seq<u8>, val: ValueV) -> Seq<
    CodeValueV,
> {
    let i = tbl_find(table, code);
    if i < 0 {
        table.push(CodeValueV { code, value: val })
    } else {
        table.update(i, CodeValueV { code, value: val })
    }
}

/// What [`tbl_find`] returns: the first matching position, if any.
pub proof fn lemma_tbl_find(table: Seq<CodeValueV>, code: Seq<u8>)
    ensures
        tbl_find(table, code) == -1 ==> forall|k: int|
            0 <= k < table.len() ==> table[k].code != code,
        tbl_find(table, code) >= 0 ==> 0 <= tbl_find(table, code) < table.len() && table[
            tbl_find(table, code)
        ].code == code && forall|k: int|
            0 <= k < tbl_find(table, code) ==> table[k].code != code,
    decreases table.len(),
{
    if table.len() > 0 && table[0].code != code {
        let tail = table.subrange(1, table.len() as int);
        lemma_tbl_find(tail, code);
        let r = tbl_find(tail, code);
        if r < 0 {
            assert forall|k: int| 0 <= k < table.len() implies table[k].code != code by {
                if k > 0 {
                    assert(tail[k - 1] == table[k]);
                }
            }
        } else {
            assert(tail[r] == table[r + 1]);
            assert forall|k: int| 0 <= k < r + 1 implies table[k].code != code by {
                if k > 0 {
                    assert(tail[k - 1] == table[k]);
                }
            }
        }
    }
}

/// The mode of the event processor.
#[verifier::ext_equal]
pub enum BModeV {
    /// Expecting a timestamp, a value change, or a control marker.
    Normal,
    /// A vector, real or string change was read; expecting its code.
    AwaitCode { val: ValueV },
    /// Skipping `$comment` text until `$end`.
    InComment,
}

/// The whole state of the event processor.
#[verifier::ext_equal]
pub struct BStateV {
    /// The most recently seen simulation time (0 before the first
    /// timestamp: the initial dump block reports values at time 0).
    pub time: u64,
    /// Whether a `#` timestamp has been seen yet.
    pub seen_time: bool,
    /// The last known value of each code, in first-seen order.
    pub table: Seq<CodeValueV>,
    /// The lines of unrecognized body commands, in order.
    pub diags: Seq<u64>,
    pub mode: BModeV,
}

/// What one step of the processor does.
#[verifier::ext_equal]
pub enum BStep {
    Cont(BStateV),
    Fail(VcdError),
}

/// The outcome of the body phase.
#[verifier::ext_equal]
pub enum BRun {
    Done(BStateV),
    Fail(VcdError),
}

/// The state before any body token has been read.
pub open spec fn b_init() -> BStateV {
    BStateV {
        time: 0,
        seen_time: false,
        table: Seq::empty(),
        diags: Seq::empty(),
        mode: BModeV::Normal,
    }
}

/// One step of the event processor on one token.
pub open spec fn b_step(vars: Seq<VarV>, st: BStateV, tok: TokenV) -> BStep {
    let t = tok.text;
    let line = tok.line as u64;
    match st.mode {
        BModeV::InComment => if t == kw_end() {
            BStep::Cont(BStateV { mode: BModeV::Normal, ..st })
        } else {
            BStep::Cont(st)
        },
        BModeV::AwaitCode { val } => if code_known(vars, t) {
            BStep::Cont(
                BStateV { table: tbl_update(st.table, t, val), mode: BModeV::Normal, ..st },
            )
        } else {
            BStep::Fail(VcdError::UnknownIdentifier { line })
        },
        BModeV::Normal => if t.len() == 0 {
            BStep::Cont(BStateV { diags: st.diags.push(line), ..st })
        } else if t[0] == 35 {
            match spec_u64(t.subrange(1, t.len() as int)) {
                Option::Some(n) => BStep::Cont(BStateV { time: n, seen_time: true, ..st }),
                Option::None => BStep::Fail(VcdError::MalformedCommand { line }),
            }
        } else if is_bit_char(t[0]) {
            if t.len() >= 2 {
                let code = t.subrange(1, t.len() as int);
                if code_known(vars, code) {
                    BStep::Cont(
                        BStateV {
                            table: tbl_update(st.table, code, ValueV::Scalar(bit_of(t[0]))),
                            ..st
                        },
                    )
                } else {
                    BStep::Fail(VcdError::UnknownIdentifier { line })
                }
            } else {
                BStep::Fail(VcdError::MalformedCommand { line })
            }
        } else if is_digit(t[0]) {
            // a scalar value change with a non-binary digit (2-9)
            BStep::Fail(VcdError::MalformedCommand { line })
        } else if t[0] == 98 || t[0] == 66 {
            let bits = t.subrange(1, t.len() as int);
            if bits.len() > 0 && all_bits(bits) {
                BStep::Cont(
                    BStateV { mode: BModeV::AwaitCode { val: ValueV::Vector(bits_of(bits)) }, ..st },
                )
            } else {
                BStep::Fail(VcdError::MalformedCommand { line })
            }
        } else if t[0] == 114 || t[0] == 82 {
            let lit = t.subrange(1, t.len() as int);
            if is_real_lit(lit) {
                BStep::Cont(BStateV { mode: BModeV::AwaitCode { val: ValueV::Real(lit) }, ..st })
            } else {
                BStep::Fail(VcdError::MalformedCommand { line })
            }
        } else if t[0] == 115 || t[0] == 83 {
            BStep::Cont(
                BStateV {
                    mode: BModeV::AwaitCode { val: ValueV::Text(t.subrange(1, t.len() as int)) },
                    ..st
                },
            )
        } else if t == kw_comment() {
            BStep::Cont(BStateV { mode: BModeV::InComment, ..st })
        } else if t == kw_dumpvars() || t == kw_dumpall() || t == kw_dumpon() || t == kw_dumpoff()
            || t == kw_end() {
            BStep::Cont(st)
        } else {
            BStep::Cont(BStateV { diags: st.diags.push(line), ..st })
        },
    }
}

/// Folds the event processor over the tokens from position `i` on.
/// Running out of input while a vector, real or string change still
/// awaits its code is a malformed command, reported at the last line;
/// any other end of stream is a normal termination.
pub open spec fn run_body(
    vars: Seq<VarV>,
    toks: Seq<TokenV>,
    i: int,
    st: BStateV,
    end_line: int,
) -> BRun
    decreases toks.len() - i,
{
    if i < 0 || i >= toks.len() {
        match st.mode {
            BModeV::AwaitCode { val } => BRun::Fail(
                VcdError::MalformedCommand { line: end_line as u64 },
            ),
            _ => BRun::Done(st),
        }
    } else {
        match b_step(vars, st, toks[i]) {
            BStep::Cont(st2) => run_body(vars, toks, i + 1, st2, end_line),
            BStep::Fail(e) => BRun::Fail(e),
        }
    }
}

/// A scalar value change whose identifier code was never declared
/// fails with `UnknownIdentifier` — never a silent skip.
pub proof fn lemma_unknown_scalar_code(vars: Seq<VarV>, st: BStateV, tok: TokenV)
    requires
        st.mode is Normal,
        tok.text.len() >= 2,
        is_bit_char(tok.text[0]),
        !code_known(vars, tok.text.subrange(1, tok.text.len() as int)),
    ensures
        b_step(vars, st, tok) == BStep::Fail(
            VcdError::UnknownIdentifier { line: tok.line as u64 },
        ),
{
}

/// The code token of a vector, real or string change that was never
/// declared fails with `UnknownIdentifier` — never a silent skip.
pub proof fn lemma_unknown_pending_code(vars: Seq<VarV>, st: BStateV, tok: TokenV)
    requires
        st.mode is AwaitCode,
        !code_known(vars, tok.text),
    ensures
        b_step(vars, st, tok) == BStep::Fail(
            VcdError::UnknownIdentifier { line: tok.line as u64 },
        ),
{
}

/// The value table never holds an undeclared code: if every code of
/// the starting table was declared, the same holds of the table of
/// every successful run — an undeclared change fails the pass rather
/// than being skipped or recorded.
pub proof fn lemma_table_codes_declared(
    vars: Seq<VarV>,
    toks: Seq<TokenV>,
    i: int,
    st: BStateV,
    end_line: int,
)
    requires
        forall|k: int| 0 <= k < st.table.len() ==> code_known(vars, #[trigger] st.table[k].code),
    ensures
        run_body(vars, toks, i, st, end_line) is Done ==> forall|k: int|
            0 <= k < run_body(vars, toks, i, st, end_line)->Done_0.table.len() ==> code_known(
                vars,
                #[trigger] run_body(vars, toks, i, st, end_line)->Done_0.table[k].code,
            ),
    decreases toks.len() - i,
{
    if 0 <= i < toks.len() {
        match b_step(vars, st, toks[i]) {
            BStep::Cont(st2) => {
                assert forall|k: int|
                    0 <= k < st2.table.len() implies code_known(
                    vars,
                    #[trigger] st2.table[k].code,
                ) by {
                    if st2.table != st.table {
                        lemma_step_table_update(vars, st, toks[i]);
                        let (c, v) = choose|c: Seq<u8>, v: ValueV|
                            b_step(vars, st, toks[i])->Cont_0.table == tbl_update(st.table, c, v)
                                && code_known(vars, c);
                        lemma_tbl_find(st.table, c);
                        let f = tbl_find(st.table, c);
                        if f < 0 {
                            if k < st.table.len() {
                                assert(st2.table[k] == st.table[k]);
                            } else {
                                assert(st2.table[k].code == c);
                            }
                        } else {
                            if k == f {
                                assert(st2.table[k].code == c);
                            } else {
                                assert(st2.table[k] == st.table[k]);
                            }
                        }
                    }
                }
                lemma_table_codes_declared(vars, toks, i + 1, st2, end_line);
            }
            BStep::Fail(e) => {
            }
        }
    }
}

/// Whenever one step changes the value table, it does so by
/// [`tbl_update`] with a declared code.
proof fn lemma_step_table_update(vars: Seq<VarV>, st: BStateV, tok: TokenV)
    ensures
        (b_step(vars, st, tok) is Cont && b_step(vars, st, tok)->Cont_0.table != st.table)
            ==> exists|c: Seq<u8>, v: ValueV|
            b_step(vars, st, tok)->Cont_0.table == tbl_update(st.table, c, v) && code_known(
                vars,
                c,
            ),
{
    if b_step(vars, st, tok) is Cont {
        let st2 = b_step(vars, st, tok)->Cont_0;
        if st2.table != st.table {
            match st.mode {
                BModeV::AwaitCode { val } => {
                    assert(st2.table == tbl_update(st.table, tok.text, val) && code_known(
                        vars,
                        tok.text,
                    ));
                    assert(exists|c: Seq<u8>, v: ValueV|
                        st2.table == tbl_update(st.table, c, v) && code_known(vars, c));
                }
                BModeV::Normal => {
                    let code = tok.text.subrange(1, tok.text.len() as int);
                    assert(st2.table == tbl_update(
                        st.table,
                        code,
                        ValueV::Scalar(bit_of(tok.text[0])),
                    ) && code_known(vars, code));
                    assert(exists|c: Seq<u8>, v: ValueV|
                        st2.table == tbl_update(st.table, c, v) && code_known(vars, c));
                }
                BModeV::InComment => {
                }
            }
        }
    }
}

/// What the body phase produced: the final simulation time, whether
/// any timestamp was seen at all, the value table, and the lines of
/// the unrecognized commands.
#[derive(Debug)]
pub struct Events {
    pub final_time: u64,
    pub saw_timestamp: bool,
    pub values: Vec<CodeValue>,
    pub diags: Vec<u64>,
}

/// The mode tag of the executable processor; the pending value lives
/// in a local of [`process_body`].
#[derive(Debug, Clone, Copy, PartialEq, Eq, Structural)]
enum BMode {
    Normal,
    AwaitCode,
    InComment,
}

/// The processor mode the executable locals stand for.
spec fn bmode_view(mode: BMode, pend: Value) -> BModeV {
    match mode {
        BMode::Normal => BModeV::Normal,
        BMode::AwaitCode => BModeV::AwaitCode { val: pend@ },
        BMode::InComment => BModeV::InComment,
    }
}

/// The processor state the executable locals stand for.
spec fn bst_of(
    time: u64,
    seen_time: bool,
    table: Seq<CodeValue>,
    diags: Seq<u64>,
    mode: BMode,
    pend: Value,
) -> BStateV {
    BStateV {
        time,
        seen_time,
        table: table.map_values(|c: CodeValue| c@),
        diags,
        mode: bmode_view(mode, pend),
    }
}

/// Copies the bytes of `t` from `start` on into a fresh byte string.
fn tail_of(t: &Vec<u8>, start: usize) -> (r: Vec<u8>)
    requires
        start <= t@.len(),
    ensures
        r@ == t@.subrange(start as int, t@.len() as int),
{
    let mut r: Vec<u8> = Vec::new();
    let mut j: usize = start;
    while j < t.len()
        invariant
            start <= j <= t@.len(),
            r@ =~= t@.subrange(start as int, j as int),
        decreases t@.len() - j,
    {
        r.push(t[j]);
        proof {
            assert(r@ =~= t@.subrange(start as int, j + 1));
        }
        j = j + 1;
    }
    proof {
        assert(r@ =~= t@.subrange(start as int, t@.len() as int));
    }
    r
}

/// Whether `code` was declared in the variable table.
fn is_known(vars: &Vec<Variable>, code: &Vec<u8>) -> (r: bool)
    ensures
        r == code_known(vars@.map_values(|v: Variable| v@), code@),
{
    let ghost vv = vars@.map_values(|v: Variable| v@);
    let mut j: usize = 0;
    while j < vars.len()
        invariant
            j <= vars@.len(),
            vv == vars@.map_values(|v: Variable| v@),
            forall|k: int| 0 <= k < j ==> vv[k].code != code@,
        decreases vars@.len() - j,
    {
        if bytes_eq(&vars[j].code, code) {
            proof {
                assert(vv[j as int].code == code@);
            }
            return true;
        }
        j = j + 1;
    }
    false
}

/// Sets the last known value of `code` in the table: in place if the
/// code already has an entry, appended otherwise.
fn update_table(table: &mut Vec<CodeValue>, code: Vec<u8>, val: Value)
    ensures
        final(table)@.map_values(|c: CodeValue| c@) == tbl_update(
            old(table)@.map_values(|c: CodeValue| c@),
            code@,
            val@,
        ),
{
    let ghost tv = old(table)@.map_values(|c: CodeValue| c@);
    proof {
        lemma_tbl_find(tv, code@);
    }
    let mut j: usize = 0;
    while j < table.len()
        invariant
            j <= table@.len(),
            table@ == old(table)@,
            tv == old(table)@.map_values(|c: CodeValue| c@),
            forall|k: int| 0 <= k < j ==> tv[k].code != code@,
        decreases table@.len() - j,
    {
        if bytes_eq(&table[j].code, &code) {
            proof {
                assert(tv[j as int].code == code@);
                lemma_tbl_find(tv, code@);
                assert(tbl_find(tv, code@) == j);
            }
            table.set(j, CodeValue { code, value: val });
            proof {
                assert(final(table)@.map_values(|c: CodeValue| c@) =~= tv.update(
                    j as int,
                    CodeValueV { code: code@, value: val@ },
                ));
            }
            return ;
        }
        j = j + 1;
    }
    proof {
        lemma_tbl_find(tv, code@);
        assert(tbl_find(tv, code@) == -1) by {
            if tbl_find(tv, code@) >= 0 {
                assert(tv[tbl_find(tv, code@)].code == code@);
            }
        }
    }
    table.push(CodeValue { code, value: val });
    proof {
        assert(final(table)@.map_values(|c: CodeValue| c@) =~= tv.push(
            CodeValueV { code: code@, value: val@ },
        ));
    }
}

/// Reads the scalar value character of a change token.
fn bit_from(b: u8) -> (r: Bit)
    ensures
        r == bit_of(b),
{
    if b == 48 {
        Bit::B0
    } else if b == 49 {
        Bit::B1
    } else if b == 120 || b == 88 {
        Bit::X
    } else {
        Bit::Z
    }
}

/// Reads the bits of a vector value literal `t[start..]`: the bit
/// string exactly when the literal is nonempty and every character is
/// a scalar value character.
fn bits_from(t: &Vec<u8>, start: usize) -> (r: Option<Vec<Bit>>)
    requires
        start <= t@.len(),
    ensures
        r is Some <==> (t@.subrange(start as int, t@.len() as int).len() > 0 && all_bits(
            t@.subrange(start as int, t@.len() as int),
        )),
        r is Some ==> r->0@ == bits_of(t@.subrange(start as int, t@.len() as int)),
{
    let ghost sub = t@.subrange(start as int, t@.len() as int);
    if start == t.len() {
        return Option::None;
    }
    let mut r: Vec<Bit> = Vec::new();
    let mut j: usize = start;
    while j < t.len()
        invariant
            start <= j <= t@.len(),
            sub == t@.subrange(start as int, t@.len() as int),
            forall|k: int| 0 <= k < j - start ==> is_bit_char(sub[k]),
            r@ =~= bits_of(sub.subrange(0, j - start)),
        decreases t@.len() - j,
    {
        let b = t[j];
        proof {
            assert(sub[j - start] == t@[j as int]);
        }
        if !(b == 48 || b == 49 || b == 120 || b == 88 || b == 122 || b == 90) {
            proof {
                assert(!all_bits(sub));
            }
            return Option::None;
        }
        r.push(bit_from(b));
        proof {
            assert(r@ =~= bits_of(sub.subrange(0, j + 1 - start)));
        }
        j = j + 1;
    }
    proof {
        assert(sub.subrange(0, sub.len() as int) =~= sub);
    }
    Option::Some(r)
}

/// Whether `t[start..]` is a decimal real literal.
fn is_real_from(t: &Vec<u8>, start: usize) -> (r: bool)
    requires
        start <= t@.len(),
    ensures
        r == is_real_lit(t@.subrange(start as int, t@.len() as int)),
{
    let ghost sub = t@.subrange(start as int, t@.len() as int);
    let mut j: usize = start;
    if j < t.len() && (t[j] == 43 || t[j] == 45) {
        proof {
            assert(sub[0] == t@[start as int]);
        }
        j = j + 1;
    }
    let b0 = j;
    let ghost body = t@.subrange(b0 as int, t@.len() as int);
    proof {
        if sub.len() > 0 && (sub[0] == 43 || sub[0] == 45) {
            assert(body =~= sub.subrange(1, sub.len() as int));
        } else {
            assert(body =~= sub);
        }
        assert(is_real_lit(sub) == real_body_ok(body));
        lemma_epos(body);
    }
    if b0 == t.len() {
        proof {
            assert(!mantissa_ok(body.subrange(0, epos(body))));
            assert(!real_body_ok(body));
        }
        return false;
    }
    let mut seen_dot = false;
    let mut seen_digit = false;
    while j < t.len() && t[j] != 101 && t[j] != 69
        invariant
            b0 <= j <= t@.len(),
            sub == t@.subrange(start as int, t@.len() as int),
            body == t@.subrange(b0 as int, t@.len() as int),
            is_real_lit(sub) == real_body_ok(body),
            body.len() > 0,
            forall|k: int| 0 <= k < j - b0 ==> (is_digit(body[k]) || body[k] == 46),
            forall|k: int, l: int|
                0 <= k < j - b0 && 0 <= l < j - b0 && body[k] == 46 && body[l] == 46 ==> k == l,
            seen_dot <==> exists|k: int| 0 <= k < j - b0 && body[k] == 46,
            seen_digit <==> exists|k: int| 0 <= k < j - b0 && is_digit(body[k]),
        decreases t@.len() - j,
    {
        let b = t[j];
        proof {
            assert(body[j - b0] == t@[j as int]);
            lemma_epos(body);
            if epos(body) <= j - b0 {
                assert(body[epos(body)] == 101 || body[epos(body)] == 69);
                assert(false);
            }
        }
        if b == 46 {
            if seen_dot {
                proof {
                    let m = body.subrange(0, epos(body));
                    let kw = choose|k: int| 0 <= k < j - b0 && body[k] == 46;
                    assert(m[kw] == body[kw]);
                    assert(m[j - b0] == body[j - b0]);
                    assert(!mantissa_ok(m));
                    assert(!real_body_ok(body));
                }
                return false;
            }
            seen_dot = true;
            proof {
                assert(body[j - b0] == 46);
            }
        } else if 48 <= b && b <= 57 {
            seen_digit = true;
            proof {
                assert(is_digit(body[j - b0]));
            }
        } else {
            proof {
                assert(!(is_digit(body[j - b0]) || body[j - b0] == 46));
                let m = body.subrange(0, epos(body));
                assert(m[j - b0] == body[j - b0]);
                assert(!mantissa_ok(m));
                assert(!real_body_ok(body));
            }
            return false;
        }
        j = j + 1;
    }
    proof {
        lemma_epos(body);
        if j < t.len() {
            assert(body[j - b0] == t@[j as int]);
        }
        if epos(body) < j - b0 {
            assert(body[epos(body)] == 101 || body[epos(body)] == 69);
            assert(false);
        }
        if epos(body) > j - b0 {
            assert(j - b0 < body.len());
            assert(body[j - b0] == 101 || body[j - b0] == 69);
            assert(false);
        }
        assert(epos(body) == j - b0);
    }
    if !seen_digit {
        proof {
            assert(!mantissa_ok(body.subrange(0, j - b0)));
            assert(!real_body_ok(body));
        }
        return false;
    }
    proof {
        let m = body.subrange(0, j - b0);
        assert forall|i: int| 0 <= i < m.len() implies (is_digit(m[i]) || m[i] == 46) by {
            assert(m[i] == body[i]);
        }
        assert forall|k: int, l: int|
            0 <= k < m.len() && 0 <= l < m.len() && m[k] == 46 && m[l] == 46 implies k == l by {
            assert(m[k] == body[k]);
            assert(m[l] == body[l]);
        }
        let kd = choose|k: int| 0 <= k < j - b0 && is_digit(body[k]);
        assert(m[kd] == body[kd]);
        assert(mantissa_ok(m));
    }
    if j == t.len() {
        proof {
            assert(real_body_ok(body));
        }
        return true;
    }
    let ghost ep = body.subrange(j - b0, body.len() as int);
    proof {
        assert(ep[0] == body[j - b0]);
    }
    let mut j2: usize = j + 1;
    if j2 < t.len() && (t[j2] == 43 || t[j2] == 45) {
        proof {
            assert(ep[1] == t@[j2 as int]);
        }
        j2 = j2 + 1;
    }
    let d0 = j2;
    let ghost dpart = t@.subrange(d0 as int, t@.len() as int);
    proof {
        if ep.len() >= 2 && (ep[1] == 43 || ep[1] == 45) {
            assert(dpart =~= ep.subrange(2, ep.len() as int));
        } else if ep.len() >= 2 {
            assert(ep[1] == t@[j + 1]);
            assert(dpart =~= ep.subrange(1, ep.len() as int));
        }
    }
    if d0 == t.len() {
        proof {
            assert(!exp_ok(ep));
            assert(!real_body_ok(body));
        }
        return false;
    }
    proof {
        assert(ep.len() >= 2);
        assert(dpart.len() > 0);
        assert(exp_ok(ep) == all_digits(dpart));
    }
    let mut j3: usize = d0;
    while j3 < t.len()
        invariant
            d0 <= j3 <= t@.len(),
            d0 <= t@.len(),
            sub == t@.subrange(start as int, t@.len() as int),
            body == t@.subrange(b0 as int, t@.len() as int),
            is_real_lit(sub) == real_body_ok(body),
            b0 <= j < t@.len(),
            epos(body) == j - b0,
            mantissa_ok(body.subrange(0, j - b0)),
            ep == body.subrange(j - b0, body.len() as int),
            dpart == t@.subrange(d0 as int, t@.len() as int),
            dpart.len() > 0,
            exp_ok(ep) == all_digits(dpart),
            forall|k: int| 0 <= k < j3 - d0 ==> is_digit(dpart[k]),
        decreases t@.len() - j3,
    {
        let b = t[j3];
        proof {
            assert(dpart[j3 - d0] == t@[j3 as int]);
        }
        if !(48 <= b && b <= 57) {
            proof {
                assert(!all_digits(dpart));
                assert(!real_body_ok(body));
            }
            return false;
        }
        j3 = j3 + 1;
    }
    proof {
        assert(all_digits(dpart));
        assert(exp_ok(ep));
        assert(real_body_ok(body));
    }
    true
}

/// Consumes the body tokens from `start` on and folds every value
/// change into the value table. The result is exactly what
/// [`run_body`] yields on the token views from the initial state.
pub fn process_body(vars: &Vec<Variable>, toks: &Vec<Token>, start: usize, end_line: u64) -> (r:
    Result<Events, VcdError>)
    requires
        start <= toks@.len(),
    ensures
        match r {
            Result::Ok(ev) => {
                let run = run_body(
                    vars@.map_values(|v: Variable| v@),
                    toks@.map_values(|t: Token| t@),
                    start as int,
                    b_init(),
                    end_line as int,
                );
                &&& run is Done
                &&& run->Done_0.time == ev.final_time
                &&& run->Done_0.seen_time == ev.saw_timestamp
                &&& run->Done_0.table == ev.values@.map_values(|c: CodeValue| c@)
                &&& run->Done_0.diags == ev.diags@
            },
            Result::Err(e) => run_body(
                vars@.map_values(|v: Variable| v@),
                toks@.map_values(|t: Token| t@),
                start as int,
                b_init(),
                end_line as int,
            ) == BRun::Fail(e),
        },
{
    let ghost vv = vars@.map_values(|v: Variable| v@);
    let ghost tvv = toks@.map_values(|t: Token| t@);
    let ghost el = end_line as int;
    let mut time: u64 = 0;
    let mut seen_time: bool = false;
    let mut table: Vec<CodeValue> = Vec::new();
    let mut diags: Vec<u64> = Vec::new();
    let mut mode: BMode = BMode::Normal;
    let mut pend: Value = Value::Scalar(Bit::B0);
    let mut i: usize = start;
    proof {
        assert(bst_of(time, seen_time, table@, diags@, mode, pend) =~= b_init());
    }
    while i < toks.len()
        invariant
            start <= i <= toks@.len(),
            vv == vars@.map_values(|v: Variable| v@),
            tvv == toks@.map_values(|t: Token| t@),
            el == end_line as int,
            run_body(vv, tvv, start as int, b_init(), el) == run_body(
                vv,
                tvv,
                i as int,
                bst_of(time, seen_time, table@, diags@, mode, pend),
                el,
            ),
        decreases toks@.len() - i,
    {
        let ghost st0 = bst_of(time, seen_time, table@, diags@, mode, pend);
        let ghost tokv = tvv[i as int];
        proof {
            assert(tokv == toks@[i as int]@);
            assert(run_body(vv, tvv, i as int, st0, el) == match b_step(vv, st0, tokv) {
                BStep::Cont(st2) => run_body(vv, tvv, i + 1, st2, el),
                BStep::Fail(e) => BRun::Fail(e),
            });
        }
        let line = toks[i].line;
        let tlen = toks[i].text.len();
        match mode {
            BMode::InComment => {
                if is_end_tok(&toks[i].text) {
                    mode = BMode::Normal;
                }
            }
            BMode::AwaitCode => {
                let code = tail_of(&toks[i].text, 0);
                proof {
                    assert(code@ =~= tokv.text);
                }
                if is_known(vars, &code) {
                    let val = pend;
                    pend = Value::Scalar(Bit::B0);
                    update_table(&mut table, code, val);
                    mode = BMode::Normal;
                } else {
                    return Result::Err(VcdError::UnknownIdentifier { line });
                }
            }
            BMode::Normal => {
                if tlen == 0 {
                    diags.push(line);
                } else {
                    let b0 = toks[i].text[0];
                    proof {
                        assert(tokv.text[0] == toks@[i as int].text@[0]);
                    }
                    if b0 == 35 {
                        match parse_u64_from(&toks[i].text, 1) {
                            Option::Some(n) => {
                                time = n;
                                seen_time = true;
                            }
                            Option::None => {
                                return Result::Err(VcdError::MalformedCommand { line });
                            }
                        }
                    } else if b0 == 48 || b0 == 49 || b0 == 120 || b0 == 88 || b0 == 122 || b0
                        == 90 {
                        if tlen >= 2 {
                            let code = tail_of(&toks[i].text, 1);
                            if is_known(vars, &code) {
                                update_table(&mut table, code, Value::Scalar(bit_from(b0)));
                            } else {
                                return Result::Err(VcdError::UnknownIdentifier { line });
                            }
                        } else {
                            return Result::Err(VcdError::MalformedCommand { line });
                        }
                    } else if 48 <= b0 && b0 <= 57 {
                        return Result::Err(VcdError::MalformedCommand { line });
                    } else if b0 == 98 || b0 == 66 {
                        match bits_from(&toks[i].text, 1) {
                            Option::Some(bits) => {
                                pend = Value::Vector(bits);
                                mode = BMode::AwaitCode;
                            }
                            Option::None => {
                                return Result::Err(VcdError::MalformedCommand { line });
                            }
                        }
                    } else if b0 == 114 || b0 == 82 {
                        if is_real_from(&toks[i].text, 1) {
                            pend = Value::Real(tail_of(&toks[i].text, 1));
                            mode = BMode::AwaitCode;
                        } else {
                            return Result::Err(VcdError::MalformedCommand { line });
                        }
                    } else if b0 == 115 || b0 == 83 {
                        pend = Value::Text(tail_of(&toks[i].text, 1));
                        mode = BMode::AwaitCode;
                    } else {
                        let is_comment = {
                            let kw: Vec<u8> = vec![
                                36u8, 99u8, 111u8, 109u8, 109u8, 101u8, 110u8, 116u8,
                            ];
                            proof {
                                assert(kw@ =~= kw_comment());
                            }
                            bytes_eq(&toks[i].text, &kw)
                        };
                        if is_comment {
                            mode = BMode::InComment;
                        } else {
                            let ignored = {
                                let k1: Vec<u8> = vec![
                                    36u8, 100u8, 117u8, 109u8, 112u8, 118u8, 97u8, 114u8, 115u8,
                                ];
                                let k2: Vec<u8> = vec![
                                    36u8, 100u8, 117u8, 109u8, 112u8, 97u8, 108u8, 108u8,
                                ];
                                let k3: Vec<u8> = vec![
                                    36u8, 100u8, 117u8, 109u8, 112u8, 111u8, 110u8,
                                ];
                                let k4: Vec<u8> = vec![
                                    36u8, 100u8, 117u8, 109u8, 112u8, 111u8, 102u8, 102u8,
                                ];
                                proof {
                                    assert(k1@ =~= kw_dumpvars());
                                    assert(k2@ =~= kw_dumpall());
                                    assert(k3@ =~= kw_dumpon());
                                    assert(k4@ =~= kw_dumpoff());
                                }
                                bytes_eq(&toks[i].text, &k1) || bytes_eq(&toks[i].text, &k2)
                                    || bytes_eq(&toks[i].text, &k3) || bytes_eq(
                                    &toks[i].text,
                                    &k4,
                                ) || is_end_tok(&toks[i].text)
                            };
                            if !ignored {
                                diags.push(line);
                            }
                        }
                    }
                }
            }
        }
        proof {
            let st1 = bst_of(time, seen_time, table@, diags@, mode, pend);
            assert(b_step(vv, st0, tokv) =~~= BStep::Cont(st1));
        }
        i = i + 1;
    }
    if matches!(mode, BMode::AwaitCode) {
        return Result::Err(VcdError::MalformedCommand { line: end_line });
    }
    Result::Ok(Events { final_time: time, saw_timestamp: seen_time, values: table, diags })
}

} // verus!
