//! Result assembler: runs the whole pipeline — lexer, header builder,
//! flattener, event processor — and packs the outcome into one
//! structured record.
//!
//! Two modes are offered, as the design leaves the depth of the pass
//! to the caller: [`parse_vcd_declarations`] stops once the header is
//! flattened and returns only metadata and the variable table;
//! [`parse_vcd`] consumes the whole value-change stream as well and
//! additionally returns the final time, the last known values and the
//! diagnostics list.
//!
//! Both functions are proved to return exactly the result of one spec
//! function of the input bytes ([`spec_record`], [`spec_parse`]), so a
//! parse is deterministic: the same bytes always yield the same
//! record, the same errors, and the same variable order.

use vstd::prelude::*;
use crate::model::{Header, HeaderV, TimeUnit, VarV, VcdError, Variable};
use crate::lex::{Token, spec_end_line, spec_tokens, tokenize};
use crate::header::{HRun, build_header, h_init, kw_enddefinitions, lemma_no_enddefinitions_fails, run_header};
use crate::flatten::{flatten, spec_flatten};
use crate::events::{BRun, CodeValueV, Events, b_init, code_known, lemma_table_codes_declared, process_body, run_body};

verus! {

/// The structured record handed to the caller: file name, header
/// metadata, and the positionally aligned variable name and code
/// columns.
#[derive(Debug)]
pub struct VcdRecord {
    pub filename: Vec<u8>,
    pub date: Option<Vec<u8>>,
    pub version: Option<Vec<u8>>,
    pub time_amount: Option<u64>,
    /// The base-10 negative-exponent code of the timescale unit:
    /// 1, 3, 6, 9, 12 or 15 for s, ms, us, ns, ps, fs.
    pub time_unit_exponent: Option<u64>,
    pub variable_names: Vec<Vec<u8>>,
    pub variable_codes: Vec<Vec<u8>>,
}

/// The mathematical value of a [`VcdRecord`].
#[verifier::ext_equal]
pub struct RecordV {
    pub filename: Seq<u8>,
    pub date: Option<Seq<u8>>,
    pub version: Option<Seq<u8>>,
    pub time_amount: Option<u64>,
    pub time_unit_exponent: Option<u64>,
    pub variable_names: Seq<Seq<u8>>,
    pub variable_codes: Seq<Seq<u8>>,
}

impl View for VcdRecord {
    type V = RecordV;

    open spec fn view(&self) -> RecordV {
        RecordV {
            filename: self.filename@,
            date: match self.date {
                Option::Some(d) => Option::Some(d@),
                Option::None => Option::None,
            },
            version: match self.version {
                Option::Some(v) => Option::Some(v@),
                Option::None => Option::None,
            },
            time_amount: self.time_amount,
            time_unit_exponent: self.time_unit_exponent,
            variable_names: self.variable_names@.map_values(|v: Vec<u8>| v@),
            variable_codes: self.variable_codes@.map_values(|v: Vec<u8>| v@),
        }
    }
}

/// The mathematical value of an [`Events`].
#[verifier::ext_equal]
pub struct EventsV {
    pub final_time: u64,
    pub saw_timestamp: bool,
    pub values: Seq<CodeValueV>,
    pub diags: Seq<u64>,
}

impl View for Events {
    type V = EventsV;

    open spec fn view(&self) -> EventsV {
        EventsV {
            final_time: self.final_time,
            saw_timestamp: self.saw_timestamp,
            values: self.values@.map_values(|c: crate::events::CodeValue| c@),
            diags: self.diags@,
        }
    }
}

/// The record a parsed header and a flat variable table assemble to.
pub open spec fn record_of(filename: Seq<u8>, h: HeaderV, vars: Seq<VarV>) -> RecordV {
    RecordV {
        filename,
        date: h.date,
        version: h.version,
        time_amount: match h.timescale {
            Option::Some(ts) => Option::Some(ts.0),
            Option::None => Option::None,
        },
        time_unit_exponent: match h.timescale {
            Option::Some(ts) => Option::Some(ts.1.spec_exponent()),
            Option::None => Option::None,
        },
        variable_names: vars.map_values(|v: VarV| v.reference),
        variable_codes: vars.map_values(|v: VarV| v.code),
    }
}

/// What a declaration-only parse of the input bytes yields.
pub open spec fn spec_record(filename: Seq<u8>, s: Seq<u8>) -> Result<RecordV, VcdError> {
    match run_header(spec_tokens(s), 0, h_init(), spec_end_line(s)) {
        HRun::Complete(out) => Result::Ok(
            record_of(filename, out.header, spec_flatten(out.root)),
        ),
        HRun::Fail(e) => Result::Err(e),
    }
}

/// What a full parse of the input bytes yields: the record together
/// with the outcome of the event stream.
pub open spec fn spec_parse(filename: Seq<u8>, s: Seq<u8>) -> Result<
    (RecordV, EventsV),
    VcdError,
> {
    match run_header(spec_tokens(s), 0, h_init(), spec_end_line(s)) {
        HRun::Fail(e) => Result::Err(e),
        HRun::Complete(out) => match run_body(
            spec_flatten(out.root),
            spec_tokens(s),
            out.body_start,
            b_init(),
            spec_end_line(s),
        ) {
            BRun::Fail(e) => Result::Err(e),
            BRun::Done(st) => Result::Ok(
                (
                    record_of(filename, out.header, spec_flatten(out.root)),
                    EventsV {
                        final_time: st.time,
                        saw_timestamp: st.seen_time,
                        values: st.table,
                        diags: st.diags,
                    },
                ),
            ),
        },
    }
}

/// Packs the header and the flat variable table into the record.
fn assemble(filename: Vec<u8>, h: Header, vars: &Vec<Variable>) -> (r: VcdRecord)
    ensures
        r@ == record_of(filename@, h@, vars@.map_values(|v: Variable| v@)),
{
    let ghost vv = vars@.map_values(|v: Variable| v@);
    let mut names: Vec<Vec<u8>> = Vec::new();
    let mut codes: Vec<Vec<u8>> = Vec::new();
    let mut i: usize = 0;
    while i < vars.len()
        invariant
            i <= vars@.len(),
            vv == vars@.map_values(|v: Variable| v@),
            names@.len() == i,
            codes@.len() == i,
            forall|k: int| 0 <= k < i ==> names@[k]@ == vv[k].reference,
            forall|k: int| 0 <= k < i ==> codes@[k]@ == vv[k].code,
        decreases vars@.len() - i,
    {
        names.push(vars[i].reference.clone());
        codes.push(vars[i].code.clone());
        i = i + 1;
    }
    let (time_amount, time_unit_exponent): (Option<u64>, Option<u64>) = match h.timescale {
        Option::Some((m, u)) => (Option::Some(m), Option::Some(u.exponent())),
        Option::None => (Option::None, Option::None),
    };
    let r = VcdRecord {
        filename,
        date: h.date,
        version: h.version,
        time_amount,
        time_unit_exponent,
        variable_names: names,
        variable_codes: codes,
    };
    proof {
        assert(r@.variable_names =~= vv.map_values(|v: VarV| v.reference));
        assert(r@.variable_codes =~= vv.map_values(|v: VarV| v.code));
        assert(r@ =~= record_of(filename@, h@, vv));
    }
    r
}

/// Parses only the declarations of a VCD input: lexes it, builds the
/// header and the scope tree, flattens the tree, and returns the
/// record — without entering the value-change stream. The result is
/// exactly [`spec_record`] of the input.
pub fn parse_vcd_declarations(filename: Vec<u8>, input: &Vec<u8>) -> (r: Result<
    VcdRecord,
    VcdError,
>)
    requires
        input@.len() < u64::MAX,
    ensures
        match r {
            Result::Ok(rec) => spec_record(filename@, input@) == Result::<
                RecordV,
                VcdError,
            >::Ok(rec@),
            Result::Err(e) => spec_record(filename@, input@) == Result::<
                RecordV,
                VcdError,
            >::Err(e),
        },
{
    let (toks, end_line) = tokenize(input);
    match build_header(&toks, end_line) {
        Result::Err(e) => Result::Err(e),
        Result::Ok((h, root, _body_start)) => {
            let ghost rootv = root.deep();
            let vars = flatten(root);
            let rec = assemble(filename, h, &vars);
            Result::Ok(rec)
        }
    }
}

/// Parses a VCD input in full: the declarations as in
/// [`parse_vcd_declarations`], then the whole value-change stream,
/// returning the record together with the final simulation time, the
/// last known value of every code, and the diagnostics list. The
/// result is exactly [`spec_parse`] of the input.
pub fn parse_vcd(filename: Vec<u8>, input: &Vec<u8>) -> (r: Result<
    (VcdRecord, Events),
    VcdError,
>)
    requires
        input@.len() < u64::MAX,
    ensures
        match r {
            Result::Ok(out) => spec_parse(filename@, input@) == Result::<
                (RecordV, EventsV),
                VcdError,
            >::Ok((out.0@, out.1@)),
            Result::Err(e) => spec_parse(filename@, input@) == Result::<
                (RecordV, EventsV),
                VcdError,
            >::Err(e),
        },
{
    let (toks, end_line) = tokenize(input);
    match build_header(&toks, end_line) {
        Result::Err(e) => Result::Err(e),
        Result::Ok((h, root, body_start)) => {
            let ghost rootv = root.deep();
            let vars = flatten(root);
            match process_body(&vars, &toks, body_start, end_line) {
                Result::Err(e) => Result::Err(e),
                Result::Ok(ev) => {
                    let rec = assemble(filename, h, &vars);
                    proof {
                        assert(ev@ =~= spec_parse(filename@, input@)->Ok_0.1);
                    }
                    Result::Ok((rec, ev))
                }
            }
        }
    }
}

/// The name and code columns of a record are positionally aligned:
/// for every input whose declarations parse, they have the same
/// length, and at every position both come from the same variable of
/// the one pre-order traversal of the scope tree.
pub proof fn lemma_names_codes_aligned(filename: Seq<u8>, s: Seq<u8>)
    ensures
        spec_record(filename, s) is Ok ==> spec_record(
            filename,
            s,
        )->Ok_0.variable_names.len() == spec_record(filename, s)->Ok_0.variable_codes.len(),
        spec_record(filename, s) is Ok ==> {
            let vars = spec_flatten(
                run_header(spec_tokens(s), 0, h_init(), spec_end_line(s))->Complete_0.root,
            );
            let rec = spec_record(filename, s)->Ok_0;
            &&& rec.variable_names.len() == vars.len()
            &&& forall|i: int|
                0 <= i < vars.len() ==> rec.variable_names[i] == vars[i].reference
                    && rec.variable_codes[i] == vars[i].code
        },
{
}

/// A parse is a function of the input bytes alone: two full parses of
/// the same bytes yield the same outcome — the same record, the same
/// value table, the same variable order, or the same error.
pub proof fn lemma_parse_deterministic(
    filename: Seq<u8>,
    s: Seq<u8>,
    r1: Result<(RecordV, EventsV), VcdError>,
    r2: Result<(RecordV, EventsV), VcdError>,
)
    requires
        r1 == spec_parse(filename, s),
        r2 == spec_parse(filename, s),
    ensures
        r1 == r2,
{
}

/// A header missing `$enddefinitions $end` fails — never a silently
/// truncated record: when no token of the input is `$enddefinitions`,
/// both parse modes return an error.
pub proof fn lemma_missing_enddefinitions(filename: Seq<u8>, s: Seq<u8>)
    requires
        forall|j: int|
            0 <= j < spec_tokens(s).len() ==> spec_tokens(s)[j].text != kw_enddefinitions(),
    ensures
        spec_record(filename, s) is Err,
        spec_parse(filename, s) is Err,
{
    lemma_no_enddefinitions_fails(spec_tokens(s), 0, h_init(), spec_end_line(s));
}

/// A full parse never records an undeclared code: every code in the
/// returned value table was declared by some `$var` of the header —
/// an undeclared change fails the parse rather than being skipped.
pub proof fn lemma_values_codes_declared(filename: Seq<u8>, s: Seq<u8>)
    ensures
        spec_parse(filename, s) is Ok ==> {
            let out = run_header(spec_tokens(s), 0, h_init(), spec_end_line(s))->Complete_0;
            let vars = spec_flatten(out.root);
            let values = spec_parse(filename, s)->Ok_0.1.values;
            forall|k: int| 0 <= k < values.len() ==> code_known(vars, #[trigger] values[k].code)
        },
{
    if spec_parse(filename, s) is Ok {
        let out = run_header(spec_tokens(s), 0, h_init(), spec_end_line(s))->Complete_0;
        lemma_table_codes_declared(
            spec_flatten(out.root),
            spec_tokens(s),
            out.body_start,
            b_init(),
            spec_end_line(s),
        );
    }
}

/// A declaration-only parse is deterministic in the same way: the
/// header metadata and the variable ordering depend on the input
/// bytes alone.
pub proof fn lemma_record_deterministic(
    filename: Seq<u8>,
    s: Seq<u8>,
    r1: Result<RecordV, VcdError>,
    r2: Result<RecordV, VcdError>,
)
    requires
        r1 == spec_record(filename, s),
        r2 == spec_record(filename, s),
    ensures
        r1 == r2,
{
}

} // verus!
