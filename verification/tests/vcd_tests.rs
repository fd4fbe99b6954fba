use vcdreader::events::{Bit, Events, Value};
use vcdreader::model::{TimeUnit, VcdError};
use vcdreader::record::{VcdRecord, parse_vcd, parse_vcd_declarations};

fn bytes(s: &str) -> Vec<u8> {
    s.as_bytes().to_vec()
}

fn parse_full(s: &str) -> Result<(VcdRecord, Events), VcdError> {
    parse_vcd(bytes("test.vcd"), &bytes(s))
}

fn parse_decls(s: &str) -> Result<VcdRecord, VcdError> {
    parse_vcd_declarations(bytes("test.vcd"), &bytes(s))
}

fn lookup<'a>(ev: &'a Events, code: &str) -> Option<&'a Value> {
    for cv in ev.values.iter() {
        if cv.code == code.as_bytes().to_vec() {
            return Some(&cv.value);
        }
    }
    None
}

const TESTBENCH: &str = "$date today $end\n$version tool 1.0 $end\n$timescale 1 ns $end\n$scope module testbench $end\n$var wire 1 ! clk $end\n$var wire 1 \" reset $end\n$upscope $end\n$enddefinitions $end\n$dumpvars\n0!\n1\"\n$end\n#5\n1!\n0\"\n";

#[test]
fn test_vcdreader() {
    let (rec, ev) = parse_full(TESTBENCH).unwrap();
    assert_eq!(rec.filename, bytes("test.vcd"));
    assert_eq!(rec.date, Some(bytes("today")));
    assert_eq!(rec.version, Some(bytes("tool 1.0")));
    assert_eq!(rec.time_amount, Some(1));
    assert_eq!(rec.time_unit_exponent, Some(9));
    assert_eq!(rec.variable_names, vec![bytes("clk"), bytes("reset")]);
    assert_eq!(rec.variable_codes, vec![bytes("!"), bytes("\"")]);
    assert_eq!(ev.final_time, 5);
    assert!(ev.saw_timestamp);
}

#[test]
fn timescale_round_trip() {
    let rec = parse_decls("$timescale 10 ns $end $enddefinitions $end").unwrap();
    assert_eq!(rec.time_amount, Some(10));
    assert_eq!(rec.time_unit_exponent, Some(9));
}

#[test]
fn timescale_single_token() {
    let rec = parse_decls("$timescale 100us $end $enddefinitions $end").unwrap();
    assert_eq!(rec.time_amount, Some(100));
    assert_eq!(rec.time_unit_exponent, Some(6));
}

#[test]
fn exponent_codes() {
    assert_eq!(TimeUnit::S.exponent(), 1);
    assert_eq!(TimeUnit::MS.exponent(), 3);
    assert_eq!(TimeUnit::US.exponent(), 6);
    assert_eq!(TimeUnit::NS.exponent(), 9);
    assert_eq!(TimeUnit::PS.exponent(), 12);
    assert_eq!(TimeUnit::FS.exponent(), 15);
}

#[test]
fn empty_scope_tree() {
    let rec = parse_decls("$enddefinitions $end").unwrap();
    assert_eq!(rec.variable_names, Vec::<Vec<u8>>::new());
    assert_eq!(rec.variable_codes, Vec::<Vec<u8>>::new());
    assert_eq!(rec.date, None);
    assert_eq!(rec.version, None);
    assert_eq!(rec.time_amount, None);
    assert_eq!(rec.time_unit_exponent, None);
}

#[test]
fn unknown_identifier_code() {
    let r = parse_full("$enddefinitions $end\n#0\n0!\n");
    assert_eq!(r.unwrap_err(), VcdError::UnknownIdentifier { line: 3 });
}

#[test]
fn unbalanced_upscope() {
    let r = parse_decls("$upscope $end $enddefinitions $end");
    assert_eq!(r.unwrap_err(), VcdError::UnbalancedScope { line: 1 });
}

#[test]
fn scope_left_open() {
    let r = parse_decls("$scope module top $end\n$enddefinitions $end");
    assert_eq!(r.unwrap_err(), VcdError::UnbalancedScope { line: 2 });
}

#[test]
fn full_scenario() {
    let src = "$date today $end $version 1.0 $end $timescale 1 ns $end \
               $scope module top $end $var wire 1 ! clk $end $upscope $end \
               $enddefinitions $end #0 0! #10 1!";
    let (rec, ev) = parse_full(src).unwrap();
    assert_eq!(rec.date, Some(bytes("today")));
    assert_eq!(rec.version, Some(bytes("1.0")));
    assert_eq!(rec.time_amount, Some(1));
    assert_eq!(rec.time_unit_exponent, Some(9));
    assert_eq!(rec.variable_names, vec![bytes("clk")]);
    assert_eq!(rec.variable_codes, vec![bytes("!")]);
    assert_eq!(ev.final_time, 10);
    assert_eq!(lookup(&ev, "!"), Some(&Value::Scalar(Bit::B1)));
}

#[test]
fn missing_enddefinitions() {
    let src = "$date today $end\n$scope module top $end\n$var wire 1 ! clk $end\n$upscope $end\n";
    let r = parse_decls(src);
    assert_eq!(r.unwrap_err(), VcdError::MalformedHeader { line: 5 });
}

#[test]
fn invalid_timescale_magnitude() {
    let r = parse_decls("$timescale 7 ns $end $enddefinitions $end");
    assert_eq!(r.unwrap_err(), VcdError::InvalidTimescale { line: 1 });
}

#[test]
fn invalid_timescale_unit() {
    let r = parse_decls("$timescale 10 xs $end $enddefinitions $end");
    assert_eq!(r.unwrap_err(), VcdError::InvalidTimescale { line: 1 });
}

#[test]
fn repeated_date_last_wins() {
    let rec = parse_decls("$date one $end $date two three $end $enddefinitions $end").unwrap();
    assert_eq!(rec.date, Some(bytes("two three")));
}

#[test]
fn header_comment_ignored() {
    let rec = parse_decls("$comment anything at all $end $enddefinitions $end").unwrap();
    assert_eq!(rec.variable_names, Vec::<Vec<u8>>::new());
    assert_eq!(rec.date, None);
}

#[test]
fn nested_scopes_preorder() {
    let src = "$scope module top $end \
               $var wire 1 ! a $end \
               $scope module inner $end $var wire 8 # b $end $upscope $end \
               $var wire 1 $ c $end \
               $upscope $end $enddefinitions $end";
    let rec = parse_decls(src).unwrap();
    assert_eq!(rec.variable_names, vec![bytes("a"), bytes("b"), bytes("c")]);
    assert_eq!(rec.variable_codes, vec![bytes("!"), bytes("#"), bytes("$")]);
}

#[test]
fn dump_markers_ignored() {
    let src = "$var wire 1 ! clk $end $enddefinitions $end $dumpvars 0! $end #1 $dumpoff 1! $end";
    let (_, ev) = parse_full(src).unwrap();
    assert_eq!(ev.diags, Vec::<u64>::new());
    assert_eq!(lookup(&ev, "!"), Some(&Value::Scalar(Bit::B1)));
}

#[test]
fn unexpected_body_token_reported() {
    let src = "$enddefinitions $end\n#0\n$dumpports\n#5\n";
    let (_, ev) = parse_full(src).unwrap();
    assert_eq!(ev.diags, vec![3u64]);
    assert_eq!(ev.final_time, 5);
}

#[test]
fn vector_real_string_values() {
    let src = "$var wire 4 ! bus $end $var real 64 # temp $end $var string 1 $ msg $end \
               $enddefinitions $end #0 b10xz ! r1.25 # shello $";
    let (_, ev) = parse_full(src).unwrap();
    assert_eq!(
        lookup(&ev, "!"),
        Some(&Value::Vector(vec![Bit::B1, Bit::B0, Bit::X, Bit::Z]))
    );
    assert_eq!(lookup(&ev, "#"), Some(&Value::Real(bytes("1.25"))));
    assert_eq!(lookup(&ev, "$"), Some(&Value::Text(bytes("hello"))));
}

#[test]
fn last_value_wins() {
    let src = "$var wire 1 ! clk $end $enddefinitions $end #0 0! #1 1! #2 0!";
    let (_, ev) = parse_full(src).unwrap();
    assert_eq!(ev.values.len(), 1);
    assert_eq!(lookup(&ev, "!"), Some(&Value::Scalar(Bit::B0)));
    assert_eq!(ev.final_time, 2);
}

#[test]
fn malformed_vector_literal() {
    let src = "$var wire 2 ! bus $end $enddefinitions $end\n#0\nb12 !\n";
    let r = parse_full(src);
    assert_eq!(r.unwrap_err(), VcdError::MalformedCommand { line: 3 });
}

#[test]
fn malformed_real_literal() {
    let src = "$var real 64 ! t $end $enddefinitions $end\n#0\nr1.2.3 !\n";
    let r = parse_full(src);
    assert_eq!(r.unwrap_err(), VcdError::MalformedCommand { line: 3 });
}

#[test]
fn malformed_timestamp() {
    let src = "$enddefinitions $end\n#12a\n";
    let r = parse_full(src);
    assert_eq!(r.unwrap_err(), VcdError::MalformedCommand { line: 2 });
}

#[test]
fn scalar_without_code() {
    let src = "$enddefinitions $end\n#0\n1\n";
    let r = parse_full(src);
    assert_eq!(r.unwrap_err(), VcdError::MalformedCommand { line: 3 });
}

#[test]
fn dangling_vector_code() {
    let src = "$var wire 2 ! bus $end $enddefinitions $end\n#0\nb10\n";
    let r = parse_full(src);
    assert_eq!(r.unwrap_err(), VcdError::MalformedCommand { line: 4 });
}

#[test]
fn truncated_var_declaration() {
    let src = "$var wire 1 ! $end $enddefinitions $end";
    let r = parse_decls(src);
    assert_eq!(r.unwrap_err(), VcdError::MalformedHeader { line: 1 });
}

#[test]
fn var_width_not_numeric() {
    let src = "$var wire w ! clk $end $enddefinitions $end";
    let r = parse_decls(src);
    assert_eq!(r.unwrap_err(), VcdError::MalformedHeader { line: 1 });
}

#[test]
fn var_with_index() {
    let src = "$scope module m $end $var wire 4 ! bus [3:0] $end $upscope $end \
               $enddefinitions $end";
    let rec = parse_decls(src).unwrap();
    assert_eq!(rec.variable_names, vec![bytes("bus")]);
    assert_eq!(rec.variable_codes, vec![bytes("!")]);
}

#[test]
fn stray_token_in_header() {
    let src = "wibble $enddefinitions $end";
    let r = parse_decls(src);
    assert_eq!(r.unwrap_err(), VcdError::MalformedHeader { line: 1 });
}

#[test]
fn declaration_only_matches_full() {
    let (rec_full, _) = parse_full(TESTBENCH).unwrap();
    let rec_decl = parse_decls(TESTBENCH).unwrap();
    assert_eq!(rec_full.variable_names, rec_decl.variable_names);
    assert_eq!(rec_full.variable_codes, rec_decl.variable_codes);
    assert_eq!(rec_full.date, rec_decl.date);
    assert_eq!(rec_full.version, rec_decl.version);
    assert_eq!(rec_full.time_amount, rec_decl.time_amount);
    assert_eq!(rec_full.time_unit_exponent, rec_decl.time_unit_exponent);
}

#[test]
fn parse_twice_identical() {
    let (rec1, ev1) = parse_full(TESTBENCH).unwrap();
    let (rec2, ev2) = parse_full(TESTBENCH).unwrap();
    assert_eq!(rec1.variable_names, rec2.variable_names);
    assert_eq!(rec1.variable_codes, rec2.variable_codes);
    assert_eq!(rec1.date, rec2.date);
    assert_eq!(rec1.version, rec2.version);
    assert_eq!(ev1.final_time, ev2.final_time);
    assert_eq!(ev1.values, ev2.values);
}

#[test]
fn initial_dump_before_timestamp() {
    let src = "$var wire 1 ! clk $end $enddefinitions $end 1!";
    let (_, ev) = parse_full(src).unwrap();
    assert!(!ev.saw_timestamp);
    assert_eq!(ev.final_time, 0);
    assert_eq!(lookup(&ev, "!"), Some(&Value::Scalar(Bit::B1)));
}

#[test]
fn wide_timestamp_value() {
    let src = "$enddefinitions $end #18446744073709551615";
    let (_, ev) = parse_full(src).unwrap();
    assert_eq!(ev.final_time, 18446744073709551615u64);
}

#[test]
fn overflowing_timestamp_rejected() {
    let src = "$enddefinitions $end\n#18446744073709551616\n";
    let r = parse_full(src);
    assert_eq!(r.unwrap_err(), VcdError::MalformedCommand { line: 2 });
}

#[test]
fn tabs_and_crlf_separate_tokens() {
    let src = "$date\ttoday\t$end\r\n$enddefinitions\t$end\r\n";
    let rec = parse_decls(src).unwrap();
    assert_eq!(rec.date, Some(bytes("today")));
}

#[test]
fn empty_timescale_rejected() {
    let r = parse_decls("$timescale $end $enddefinitions $end");
    assert_eq!(r.unwrap_err(), VcdError::InvalidTimescale { line: 1 });
}

#[test]
fn var_with_too_many_tokens() {
    let src = "$var wire 1 ! clk [0] extra $end $enddefinitions $end";
    let r = parse_decls(src);
    assert_eq!(r.unwrap_err(), VcdError::MalformedHeader { line: 1 });
}

#[test]
fn empty_string_value() {
    let src = "$var string 1 ! msg $end $enddefinitions $end #0 s !";
    let (_, ev) = parse_full(src).unwrap();
    assert_eq!(lookup(&ev, "!"), Some(&Value::Text(bytes(""))));
}

#[test]
fn body_comment_skipped() {
    let src = "$var wire 1 ! clk $end $enddefinitions $end \
               #0 $comment 0! is not applied here $end 1!";
    let (_, ev) = parse_full(src).unwrap();
    assert_eq!(ev.diags, Vec::<u64>::new());
    assert_eq!(lookup(&ev, "!"), Some(&Value::Scalar(Bit::B1)));
}

#[test]
fn uppercase_scalar_values() {
    let src = "$var wire 1 ! a $end $var wire 1 # b $end $enddefinitions $end #0 X! Z#";
    let (_, ev) = parse_full(src).unwrap();
    assert_eq!(lookup(&ev, "!"), Some(&Value::Scalar(Bit::X)));
    assert_eq!(lookup(&ev, "#"), Some(&Value::Scalar(Bit::Z)));
}

#[test]
fn scalar_non_binary_digit_rejected() {
    let src = "$var wire 1 ! c $end $enddefinitions $end\n#0\n2!\n";
    let r = parse_full(src);
    assert_eq!(r.unwrap_err(), VcdError::MalformedCommand { line: 3 });
}

#[test]
fn real_exponent_notation_accepted() {
    let src = "$var real 64 ! t $end $var real 64 # u $end $enddefinitions $end \
               #0 r1e-5 ! r3.04E12 #";
    let (_, ev) = parse_full(src).unwrap();
    assert_eq!(lookup(&ev, "!"), Some(&Value::Real(bytes("1e-5"))));
    assert_eq!(lookup(&ev, "#"), Some(&Value::Real(bytes("3.04E12"))));
}

#[test]
fn real_signed_mantissa_accepted() {
    let src = "$var real 64 ! t $end $enddefinitions $end #0 r+0.5 ! r-2e+3 !";
    let (_, ev) = parse_full(src).unwrap();
    assert_eq!(lookup(&ev, "!"), Some(&Value::Real(bytes("-2e+3"))));
}

#[test]
fn real_exponent_without_digits_rejected() {
    let src = "$var real 64 ! t $end $enddefinitions $end\n#0\nr1e !\n";
    let r = parse_full(src);
    assert_eq!(r.unwrap_err(), VcdError::MalformedCommand { line: 3 });
}

#[test]
fn real_exponent_dangling_sign_rejected() {
    let src = "$var real 64 ! t $end $enddefinitions $end\n#0\nr1e+ !\n";
    let r = parse_full(src);
    assert_eq!(r.unwrap_err(), VcdError::MalformedCommand { line: 3 });
}

#[test]
fn real_exponent_without_mantissa_rejected() {
    let src = "$var real 64 ! t $end $enddefinitions $end\n#0\nre5 !\n";
    let r = parse_full(src);
    assert_eq!(r.unwrap_err(), VcdError::MalformedCommand { line: 3 });
}

#[test]
fn real_dot_in_exponent_rejected() {
    let src = "$var real 64 ! t $end $enddefinitions $end\n#0\nr1.2e3.4 !\n";
    let r = parse_full(src);
    assert_eq!(r.unwrap_err(), VcdError::MalformedCommand { line: 3 });
}
