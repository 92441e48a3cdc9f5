use spirv_tools_rs::codec::{decode, encode, TypeTable};
use spirv_tools_rs::module::{decode_module, encode_module, parse_header};
use spirv_tools_rs::{
    Context, DisassembleOptions, ErrorKind, Instruction, Module, NumType, Operand, TargetEnv,
    ValidatorLimit, ValidatorOptions,
};

fn tokens(s: &str) -> Vec<String> {
    s.split_whitespace().map(|t| t.to_string()).collect()
}

#[test]
fn instruction_round_trip() {
    // a name annotation: identifier plus string operand
    let i = Instruction {
        opcode: 5,
        result_type_id: None,
        result_id: None,
        operands: vec![
            Operand::Id(7),
            Operand::LiteralString(String::from("entry point")),
        ],
    };
    let words = encode(&i);
    let tbl = TypeTable::new();
    let back = decode(&words, &tbl, true).unwrap();
    assert!(back == i);
}

#[test]
fn typed_literal_round_trip() {
    // a 64-bit constant needs its type in the table to decode
    let mut tbl = TypeTable::new();
    let ty = Instruction {
        opcode: 21,
        result_type_id: None,
        result_id: Some(1),
        operands: vec![
            Operand::LiteralInt { value: 64, width: 32, signed: false },
            Operand::LiteralInt { value: 1, width: 32, signed: false },
        ],
    };
    spirv_tools_rs::module::register_type_exec(&ty, &mut tbl);
    let c = Instruction {
        opcode: 43,
        result_type_id: Some(1),
        result_id: Some(2),
        operands: vec![Operand::LiteralInt { value: 0xDEAD_BEEF_0BAD_F00D, width: 64, signed: true }],
    };
    let words = encode(&c);
    assert_eq!(words.len(), 5);
    let back = decode(&words, &tbl, true).unwrap();
    assert!(back == c);
}

#[test]
fn header_rejection() {
    // a four-word buffer fails with a malformed header and never panics
    let four = [0x07230203u32, 0x00010000, 0, 63];
    assert!(matches!(parse_header(&four), Err(ErrorKind::MalformedHeader)));
    let ctx = Context::new(TargetEnv::Universal1_0);
    let d = ctx.validate(&four).unwrap_err();
    assert_eq!(d.kind, ErrorKind::MalformedHeader);
    let d2 = ctx.disassemble(&four).unwrap_err();
    assert_eq!(d2.kind, ErrorKind::MalformedHeader);
    // a wrong magic word fails the same way
    let bad_magic = [0xDEADBEEFu32, 0x00010000, 0, 63, 0];
    assert!(matches!(parse_header(&bad_magic), Err(ErrorKind::MalformedHeader)));
    // a nonzero reserved schema word fails the same way
    let bad_schema = [0x07230203u32, 0x00010000, 0, 63, 1];
    assert!(matches!(parse_header(&bad_schema), Err(ErrorKind::MalformedHeader)));
    // the exact five-word header parses
    let ok = [0x07230203u32, 0x00010000, 8, 63, 0];
    let h = parse_header(&ok).unwrap();
    assert_eq!(h.version, 0x00010000);
    assert_eq!(h.generator, 8);
    assert_eq!(h.id_bound, 63);
}

#[test]
fn unknown_opcode_strict_and_permissive() {
    // one instruction of three words carrying opcode 0xFFFF
    let module = [0x07230203u32, 0x00010000, 0, 4, 0, (3 << 16) | 0xFFFF, 7, 9];
    let strict = Context::new(TargetEnv::Universal1_0);
    let d = strict.disassemble(&module).unwrap_err();
    assert_eq!(d.kind, ErrorKind::UnknownOpcode);
    assert_eq!(d.position.word_index, 5);

    // permissive mode round-trips the raw words unchanged
    let permissive = Context::new(TargetEnv::Universal1_0).permissive_opcodes();
    let m = decode_module(&module, false).unwrap();
    let back = encode_module(&m);
    assert_eq!(back.as_slice(), &module);
    // and the text form survives reassembly
    let text = permissive.disassemble(&module).unwrap();
    assert!(text.contains("OpUnknown 65535 7 9"));
    let again = permissive.assemble(&text).unwrap();
    // the instruction words survive unchanged; the reassembled identifier
    // bound is the smallest one, since raw words are not identifiers
    assert_eq!(&again[5..], &module[5..]);
    assert_eq!(again[3], 1);
}

const FORWARD_CALL: &str = "%1 = OpTypeVoid\n\
%2 = OpTypeFunction %1\n\
%3 = OpFunction %1 None %2\n\
%4 = OpLabel\n\
%5 = OpFunctionCall %1 %6\n\
OpReturn\n\
OpFunctionEnd\n\
%6 = OpFunction %1 None %2\n\
%7 = OpLabel\n\
OpReturn\n\
OpFunctionEnd\n";

#[test]
fn forward_function_call_validates() {
    // a call to a function defined later in the module is a permitted
    // forward reference
    let ctx = Context::new(TargetEnv::Universal1_0);
    let bin = ctx.assemble(FORWARD_CALL).unwrap();
    assert!(ctx.validate(&bin).is_ok());
}

const FORWARD_LOAD: &str = "%1 = OpTypeVoid\n\
%2 = OpTypeFunction %1\n\
%3 = OpTypeInt 32 0\n\
%4 = OpTypePointer Function %3\n\
%5 = OpFunction %1 None %2\n\
%6 = OpLabel\n\
%7 = OpLoad %3 %8\n\
%8 = OpVariable %4 Function\n\
OpReturn\n\
OpFunctionEnd\n";

#[test]
fn forward_load_is_rejected() {
    // a load of a variable defined later in the same block is an undefined
    // use: loads get no forward permission
    let ctx = Context::new(TargetEnv::Universal1_0);
    let bin = ctx.assemble(FORWARD_LOAD).unwrap();
    let d = ctx.validate(&bin).unwrap_err();
    assert_eq!(d.kind, ErrorKind::UndefinedIdUse);
}

const END_TO_END: &str = "%1 = OpTypeVoid\n%2 = OpTypeFunction %1\n%3 = OpFunction %1 None %2\nOpFunctionEnd";

#[test]
fn end_to_end() {
    // assembling gives a four-instruction module with identifier bound four;
    // disassembly reproduces token-equivalent text; validation is clean
    let ctx = Context::new(TargetEnv::Universal1_0);
    let bin = ctx.assemble(END_TO_END).unwrap();
    let m = decode_module(&bin, true).unwrap();
    assert_eq!(m.instructions.len(), 4);
    assert_eq!(m.header.id_bound, 4);
    assert_eq!(bin[3], 4);
    let text = ctx
        .disassemble_with_options(&bin, DisassembleOptions::none().no_header())
        .unwrap();
    assert_eq!(tokens(&text), tokens(END_TO_END));
    assert!(ctx.validate(&bin).is_ok());
}

#[test]
fn exact_disassembly() {
    let ctx = Context::new(TargetEnv::Universal1_0);
    let bin = ctx.assemble(END_TO_END).unwrap();
    let text = ctx.disassemble(&bin).unwrap();
    assert_eq!(
        text,
        "; SPIR-V\n; Version: 1.0\n; Generator: 0\n; Bound: 4\n; Schema: 0\n\
%1 = OpTypeVoid\n%2 = OpTypeFunction %1\n%3 = OpFunction %1 None %2\nOpFunctionEnd\n"
    );
}

#[test]
fn symbolic_names_allocate_fresh_ids() {
    // symbolic identifiers allocate above every identifier seen so far
    let src = "%void = OpTypeVoid\n%fnty = OpTypeFunction %void\n";
    let ctx = Context::new(TargetEnv::Universal1_0);
    let bin = ctx.assemble(src).unwrap();
    let m = decode_module(&bin, true).unwrap();
    assert_eq!(m.instructions.len(), 2);
    assert_eq!(m.instructions[0].result_id, Some(1));
    assert_eq!(m.instructions[1].result_id, Some(2));
    assert_eq!(m.instructions[1].operands.len(), 1);
    assert!(m.instructions[1].operands[0] == Operand::Id(1));
}

#[test]
fn float_constants() {
    // small integers convert to exact float bit patterns and back
    let src = "%1 = OpTypeFloat 32\n%2 = OpConstant %1 1\n%3 = OpConstant %1 2\n%4 = OpConstant %1 0\n";
    let ctx = Context::new(TargetEnv::Universal1_0);
    let bin = ctx.assemble(src).unwrap();
    let m = decode_module(&bin, true).unwrap();
    assert!(m.instructions[1].operands[0] == Operand::LiteralFloat { bits: 0x3F80_0000, width: 32 });
    assert!(m.instructions[2].operands[0] == Operand::LiteralFloat { bits: 0x4000_0000, width: 32 });
    assert!(m.instructions[3].operands[0] == Operand::LiteralFloat { bits: 0, width: 32 });
    let text = ctx
        .disassemble_with_options(&bin, DisassembleOptions::none().no_header())
        .unwrap();
    assert_eq!(
        tokens(&text),
        tokens("%1 = OpTypeFloat 32\n%2 = OpConstant %1 1\n%3 = OpConstant %1 2\n%4 = OpConstant %1 0\n")
    );
    // a pattern that holds no integer renders as its bits
    let src2 = "%1 = OpTypeFloat 32\n%2 = OpConstant %1 0x3f000000\n";
    let bin2 = ctx.assemble(src2).unwrap();
    let text2 = ctx
        .disassemble_with_options(&bin2, DisassembleOptions::none().no_header())
        .unwrap();
    assert!(text2.contains("0x3f000000"));
    let bin3 = ctx.assemble(&text2).unwrap();
    assert_eq!(bin2, bin3);
}

#[test]
fn signed_constants() {
    let src = "%1 = OpTypeInt 32 1\n%2 = OpConstant %1 -1\n%3 = OpConstant %1 -2147483648\n";
    let ctx = Context::new(TargetEnv::Universal1_0);
    let bin = ctx.assemble(src).unwrap();
    let m = decode_module(&bin, true).unwrap();
    assert!(
        m.instructions[1].operands[0]
            == Operand::LiteralInt { value: 0xFFFF_FFFF, width: 32, signed: true }
    );
    assert!(
        m.instructions[2].operands[0]
            == Operand::LiteralInt { value: 0x8000_0000, width: 32, signed: true }
    );
    let text = ctx
        .disassemble_with_options(&bin, DisassembleOptions::none().no_header())
        .unwrap();
    assert_eq!(tokens(&text), tokens(src));
}

#[test]
fn string_escapes_round_trip() {
    let src = "OpName %1 \"a \\\"quoted\\\" name\"\n";
    let ctx = Context::new(TargetEnv::Universal1_0);
    let bin = ctx.assemble(src).unwrap();
    let text = ctx
        .disassemble_with_options(&bin, DisassembleOptions::none().no_header())
        .unwrap();
    assert_eq!(text, "OpName %1 \"a \\\"quoted\\\" name\"\n");
    let again = ctx.assemble(&text).unwrap();
    assert_eq!(bin, again);
}

#[test]
fn error_unresolved_type_width() {
    // a constant whose result type is not a previously declared scalar
    // numeric type cannot fix its literal's width
    let ctx = Context::new(TargetEnv::Universal1_0);
    let d = ctx.assemble("%1 = OpTypeVoid\n%2 = OpConstant %1 4\n").unwrap_err();
    assert_eq!(d.kind, ErrorKind::UnresolvedTypeWidth);
    assert_eq!(d.position.line, 2);
}

#[test]
fn error_parse_syntax() {
    let ctx = Context::new(TargetEnv::Universal1_0);
    // a missing operand
    let d = ctx.assemble("%1 = OpTypeInt 32\n").unwrap_err();
    assert_eq!(d.kind, ErrorKind::ParseSyntaxError);
    // a trailing operand after a complete instruction
    let d2 = ctx.assemble("%1 = OpTypeVoid %2\n").unwrap_err();
    assert_eq!(d2.kind, ErrorKind::ParseSyntaxError);
    // a result assignment without one
    let d3 = ctx.assemble("%1 = OpFunctionEnd\n").unwrap_err();
    assert_eq!(d3.kind, ErrorKind::ParseSyntaxError);
}

#[test]
fn error_unknown_mnemonic() {
    let ctx = Context::new(TargetEnv::Universal1_0);
    let d = ctx.assemble("OpNotAnOpcode\n").unwrap_err();
    assert_eq!(d.kind, ErrorKind::UnknownOpcode);
    assert_eq!(d.position.line, 1);
    assert_eq!(d.position.column, 1);
}

#[test]
fn error_id_bound() {
    let ctx = Context::new(TargetEnv::Universal1_0);
    // the universal identifier bound caps textual identifiers
    let d = ctx.assemble("%4194303 = OpTypeVoid\n").unwrap_err();
    assert_eq!(d.kind, ErrorKind::IdBoundExceeded);
}

#[test]
fn error_duplicate_definition() {
    let ctx = Context::new(TargetEnv::Universal1_0);
    let bin = ctx.assemble("%1 = OpTypeVoid\n%1 = OpTypeBool\n").unwrap();
    let d = ctx.validate(&bin).unwrap_err();
    assert_eq!(d.kind, ErrorKind::DuplicateIdDefinition);
    assert_eq!(d.position.word_index, 1);
}

#[test]
fn error_structural_order() {
    let ctx = Context::new(TargetEnv::Universal1_0);
    // a capability after a type declaration breaks the section order
    let bin = ctx.assemble("%1 = OpTypeVoid\nOpCapability Shader\n").unwrap();
    let d = ctx.validate(&bin).unwrap_err();
    assert_eq!(d.kind, ErrorKind::StructuralOrderViolation);
}

#[test]
fn error_unterminated_block() {
    let ctx = Context::new(TargetEnv::Universal1_0);
    let bin = ctx
        .assemble("%1 = OpTypeVoid\n%2 = OpTypeFunction %1\n%3 = OpFunction %1 None %2\n%4 = OpLabel\nOpFunctionEnd\n")
        .unwrap();
    let d = ctx.validate(&bin).unwrap_err();
    assert_eq!(d.kind, ErrorKind::UnterminatedBlock);
}

#[test]
fn error_truncated_instruction() {
    // the first word promises four words but only two remain
    let ctx = Context::new(TargetEnv::Universal1_0);
    let module = [0x07230203u32, 0x00010000, 0, 4, 0, (4 << 16) | 19, 1];
    let d = ctx.disassemble(&module).unwrap_err();
    assert_eq!(d.kind, ErrorKind::TruncatedInstruction);
    assert_eq!(d.position.word_index, 5);
}

#[test]
fn error_invalid_literal_string() {
    // 0xFF is not valid text inside a string operand of a name annotation
    let ctx = Context::new(TargetEnv::Universal1_0);
    let module = [0x07230203u32, 0x00010000, 0, 4, 0, (3 << 16) | 5, 1, 0x0000_00FF];
    let d = ctx.disassemble(&module).unwrap_err();
    assert_eq!(d.kind, ErrorKind::InvalidLiteralString);
}

#[test]
fn error_limit_exceeded() {
    let ctx = Context::new(TargetEnv::Universal1_0);
    let bin = ctx
        .assemble("%1 = OpTypeInt 32 0\n%2 = OpTypeStruct %1 %1 %1\n")
        .unwrap();
    let opts = ValidatorOptions::new().limit(ValidatorLimit::MaxStructMembers(2));
    let d = ctx.validate_with_options(&bin, opts).unwrap_err();
    assert_eq!(d.kind, ErrorKind::LimitExceeded);
    // the default limits accept it
    assert!(ctx.validate(&bin).is_ok());
}

#[test]
fn append_grows_bound() {
    let mut m = Module::new();
    assert_eq!(m.header.id_bound, 1);
    let i = Instruction {
        opcode: 19,
        result_type_id: None,
        result_id: Some(9),
        operands: vec![],
    };
    m.append(i).unwrap();
    assert_eq!(m.header.id_bound, 10);
    assert_eq!(m.instructions.len(), 1);
    // an identifier at the universal limit is refused and nothing changes
    let too_big = Instruction {
        opcode: 19,
        result_type_id: None,
        result_id: Some(0x3FFFFF),
        operands: vec![],
    };
    let d = m.append(too_big).unwrap_err();
    assert_eq!(d.kind, ErrorKind::IdBoundExceeded);
    assert_eq!(m.instructions.len(), 1);
    assert_eq!(m.header.id_bound, 10);
}

#[test]
fn friendly_names_substitute() {
    let src = "OpName %2 \"entry\"\n%1 = OpTypeVoid\n%2 = OpTypeFunction %1\n";
    let ctx = Context::new(TargetEnv::Universal1_0);
    let bin = ctx.assemble(src).unwrap();
    let text = ctx
        .disassemble_with_options(
            &bin,
            DisassembleOptions::none().no_header().friendly_names(),
        )
        .unwrap();
    assert!(text.contains("%entry = OpTypeFunction %1"));
    assert!(text.contains("OpName %entry \"entry\""));
}

#[test]
fn offsets_and_indent() {
    let src = "%1 = OpTypeVoid\nOpNop\n";
    let ctx = Context::new(TargetEnv::Universal1_0);
    let bin = ctx.assemble(src).unwrap();
    let text = ctx
        .disassemble_with_options(
            &bin,
            DisassembleOptions::none().no_header().show_byte_offset().indent(),
        )
        .unwrap();
    // the first instruction stands at word five, the next two words later
    assert_eq!(text, "5: %1 = OpTypeVoid\n7:         OpNop\n");
}

#[test]
fn options_builders_compose() {
    let o = DisassembleOptions::none()
        .print()
        .color()
        .indent()
        .show_byte_offset()
        .no_header()
        .friendly_names();
    assert_eq!(o.raw, 2 | 4 | 8 | 16 | 32 | 64);
    let e = TargetEnv::OpenGl4_5.to_raw();
    assert_eq!(e.0, 9);
    let (sel, val) = ValidatorLimit::MaxIdBound(100).to_raw();
    assert_eq!(sel.0, 8);
    assert_eq!(val, 100);
    let k = ErrorKind::ParseSyntaxError.code();
    assert_eq!(k.0, -5);
}

#[test]
fn validator_id_bound_limit() {
    let ctx = Context::new(TargetEnv::Universal1_0);
    let bin = ctx.assemble("%1 = OpTypeVoid\n").unwrap();
    let opts = ValidatorOptions::new().limit(ValidatorLimit::MaxIdBound(1));
    let d = ctx.validate_with_options(&bin, opts).unwrap_err();
    assert_eq!(d.kind, ErrorKind::IdBoundExceeded);
}

#[test]
fn comments_and_blank_lines() {
    let ctx = Context::new(TargetEnv::Universal1_0);
    // an empty source assembles to a bare header
    let empty = ctx.assemble("").unwrap();
    assert_eq!(empty, vec![0x07230203u32, 0x00010000, 0, 1, 0]);
    // comments, blank lines and carriage returns assemble to the same bare
    // header
    let commented = ctx.assemble("; a comment\r\n\r\n   ; another\n").unwrap();
    assert_eq!(commented, empty);
    // a trailing comment after an instruction is ignored
    let a = ctx.assemble("%1 = OpTypeVoid ; the void type\n").unwrap();
    let b = ctx.assemble("%1 = OpTypeVoid\n").unwrap();
    assert_eq!(a, b);
}

#[test]
fn append_then_encode_validates() {
    let mut m = Module::new();
    m.append(Instruction {
        opcode: 19,
        result_type_id: None,
        result_id: Some(1),
        operands: vec![],
    })
    .unwrap();
    m.append(Instruction {
        opcode: 33,
        result_type_id: None,
        result_id: Some(2),
        operands: vec![Operand::Id(1)],
    })
    .unwrap();
    assert_eq!(m.header.id_bound, 3);
    let words = encode_module(&m);
    let ctx = Context::new(TargetEnv::Universal1_0);
    assert!(ctx.validate(&words).is_ok());
    let text = ctx
        .disassemble_with_options(&words, DisassembleOptions::none().no_header())
        .unwrap();
    assert_eq!(text, "%1 = OpTypeVoid\n%2 = OpTypeFunction %1\n");
}

#[test]
fn hex_integer_literals() {
    let ctx = Context::new(TargetEnv::Universal1_0);
    let a = ctx.assemble("%1 = OpTypeInt 32 0\n%2 = OpConstant %1 0xFF\n").unwrap();
    let b = ctx.assemble("%1 = OpTypeInt 32 0\n%2 = OpConstant %1 255\n").unwrap();
    assert_eq!(a, b);
}

#[test]
fn entry_point_with_interface() {
    // an entry point names its function and interface forward
    let src = "OpEntryPoint Fragment %2 \"main\" %3\n%1 = OpTypeVoid\n%4 = OpTypeFunction %1\n\
%5 = OpTypeInt 32 0\n%6 = OpTypePointer Input %5\n%3 = OpVariable %6 Input\n\
%2 = OpFunction %1 None %4\n%7 = OpLabel\nOpReturn\nOpFunctionEnd\n";
    let ctx = Context::new(TargetEnv::Universal1_0);
    let bin = ctx.assemble(src).unwrap();
    assert!(ctx.validate(&bin).is_ok());
    // an interface identifier that is never defined fails at the module's end
    let src2 = "OpEntryPoint Fragment %2 \"main\" %9\n%1 = OpTypeVoid\n%4 = OpTypeFunction %1\n\
%2 = OpFunction %1 None %4\n%7 = OpLabel\nOpReturn\nOpFunctionEnd\n";
    let bin2 = ctx.assemble(src2).unwrap();
    let d = ctx.validate(&bin2).unwrap_err();
    assert_eq!(d.kind, ErrorKind::UndefinedIdUse);
}

#[test]
fn branch_to_missing_label_is_rejected() {
    let src = "%1 = OpTypeVoid\n%2 = OpTypeFunction %1\n%3 = OpFunction %1 None %2\n\
%4 = OpLabel\nOpBranch %9\n%9 = OpLabel\nOpReturn\nOpFunctionEnd\n\
%5 = OpFunction %1 None %2\n%6 = OpLabel\nOpBranch %4\nOpFunctionEnd\n";
    // the second function branches to a label of the first: not a label of
    // its own function
    let ctx = Context::new(TargetEnv::Universal1_0);
    let bin = ctx.assemble(src).unwrap();
    let d = ctx.validate(&bin).unwrap_err();
    assert_eq!(d.kind, ErrorKind::UndefinedIdUse);
}

#[test]
fn validator_option_switches() {
    let o = ValidatorOptions::new()
        .relax_store_struct(true)
        .relax_logical_pointer(true)
        .relax_block_layout(true)
        .scalar_block_layout(true)
        .skip_block_layout(true)
        .limit(ValidatorLimit::MaxStructDept(7))
        .limit(ValidatorLimit::MaxSwitchBranches(9))
        .limit(ValidatorLimit::MaxControlFlowNestingDepth(11));
    assert!(o.relax_store_struct);
    assert!(o.relax_logical_pointer);
    assert!(o.relax_block_layout);
    assert!(o.scalar_block_layout);
    assert!(o.skip_block_layout);
    assert_eq!(o.max_struct_depth, 7);
    assert_eq!(o.max_switch_branches, 9);
    assert_eq!(o.max_nesting_depth, 11);
    let d = ValidatorOptions::default();
    assert_eq!(d.limits.max_id_bound, 0x3FFFFF);
}

#[test]
fn number_kind_codes() {
    assert_eq!(NumType { floating: true, width: 32, signed: false }.kind_code().0, 3);
    assert_eq!(NumType { floating: false, width: 32, signed: true }.kind_code().0, 2);
    assert_eq!(NumType { floating: false, width: 32, signed: false }.kind_code().0, 1);
    assert_eq!(ErrorKind::UndefinedIdUse.code().0, -10);
    assert_eq!(ErrorKind::UnterminatedBlock.code().0, -11);
    assert_eq!(ErrorKind::StructuralOrderViolation.code().0, -12);
}

#[test]
fn globals_after_function_are_rejected() {
    // the functions section is terminal: a new type, constant or global
    // variable after the first function breaks the declaration order
    let ctx = Context::new(TargetEnv::Universal1_0);
    let src = "%1 = OpTypeVoid\n%2 = OpTypeFunction %1\n%3 = OpFunction %1 None %2\nOpFunctionEnd\n%4 = OpTypeBool\n";
    let bin = ctx.assemble(src).unwrap();
    let d = ctx.validate(&bin).unwrap_err();
    assert_eq!(d.kind, ErrorKind::StructuralOrderViolation);
    assert_eq!(d.position.word_index, 4);
    // a global variable after the function fails the same way
    let src2 = "%1 = OpTypeInt 32 0\n%5 = OpTypePointer Uniform %1\n%2 = OpTypeVoid\n%6 = OpTypeFunction %2\n\
%3 = OpFunction %2 None %6\nOpFunctionEnd\n%4 = OpVariable %5 Uniform\n";
    let bin2 = ctx.assemble(src2).unwrap();
    let d2 = ctx.validate(&bin2).unwrap_err();
    assert_eq!(d2.kind, ErrorKind::StructuralOrderViolation);
    // the same declarations before the function pass
    let src3 = "%1 = OpTypeInt 32 0\n%5 = OpTypePointer Uniform %1\n%2 = OpTypeVoid\n%6 = OpTypeFunction %2\n\
%4 = OpVariable %5 Uniform\n%3 = OpFunction %2 None %6\nOpFunctionEnd\n";
    let bin3 = ctx.assemble(src3).unwrap();
    assert!(ctx.validate(&bin3).is_ok());
}

#[test]
fn exhaustive_validation_reports_all() {
    let ctx = Context::new(TargetEnv::Universal1_0);
    // two independent violations: a duplicate definition and a global after
    // the function
    let src = "%1 = OpTypeVoid\n%1 = OpTypeBool\n%2 = OpTypeFunction %1\n%3 = OpFunction %1 None %2\nOpFunctionEnd\n%4 = OpTypeBool\n";
    let bin = ctx.assemble(src).unwrap();
    let ds = ctx.validate_exhaustive(&bin, ValidatorOptions::new()).unwrap();
    assert_eq!(ds.len(), 2);
    assert_eq!(ds[0].kind, ErrorKind::DuplicateIdDefinition);
    assert_eq!(ds[0].position.word_index, 1);
    assert_eq!(ds[1].kind, ErrorKind::StructuralOrderViolation);
    assert_eq!(ds[1].position.word_index, 5);
    // the fail-fast mode reports only the first of them
    let d = ctx.validate(&bin).unwrap_err();
    assert_eq!(d.kind, ErrorKind::DuplicateIdDefinition);
    // a clean module reports nothing in either mode
    let good = ctx.assemble(END_TO_END).unwrap();
    assert!(ctx.validate_exhaustive(&good, ValidatorOptions::new()).unwrap().is_empty());
    assert!(ctx.validate(&good).is_ok());
}
