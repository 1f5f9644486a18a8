use cargo_optic::ir::evidence::{AliasTarget, ModuleRecord};
use cargo_optic::ir::llvm::{
    alias_target, demangle, global_name, scan, FunctionEnd, ModuleLine, ScanError,
};
use cargo_optic::source::ShortReader;

fn is_function_end(line: &[u8]) -> bool {
    let mut detector = FunctionEnd::new();
    detector.push(line);

    detector.is_end()
}

#[test]
fn extracts_unquoted_and_quoted_names() {
    assert_eq!(
        global_name(b"define void @_Rexample() {"),
        Some("_Rexample".to_owned())
    );
    assert_eq!(
        global_name(br#"define void @"name with \22 escape"() {"#),
        Some(r"name with \22 escape".to_owned())
    );
}

#[test]
fn recognizes_only_a_top_level_closing_brace() {
    assert!(is_function_end(b"} ; end"));
    assert!(!is_function_end(br#"  call void asm "}", ""()"#));
}

#[test]
fn does_not_buffer_a_large_irrelevant_line() {
    let mut line = ModuleLine::new();
    line.push(b"@bytes = private constant [1048576 x i8] c\"");
    line.push(&vec![b'x'; 1024 * 1024]);
    line.push(b"\"\n");

    assert!(line.record().is_none());
    assert_eq!(line.retained_length(), 0);
}

#[test]
fn distinguishes_direct_and_expression_aliases() {
    assert_eq!(
        alias_target(b"@alias = alias i32, ptr @target", "alias"),
        AliasTarget::Symbol {
            raw_symbol: "target".to_owned(),
        }
    );
    assert_eq!(
        alias_target(
            b"@alias = alias i8, ptr getelementptr (i8, ptr @target, i64 1)",
            "alias",
        ),
        AliasTarget::Expression
    );
}

#[test]
fn indexes_definitions_declarations_and_aliases() {
    let module = b"declare void @external(i32)\n\n@alternate = alias void (), ptr @defined\n\ndefine void @defined() {\n  ret void\n}\n";

    let records = scan(ShortReader::new(module, 5)).expect("the LLVM module is valid");
    assert_eq!(records.len(), 3);

    match &records[0] {
        ModuleRecord::Declaration(declaration) => {
            assert_eq!(declaration.raw_symbol, "external");
        }
        _ => panic!("the first record is a declaration"),
    }
    match &records[1] {
        ModuleRecord::Alias(alias) => assert_eq!(
            alias.target,
            AliasTarget::Symbol {
                raw_symbol: "defined".to_owned(),
            }
        ),
        _ => panic!("the second record is an alias"),
    }
    match &records[2] {
        ModuleRecord::Body(body) => {
            assert_eq!(body.raw_symbol, "defined");
            let text = &module[body.start as usize..body.end as usize];
            assert!(text.starts_with(b"define void @defined()"));
            assert!(text.ends_with(b"}\n"));
        }
        _ => panic!("the third record is a body"),
    }
}

#[test]
fn each_broken_module_has_its_fault() {
    let faults = [
        ("declare void\n", "declaration"),
        ("define void\n", "definition"),
        ("define void @f() {\n  ret void\n", "function"),
    ];
    for (module, _) in faults {
        let error = scan(ShortReader::new(module.as_bytes(), 64)).unwrap_err();
        assert!(!matches!(error, ScanError::Read(_)));
        assert!(!error.message().is_empty());
    }
}

#[test]
fn mangled_symbols_are_demangled_for_display() {
    assert_eq!(demangle("_ZN4core3fmt5Write9write_fmt17h0123456789abcdefE"), "core::fmt::Write::write_fmt");
    assert_eq!(demangle("main"), "main");
}
