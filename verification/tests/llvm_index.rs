use cargo_optic::llvm_index::error::{Fault, IndexError};
use cargo_optic::llvm_index::header::{read_alias_target, read_function};
use cargo_optic::llvm_index::model::HEADER_LIMIT;
use cargo_optic::llvm_index::scanner::{index, scan};
use cargo_optic::llvm_index::stream::{Stream, CHUNK_SIZE};
use cargo_optic::records::LlvmDefinitionKind;
use cargo_optic::source::{ByteSource, FailureKind, ShortReader, SourceError};

const READ_LIMITS: [usize; 4] = [1, 2, 7, 8192];

fn parse_function(input: &str, max_read: usize) -> Result<String, IndexError> {
    let mut stream = Stream::new(ShortReader::new(input.as_bytes(), max_read));
    stream.begin_header(0);

    let name = read_function(&mut stream)?;
    stream.end_header();
    stream.skip_body()?;

    Ok(name)
}

fn parse_alias(input: &str, max_read: usize) -> Result<Option<String>, IndexError> {
    let mut stream = Stream::new(ShortReader::new(input.as_bytes(), max_read));
    stream.begin_header(0);

    read_alias_target(&mut stream)
}

fn is_malformed(error: &IndexError) -> bool {
    matches!(error, IndexError::Malformed { .. })
}

fn check(input: &str, expected: &[(&str, LlvmDefinitionKind, &str)]) {
    for capacity in READ_LIMITS {
        let actual = index(ShortReader::new(input.as_bytes(), capacity)).unwrap();
        assert_eq!(actual.len(), expected.len());

        for (definition, (symbol, kind, excerpt)) in actual.iter().zip(expected) {
            assert_eq!(definition.raw_symbol(), *symbol);
            assert_eq!(definition.kind(), kind);
            let range = definition.range();
            assert_eq!(&input[range.start() as usize..range.end() as usize], *excerpt);
        }
    }
}

fn decode(input: &[u8], max_read: usize) -> Result<String, IndexError> {
    let mut stream = Stream::new(ShortReader::new(input, max_read));
    stream.begin_header(0);

    stream.read_required_token()?.decode_symbol()
}

fn repeated(byte: u8, length: u64) -> Vec<u8> {
    vec![byte; length as usize]
}

#[test]
fn function_header_dimensions() {
    for header in [
        "void @f() { ret void }", // Empty arguments.
        "{i8, ptr} @f(ptr byval({i8, ptr}) %x) { \
         ret {i8, ptr} zeroinitializer }", // The types are aggregates.
        "dso_local noundef i32 @f(\n i32 %x,\n ptr %y\n) #0\n \
         section \"{@fake}\" { ret i32 0 }", // The attributes span lines.
        "void @f() prefix {i32, i8} {i32 1, i8 2} prologue [2 x i8] c\"ab\" \
         personality ptr @p { ret void }", // Constants occur in the header.
        "void @f() prefix ptr getelementptr (i8, ptr @g, i64 1) !dbg !0 \
         { ret void }", // The constant is an expression.
    ] {
        for max_read in READ_LIMITS {
            assert_eq!(parse_function(header, max_read).unwrap(), "f");
        }
    }
}

#[test]
fn alias_operand_dimensions() {
    let cases = [
        ("void (), ptr @target\n", Some("target")), // Ordinary direct target.
        (
            "{i8, i8},\n ptr addrspace(1)\n @\"raw\\20target\"\n",
            Some("raw target"),
        ), // Multiline quoted target.
        ("void (), ptr @target, partition \"part\"\n", Some("target")), // Partition suffix.
        ("void (), ptr @target, !dbg !0\n", Some("target")), // IFunc metadata.
        (
            "i8, ptr getelementptr inbounds (i8, ptr @target, i64 1)\n",
            None,
        ), // Expression alias.
        ("i8, ptr inttoptr (i64 4 to ptr)", None),  // No global target.
        (
            "i8, getelementptr inbounds (i8, ptr @target, i64 1)\n",
            None,
        ), // Disassembler expression spelling.
        ("void (), ptr no_cfi @target\n", None),    // Wrapped global target.
    ];

    for (input, expected) in cases {
        for max_read in READ_LIMITS {
            assert_eq!(parse_alias(input, max_read).unwrap().as_deref(), expected);
        }
    }
}

#[test]
fn malformed_headers_fail() {
    for input in [
        "void @f",                 // No arguments.
        "void @f(]",               // Mismatched arguments.
        "void @f()",               // No body.
        "void @f() prefix ptr @x", // No body after a constant.
        "void @f() { ret void",    // Truncated body.
    ] {
        assert!(is_malformed(&parse_function(input, 1).unwrap_err()));
    }

    for input in [
        ", ptr @x",                               // No alias type.
        "void () ptr @x",                         // No comma.
        "void (), ptr",                           // No operand.
        "void (), ptr @x @y",                     // Extra operand.
        "void (), ptr getelementptr (i8, ptr @x", // Truncated expression.
        "void (), ptr nonsense @x",               // Unknown constant form.
        "void (), ptr @x, partition 1",           // Invalid partition.
    ] {
        assert!(is_malformed(&parse_alias(input, 8192).unwrap_err()));
    }
}

#[test]
fn exact_definition_ranges_and_kinds() {
    let function = "define void @f() {\n  ret void\n}";
    let alias = "@a = weak hidden local_unnamed_addr alias void (), ptr @f\n";
    let expression = "@e = alias i8, getelementptr (i8, ptr @g, i64 1)\n";
    let ifunc = "@i = ifunc void (), ptr @resolver\n";
    let input = format!(
        "; define @fake\ndeclare void @decl()\n@g = global i8 0\n{alias}{expression}{ifunc}\n{function}\n!0 = !{{ptr @f}}\n"
    );

    check(
        &input,
        &[
            (
                "a",
                LlvmDefinitionKind::DirectAlias { target: "f".into() },
                alias,
            ), // Direct alias.
            ("e", LlvmDefinitionKind::ExpressionAlias, expression), // Expression alias.
            ("i", LlvmDefinitionKind::Ifunc, ifunc),                // Unsupported resolver.
            ("f", LlvmDefinitionKind::Function, function),          // Whole body.
        ],
    );
}

#[test]
fn multiline_quoted_alias_and_function() {
    let alias = "@\"alias\\20name\"\n = linkonce_odr\n dso_local hidden\n alias void (),\n ptr @\"raw\\22\\\\name\"\n";
    let function = "define void\n @\"raw\\22\\\\name\"(\n) { ret void }";
    let input = format!("{alias}{function}");

    check(
        &input,
        &[
            (
                "alias name",
                LlvmDefinitionKind::DirectAlias {
                    target: "raw\"\\name".into(),
                },
                alias,
            ), // Quoted alias.
            ("raw\"\\name", LlvmDefinitionKind::Function, function), // Quoted definition.
        ],
    );
}

#[test]
fn unrelated_input_has_no_definitions() {
    for input in [
        "",                                                        // Empty module.
        "\n ; comment\r\n",                                        // Whitespace.
        "declare void @f()\n",                                     // Declaration.
        "define_like_long_token\n",                                // Keyword prefix.
        "d\ndefine_like\n",                                        // Short unrelated line.
        "@g = thread_local(localexec) addrspace(1) global i8 0\n", // Modified global.
        "module asm \"define void @fake() {}\"\n",                 // Text inside assembly.
    ] {
        check(input, &[]);
    }
}

#[test]
fn range_endings_preserve_input_bytes() {
    for ending in ["\n", "\r\n", ""] {
        let alias = format!("@a = alias void (), ptr @f{ending}");
        check(
            &alias,
            &[(
                "a",
                LlvmDefinitionKind::DirectAlias { target: "f".into() },
                &alias,
            )],
        );

        let function = format!("define void @f() {{{ending} ret void{ending}}}");
        let input = format!("  {function}{ending}");
        check(&input, &[("f", LlvmDefinitionKind::Function, &function)]);
    }
}

#[test]
fn large_unrelated_line_and_body_have_bounded_buffers() {
    let length = HEADER_LIMIT * 8;
    let mut input = b"@g = private constant [8388608 x i8] c\"".to_vec();
    input.append(&mut repeated(b'x', length));
    input.extend_from_slice(b"\"\ndefine void @f() {\n;");
    input.append(&mut repeated(b'x', length));
    input.extend_from_slice(b"\n ret void\n}");
    let mut stream = Stream::new(ShortReader::new(&input, 8192));
    let definitions = scan(&mut stream).unwrap();

    assert_eq!(definitions.len(), 1);
    assert_eq!(definitions[0].raw_symbol(), "f");
    assert!(definitions[0].range().start() > length);
    assert!(definitions[0].range().length() > length);
    let (chunk, token, group) = stream.buffer_peaks();
    assert_eq!(chunk, 8192);
    assert!(token <= 16);
    assert!(group <= 8);
}

#[test]
fn complete_header_budget_boundaries() {
    for prefix in ["define void @f() ", "@a = alias void (), ptr "] {
        let suffix = if prefix.starts_with("define") {
            "{"
        } else {
            "@f\n"
        };
        for length in [HEADER_LIMIT - 1, HEADER_LIMIT, HEADER_LIMIT + 1] {
            let padding = length - (prefix.len() + suffix.len()) as u64;
            let mut input = prefix.as_bytes().to_vec();
            input.append(&mut repeated(b' ', padding));
            input.extend_from_slice(suffix.as_bytes());
            if prefix.starts_with("define") {
                input.extend_from_slice(b"ret void}");
            }
            let result = index(ShortReader::new(&input, 8192));

            assert_eq!(result.is_ok(), length <= HEADER_LIMIT);
            if let Err(error) = result {
                assert!(is_malformed(&error));
                assert!(error.message().contains("1 MiB"));
                assert!(error.message().contains("at byte 1048576"));
            }
        }
    }
}

#[test]
fn malformed_definitions_have_offset_context() {
    for input in [
        "define",                        // Truncated keyword at EOF.
        "define void @f() {",            // Truncated body.
        "@a = alias void (), ptr",       // Truncated alias.
        "@i = ifunc void (), ptr",       // Truncated ifunc.
        "@a = alias void (), ptr @\"\"", // Invalid record target.
        "@\"\" = alias void (), ptr @f", // Invalid record symbol.
        "@a alias void (), ptr @f",      // Missing assignment.
    ] {
        let error = index(ShortReader::new(input.as_bytes(), 8192)).unwrap_err();
        assert!(is_malformed(&error));
        assert!(error.message().contains("at byte"));
    }
}

#[test]
fn reader_failures_preserve_their_kind() {
    for prefix in ["", "define void @f() {", "@a = alias void (), ptr "] {
        let failure = SourceError {
            kind: FailureKind::BrokenPipe,
            message: "fixture reader failed".into(),
        };
        let error = index(ShortReader::failing(prefix.as_bytes(), 8192, failure)).unwrap_err();
        assert!(matches!(
            &error,
            IndexError::Read(source) if source.kind == FailureKind::BrokenPipe
        ));
        assert_eq!(error.message(), "fixture reader failed");
    }
}

#[test]
fn symbols_across_buffer_boundaries() {
    let cases: &[(&[u8], &str)] = &[
        (b"@_RNv.foo$-1", "_RNv.foo$-1"),               // Named symbol.
        (b"@123", "123"),                               // Numeric slot.
        (br#"@"a\22b\5cc\01\C3\A9""#, "a\"b\\c\u{1}é"), // Escaped bytes.
        (br#"@"@;{}() space""#, "@;{}() space"),        // Quoted punctuation.
        (br#"@"a\\b\22""#, "a\\b\""),                   // Disassembler backslash spelling.
    ];

    for &(input, expected) in cases {
        for max_read in READ_LIMITS {
            assert_eq!(decode(input, max_read).unwrap(), expected);
        }
    }
}

#[test]
fn malformed_symbols_have_offsets() {
    for input in [
        &b"@"[..],         // Missing name.
        b"@123abc",        // Invalid numeric slot.
        br#"@"bad\q0""#,   // Invalid hex escape.
        br#"@"bad\2""#,    // Short escape.
        br#"@"bad"#,       // Missing quote.
        br#"@"\FF""#,      // Invalid UTF-8.
        b"@\"bad\nname\"", // Unescaped newline.
    ] {
        let error = decode(input, 1).unwrap_err();

        assert!(is_malformed(&error));
        assert!(error.message().contains("at byte"));
    }
}

#[test]
fn header_budget_counts_whitespace_and_token_bytes() {
    for length in [
        HEADER_LIMIT - 1, // The length is below the limit.
        HEADER_LIMIT,     // The length equals the limit.
        HEADER_LIMIT + 1, // The length exceeds the limit.
    ] {
        for byte in *b" a" {
            let input = repeated(byte, length);
            let mut stream = Stream::new(ShortReader::new(&input, 8192));
            stream.begin_header(0);
            let result = stream.read_token(false);

            assert_eq!(result.is_ok(), length <= HEADER_LIMIT);
            assert!(stream.buffer_peaks().1 <= HEADER_LIMIT as usize);

            if byte == b'a' {
                assert_eq!(stream.buffer_peaks().1, HEADER_LIMIT as usize);
            }
        }
    }
}

#[test]
fn unrelated_line_and_body_use_fixed_storage() {
    let length = HEADER_LIMIT * 8;
    let mut line = repeated(b'x', length);
    line.push(b'\n');
    let mut stream = Stream::new(ShortReader::new(&line, 8192));
    stream.skip_line().unwrap();

    assert_eq!(stream.offset(), length + 1);
    assert_eq!(stream.buffer_peaks(), (CHUNK_SIZE, 0, 0));

    let mut body = repeated(b' ', length);
    body.push(b'}');
    let mut stream = Stream::new(ShortReader::new(&body, 8192));
    stream.skip_body().unwrap();

    assert_eq!(stream.offset(), length + 1);
    assert_eq!(stream.buffer_peaks(), (CHUNK_SIZE, 0, 0));
}

#[test]
fn body_ignores_quoted_and_commented_braces() {
    let input = b"\n; } define @fake {\n \
                  %x = insertvalue {i8, i8} poison, i8 0, 0\n \
                  call void asm \"{\\22}\", \"\"()\n ret void\n}tail";
    let mut stream = Stream::new(ShortReader::new(input, 1));
    stream.skip_body().unwrap();

    assert_eq!(stream.offset(), (input.len() - 4) as u64);
    assert_eq!(stream.peek().unwrap(), Some(b't'));
}

#[test]
fn truncated_bodies_fail() {
    for input in [
        "",                // The body is empty.
        "ret void",        // The closing brace is missing.
        "{ }",             // Only the nested brace closes.
        "\"unterminated}", // An unclosed quote hides the brace.
        ";}",              // A comment hides the brace.
    ] {
        let mut stream = Stream::new(ShortReader::new(input.as_bytes(), 8192));

        assert!(is_malformed(&stream.skip_body().unwrap_err()));
    }
}

#[test]
fn offsets_remain_u64() {
    let start = u64::from(u32::MAX) + 10;
    let mut stream = Stream::starting_at(ShortReader::new(b"word", 8192), start);
    stream.begin_header(stream.offset());
    let token = stream.read_required_token().unwrap();

    assert_eq!(token.offset, u64::from(u32::MAX) + 10);
    assert_eq!(stream.offset(), u64::from(u32::MAX) + 14);

    let mut stream = Stream::starting_at(ShortReader::new(b"x", 8192), u64::MAX);

    assert!(is_malformed(&stream.take().unwrap_err()));
}

#[test]
fn group_nesting_is_bounded_and_checked() {
    for input in [
        "[<{i32}>])", // The group nests delimiter kinds.
        "[])",        // The nested group is empty.
        ")",          // The outer group is empty.
    ] {
        let mut stream = Stream::new(ShortReader::new(input.as_bytes(), 8192));
        stream.begin_header(0);
        stream.consume_group(b'(').unwrap();
    }

    for input in [
        "[)",   // The closing delimiter does not match.
        "",     // The outer closing delimiter is missing.
        "([)]", // The nesting order is invalid.
    ] {
        let mut stream = Stream::new(ShortReader::new(input.as_bytes(), 8192));
        stream.begin_header(0);

        assert!(is_malformed(&stream.consume_group(b'(').unwrap_err()));
    }

    let input = repeated(b'(', HEADER_LIMIT + 1);
    let mut stream = Stream::new(ShortReader::new(&input, 8192));
    stream.begin_header(0);
    stream.expect_parenthesis().unwrap();
    let error = stream.consume_group(b'(').unwrap_err();

    assert!(is_malformed(&error));
    assert!(error.message().contains("1 MiB"));
    assert_eq!(stream.buffer_peaks().2, HEADER_LIMIT as usize);
}

#[test]
fn read_limits_apply_to_large_requests() {
    let input = b"abcdefghijklmnop";

    for max_read in [1, 2, 7, 8192] {
        let mut reader = ShortReader::new(input, max_read);
        let mut buffer = [0; 8192];
        assert_eq!(reader.read(&mut []).unwrap(), 0);

        for expected in input.chunks(max_read) {
            let length = reader.read(&mut buffer).unwrap();
            assert_eq!(length, expected.len());
            assert_eq!(&buffer[..length], expected);
        }

        assert_eq!(reader.read(&mut buffer).unwrap(), 0);
    }
}

#[test]
fn every_read_size_gives_the_same_index() {
    let input = "@a = alias void (), ptr @f\ndefine void @f() { ret void }\n@bad";
    let expected = index(ShortReader::new(input.as_bytes(), 8192)).unwrap_err();
    for max_read in 1..20 {
        let error = index(ShortReader::new(input.as_bytes(), max_read)).unwrap_err();
        assert_eq!(error.message(), expected.message());
    }
    assert!(matches!(
        expected,
        IndexError::Malformed { fault: Fault::MissingToken, .. }
    ));
}
