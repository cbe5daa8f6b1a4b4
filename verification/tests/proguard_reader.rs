use mcmappings_sqlite::resolvers::proguard::{
    member_content_vec, parse_class_line, parse_method, proguard_line_is_well_formed,
    proguard_lines, ProguardAction, ProguardError, ProguardParser, Section,
};
use mcmappings_sqlite::text::{chars_of, to_string};

fn sample() -> String {
    [
        "# {\"id\":\"com.android.tools.r8.mapping\",\"version\":\"2.2\"}",
        "com.mojang.Foo -> a:",
        "# {\"fileName\":\"Foo.java\",\"id\":\"sourceFile\"}",
        "    int count -> b",
        "    1:1:void <init>() -> <init>",
        "    2:5:java.lang.String name(int,java.lang.String):10:13 -> c",
        "net.minecraft.Bar -> b:",
        "    java.util.List items -> a",
        "    void run() -> a",
        "",
    ]
    .join("\n")
}

fn s(x: &str) -> String {
    x.to_string()
}

#[test]
fn header_line_is_left_out() {
    let lines = proguard_lines(&sample());
    assert_eq!(lines.len(), 8);
    assert_eq!(lines[0], "com.mojang.Foo -> a:");
    assert!(proguard_lines("").is_empty());
    assert!(proguard_lines("# only a header\n").is_empty());
}

#[test]
fn whole_sample_gives_the_expected_rows() {
    let lines = proguard_lines(&sample());
    let mut parser = ProguardParser::new();
    let mut rows = Vec::new();
    let mut next_id = 100;
    for line in &lines {
        assert!(proguard_line_is_well_formed(line));
        let action = parser.step(line).unwrap();
        if let ProguardAction::InsertClass { .. } = action {
            next_id += 1;
            parser.class_inserted(next_id);
        }
        rows.push(action);
    }
    assert_eq!(
        rows,
        vec![
            ProguardAction::InsertClass { original: s("com.mojang.Foo"), obfuscated: s("a") },
            ProguardAction::Skip,
            ProguardAction::InsertField {
                class_id: 101,
                original: s("count"),
                obfuscated: s("b"),
                field_type: s("int"),
            },
            ProguardAction::InsertSourceMethod {
                source_file: s("Foo.java"),
                original: s("<init>"),
                obfuscated: s("<init>"),
                return_type: s("void"),
                parameter_types: s("[]"),
            },
            ProguardAction::InsertSourceMethod {
                source_file: s("Foo.java"),
                original: s("name"),
                obfuscated: s("c"),
                return_type: s("java.lang.String"),
                parameter_types: s("[\"int\",\"java.lang.String\"]"),
            },
            ProguardAction::InsertClass { original: s("net.minecraft.Bar"), obfuscated: s("b") },
            ProguardAction::InsertField {
                class_id: 102,
                original: s("items"),
                obfuscated: s("a"),
                field_type: s("java.util.List"),
            },
            ProguardAction::InsertMethod {
                class_id: 102,
                original: s("run"),
                obfuscated: s("a"),
                return_type: s("void"),
                parameter_types: s("[]"),
            },
        ]
    );
}

#[test]
fn method_before_any_class_inserts_nothing() {
    let mut parser = ProguardParser::new();
    assert_eq!(parser.step("    void run() -> a").unwrap(), ProguardAction::Skip);
    assert_eq!(parser.section, Section::Initial);
}

#[test]
fn field_before_any_class_uses_identifier_zero() {
    let mut parser = ProguardParser::new();
    match parser.step("    int x -> y").unwrap() {
        ProguardAction::InsertField { class_id, .. } => assert_eq!(class_id, 0),
        other => panic!("unexpected {:?}", other),
    }
}

#[test]
fn metadata_that_is_not_json_is_an_error() {
    let mut parser = ProguardParser::new();
    assert!(matches!(parser.step("# compiler: R8"), Err(ProguardError::InvalidMetadata(_))));
}

#[test]
fn metadata_without_file_name_gives_an_empty_source_file() {
    let mut parser = ProguardParser::new();
    parser.step("a.B -> c:").unwrap();
    parser.class_inserted(9);
    assert_eq!(parser.step("# {\"id\":\"sourceFile\"}").unwrap(), ProguardAction::Skip);
    assert_eq!(parser.source_file, "");
    assert_eq!(parser.section, Section::Metadata);
    match parser.step("    void f() -> g").unwrap() {
        ProguardAction::InsertSourceMethod { source_file, .. } => assert_eq!(source_file, ""),
        other => panic!("unexpected {:?}", other),
    }
}

#[test]
fn class_line_clears_the_source_file() {
    let mut parser = ProguardParser::new();
    parser.step("# {\"fileName\":\"X.java\"}").unwrap();
    assert_eq!(parser.source_file, "X.java");
    parser.step("x.Y -> z:").unwrap();
    assert_eq!(parser.source_file, "");
    assert_eq!(parser.section, Section::Class);
}

#[test]
fn class_line_parts() {
    let (original, obfuscated) = parse_class_line(&chars_of("  a.b.C -> d:e: \t"));
    assert_eq!(original, "a.b.C");
    assert_eq!(obfuscated, "de");
    let (original, obfuscated) = parse_class_line(&chars_of("A -> B -> C:"));
    assert_eq!(original, "A");
    assert_eq!(obfuscated, "B");
}

#[test]
fn method_parts_follow_the_original_splitting() {
    let m = parse_method(&chars_of("3:4:void set(int, long):7:8 -> q"));
    assert_eq!(m.original, "set");
    // the obfuscated name is the fourth space-separated piece
    assert_eq!(m.obfuscated, "->");
    assert_eq!(m.return_type, "void");
    assert_eq!(m.parameters, Some(vec![s("int"), s("long")]));
}

#[test]
fn malformed_lines_are_reported() {
    assert!(!proguard_line_is_well_formed(""));
    assert!(!proguard_line_is_well_formed("no arrow here"));
    assert!(!proguard_line_is_well_formed("    int x"));
    assert!(!proguard_line_is_well_formed(" éé"));
    assert!(proguard_line_is_well_formed("# anything"));
    assert!(proguard_line_is_well_formed("    f()"));
    assert!(proguard_line_is_well_formed("a -> b:"));
}

#[test]
fn member_text_starts_after_four_bytes() {
    assert_eq!(to_string(&member_content_vec(&chars_of("    int a -> b")).unwrap()), "int a -> b");
    assert_eq!(to_string(&member_content_vec(&chars_of(" €x")).unwrap()), "x");
    assert!(member_content_vec(&chars_of(" éé")).is_none());
    assert!(member_content_vec(&chars_of("  ")).is_none());
}

#[test]
fn member_lines_leave_the_state_unchanged() {
    let mut parser = ProguardParser::new();
    parser.step("a.B -> c:").unwrap();
    parser.class_inserted(4);
    parser.step("# {\"fileName\":\"B.java\"}").unwrap();
    parser.step("    int x -> y").unwrap();
    parser.step("    void f(int) -> g").unwrap();
    assert_eq!(parser.section, Section::Metadata);
    assert_eq!(parser.class_id, 4);
    assert_eq!(parser.source_file, "B.java");
}

#[test]
fn method_with_one_parameter_is_written_as_a_json_array() {
    let mut parser = ProguardParser::new();
    parser.step("a.B -> c:").unwrap();
    parser.class_inserted(1);
    match parser.step("    1:1:void f(java.lang.String) -> g").unwrap() {
        ProguardAction::InsertMethod { parameter_types, .. } => {
            assert_eq!(parameter_types, "[\"java.lang.String\"]")
        }
        other => panic!("unexpected {:?}", other),
    }
}

#[test]
fn return_type_without_line_numbers() {
    let m = parse_method(&chars_of("java.lang.String describe() -> d"));
    assert_eq!(m.return_type, "java.lang.String");
    let m = parse_method(&chars_of("12:14:int[] values(long):3:4 -> v"));
    assert_eq!(m.return_type, "int[]");
    let mut parser = ProguardParser::new();
    parser.step("a.B -> c:").unwrap();
    parser.class_inserted(2);
    match parser.step("    boolean isEmpty() -> e").unwrap() {
        ProguardAction::InsertMethod { return_type, original, obfuscated, .. } => {
            assert_eq!(return_type, "boolean");
            assert_eq!(original, "isEmpty");
            assert_eq!(obfuscated, "e");
        }
        other => panic!("unexpected {:?}", other),
    }
}

#[test]
fn parameter_types_are_escaped_as_json_strings() {
    let mut parser = ProguardParser::new();
    parser.step("a.B -> c:").unwrap();
    parser.class_inserted(1);
    match parser.step("    void f(a\"b,c\\d,e\tf) -> g").unwrap() {
        ProguardAction::InsertMethod { parameter_types, .. } => {
            assert_eq!(parameter_types, "[\"a\\\"b\",\"c\\\\d\",\"e\\tf\"]")
        }
        other => panic!("unexpected {:?}", other),
    }
}

#[test]
fn metadata_file_name_must_be_a_string() {
    let mut parser = ProguardParser::new();
    parser.step("# {\"fileName\":3}").unwrap();
    assert_eq!(parser.source_file, "");
    parser.step("# [\"fileName\"]").unwrap();
    assert_eq!(parser.source_file, "");
    parser.step("#{\"fileName\":\"Q.java\"}   ").unwrap();
    assert_eq!(parser.source_file, "Q.java");
}
