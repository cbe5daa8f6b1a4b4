use mcmappings_sqlite::resolvers::tiny::{
    tiny_reader, tiny_version, ParameterUpdate, TinyError, TinyReader, TinyV1Action,
    TinyV1Parser, TinyV2Action, TinyV2Parser, TinyVersion,
};

fn s(x: &str) -> String {
    x.to_string()
}

#[test]
fn first_line_names_the_version() {
    assert_eq!(tiny_version(&vec![s("v1\tofficial\tintermediary\tnamed")]), Ok(TinyVersion::V1));
    assert_eq!(tiny_version(&vec![s("tiny\t2\t0\tofficial\tintermediary\tnamed")]), Ok(TinyVersion::V2));
    assert_eq!(tiny_version(&vec![s("v2 x")]), Err(TinyError::UnknownVersion));
    assert_eq!(tiny_version(&Vec::new()), Err(TinyError::EmptyFile));
}

#[test]
fn version_one_rows() {
    let mut p = TinyV1Parser::new();
    assert_eq!(p.step("METHOD a (I)V b m_1 run").unwrap(), TinyV1Action::Skip);
    assert_eq!(p.step("v1\tofficial\tintermediary\tnamed").unwrap(), TinyV1Action::Skip);
    assert_eq!(p.intermediary_index, 2);
    assert_eq!(p.named_index, 3);
    assert_eq!(
        p.step("CLASS\ta\tnet/minecraft/class_1\tnet/minecraft/Foo").unwrap(),
        TinyV1Action::InsertClass {
            official: s("a"),
            named: s("net/minecraft/Foo"),
            intermediary: s("net/minecraft/class_1"),
        }
    );
    p.class_inserted(5);
    assert_eq!(
        p.step("METHOD\ta\t(I)V\tb\tmethod_1\trun").unwrap(),
        TinyV1Action::InsertMethod {
            class_id: 5,
            parent_class: s("a"),
            desc: s("(I)V"),
            official: s("b"),
            named: s("run"),
            intermediary: s("method_1"),
        }
    );
    assert_eq!(
        p.step("FIELD\ta\tI\tc\tfield_1\tcount").unwrap(),
        TinyV1Action::InsertField {
            class_id: 5,
            parent_class: s("a"),
            field_type: s("I"),
            official: s("c"),
            named: s("count"),
            intermediary: s("field_1"),
        }
    );
    assert_eq!(p.step("# comment").unwrap(), TinyV1Action::Skip);
}

#[test]
fn version_one_header_needs_both_columns() {
    let mut p = TinyV1Parser::new();
    assert_eq!(p.step("v1 official named"), Err(TinyError::MissingIntermediary));
    let mut q = TinyV1Parser::new();
    assert_eq!(q.step("v1 official intermediary"), Err(TinyError::MissingNamed));
    assert!(!q.line_is_well_formed(""));
}

#[test]
fn version_two_rows_and_parameters() {
    let mut p = TinyV2Parser::new();
    assert!(p.line_is_well_formed("tiny\t2\t0\tofficial\tintermediary\tnamed"));
    assert_eq!(p.step("tiny\t2\t0\tofficial\tintermediary\tnamed").unwrap(), TinyV2Action::Skip);
    assert_eq!((p.intermediary_index, p.named_index), (4, 5));
    assert_eq!(
        p.step("c\ta\tnet/minecraft/class_1\tnet/minecraft/Foo").unwrap(),
        TinyV2Action::InsertClass { intermediary: s("net/minecraft/class_1"), named: s("net/minecraft/Foo") }
    );
    p.class_inserted(3);
    assert_eq!(p.step("\tc\ta class comment").unwrap(), TinyV2Action::Skip);
    assert_eq!(
        p.step("\tf\tI\tc\tfield_1\tcount").unwrap(),
        TinyV2Action::InsertField {
            class_id: 3,
            field_type: s("I"),
            intermediary: s("field_1"),
            named: s("count"),
        }
    );
    assert_eq!(
        p.step("\tm\t(II)V\tb\tmethod_1\trun").unwrap(),
        TinyV2Action::InsertMethod {
            update: None,
            class_id: 3,
            desc: s("(II)V"),
            intermediary: s("method_1"),
            named: s("run"),
        }
    );
    p.method_inserted(11);
    assert_eq!(p.step("\t\tp\t2\tspeed").unwrap(), TinyV2Action::Skip);
    assert_eq!(p.step("\t\tp\t1\tcount").unwrap(), TinyV2Action::Skip);
    assert_eq!(p.step("\t\tc\ta comment").unwrap(), TinyV2Action::Skip);
    assert_eq!(
        p.step("\tm\t()V\td\tmethod_2\tstop").unwrap(),
        TinyV2Action::InsertMethod {
            update: Some(ParameterUpdate { method_id: 11, parameters: s("{\"1\":\"count\",\"2\":\"speed\"}") }),
            class_id: 3,
            desc: s("()V"),
            intermediary: s("method_2"),
            named: s("stop"),
        }
    );
    p.method_inserted(12);
    // the second method has read no parameter of its own
    assert_eq!(p.finish(), None);
}

/// Runs a version 2 file the way the database driver does, with row
/// identifiers counted from 1 per table; returns the classes, fields and
/// method parameters stored.
fn run_v2(lines: &[&str]) -> (Vec<(i64, String, String)>, Vec<(i64, String, String, String)>, Vec<(i64, String)>) {
    let mut p = TinyV2Parser::new();
    let (mut classes, mut fields, mut params) = (Vec::new(), Vec::new(), Vec::new());
    let mut methods = 0;
    for line in lines {
        assert!(p.line_is_well_formed(line));
        match p.step(line).unwrap() {
            TinyV2Action::InsertClass { intermediary, named } => {
                classes.push((classes.len() as i64 + 1, intermediary, named));
                p.class_inserted(classes.len() as i64);
            }
            TinyV2Action::InsertField { class_id, field_type, intermediary, named } => {
                fields.push((class_id, field_type, intermediary, named))
            }
            TinyV2Action::InsertMethod { update, .. } => {
                if let Some(u) = update {
                    params.push((u.method_id, u.parameters));
                }
                methods += 1;
                p.method_inserted(methods);
            }
            TinyV2Action::Skip => {}
        }
    }
    if let Some(u) = p.finish() {
        params.push((u.method_id, u.parameters));
    }
    (classes, fields, params)
}

#[test]
fn version_two_class_after_a_method_is_inserted() {
    let (classes, fields, _) = run_v2(&[
        "tiny\t2\t0\tofficial\tintermediary\tnamed",
        "c\ta\tclass_1\tFoo",
        "\tm\t()V\tb\tmethod_2\ttick",
        "c\td\tclass_3\tBar",
        "\tf\tI\te\tfield_4\tcount",
    ]);
    assert_eq!(classes, vec![(1, s("class_1"), s("Foo")), (2, s("class_3"), s("Bar"))]);
    assert_eq!(fields, vec![(2, s("I"), s("field_4"), s("count"))]);
}

#[test]
fn version_two_each_method_keeps_its_own_parameters() {
    let (_, _, params) = run_v2(&[
        "tiny\t2\t0\tofficial\tintermediary\tnamed",
        "c\ta\tclass_1\tFoo",
        "\tm\t(I)V\tb\tmethod_1\tf",
        "\t\tp\t1\tx",
        "\tm\t(J)V\tc\tmethod_2\tg",
        "\t\tp\t2\ty",
    ]);
    assert_eq!(params, vec![(1, s("{\"1\":\"x\"}")), (2, s("{\"2\":\"y\"}"))]);
}

#[test]
fn version_two_comments_before_methods_insert_nothing() {
    let (classes, _, _) = run_v2(&[
        "tiny\t2\t0\tofficial\tintermediary\tnamed",
        "c\ta\tclass_1\tFoo",
        "\tc\tthe class comment",
        "\tf\tI\te\tfield_4\tcount",
        "\t\tc\tthe field comment",
    ]);
    assert_eq!(classes, vec![(1, s("class_1"), s("Foo"))]);
}

#[test]
fn version_two_parameter_index_must_be_an_integer() {
    let mut p = TinyV2Parser::new();
    assert!(p.line_is_well_formed("p x"));
    assert_eq!(p.step("p x"), Err(TinyError::InvalidParameterIndex(s("x"))));
    assert!(!p.line_is_well_formed("p 1"));
    assert!(!p.line_is_well_formed("f I a b"));
}

#[test]
fn version_two_finish_without_method_stores_nothing() {
    let mut p = TinyV2Parser::new();
    p.step("p 1 a").unwrap();
    assert_eq!(p.finish(), None);
}

#[test]
fn reader_follows_the_first_line() {
    assert!(matches!(tiny_reader(&vec![s("v1\tofficial\tintermediary\tnamed")]), Ok(TinyReader::V1(_))));
    assert!(matches!(tiny_reader(&vec![s("tiny\t2\t0\ta\tb")]), Ok(TinyReader::V2(_))));
    assert!(matches!(tiny_reader(&vec![s("# nothing")]), Err(TinyError::UnknownVersion)));
    assert!(matches!(tiny_reader(&Vec::new()), Err(TinyError::EmptyFile)));
}

fn run_v1(lines: &[&str]) -> Vec<TinyV1Action> {
    let mut p = TinyV1Parser::new();
    let mut rows = Vec::new();
    let mut classes = 0;
    for line in lines {
        assert!(p.line_is_well_formed(line));
        let a = p.step(line).unwrap();
        if let TinyV1Action::InsertClass { .. } = a {
            classes += 1;
            p.class_inserted(classes);
        }
        rows.push(a);
    }
    rows
}

#[test]
fn version_one_columns_are_found_by_name() {
    let plain = run_v1(&[
        "v1\tofficial\tintermediary\tnamed",
        "CLASS\ta\tclass_1\tFoo",
        "METHOD\ta\t()V\tb\tmethod_1\trun",
        "FIELD\ta\tI\tc\tfield_1\tcount",
    ]);
    let swapped = run_v1(&[
        "v1\tofficial\tnamed\tintermediary",
        "CLASS\ta\tFoo\tclass_1",
        "METHOD\ta\t()V\tb\trun\tmethod_1",
        "FIELD\ta\tI\tc\tcount\tfield_1",
    ]);
    assert_eq!(plain, swapped);
}
