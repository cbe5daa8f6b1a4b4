use mcmappings_sqlite::resolvers::srg::{srg_action, srg_line_is_well_formed, SrgAction};

fn s(x: &str) -> String {
    x.to_string()
}

#[test]
fn srg_lines_give_rows_by_their_first_word() {
    assert_eq!(
        srg_action("CL: a net/minecraft/A"),
        SrgAction::InsertClass { srg: s("a"), named: s("net/minecraft/A") }
    );
    assert_eq!(
        srg_action("MD: a/b (I)V net/minecraft/A/run (I)V"),
        SrgAction::InsertMethod { srg: s("a/b"), desc: s("(I)V"), named: s("net/minecraft/A/run") }
    );
    assert_eq!(
        srg_action("FD:\ta/c\tnet/minecraft/A/count"),
        SrgAction::InsertField { srg: s("a/c"), named: s("net/minecraft/A/count") }
    );
    assert_eq!(srg_action("PK: a b"), SrgAction::Skip);
}

#[test]
fn short_or_empty_srg_lines_are_reported() {
    assert!(!srg_line_is_well_formed(""));
    assert!(!srg_line_is_well_formed("   "));
    assert!(!srg_line_is_well_formed("CL: a"));
    assert!(!srg_line_is_well_formed("MD: a b"));
    assert!(!srg_line_is_well_formed("FD: a"));
    assert!(srg_line_is_well_formed("PK: x"));
    assert!(srg_line_is_well_formed("CL: a b"));
}
