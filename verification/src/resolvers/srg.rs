//! The reader of Forge SRG mapping files.
//!
//! Each line holds whitespace-separated words; the first word tells what the
//! line maps: `CL:` a class, `MD:` a method, `FD:` a field. Other lines are
//! passed over.
use vstd::prelude::*;

use crate::text::{chars_of, is_text, to_string, words, words_vec};

verus! {

/// The row that a line of an SRG file asks to insert.
#[derive(Debug, PartialEq, Eq)]
pub enum SrgAction {
    /// A class, into `forge_classes`.
    InsertClass { srg: String, named: String },
    /// A method, into `forge_methods`.
    InsertMethod { srg: String, desc: String, named: String },
    /// A field, into `forge_fields`.
    InsertField { srg: String, named: String },
    /// Nothing to insert.
    Skip,
}

pub enum SrgActionView {
    InsertClass { srg: Seq<char>, named: Seq<char> },
    InsertMethod { srg: Seq<char>, desc: Seq<char>, named: Seq<char> },
    InsertField { srg: Seq<char>, named: Seq<char> },
    Skip,
}

impl View for SrgAction {
    type V = SrgActionView;

    open spec fn view(&self) -> SrgActionView {
        match self {
            SrgAction::InsertClass { srg, named } => SrgActionView::InsertClass {
                srg: srg@,
                named: named@,
            },
            SrgAction::InsertMethod { srg, desc, named } => SrgActionView::InsertMethod {
                srg: srg@,
                desc: desc@,
                named: named@,
            },
            SrgAction::InsertField { srg, named } => SrgActionView::InsertField {
                srg: srg@,
                named: named@,
            },
            SrgAction::Skip => SrgActionView::Skip,
        }
    }
}

/// A line that the reader handles without fault: it has a first word, and
/// as many words as its kind reads.
pub open spec fn srg_line_ok(l: Seq<char>) -> bool {
    let w = words(l);
    if w.len() == 0 {
        false
    } else if w[0] == "CL:"@ {
        w.len() >= 3
    } else if w[0] == "MD:"@ {
        w.len() >= 4
    } else if w[0] == "FD:"@ {
        w.len() >= 3
    } else {
        true
    }
}

/// The row for an SRG line: for `CL:` the second and third words, for
/// `MD:` the second, third and fourth, for `FD:` the second and third.
pub open spec fn srg_action_spec(l: Seq<char>) -> SrgActionView {
    let w = words(l);
    if w[0] == "CL:"@ {
        SrgActionView::InsertClass { srg: w[1], named: w[2] }
    } else if w[0] == "MD:"@ {
        SrgActionView::InsertMethod { srg: w[1], desc: w[2], named: w[3] }
    } else if w[0] == "FD:"@ {
        SrgActionView::InsertField { srg: w[1], named: w[2] }
    } else {
        SrgActionView::Skip
    }
}

/// Whether the reader handles `line` without fault.
pub fn srg_line_is_well_formed(line: &str) -> (b: bool)
    ensures
        b == srg_line_ok(line@),
{
    let v = chars_of(line);
    let w = words_vec(&v);
    if w.len() == 0 {
        return false;
    }
    assert(w@[0]@ == words(line@)[0]);
    if is_text(&w[0], "CL:") {
        w.len() >= 3
    } else if is_text(&w[0], "MD:") {
        w.len() >= 4
    } else if is_text(&w[0], "FD:") {
        w.len() >= 3
    } else {
        true
    }
}

/// The row that an SRG line asks to insert.
pub fn srg_action(line: &str) -> (a: SrgAction)
    requires
        srg_line_ok(line@),
    ensures
        a@ == srg_action_spec(line@),
{
    let v = chars_of(line);
    let w = words_vec(&v);
    assert(forall|i: int| 0 <= i < w@.len() ==> #[trigger] w@[i]@ == words(line@)[i]);
    if is_text(&w[0], "CL:") {
        SrgAction::InsertClass { srg: to_string(&w[1]), named: to_string(&w[2]) }
    } else if is_text(&w[0], "MD:") {
        SrgAction::InsertMethod {
            srg: to_string(&w[1]),
            desc: to_string(&w[2]),
            named: to_string(&w[3]),
        }
    } else if is_text(&w[0], "FD:") {
        SrgAction::InsertField { srg: to_string(&w[1]), named: to_string(&w[2]) }
    } else {
        SrgAction::Skip
    }
}

/// The row of an SRG line is read from its first words alone, at fixed
/// places: a `CL:` line maps its second word (the obfuscated class) to its
/// third, an `FD:` line likewise for a field, and an `MD:` line stores its
/// second word (the obfuscated method), its third (the obfuscated
/// descriptor) and its fourth (the mapped name); any words after those,
/// such as the mapped descriptor of a method, change nothing.
pub proof fn law_srg_rows_by_word_position(l: Seq<char>, l2: Seq<char>)
    requires
        srg_line_ok(l),
        words(l2).len() >= words(l).len(),
        words(l2).take(words(l).len() as int) == words(l),
    ensures
        srg_line_ok(l2),
        srg_action_spec(l2) == srg_action_spec(l),
        words(l)[0] == "CL:"@ ==> srg_action_spec(l) == (SrgActionView::InsertClass {
            srg: words(l)[1],
            named: words(l)[2],
        }),
        words(l)[0] == "MD:"@ ==> srg_action_spec(l) == (SrgActionView::InsertMethod {
            srg: words(l)[1],
            desc: words(l)[2],
            named: words(l)[3],
        }),
        words(l)[0] == "FD:"@ ==> srg_action_spec(l) == (SrgActionView::InsertField {
            srg: words(l)[1],
            named: words(l)[2],
        }),
{
    reveal_strlit("CL:");
    reveal_strlit("MD:");
    reveal_strlit("FD:");
    assert("CL:"@[0] != "MD:"@[0] && "CL:"@[0] != "FD:"@[0] && "MD:"@[0] != "FD:"@[0]);
    let w = words(l);
    let w2 = words(l2);
    assert forall|i: int| 0 <= i < w.len() implies w2[i] == w[i] by {
        assert(w2.take(w.len() as int)[i] == w2[i]);
    }
}

} // verus!
