//! The reader of Fabric Tiny mapping files, in their two versions.
//!
//! A Tiny file starts with a header line that names the version (`v1` or
//! `tiny` for version 2) and the namespaces of the columns. Each line holds
//! whitespace-separated words, the first of which tells what the line maps.
//! Both readers are state machines: each line gives the row to insert, and
//! the database identifier of an inserted class or method is handed back.
use std::collections::BTreeMap;
use vstd::prelude::*;

use crate::json::{json_integer_object, to_json_object};
use crate::text::{
    chars_of, is_text, is_whitespace, is_ws, parse_i64, parse_i64_spec, starts_with, to_string,
    views, words, words_vec,
};

verus! {

broadcast use vstd::std_specs::btree::group_btree_axioms, vstd::laws_cmp::group_laws_cmp;

/// The version of a Tiny file.
#[derive(Clone, Copy, PartialEq, Eq, Debug)]
pub enum TinyVersion {
    V1,
    V2,
}

/// Why a Tiny file could not be read.
#[derive(Debug, PartialEq, Eq)]
pub enum TinyError {
    /// The file has no line.
    EmptyFile,
    /// The first line starts with neither `v1` nor `tiny`.
    UnknownVersion,
    /// The header names no `intermediary` column.
    MissingIntermediary,
    /// The header names no `named` column.
    MissingNamed,
    /// A parameter line holds no integer index; the word it holds instead.
    InvalidParameterIndex(String),
}

pub enum TinyErrorView {
    EmptyFile,
    UnknownVersion,
    MissingIntermediary,
    MissingNamed,
    InvalidParameterIndex(Seq<char>),
}

impl View for TinyError {
    type V = TinyErrorView;

    open spec fn view(&self) -> TinyErrorView {
        match self {
            TinyError::EmptyFile => TinyErrorView::EmptyFile,
            TinyError::UnknownVersion => TinyErrorView::UnknownVersion,
            TinyError::MissingIntermediary => TinyErrorView::MissingIntermediary,
            TinyError::MissingNamed => TinyErrorView::MissingNamed,
            TinyError::InvalidParameterIndex(w) => TinyErrorView::InvalidParameterIndex(w@),
        }
    }
}

/// The version that the first line of a Tiny file announces.
pub open spec fn tiny_version_spec(ls: Seq<Seq<char>>) -> Result<TinyVersion, TinyErrorView> {
    if ls.len() == 0 {
        Err(TinyErrorView::EmptyFile)
    } else if "v1"@.is_prefix_of(ls[0]) {
        Ok(TinyVersion::V1)
    } else if "tiny"@.is_prefix_of(ls[0]) {
        Ok(TinyVersion::V2)
    } else {
        Err(TinyErrorView::UnknownVersion)
    }
}

/// The version of the Tiny file whose lines are `lines`.
pub fn tiny_version(lines: &Vec<String>) -> (r: Result<TinyVersion, TinyError>)
    ensures
        match r {
            Ok(v) => tiny_version_spec(views(lines@)) == Ok::<TinyVersion, TinyErrorView>(v),
            Err(e) => tiny_version_spec(views(lines@)) == Err::<TinyVersion, TinyErrorView>(e@),
        },
{
    if lines.len() == 0 {
        return Err(TinyError::EmptyFile);
    }
    let first = chars_of(lines[0].as_str());
    assert(first@ == views(lines@)[0]);
    if starts_with(&first, &chars_of("v1")) {
        Ok(TinyVersion::V1)
    } else if starts_with(&first, &chars_of("tiny")) {
        Ok(TinyVersion::V2)
    } else {
        Err(TinyError::UnknownVersion)
    }
}

/// The first position at or after `i` where the word `w` stands in `ws`.
pub open spec fn position_from(ws: Seq<Seq<char>>, w: Seq<char>, i: int) -> Option<int>
    decreases ws.len() - i,
{
    if i < 0 || i >= ws.len() {
        None
    } else if ws[i] == w {
        Some(i)
    } else {
        position_from(ws, w, i + 1)
    }
}

/// The first position where the word `w` stands in `ws`.
pub open spec fn position(ws: Seq<Seq<char>>, w: Seq<char>) -> Option<int> {
    position_from(ws, w, 0)
}

/// A position that `position_from` reports holds the word and lies in range.
pub proof fn lemma_position_from(ws: Seq<Seq<char>>, w: Seq<char>, i: int)
    ensures
        position_from(ws, w, i) matches Some(k) ==> i <= k < ws.len() && ws[k] == w,
    decreases ws.len() - i,
{
    if 0 <= i < ws.len() && ws[i] != w {
        lemma_position_from(ws, w, i + 1);
    }
}

/// The first position of the text `w` among the words `ws`.
pub fn position_of(ws: &Vec<Vec<char>>, w: &str) -> (r: Option<usize>)
    ensures
        r matches Some(k) ==> position(crate::text::vec_views(ws@), w@) == Some(k as int),
        r is None ==> position(crate::text::vec_views(ws@), w@) is None,
{
    let ghost seqs = crate::text::vec_views(ws@);
    let n = ws.len();
    for i in 0..n
        invariant
            n == ws@.len() == seqs.len(),
            seqs == crate::text::vec_views(ws@),
            position(seqs, w@) == position_from(seqs, w@, i as int),
    {
        assert(seqs[i as int] == ws@[i as int]@);
        if is_text(&ws[i], w) {
            return Some(i);
        }
    }
    None
}

// ---------------------------------------------------------------------------
// Version 1
// ---------------------------------------------------------------------------

/// The state of the reader of version 1: the columns of the header, and the
/// class last inserted.
#[derive(Clone, Copy, PartialEq, Eq, Debug)]
pub struct TinyV1Parser {
    pub intermediary_index: usize,
    pub named_index: usize,
    pub class_id: Option<i64>,
}

/// The row that a line of a version 1 file asks to insert.
#[derive(Debug, PartialEq, Eq)]
pub enum TinyV1Action {
    /// A class, into `fabric_classes_v1`; its identifier is then handed back.
    InsertClass { official: String, named: String, intermediary: String },
    /// A method of the class `class_id`, into `fabric_methods_v1`.
    InsertMethod {
        class_id: i64,
        parent_class: String,
        desc: String,
        official: String,
        named: String,
        intermediary: String,
    },
    /// A field of the class `class_id`, into `fabric_fields_v1`.
    InsertField {
        class_id: i64,
        parent_class: String,
        field_type: String,
        official: String,
        named: String,
        intermediary: String,
    },
    /// Nothing to insert.
    Skip,
}

pub enum TinyV1ActionView {
    InsertClass { official: Seq<char>, named: Seq<char>, intermediary: Seq<char> },
    InsertMethod {
        class_id: i64,
        parent_class: Seq<char>,
        desc: Seq<char>,
        official: Seq<char>,
        named: Seq<char>,
        intermediary: Seq<char>,
    },
    InsertField {
        class_id: i64,
        parent_class: Seq<char>,
        field_type: Seq<char>,
        official: Seq<char>,
        named: Seq<char>,
        intermediary: Seq<char>,
    },
    Skip,
}

impl View for TinyV1Action {
    type V = TinyV1ActionView;

    open spec fn view(&self) -> TinyV1ActionView {
        match self {
            TinyV1Action::InsertClass { official, named, intermediary } =>
                TinyV1ActionView::InsertClass {
                official: official@,
                named: named@,
                intermediary: intermediary@,
            },
            TinyV1Action::InsertMethod {
                class_id,
                parent_class,
                desc,
                official,
                named,
                intermediary,
            } => TinyV1ActionView::InsertMethod {
                class_id: *class_id,
                parent_class: parent_class@,
                desc: desc@,
                official: official@,
                named: named@,
                intermediary: intermediary@,
            },
            TinyV1Action::InsertField {
                class_id,
                parent_class,
                field_type,
                official,
                named,
                intermediary,
            } => TinyV1ActionView::InsertField {
                class_id: *class_id,
                parent_class: parent_class@,
                field_type: field_type@,
                official: official@,
                named: named@,
                intermediary: intermediary@,
            },
            TinyV1Action::Skip => TinyV1ActionView::Skip,
        }
    }
}

/// A line that the version 1 reader handles without fault in state `s`:
/// it has a first word, and a class, method or field line has the words
/// that the header columns point at.
pub open spec fn tiny_v1_line_ok(s: TinyV1Parser, l: Seq<char>) -> bool {
    let w = words(l);
    if w.len() == 0 {
        false
    } else if w[0] == "v1"@ {
        true
    } else if w[0] == "CLASS"@ {
        w.len() > 1 && s.named_index < w.len() && s.intermediary_index < w.len()
    } else if w[0] == "METHOD"@ || w[0] == "FIELD"@ {
        s.class_id is None || (w.len() > 3 && s.intermediary_index + 2 < w.len()
            && s.named_index + 2 < w.len())
    } else {
        true
    }
}

/// One step of the version 1 reader on line `l` in state `s`.
pub open spec fn tiny_v1_step_spec(s: TinyV1Parser, l: Seq<char>) -> (
    TinyV1Parser,
    Result<TinyV1ActionView, TinyErrorView>,
) {
    let w = words(l);
    if w[0] == "v1"@ {
        match position(w, "intermediary"@) {
            None => (s, Err(TinyErrorView::MissingIntermediary)),
            Some(ii) => match position(w, "named"@) {
                None => (
                    TinyV1Parser {
                        intermediary_index: ii as usize,
                        named_index: s.named_index,
                        class_id: s.class_id,
                    },
                    Err(TinyErrorView::MissingNamed),
                ),
                Some(ni) => (
                    TinyV1Parser {
                        intermediary_index: ii as usize,
                        named_index: ni as usize,
                        class_id: s.class_id,
                    },
                    Ok(TinyV1ActionView::Skip),
                ),
            },
        }
    } else if w[0] == "CLASS"@ {
        (
            s,
            Ok(
                TinyV1ActionView::InsertClass {
                    official: w[1],
                    named: w[s.named_index as int],
                    intermediary: w[s.intermediary_index as int],
                },
            ),
        )
    } else if w[0] == "METHOD"@ {
        match s.class_id {
            Some(id) => (
                s,
                Ok(
                    TinyV1ActionView::InsertMethod {
                        class_id: id,
                        parent_class: w[1],
                        desc: w[2],
                        official: w[3],
                        named: w[s.named_index + 2],
                        intermediary: w[s.intermediary_index + 2],
                    },
                ),
            ),
            None => (s, Ok(TinyV1ActionView::Skip)),
        }
    } else if w[0] == "FIELD"@ {
        match s.class_id {
            Some(id) => (
                s,
                Ok(
                    TinyV1ActionView::InsertField {
                        class_id: id,
                        parent_class: w[1],
                        field_type: w[2],
                        official: w[3],
                        named: w[s.named_index + 2],
                        intermediary: w[s.intermediary_index + 2],
                    },
                ),
            ),
            None => (s, Ok(TinyV1ActionView::Skip)),
        }
    } else {
        (s, Ok(TinyV1ActionView::Skip))
    }
}

impl TinyV1Parser {
    /// A reader that has read no header and no class yet.
    pub fn new() -> (p: TinyV1Parser)
        ensures
            p == (TinyV1Parser { intermediary_index: 0, named_index: 0, class_id: None }),
    {
        TinyV1Parser { intermediary_index: 0, named_index: 0, class_id: None }
    }

    /// Hands back the database identifier of the class just inserted; the
    /// following members belong to it.
    pub fn class_inserted(&mut self, id: i64)
        ensures
            *final(self) == (TinyV1Parser { class_id: Some(id), ..*old(self) }),
    {
        self.class_id = Some(id);
    }

    /// Whether the reader handles `line` without fault in this state.
    pub fn line_is_well_formed(&self, line: &str) -> (b: bool)
        ensures
            b == tiny_v1_line_ok(*self, line@),
    {
        let v = chars_of(line);
        let w = words_vec(&v);
        if w.len() == 0 {
            return false;
        }
        assert(w@[0]@ == words(line@)[0]);
        if is_text(&w[0], "v1") {
            true
        } else if is_text(&w[0], "CLASS") {
            w.len() > 1 && self.named_index < w.len() && self.intermediary_index < w.len()
        } else if is_text(&w[0], "METHOD") || is_text(&w[0], "FIELD") {
            self.class_id.is_none() || (w.len() > 3 && self.intermediary_index < w.len() - 2
                && self.named_index < w.len() - 2)
        } else {
            true
        }
    }

    /// Reads one line: returns the row that it asks to insert and moves to
    /// the next state, as `tiny_v1_step_spec` says.
    pub fn step(&mut self, line: &str) -> (r: Result<TinyV1Action, TinyError>)
        requires
            tiny_v1_line_ok(*old(self), line@),
        ensures
            *final(self) == tiny_v1_step_spec(*old(self), line@).0,
            match r {
                Ok(a) => tiny_v1_step_spec(*old(self), line@).1 == Ok::<
                    TinyV1ActionView,
                    TinyErrorView,
                >(a@),
                Err(e) => tiny_v1_step_spec(*old(self), line@).1 == Err::<
                    TinyV1ActionView,
                    TinyErrorView,
                >(e@),
            },
    {
        let v = chars_of(line);
        let w = words_vec(&v);
        let ghost ws = words(line@);
        assert(forall|i: int| 0 <= i < w@.len() ==> #[trigger] w@[i]@ == ws[i]);
        assert(w@.len() == w.len());
        if is_text(&w[0], "v1") {
            let ii = match position_of(&w, "intermediary") {
                Some(k) => k,
                None => {
                    return Err(TinyError::MissingIntermediary);
                },
            };
            self.intermediary_index = ii;
            let ni = match position_of(&w, "named") {
                Some(k) => k,
                None => {
                    return Err(TinyError::MissingNamed);
                },
            };
            self.named_index = ni;
            Ok(TinyV1Action::Skip)
        } else if is_text(&w[0], "CLASS") {
            Ok(
                TinyV1Action::InsertClass {
                    official: to_string(&w[1]),
                    named: to_string(&w[self.named_index]),
                    intermediary: to_string(&w[self.intermediary_index]),
                },
            )
        } else if is_text(&w[0], "METHOD") {
            assert(ws[0] == "METHOD"@);
            match self.class_id {
                Some(id) => Ok(
                    TinyV1Action::InsertMethod {
                        class_id: id,
                        parent_class: to_string(&w[1]),
                        desc: to_string(&w[2]),
                        official: to_string(&w[3]),
                        named: to_string(&w[self.named_index + 2]),
                        intermediary: to_string(&w[self.intermediary_index + 2]),
                    },
                ),
                None => Ok(TinyV1Action::Skip),
            }
        } else if is_text(&w[0], "FIELD") {
            match self.class_id {
                Some(id) => Ok(
                    TinyV1Action::InsertField {
                        class_id: id,
                        parent_class: to_string(&w[1]),
                        field_type: to_string(&w[2]),
                        official: to_string(&w[3]),
                        named: to_string(&w[self.named_index + 2]),
                        intermediary: to_string(&w[self.intermediary_index + 2]),
                    },
                ),
                None => Ok(TinyV1Action::Skip),
            }
        } else {
            Ok(TinyV1Action::Skip)
        }
    }
}

// ---------------------------------------------------------------------------
// Version 2
// ---------------------------------------------------------------------------

/// The state of the reader of version 2: the columns of the header, the
/// class and the method last inserted (0 before any), and the parameter
/// names read since the last method line, by index.
pub struct TinyV2Parser {
    pub intermediary_index: usize,
    pub named_index: usize,
    pub class_id: i64,
    pub method_id: i64,
    pub parameters: BTreeMap<i64, String>,
}

pub struct TinyV2StateView {
    pub intermediary_index: usize,
    pub named_index: usize,
    pub class_id: i64,
    pub method_id: i64,
    pub parameters: Map<i64, Seq<char>>,
}

impl View for TinyV2Parser {
    type V = TinyV2StateView;

    open spec fn view(&self) -> TinyV2StateView {
        TinyV2StateView {
            intermediary_index: self.intermediary_index,
            named_index: self.named_index,
            class_id: self.class_id,
            method_id: self.method_id,
            parameters: self.parameters@.map_values(|v: String| v@),
        }
    }
}

/// The parameters of a method, as JSON, to store with the method `method_id`.
#[derive(Debug, PartialEq, Eq)]
pub struct ParameterUpdate {
    pub method_id: i64,
    pub parameters: String,
}

impl View for ParameterUpdate {
    type V = (i64, Seq<char>);

    open spec fn view(&self) -> (i64, Seq<char>) {
        (self.method_id, self.parameters@)
    }
}

/// The row that a line of a version 2 file asks to insert.
#[derive(Debug, PartialEq, Eq)]
pub enum TinyV2Action {
    /// A class, into `fabric_classes_v2`; its identifier is then handed back.
    InsertClass { intermediary: String, named: String },
    /// A field of the class `class_id`, into `fabric_fields_v2`.
    InsertField { class_id: i64, field_type: String, intermediary: String, named: String },
    /// A method of the class `class_id`, into `fabric_methods_v2`, after the
    /// parameters of the previous method are stored with it when `update`
    /// says so; the identifier of the new method is then handed back.
    InsertMethod {
        update: Option<ParameterUpdate>,
        class_id: i64,
        desc: String,
        intermediary: String,
        named: String,
    },
    /// Nothing to insert.
    Skip,
}

pub enum TinyV2ActionView {
    InsertClass { intermediary: Seq<char>, named: Seq<char> },
    InsertField {
        class_id: i64,
        field_type: Seq<char>,
        intermediary: Seq<char>,
        named: Seq<char>,
    },
    InsertMethod {
        update: Option<(i64, Seq<char>)>,
        class_id: i64,
        desc: Seq<char>,
        intermediary: Seq<char>,
        named: Seq<char>,
    },
    Skip,
}

pub open spec fn update_view(u: Option<ParameterUpdate>) -> Option<(i64, Seq<char>)> {
    match u {
        Some(p) => Some(p@),
        None => None,
    }
}

impl View for TinyV2Action {
    type V = TinyV2ActionView;

    open spec fn view(&self) -> TinyV2ActionView {
        match self {
            TinyV2Action::InsertClass { intermediary, named } => TinyV2ActionView::InsertClass {
                intermediary: intermediary@,
                named: named@,
            },
            TinyV2Action::InsertField { class_id, field_type, intermediary, named } =>
                TinyV2ActionView::InsertField {
                class_id: *class_id,
                field_type: field_type@,
                intermediary: intermediary@,
                named: named@,
            },
            TinyV2Action::InsertMethod { update, class_id, desc, intermediary, named } =>
                TinyV2ActionView::InsertMethod {
                update: update_view(*update),
                class_id: *class_id,
                desc: desc@,
                intermediary: intermediary@,
                named: named@,
            },
            TinyV2Action::Skip => TinyV2ActionView::Skip,
        }
    }
}

/// The parameters to store with the last method, before another method is
/// read or at the end of the file: the names read since that method's line,
/// as a JSON object, when a method was inserted and a name was read.
pub open spec fn pending_update_spec(s: TinyV2StateView) -> Option<(i64, Seq<char>)> {
    if s.method_id != 0 && !s.parameters.is_empty() {
        Some((s.method_id, json_integer_object(s.parameters)))
    } else {
        None
    }
}

/// A line that starts with whitespace: in version 2, members and their
/// comments are indented, classes are not.
pub open spec fn is_indented(l: Seq<char>) -> bool {
    l.len() > 0 && is_ws(l[0])
}

/// A line that the version 2 reader handles without fault in state `s`:
/// it has a first word, and the words that the header columns point at.
pub open spec fn tiny_v2_line_ok(s: TinyV2StateView, l: Seq<char>) -> bool {
    let w = words(l);
    if w.len() == 0 {
        false
    } else if w[0] == "tiny"@ {
        true
    } else if w[0] == "c"@ {
        is_indented(l) || (2 <= s.intermediary_index && 2 <= s.named_index
            && s.intermediary_index - 2 < w.len() && s.named_index - 2 < w.len())
    } else if w[0] == "f"@ || w[0] == "m"@ {
        w.len() > 1 && 1 <= s.intermediary_index && 1 <= s.named_index && s.intermediary_index
            - 1 < w.len() && s.named_index - 1 < w.len()
    } else if w[0] == "p"@ {
        w.len() > 1 && (parse_i64_spec(w[1]) is None || w.len() > 2)
    } else {
        true
    }
}

/// One step of the version 2 reader on line `l` in state `s`. A `c` line
/// is a class when it is not indented, and a comment, passed over, when it
/// is. A method line stores the parameters of the previous method and
/// starts gathering its own.
pub open spec fn tiny_v2_step_spec(s: TinyV2StateView, l: Seq<char>) -> (
    TinyV2StateView,
    Result<TinyV2ActionView, TinyErrorView>,
) {
    let w = words(l);
    if w[0] == "tiny"@ {
        match position(w, "intermediary"@) {
            None => (s, Err(TinyErrorView::MissingIntermediary)),
            Some(ii) => match position(w, "named"@) {
                None => (
                    TinyV2StateView { intermediary_index: ii as usize, ..s },
                    Err(TinyErrorView::MissingNamed),
                ),
                Some(ni) => (
                    TinyV2StateView {
                        intermediary_index: ii as usize,
                        named_index: ni as usize,
                        ..s
                    },
                    Ok(TinyV2ActionView::Skip),
                ),
            },
        }
    } else if w[0] == "c"@ {
        if is_indented(l) {
            (s, Ok(TinyV2ActionView::Skip))
        } else {
            (
                s,
                Ok(
                    TinyV2ActionView::InsertClass {
                        intermediary: w[s.intermediary_index - 2],
                        named: w[s.named_index - 2],
                    },
                ),
            )
        }
    } else if w[0] == "f"@ {
        (
            s,
            Ok(
                TinyV2ActionView::InsertField {
                    class_id: s.class_id,
                    field_type: w[1],
                    intermediary: w[s.intermediary_index - 1],
                    named: w[s.named_index - 1],
                },
            ),
        )
    } else if w[0] == "m"@ {
        (
            TinyV2StateView { parameters: Map::<i64, Seq<char>>::empty(), ..s },
            Ok(
                TinyV2ActionView::InsertMethod {
                    update: pending_update_spec(s),
                    class_id: s.class_id,
                    desc: w[1],
                    intermediary: w[s.intermediary_index - 1],
                    named: w[s.named_index - 1],
                },
            ),
        )
    } else if w[0] == "p"@ {
        match parse_i64_spec(w[1]) {
            None => (s, Err(TinyErrorView::InvalidParameterIndex(w[1]))),
            Some(index) => (
                TinyV2StateView { parameters: s.parameters.insert(index, w[2]), ..s },
                Ok(TinyV2ActionView::Skip),
            ),
        }
    } else {
        (s, Ok(TinyV2ActionView::Skip))
    }
}

impl TinyV2Parser {
    /// A reader that has read no header, class, method or parameter yet.
    pub fn new() -> (p: TinyV2Parser)
        ensures
            p@ == (TinyV2StateView {
                intermediary_index: 0,
                named_index: 0,
                class_id: 0,
                method_id: 0,
                parameters: Map::<i64, Seq<char>>::empty(),
            }),
    {
        let p = TinyV2Parser {
            intermediary_index: 0,
            named_index: 0,
            class_id: 0,
            method_id: 0,
            parameters: BTreeMap::new(),
        };
        assert(p@.parameters =~= Map::<i64, Seq<char>>::empty());
        p
    }

    /// Hands back the database identifier of the class just inserted; the
    /// following fields and methods belong to it.
    pub fn class_inserted(&mut self, id: i64)
        ensures
            final(self)@ == (TinyV2StateView { class_id: id, ..old(self)@ }),
    {
        self.class_id = id;
    }

    /// Hands back the database identifier of the method just inserted; the
    /// parameters read next are stored with it.
    pub fn method_inserted(&mut self, id: i64)
        ensures
            final(self)@ == (TinyV2StateView { method_id: id, ..old(self)@ }),
    {
        self.method_id = id;
    }

    /// The parameters to store with the last method, now: the names read
    /// since its line, written as JSON by `serde_json`, when a method was
    /// inserted and a name was read.
    pub fn pending_update(&self) -> (r: Option<ParameterUpdate>)
        ensures
            update_view(r) == pending_update_spec(self@),
    {
        assert(self@.parameters.dom() =~= self.parameters@.dom());
        if self.method_id != 0 && !self.parameters.is_empty() {
            let text = to_json_object(&self.parameters).unwrap();
            Some(ParameterUpdate { method_id: self.method_id, parameters: text })
        } else {
            None
        }
    }

    /// What is left to store once every line was read: the parameters of
    /// the last method, as `pending_update` gives them.
    pub fn finish(&self) -> (r: Option<ParameterUpdate>)
        ensures
            update_view(r) == pending_update_spec(self@),
    {
        self.pending_update()
    }

    /// Whether the reader handles `line` without fault in this state.
    pub fn line_is_well_formed(&self, line: &str) -> (b: bool)
        ensures
            b == tiny_v2_line_ok(self@, line@),
    {
        let v = chars_of(line);
        let w = words_vec(&v);
        if w.len() == 0 {
            return false;
        }
        let ghost ws = words(line@);
        assert(forall|i: int| 0 <= i < w@.len() ==> #[trigger] w@[i]@ == ws[i]);
        let ii = self.intermediary_index;
        let ni = self.named_index;
        if is_text(&w[0], "tiny") {
            true
        } else if is_text(&w[0], "c") {
            (v.len() > 0 && is_whitespace(v[0])) || (2 <= ii && 2 <= ni && ii - 2 < w.len() && ni
                - 2 < w.len())
        } else if is_text(&w[0], "f") || is_text(&w[0], "m") {
            w.len() > 1 && 1 <= ii && 1 <= ni && ii - 1 < w.len() && ni - 1 < w.len()
        } else if is_text(&w[0], "p") {
            w.len() > 1 && (parse_i64(&w[1]).is_none() || w.len() > 2)
        } else {
            true
        }
    }

    /// Starts the method that the words `w` of an `m` line describe, with
    /// `update` as the parameters to store first with the previous method;
    /// the parameters gathered so far are dropped.
    pub fn begin_method(&mut self, w: &Vec<Vec<char>>, update: Option<ParameterUpdate>) -> (a:
        TinyV2Action)
        requires
            w@.len() > 1,
            1 <= old(self).intermediary_index,
            1 <= old(self).named_index,
            old(self).intermediary_index - 1 < w@.len(),
            old(self).named_index - 1 < w@.len(),
        ensures
            final(self)@ == (TinyV2StateView {
                parameters: Map::<i64, Seq<char>>::empty(),
                ..old(self)@
            }),
            a@ == (TinyV2ActionView::InsertMethod {
                update: update_view(update),
                class_id: old(self)@.class_id,
                desc: w@[1]@,
                intermediary: w@[old(self).intermediary_index - 1]@,
                named: w@[old(self).named_index - 1]@,
            }),
    {
        self.parameters = BTreeMap::new();
        assert(self@.parameters =~= Map::<i64, Seq<char>>::empty());
        TinyV2Action::InsertMethod {
            update,
            class_id: self.class_id,
            desc: to_string(&w[1]),
            intermediary: to_string(&w[self.intermediary_index - 1]),
            named: to_string(&w[self.named_index - 1]),
        }
    }

    /// Reads one line: returns the row that it asks to insert and moves to
    /// the next state, as `tiny_v2_step_spec` says.
    pub fn step(&mut self, line: &str) -> (r: Result<TinyV2Action, TinyError>)
        requires
            tiny_v2_line_ok(old(self)@, line@),
        ensures
            final(self)@ == tiny_v2_step_spec(old(self)@, line@).0,
            match r {
                Ok(a) => tiny_v2_step_spec(old(self)@, line@).1 == Ok::<
                    TinyV2ActionView,
                    TinyErrorView,
                >(a@),
                Err(e) => tiny_v2_step_spec(old(self)@, line@).1 == Err::<
                    TinyV2ActionView,
                    TinyErrorView,
                >(e@),
            },
    {
        let v = chars_of(line);
        let w = words_vec(&v);
        let ghost ws = words(line@);
        assert(forall|i: int| 0 <= i < w@.len() ==> #[trigger] w@[i]@ == ws[i]);
        assert(w@.len() == w.len());
        if is_text(&w[0], "tiny") {
            let ii = match position_of(&w, "intermediary") {
                Some(k) => k,
                None => {
                    return Err(TinyError::MissingIntermediary);
                },
            };
            self.intermediary_index = ii;
            let ni = match position_of(&w, "named") {
                Some(k) => k,
                None => {
                    return Err(TinyError::MissingNamed);
                },
            };
            self.named_index = ni;
            Ok(TinyV2Action::Skip)
        } else if is_text(&w[0], "c") {
            if v.len() > 0 && is_whitespace(v[0]) {
                Ok(TinyV2Action::Skip)
            } else {
                Ok(
                    TinyV2Action::InsertClass {
                        intermediary: to_string(&w[self.intermediary_index - 2]),
                        named: to_string(&w[self.named_index - 2]),
                    },
                )
            }
        } else if is_text(&w[0], "f") {
            Ok(
                TinyV2Action::InsertField {
                    class_id: self.class_id,
                    field_type: to_string(&w[1]),
                    intermediary: to_string(&w[self.intermediary_index - 1]),
                    named: to_string(&w[self.named_index - 1]),
                },
            )
        } else if is_text(&w[0], "m") {
            let update = self.pending_update();
            Ok(self.begin_method(&w, update))
        } else if is_text(&w[0], "p") {
            match parse_i64(&w[1]) {
                None => Err(TinyError::InvalidParameterIndex(to_string(&w[1]))),
                Some(index) => {
                    let name = to_string(&w[2]);
                    self.parameters.insert(index, name);
                    assert(self@.parameters =~= old(self)@.parameters.insert(index, ws[2]));
                    Ok(TinyV2Action::Skip)
                },
            }
        } else {
            Ok(TinyV2Action::Skip)
        }
    }
}

// ---------------------------------------------------------------------------
// Choosing the reader
// ---------------------------------------------------------------------------

/// The reader of a Tiny file, for the version that its first line names.
pub enum TinyReader {
    V1(TinyV1Parser),
    V2(TinyV2Parser),
}

/// The reader for the Tiny file whose lines are `lines`: a fresh version 1
/// reader when the first line starts with `v1`, a fresh version 2 reader
/// when it starts with `tiny`, and the error of `tiny_version_spec`
/// otherwise. The whole file then goes through that reader, header
/// included.
pub fn tiny_reader(lines: &Vec<String>) -> (r: Result<TinyReader, TinyError>)
    ensures
        match tiny_version_spec(views(lines@)) {
            Ok(TinyVersion::V1) => r matches Ok(TinyReader::V1(p)) && p == (TinyV1Parser {
                intermediary_index: 0,
                named_index: 0,
                class_id: None,
            }),
            Ok(TinyVersion::V2) => r matches Ok(TinyReader::V2(p)) && p@ == (TinyV2StateView {
                intermediary_index: 0,
                named_index: 0,
                class_id: 0,
                method_id: 0,
                parameters: Map::<i64, Seq<char>>::empty(),
            }),
            Err(e) => r matches Err(e2) && e2@ == e,
        },
{
    match tiny_version(lines) {
        Ok(TinyVersion::V1) => Ok(TinyReader::V1(TinyV1Parser::new())),
        Ok(TinyVersion::V2) => Ok(TinyReader::V2(TinyV2Parser::new())),
        Err(e) => Err(e),
    }
}

// ---------------------------------------------------------------------------
// Laws
// ---------------------------------------------------------------------------

/// The first words that the version 1 reader tells apart are distinct.
pub proof fn lemma_v1_keywords_distinct()
    ensures
        "v1"@ != "CLASS"@,
        "v1"@ != "METHOD"@,
        "v1"@ != "FIELD"@,
        "CLASS"@ != "METHOD"@,
        "CLASS"@ != "FIELD"@,
        "METHOD"@ != "FIELD"@,
{
    reveal_strlit("v1");
    reveal_strlit("CLASS");
    reveal_strlit("METHOD");
    reveal_strlit("FIELD");
    assert("v1"@[0] != "CLASS"@[0]);
    assert("v1"@[0] != "METHOD"@[0]);
    assert("v1"@[0] != "FIELD"@[0]);
    assert("CLASS"@[0] != "METHOD"@[0]);
    assert("CLASS"@[0] != "FIELD"@[0]);
    assert("METHOD"@[0] != "FIELD"@[0]);
}

/// The first words that the version 2 reader tells apart are distinct.
pub proof fn lemma_v2_keywords_distinct()
    ensures
        "tiny"@ != "c"@,
        "tiny"@ != "f"@,
        "tiny"@ != "m"@,
        "tiny"@ != "p"@,
        "c"@ != "f"@,
        "c"@ != "m"@,
        "c"@ != "p"@,
        "f"@ != "m"@,
        "f"@ != "p"@,
        "m"@ != "p"@,
{
    reveal_strlit("tiny");
    reveal_strlit("c");
    reveal_strlit("f");
    reveal_strlit("m");
    reveal_strlit("p");
    assert("tiny"@.len() != "c"@.len());
    assert("tiny"@.len() != "f"@.len());
    assert("tiny"@.len() != "m"@.len());
    assert("tiny"@.len() != "p"@.len());
    assert("c"@[0] != "f"@[0]);
    assert("c"@[0] != "m"@[0]);
    assert("c"@[0] != "p"@[0]);
    assert("f"@[0] != "m"@[0]);
    assert("f"@[0] != "p"@[0]);
    assert("m"@[0] != "p"@[0]);
}

/// In version 1, a method or field read before any class is inserted is
/// passed over.
pub proof fn law_v1_members_need_a_class(s: TinyV1Parser, l: Seq<char>)
    requires
        s.class_id is None,
        words(l).len() > 0,
        words(l)[0] == "METHOD"@ || words(l)[0] == "FIELD"@,
    ensures
        tiny_v1_step_spec(s, l) == (s, Ok::<TinyV1ActionView, TinyErrorView>(
            TinyV1ActionView::Skip,
        )),
{
    lemma_v1_keywords_distinct();
}

/// In version 1, once a class was inserted under `id`, its methods and
/// fields are recorded under `id`.
pub proof fn law_v1_members_under_inserted_class(s: TinyV1Parser, id: i64, l: Seq<char>)
    requires
        tiny_v1_line_ok(TinyV1Parser { class_id: Some(id), ..s }, l),
        words(l)[0] == "METHOD"@ || words(l)[0] == "FIELD"@,
    ensures
        match tiny_v1_step_spec(TinyV1Parser { class_id: Some(id), ..s }, l).1 {
            Ok(TinyV1ActionView::InsertMethod { class_id, .. }) => class_id == id,
            Ok(TinyV1ActionView::InsertField { class_id, .. }) => class_id == id,
            _ => false,
        },
{
    lemma_v1_keywords_distinct();
}

/// `w` with the words at positions `i` and `j` exchanged.
pub open spec fn exchange(w: Seq<Seq<char>>, i: int, j: int) -> Seq<Seq<char>> {
    w.update(i, w[j]).update(j, w[i])
}

/// The version 1 state with its two name columns exchanged.
pub open spec fn columns_swapped(s: TinyV1Parser) -> TinyV1Parser {
    TinyV1Parser {
        intermediary_index: s.named_index,
        named_index: s.intermediary_index,
        class_id: s.class_id,
    }
}

/// Line `l2` is line `l` of a version 1 file written with the
/// `intermediary` and `named` columns in each other's place, `s` being the
/// state of the reader before `l`: a header names the two columns at each
/// other's positions (both present and past the first two words, in a
/// header of fewer words than `usize` counts), a class,
/// method or field line has the words of the two columns exchanged, and any
/// other line keeps its first word.
pub open spec fn columns_exchanged(s: TinyV1Parser, l: Seq<char>, l2: Seq<char>) -> bool {
    let w = words(l);
    let w2 = words(l2);
    &&& w.len() > 0
    &&& w2.len() == w.len()
    &&& w2[0] == w[0]
    &&& if w[0] == "v1"@ {
        &&& w.len() <= usize::MAX
        &&& position(w, "intermediary"@) matches Some(ii) && ii >= 2
        &&& position(w, "named"@) matches Some(ni) && ni >= 2
        &&& position(w2, "intermediary"@) == position(w, "named"@)
        &&& position(w2, "named"@) == position(w, "intermediary"@)
    } else if w[0] == "CLASS"@ {
        w2 == exchange(w, s.intermediary_index as int, s.named_index as int)
    } else if w[0] == "METHOD"@ || w[0] == "FIELD"@ {
        w2 == exchange(w, s.intermediary_index + 2, s.named_index + 2)
    } else {
        true
    }
}

/// The columns of a state are unset (equal) or past the first two words.
pub open spec fn columns_placed(s: TinyV1Parser) -> bool {
    s.intermediary_index == s.named_index || (s.intermediary_index >= 2 && s.named_index >= 2)
}

/// One step of version 1 finds the name columns by their header names:
/// reading the line with the columns exchanged, from the state with the
/// columns exchanged, gives the same row and the exchanged next state.
pub proof fn law_v1_step_columns_by_name(s: TinyV1Parser, l: Seq<char>, l2: Seq<char>)
    requires
        tiny_v1_line_ok(s, l),
        columns_placed(s),
        columns_exchanged(s, l, l2),
    ensures
        tiny_v1_line_ok(columns_swapped(s), l2),
        tiny_v1_step_spec(columns_swapped(s), l2).0 == columns_swapped(
            tiny_v1_step_spec(s, l).0,
        ),
        tiny_v1_step_spec(columns_swapped(s), l2).1 == tiny_v1_step_spec(s, l).1,
        columns_placed(tiny_v1_step_spec(s, l).0),
{
    lemma_v1_keywords_distinct();
    let w = words(l);
    let w2 = words(l2);
    if w[0] == "v1"@ {
        lemma_position_from(w, "intermediary"@, 0);
        lemma_position_from(w, "named"@, 0);
    } else if w[0] == "CLASS"@ {
        assert(w2[1] == w[1]);
    } else if w[0] == "METHOD"@ || w[0] == "FIELD"@ {
        if s.class_id is Some {
            assert(w2[1] == w[1]);
            assert(w2[2] == w[2]);
            assert(w2[3] == w[3]);
        }
    }
}

/// The state of the version 1 reader before line `k` of `lines`, when each
/// inserted class was handed back the identifier that `ids` holds at its
/// line.
pub open spec fn v1_state_before(lines: Seq<Seq<char>>, ids: Seq<i64>, k: int) -> TinyV1Parser
    decreases k,
{
    if k <= 0 {
        TinyV1Parser { intermediary_index: 0, named_index: 0, class_id: None }
    } else {
        let s = v1_state_before(lines, ids, k - 1);
        let next = tiny_v1_step_spec(s, lines[k - 1]);
        if next.1 matches Ok(TinyV1ActionView::InsertClass { .. }) {
            TinyV1Parser { class_id: Some(ids[k - 1]), ..next.0 }
        } else {
            next.0
        }
    }
}

/// The row (or error) that line `k` of `lines` gives in a run of the
/// version 1 reader.
pub open spec fn v1_row(lines: Seq<Seq<char>>, ids: Seq<i64>, k: int) -> Result<
    TinyV1ActionView,
    TinyErrorView,
> {
    tiny_v1_step_spec(v1_state_before(lines, ids, k), lines[k]).1
}

proof fn lemma_v1_runs_exchanged(
    lines: Seq<Seq<char>>,
    lines2: Seq<Seq<char>>,
    ids: Seq<i64>,
    k: int,
)
    requires
        0 <= k <= lines.len() == lines2.len(),
        forall|j: int|
            0 <= j < lines.len() ==> tiny_v1_line_ok(#[trigger] v1_state_before(lines, ids, j), lines[j])
                && columns_exchanged(v1_state_before(lines, ids, j), lines[j], lines2[j]),
    ensures
        v1_state_before(lines2, ids, k) == columns_swapped(v1_state_before(lines, ids, k)),
        columns_placed(v1_state_before(lines, ids, k)),
    decreases k,
{
    if k > 0 {
        lemma_v1_runs_exchanged(lines, lines2, ids, k - 1);
        let s = v1_state_before(lines, ids, k - 1);
        law_v1_step_columns_by_name(s, lines[k - 1], lines2[k - 1]);
    }
}

/// A version 1 file finds its name columns by their header names: a file
/// written with the `intermediary` and `named` columns in each other's
/// place, in its header and in every class, method and field line, gives
/// the same rows, line by line, as the file itself (given the same class
/// identifiers).
pub proof fn law_v1_columns_found_by_name(
    lines: Seq<Seq<char>>,
    lines2: Seq<Seq<char>>,
    ids: Seq<i64>,
)
    requires
        lines.len() == lines2.len(),
        forall|j: int|
            0 <= j < lines.len() ==> tiny_v1_line_ok(#[trigger] v1_state_before(lines, ids, j), lines[j])
                && columns_exchanged(v1_state_before(lines, ids, j), lines[j], lines2[j]),
    ensures
        forall|k: int| 0 <= k < lines.len() ==> #[trigger] v1_row(lines2, ids, k) == v1_row(lines, ids, k),
{
    assert forall|k: int| 0 <= k < lines.len() implies #[trigger] v1_row(lines2, ids, k) == v1_row(
        lines,
        ids,
        k,
    ) by {
        lemma_v1_runs_exchanged(lines, lines2, ids, k);
        law_v1_step_columns_by_name(v1_state_before(lines, ids, k), lines[k], lines2[k]);
    }
}

/// In version 2, an indented `c` line is a comment: it inserts nothing and
/// leaves the state as it was.
pub proof fn law_v2_comments_insert_nothing(s: TinyV2StateView, l: Seq<char>)
    requires
        words(l).len() > 0,
        words(l)[0] == "c"@,
        is_indented(l),
    ensures
        tiny_v2_step_spec(s, l) == (s, Ok::<TinyV2ActionView, TinyErrorView>(
            TinyV2ActionView::Skip,
        )),
{
    lemma_v2_keywords_distinct();
}

/// In version 2, a `c` line that is not indented inserts a class, wherever
/// it stands in the file, methods read before or not.
pub proof fn law_v2_class_lines_insert_classes(s: TinyV2StateView, l: Seq<char>)
    requires
        tiny_v2_line_ok(s, l),
        words(l)[0] == "c"@,
        !is_indented(l),
    ensures
        tiny_v2_step_spec(s, l).0 == s,
        tiny_v2_step_spec(s, l).1 matches Ok(TinyV2ActionView::InsertClass { .. }),
{
    lemma_v2_keywords_distinct();
}

/// In version 2, each method keeps its own parameters: a method line stores
/// the names read since the previous method line with that method, and
/// starts again from none.
pub proof fn law_v2_each_method_own_parameters(s: TinyV2StateView, l: Seq<char>)
    requires
        tiny_v2_line_ok(s, l),
        words(l)[0] == "m"@,
    ensures
        tiny_v2_step_spec(s, l).0.parameters == Map::<i64, Seq<char>>::empty(),
        tiny_v2_step_spec(s, l).1 matches Ok(TinyV2ActionView::InsertMethod { update, .. })
            && update == pending_update_spec(s),
        pending_update_spec(s) matches Some((id, text)) ==> id == s.method_id && text
            == json_integer_object(s.parameters),
{
    lemma_v2_keywords_distinct();
}

/// In version 2, a parameter line adds its name under its index to the
/// names of the current method; no other line but a method line changes
/// them.
pub proof fn law_v2_parameters_of_current_method(s: TinyV2StateView, l: Seq<char>)
    requires
        tiny_v2_line_ok(s, l),
        tiny_v2_step_spec(s, l).1 is Ok,
        words(l)[0] != "m"@,
    ensures
        words(l)[0] == "p"@ ==> tiny_v2_step_spec(s, l).0.parameters == s.parameters.insert(
            parse_i64_spec(words(l)[1]).unwrap(),
            words(l)[2],
        ),
        words(l)[0] != "p"@ ==> tiny_v2_step_spec(s, l).0.parameters == s.parameters,
{
    lemma_v2_keywords_distinct();
}

/// In version 2, on lines it handles without fault, the reader stops with
/// an error only at a header that lacks a column or at a parameter line
/// whose index is no integer.
pub proof fn law_v2_errors(s: TinyV2StateView, l: Seq<char>)
    requires
        tiny_v2_line_ok(s, l),
        tiny_v2_step_spec(s, l).1 is Err,
    ensures
        (words(l)[0] == "tiny"@ && (position(words(l), "intermediary"@) is None || position(
            words(l),
            "named"@,
        ) is None)) || (words(l)[0] == "p"@ && parse_i64_spec(words(l)[1]) is None),
{
}

/// In version 2, the parameters gathered for a method are stored with it
/// whenever a method was inserted and at least one name was read, under
/// whatever index: the update names that method and holds every name read.
/// Without an inserted method, or with no name read, nothing is stored.
pub proof fn law_v2_update_whenever_method_and_parameters(s: TinyV2StateView, k: i64)
    ensures
        s.method_id != 0 && s.parameters.contains_key(k) ==> pending_update_spec(s) == Some(
            (s.method_id, json_integer_object(s.parameters)),
        ),
        s.method_id == 0 ==> pending_update_spec(s) is None,
        s.parameters == Map::<i64, Seq<char>>::empty() ==> pending_update_spec(s) is None,
{
    if s.parameters.contains_key(k) {
        assert(!s.parameters.dom().is_empty()) by {
            if s.parameters.dom() =~= Set::<i64>::empty() {
                assert(!Set::<i64>::empty().contains(k));
            }
        }
    }
    if s.parameters == Map::<i64, Seq<char>>::empty() {
        assert(s.parameters.dom() =~= Set::<i64>::empty());
    }
}

/// In version 2, once a method is inserted, a parameter line puts its name
/// under its index, whatever the index, into what is stored with that
/// method.
pub proof fn law_v2_parameter_line_then_update(s: TinyV2StateView, l: Seq<char>)
    requires
        tiny_v2_line_ok(s, l),
        words(l)[0] == "p"@,
        parse_i64_spec(words(l)[1]) is Some,
        s.method_id != 0,
    ensures
        tiny_v2_step_spec(s, l).0.method_id == s.method_id,
        pending_update_spec(tiny_v2_step_spec(s, l).0) == Some(
            (
                s.method_id,
                json_integer_object(
                    s.parameters.insert(parse_i64_spec(words(l)[1]).unwrap(), words(l)[2]),
                ),
            ),
        ),
{
    lemma_v2_keywords_distinct();
    let t = tiny_v2_step_spec(s, l).0;
    let idx = parse_i64_spec(words(l)[1]).unwrap();
    assert(t.parameters == s.parameters.insert(idx, words(l)[2]));
    law_v2_update_whenever_method_and_parameters(t, idx);
}

/// In version 2, a method line, the identifier handed back for the method,
/// and one parameter line give, at the next method line or at the end of
/// the file, exactly that name under its index, stored with that method.
pub proof fn law_v2_method_then_parameter(
    s: TinyV2StateView,
    lm: Seq<char>,
    id: i64,
    lp: Seq<char>,
)
    requires
        tiny_v2_line_ok(s, lm),
        words(lm)[0] == "m"@,
        id != 0,
        words(lp).len() > 2,
        words(lp)[0] == "p"@,
        parse_i64_spec(words(lp)[1]) is Some,
    ensures
        ({
            let after_m = TinyV2StateView { method_id: id, ..tiny_v2_step_spec(s, lm).0 };
            pending_update_spec(tiny_v2_step_spec(after_m, lp).0) == Some(
                (
                    id,
                    json_integer_object(
                        Map::<i64, Seq<char>>::empty().insert(
                            parse_i64_spec(words(lp)[1]).unwrap(),
                            words(lp)[2],
                        ),
                    ),
                ),
            )
        }),
{
    lemma_v2_keywords_distinct();
    let after_m = TinyV2StateView { method_id: id, ..tiny_v2_step_spec(s, lm).0 };
    assert(after_m.parameters == Map::<i64, Seq<char>>::empty());
    law_v2_parameter_line_then_update(after_m, lp);
}

} // verus!
