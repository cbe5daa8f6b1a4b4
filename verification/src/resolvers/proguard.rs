//! The reader of ProGuard mapping files.
//!
//! A ProGuard file lists classes (`original -> obfuscated:`), each followed
//! by its members, indented by four spaces: fields (`type name -> obf`) and
//! methods (`lines:lines:type name(params):lines:lines -> obf`). Lines that
//! start with `#` carry JSON metadata such as the source file of the class.
//! The reader is a state machine: each line gives the row to insert, and the
//! database identifier of an inserted class is handed back to it.
use vstd::prelude::*;

use crate::json::{json_member_str, json_string_array, member_str_of_json, to_json_array};
use crate::text::{
    chars_of, find, find_from, lemma_find_from, lemma_split_len, lines, lines_of, occurs_at,
    remove_char, remove_char_vec, split, split_str, split_str_from, split_vec, string_of,
    sub_vec, to_string, trim, trim_vec, views,
};

verus! {

broadcast use vstd::string::group_string_axioms;

// ---------------------------------------------------------------------------
// Character widths
// ---------------------------------------------------------------------------

/// The number of bytes that UTF-8 takes for `c`.
pub open spec fn utf8_width(c: char) -> int {
    if (c as int) < 0x80 {
        1
    } else if (c as int) < 0x800 {
        2
    } else if (c as int) < 0x10000 {
        3
    } else {
        4
    }
}

/// The number of bytes that UTF-8 takes for `s`.
pub open spec fn utf8_len(s: Seq<char>) -> int
    decreases s.len(),
{
    if s.len() == 0 {
        0
    } else {
        utf8_len(s.drop_last()) + utf8_width(s.last())
    }
}

/// The first `k` characters of `s` take exactly `bytes` bytes.
pub open spec fn boundary_at(s: Seq<char>, bytes: int, k: int) -> bool {
    0 <= k <= s.len() && utf8_len(s.take(k)) == bytes
}

/// Longer prefixes take more bytes.
pub proof fn lemma_utf8_len_increasing(s: Seq<char>, j: int, k: int)
    requires
        0 <= j < k <= s.len(),
    ensures
        utf8_len(s.take(j)) < utf8_len(s.take(k)),
    decreases k,
{
    assert(s.take(k).drop_last() == s.take(k - 1));
    if j < k - 1 {
        lemma_utf8_len_increasing(s, j, k - 1);
    }
}

fn utf8_width_exec(c: char) -> (w: usize)
    ensures
        w == utf8_width(c),
{
    let n = c as u32;
    if n < 0x80 {
        1
    } else if n < 0x800 {
        2
    } else if n < 0x10000 {
        3
    } else {
        4
    }
}

// ---------------------------------------------------------------------------
// The lines of a ProGuard file
// ---------------------------------------------------------------------------

/// A line that starts with character `c`.
pub open spec fn starts_with_char(l: Seq<char>, c: char) -> bool {
    l.len() > 0 && l[0] == c
}

/// A class line starts with neither a space nor `#`.
pub open spec fn is_class_line(l: Seq<char>) -> bool {
    !starts_with_char(l, ' ') && !starts_with_char(l, '#')
}

/// A metadata line starts with `#`.
pub open spec fn is_metadata_line(l: Seq<char>) -> bool {
    starts_with_char(l, '#')
}

/// A member line starts with a space.
pub open spec fn is_member_line(l: Seq<char>) -> bool {
    starts_with_char(l, ' ')
}

/// The pieces of a trimmed class line around ` -> `.
pub open spec fn class_parts(l: Seq<char>) -> Seq<Seq<char>> {
    split_str(trim(l), " -> "@)
}

/// The original (readable) name of the class that a class line declares.
pub open spec fn class_original(l: Seq<char>) -> Seq<char> {
    class_parts(l)[0]
}

/// The obfuscated name of the class that a class line declares, without
/// its colons.
pub open spec fn class_obfuscated(l: Seq<char>) -> Seq<char> {
    remove_char(class_parts(l)[1], ':')
}

/// The JSON text of a metadata line: the trimmed line after its `#`.
pub open spec fn metadata_json(l: Seq<char>) -> Seq<char> {
    trim(l).drop_first()
}

/// The text of a member line after its first four bytes, when those bytes
/// end on a character boundary.
pub open spec fn member_content(l: Seq<char>) -> Option<Seq<char>> {
    if exists|k: int| boundary_at(l, 4, k) {
        Some(l.skip(choose|k: int| boundary_at(l, 4, k)))
    } else {
        None
    }
}

/// The parts of a method line: its names, return type and parameter types.
pub struct MethodLineView {
    pub original: Seq<char>,
    pub obfuscated: Seq<char>,
    pub return_type: Seq<char>,
    pub parameters: Option<Seq<Seq<char>>>,
}

/// The parts of the member text `c` of a method (`[a:b:]type name(params)[:c:d] -> obf`):
/// the name before `(` in the second space-separated piece, the fourth
/// piece, the return type (the first piece with any `a:b:` line-number
/// prefix removed: its last `:`-separated part), and the `,`-separated text
/// between the first `(` and the next `)` (no list when that text is
/// empty); all trimmed but the parameter text as a whole.
pub open spec fn method_line(c: Seq<char>) -> MethodLineView {
    let sp = split(c, ' ');
    let head = split(sp[0], ':');
    let paren = split(c, '(');
    let params = if paren.len() > 1 {
        split(paren[1], ')')[0]
    } else {
        Seq::<char>::empty()
    };
    MethodLineView {
        original: if sp.len() > 1 {
            trim(split(sp[1], '(')[0])
        } else {
            Seq::<char>::empty()
        },
        obfuscated: if sp.len() > 3 {
            trim(sp[3])
        } else {
            Seq::<char>::empty()
        },
        return_type: trim(head.last()),
        parameters: if params.len() == 0 {
            None
        } else {
            Some(split(params, ',').map_values(|p: Seq<char>| trim(p)))
        },
    }
}

/// A line on which the reader does its work without fault: a class line
/// holds ` -> `, and a member line has a fourth byte that ends a character
/// and, for a field, at least four space-separated pieces.
pub open spec fn proguard_line_ok(l: Seq<char>) -> bool {
    if is_class_line(l) {
        class_parts(l).len() >= 2
    } else if is_member_line(l) {
        match member_content(l) {
            Some(c) => c.contains('(') || split(c, ' ').len() >= 4,
            None => false,
        }
    } else {
        true
    }
}

/// The lines of a ProGuard file that the reader goes through: all but the
/// first.
pub open spec fn body_lines(text: Seq<char>) -> Seq<Seq<char>> {
    let ls = lines(text);
    if ls.len() == 0 {
        ls
    } else {
        ls.drop_first()
    }
}

// ---------------------------------------------------------------------------
// State, rows and steps
// ---------------------------------------------------------------------------

/// What the reader has last seen: nothing yet, a class line, or metadata.
#[derive(Clone, Copy, PartialEq, Eq, Debug)]
pub enum Section {
    Initial,
    Class,
    Metadata,
}

/// Why a line could not be read.
#[derive(Debug)]
pub enum ProguardError {
    /// A metadata line does not hold JSON; the error of `serde_json`.
    InvalidMetadata(serde_json::Error),
}

/// The state of the reader.
pub struct ProguardParser {
    pub section: Section,
    /// The database identifier of the class last inserted.
    pub class_id: i64,
    /// The source file that the last metadata line named.
    pub source_file: String,
}

pub struct ProguardStateView {
    pub section: Section,
    pub class_id: i64,
    pub source_file: Seq<char>,
}

impl View for ProguardParser {
    type V = ProguardStateView;

    open spec fn view(&self) -> ProguardStateView {
        ProguardStateView {
            section: self.section,
            class_id: self.class_id,
            source_file: self.source_file@,
        }
    }
}

/// The parts of a method line.
#[derive(Debug, PartialEq, Eq)]
pub struct MethodLine {
    pub original: String,
    pub obfuscated: String,
    pub return_type: String,
    pub parameters: Option<Vec<String>>,
}

impl View for MethodLine {
    type V = MethodLineView;

    open spec fn view(&self) -> MethodLineView {
        MethodLineView {
            original: self.original@,
            obfuscated: self.obfuscated@,
            return_type: self.return_type@,
            parameters: match self.parameters {
                Some(ps) => Some(views(ps@)),
                None => None,
            },
        }
    }
}

/// The row that a line asks to insert.
#[derive(Debug, PartialEq, Eq)]
pub enum ProguardAction {
    /// A class, into `vanilla_classes`; its identifier is then handed back.
    InsertClass { original: String, obfuscated: String },
    /// A field of the class `class_id`, into `vanilla_fields`.
    InsertField { class_id: i64, original: String, obfuscated: String, field_type: String },
    /// A method of the class `class_id`, into `vanilla_methods`.
    InsertMethod {
        class_id: i64,
        original: String,
        obfuscated: String,
        return_type: String,
        parameter_types: String,
    },
    /// A method under the source file that metadata named, into
    /// `vanilla_methods`.
    InsertSourceMethod {
        source_file: String,
        original: String,
        obfuscated: String,
        return_type: String,
        parameter_types: String,
    },
    /// Nothing to insert.
    Skip,
}

pub enum ProguardActionView {
    InsertClass { original: Seq<char>, obfuscated: Seq<char> },
    InsertField {
        class_id: i64,
        original: Seq<char>,
        obfuscated: Seq<char>,
        field_type: Seq<char>,
    },
    InsertMethod {
        class_id: i64,
        original: Seq<char>,
        obfuscated: Seq<char>,
        return_type: Seq<char>,
        parameter_types: Seq<char>,
    },
    InsertSourceMethod {
        source_file: Seq<char>,
        original: Seq<char>,
        obfuscated: Seq<char>,
        return_type: Seq<char>,
        parameter_types: Seq<char>,
    },
    Skip,
}

impl View for ProguardAction {
    type V = ProguardActionView;

    open spec fn view(&self) -> ProguardActionView {
        match self {
            ProguardAction::InsertClass { original, obfuscated } => ProguardActionView::InsertClass {
                original: original@,
                obfuscated: obfuscated@,
            },
            ProguardAction::InsertField { class_id, original, obfuscated, field_type } =>
                ProguardActionView::InsertField {
                class_id: *class_id,
                original: original@,
                obfuscated: obfuscated@,
                field_type: field_type@,
            },
            ProguardAction::InsertMethod {
                class_id,
                original,
                obfuscated,
                return_type,
                parameter_types,
            } => ProguardActionView::InsertMethod {
                class_id: *class_id,
                original: original@,
                obfuscated: obfuscated@,
                return_type: return_type@,
                parameter_types: parameter_types@,
            },
            ProguardAction::InsertSourceMethod {
                source_file,
                original,
                obfuscated,
                return_type,
                parameter_types,
            } => ProguardActionView::InsertSourceMethod {
                source_file: source_file@,
                original: original@,
                obfuscated: obfuscated@,
                return_type: return_type@,
                parameter_types: parameter_types@,
            },
            ProguardAction::Skip => ProguardActionView::Skip,
        }
    }
}

/// The parameter types of a method as stored: `[]` when the method has
/// none, else the JSON array of the trimmed types.
pub open spec fn parameter_types_of(m: MethodLineView) -> Seq<char> {
    match m.parameters {
        None => "[]"@,
        Some(ps) => json_string_array(ps),
    }
}

/// The row for a method line read in state `s`, given the text of its
/// parameter types: under the current class after a class line, under the
/// source file after metadata, and none before any class.
pub open spec fn method_action_spec(
    s: ProguardStateView,
    m: MethodLineView,
    parameter_types: Seq<char>,
) -> ProguardActionView {
    match s.section {
        Section::Class => ProguardActionView::InsertMethod {
            class_id: s.class_id,
            original: m.original,
            obfuscated: m.obfuscated,
            return_type: m.return_type,
            parameter_types,
        },
        Section::Metadata => ProguardActionView::InsertSourceMethod {
            source_file: s.source_file,
            original: m.original,
            obfuscated: m.obfuscated,
            return_type: m.return_type,
            parameter_types,
        },
        Section::Initial => ProguardActionView::Skip,
    }
}

/// One step of the reader on line `l` in state `s`: the next state and the
/// row to insert, or no row when the line is metadata that is no JSON, which
/// ends the reading.
pub open spec fn proguard_step_spec(s: ProguardStateView, l: Seq<char>) -> (
    ProguardStateView,
    Option<ProguardActionView>,
) {
    if is_class_line(l) {
        (
            ProguardStateView {
                section: Section::Class,
                class_id: s.class_id,
                source_file: Seq::<char>::empty(),
            },
            Some(
                ProguardActionView::InsertClass {
                    original: class_original(l),
                    obfuscated: class_obfuscated(l),
                },
            ),
        )
    } else if is_metadata_line(l) {
        match json_member_str(metadata_json(l), "fileName"@) {
            None => (
                ProguardStateView {
                    section: Section::Metadata,
                    class_id: s.class_id,
                    source_file: s.source_file,
                },
                None,
            ),
            Some(name) => (
                ProguardStateView {
                    section: Section::Metadata,
                    class_id: s.class_id,
                    source_file: match name {
                        Some(n) => n,
                        None => Seq::<char>::empty(),
                    },
                },
                Some(ProguardActionView::Skip),
            ),
        }
    } else {
        let c = member_content(l).unwrap();
        if !c.contains('(') {
            let parts = split(c, ' ');
            (
                s,
                Some(
                    ProguardActionView::InsertField {
                        class_id: s.class_id,
                        original: parts[1],
                        obfuscated: parts[3],
                        field_type: parts[0],
                    },
                ),
            )
        } else {
            let m = method_line(c);
            (s, Some(method_action_spec(s, m, parameter_types_of(m))))
        }
    }
}

// ---------------------------------------------------------------------------
// Reading the parts of a line
// ---------------------------------------------------------------------------

/// The original and obfuscated names that a class line declares.
pub fn parse_class_line(line: &Vec<char>) -> (r: (String, String))
    requires
        class_parts(line@).len() >= 2,
    ensures
        r.0@ == class_original(line@),
        r.1@ == class_obfuscated(line@),
{
    let t = trim_vec(line);
    let pat = chars_of(" -> ");
    proof {
        reveal_strlit(" -> ");
    }
    assert(pat@.len() == 4);
    let first = find(&t, &pat, 0);
    assert(first is Some) by {
        if first is None {
            assert(split_str_from(t@, pat@, 0).len() == 1);
        }
    }
    let i = first.unwrap();
    proof {
        lemma_find_from(t@, pat@, 0);
    }
    assert(occurs_at(t@, pat@, i as int));
    assert(i + pat.len() <= t.len());
    let j = i + pat.len();
    let end = match find(&t, &pat, j) {
        Some(k) => {
            proof {
                lemma_find_from(t@, pat@, j as int);
            }
            k
        },
        None => t.len(),
    };
    assert(split_str_from(t@, pat@, 0) == seq![t@.subrange(0, i as int)] + split_str_from(
        t@,
        pat@,
        j as int,
    ));
    assert(split_str_from(t@, pat@, j as int)[0] == t@.subrange(j as int, end as int));
    let original = string_of(&t, 0, i);
    let middle = sub_vec(&t, j, end);
    let obfuscated = to_string(&remove_char_vec(&middle, ':'));
    (original, obfuscated)
}

/// The text of a member line after its first four bytes, if they end on a
/// character boundary.
pub fn member_content_vec(line: &Vec<char>) -> (r: Option<Vec<char>>)
    ensures
        match member_content(line@) {
            Some(c) => r matches Some(v) && v@ == c,
            None => r is None,
        },
{
    let n = line.len();
    let mut i: usize = 0;
    let mut acc: usize = 0;
    assert(line@.take(0) =~= Seq::<char>::empty());
    while i < n && acc < 4
        invariant
            n == line@.len(),
            i <= n,
            acc == utf8_len(line@.take(i as int)),
            acc <= 7,
            i > 0 ==> utf8_len(line@.take(i - 1)) < 4,
        decreases n - i,
    {
        assert(line@.take(i + 1).drop_last() == line@.take(i as int));
        acc = acc + utf8_width_exec(line[i]);
        i = i + 1;
    }
    if acc == 4 {
        proof {
            assert(boundary_at(line@, 4, i as int));
            let k = choose|k: int| boundary_at(line@, 4, k);
            if k < i {
                lemma_utf8_len_increasing(line@, k, i as int);
            } else if k > i {
                lemma_utf8_len_increasing(line@, i as int, k);
            }
        }
        Some(sub_vec(line, i, n))
    } else {
        assert forall|k: int| !boundary_at(line@, 4, k) by {
            if 0 <= k <= n {
                if k < i {
                    if k < i - 1 {
                        lemma_utf8_len_increasing(line@, k, i - 1);
                    }
                } else if k > i {
                    lemma_utf8_len_increasing(line@, i as int, k);
                }
            }
        }
        None
    }
}

/// The type, the original name and the obfuscated name of a field: the
/// first, second and fourth space-separated pieces of its member text.
pub fn parse_field(content: &Vec<char>) -> (r: (String, String, String))
    requires
        split(content@, ' ').len() >= 4,
    ensures
        r.0@ == split(content@, ' ')[0],
        r.1@ == split(content@, ' ')[1],
        r.2@ == split(content@, ' ')[3],
{
    let parts = split_vec(content, ' ');
    assert(parts@[0]@ == split(content@, ' ')[0]);
    assert(parts@[1]@ == split(content@, ' ')[1]);
    assert(parts@[3]@ == split(content@, ' ')[3]);
    (to_string(&parts[0]), to_string(&parts[1]), to_string(&parts[3]))
}

/// The trimmed first piece of `s` split at `sep`.
fn trimmed_first_piece(s: &Vec<char>, sep: char) -> (r: String)
    ensures
        r@ == trim(split(s@, sep)[0]),
{
    let pieces = split_vec(s, sep);
    proof {
        lemma_split_len(s@, sep);
    }
    assert(pieces@[0]@ == split(s@, sep)[0]);
    to_string(&trim_vec(&pieces[0]))
}

/// The parts of the member text of a method.
pub fn parse_method(content: &Vec<char>) -> (m: MethodLine)
    ensures
        m@ == method_line(content@),
{
    let sp = split_vec(content, ' ');
    let original = if sp.len() > 1 {
        assert(sp@[1]@ == split(content@, ' ')[1]);
        trimmed_first_piece(&sp[1], '(')
    } else {
        String::new()
    };
    let obfuscated = if sp.len() > 3 {
        assert(sp@[3]@ == split(content@, ' ')[3]);
        to_string(&trim_vec(&sp[3]))
    } else {
        String::new()
    };
    proof {
        lemma_split_len(content@, ' ');
    }
    assert(sp@[0]@ == split(content@, ' ')[0]);
    let head = split_vec(&sp[0], ':');
    proof {
        lemma_split_len(sp@[0]@, ':');
    }
    let last = head.len() - 1;
    assert(head@[last as int]@ == split(sp@[0]@, ':').last());
    let return_type = to_string(&trim_vec(&head[last]));
    let paren = split_vec(content, '(');
    let params: Vec<char> = if paren.len() > 1 {
        assert(paren@[1]@ == split(content@, '(')[1]);
        let inner = split_vec(&paren[1], ')');
        proof {
            lemma_split_len(paren@[1]@, ')');
        }
        assert(inner@[0]@ == split(paren@[1]@, ')')[0]);
        sub_vec(&inner[0], 0, inner[0].len())
    } else {
        Vec::new()
    };
    assert(params@ == (if split(content@, '(').len() > 1 {
        split(split(content@, '(')[1], ')')[0]
    } else {
        Seq::<char>::empty()
    }));
    let parameters = if params.len() == 0 {
        None
    } else {
        let pieces = split_vec(&params, ',');
        let ghost spec_pieces = split(params@, ',');
        let mut out: Vec<String> = Vec::new();
        let count = pieces.len();
        for k in 0..count
            invariant
                count == pieces@.len() == spec_pieces.len(),
                forall|q: int| 0 <= q < count ==> #[trigger] pieces@[q]@ == spec_pieces[q],
                views(out@) == spec_pieces.take(k as int).map_values(|p: Seq<char>| trim(p)),
        {
            let t = to_string(&trim_vec(&pieces[k]));
            let ghost before = views(out@);
            out.push(t);
            assert(views(out@) =~= before.push(trim(spec_pieces[k as int])));
            assert(spec_pieces.take(k + 1).map_values(|p: Seq<char>| trim(p)) =~= spec_pieces.take(
                k as int,
            ).map_values(|p: Seq<char>| trim(p)).push(trim(spec_pieces[k as int])));
        }
        assert(spec_pieces.take(count as int) == spec_pieces);
        Some(out)
    };
    MethodLine { original, obfuscated, return_type, parameters }
}

/// Whether the reader handles `line` without fault.
pub fn proguard_line_is_well_formed(line: &str) -> (b: bool)
    ensures
        b == proguard_line_ok(line@),
{
    let v = chars_of(line);
    let member = v.len() > 0 && v[0] == ' ';
    let metadata = v.len() > 0 && v[0] == '#';
    if !member && !metadata {
        let t = trim_vec(&v);
        let pat = chars_of(" -> ");
        proof {
            reveal_strlit(" -> ");
        }
        match find(&t, &pat, 0) {
            Some(i) => {
                proof {
                    lemma_find_from(t@, pat@, 0);
                    assert(split_str_from(t@, pat@, 0) == seq![t@.subrange(0, i as int)]
                        + split_str_from(t@, pat@, i + 4));
                }
                true
            },
            None => {
                assert(split_str_from(t@, pat@, 0).len() == 1);
                false
            },
        }
    } else if member {
        match member_content_vec(&v) {
            Some(c) => {
                if crate::text::contains_char(&c, '(') {
                    true
                } else {
                    let parts = split_vec(&c, ' ');
                    parts.len() >= 4
                }
            },
            None => false,
        }
    } else {
        true
    }
}

/// The lines of a ProGuard file that the reader goes through: all but the
/// first.
pub fn proguard_lines(text: &str) -> (r: Vec<String>)
    ensures
        views(r@) == body_lines(text@),
{
    let all = lines_of(text);
    let mut out: Vec<String> = Vec::new();
    let n = all.len();
    if n == 0 {
        assert(views(out@) =~= body_lines(text@));
        return out;
    }
    for k in 1..n
        invariant
            n == all@.len(),
            views(all@) == lines(text@),
            views(out@) == lines(text@).subrange(1, k as int),
    {
        let ghost before = views(out@);
        assert(views(all@)[k as int] == all@[k as int]@);
        let line = all[k].clone();
        assert(line@ == lines(text@)[k as int]);
        out.push(line);
        assert(views(out@) =~= before.push(line@));
        assert(views(out@) =~= lines(text@).subrange(1, k + 1));
    }
    assert(views(out@) =~= body_lines(text@));
    out
}

// ---------------------------------------------------------------------------
// The reader
// ---------------------------------------------------------------------------

impl ProguardParser {
    /// A reader that has seen nothing yet.
    pub fn new() -> (p: ProguardParser)
        ensures
            p@ == (ProguardStateView {
                section: Section::Initial,
                class_id: 0,
                source_file: Seq::<char>::empty(),
            }),
    {
        ProguardParser { section: Section::Initial, class_id: 0, source_file: String::new() }
    }

    /// Hands back the database identifier of the class just inserted; the
    /// following members belong to it.
    pub fn class_inserted(&mut self, id: i64)
        ensures
            final(self)@ == (ProguardStateView {
                section: old(self)@.section,
                class_id: id,
                source_file: old(self)@.source_file,
            }),
    {
        self.class_id = id;
    }

    /// Enters the metadata section with the `fileName` that the metadata
    /// holds, or an empty source file when it holds none.
    pub fn enter_metadata(&mut self, file_name: Option<String>)
        ensures
            final(self)@ == (ProguardStateView {
                section: Section::Metadata,
                class_id: old(self)@.class_id,
                source_file: match file_name {
                    Some(n) => n@,
                    None => Seq::<char>::empty(),
                },
            }),
    {
        self.section = Section::Metadata;
        self.source_file = match file_name {
            Some(n) => n,
            None => String::new(),
        };
    }

    /// The row for the method `m` in the current state, with
    /// `parameter_types` as the stored text of its parameter types.
    pub fn method_action(&self, m: MethodLine, parameter_types: String) -> (a: ProguardAction)
        ensures
            a@ == method_action_spec(self@, m@, parameter_types@),
    {
        match self.section {
            Section::Class => ProguardAction::InsertMethod {
                class_id: self.class_id,
                original: m.original,
                obfuscated: m.obfuscated,
                return_type: m.return_type,
                parameter_types,
            },
            Section::Metadata => ProguardAction::InsertSourceMethod {
                source_file: self.source_file.clone(),
                original: m.original,
                obfuscated: m.obfuscated,
                return_type: m.return_type,
                parameter_types,
            },
            Section::Initial => ProguardAction::Skip,
        }
    }

    /// Reads one line: returns the row that it asks to insert and moves to
    /// the next state, as `proguard_step_spec` says; metadata that is no
    /// JSON gives the error of `serde_json`.
    pub fn step(&mut self, line: &str) -> (r: Result<ProguardAction, ProguardError>)
        requires
            proguard_line_ok(line@),
        ensures
            final(self)@ == proguard_step_spec(old(self)@, line@).0,
            match r {
                Ok(a) => proguard_step_spec(old(self)@, line@).1 == Some(a@),
                Err(_) => proguard_step_spec(old(self)@, line@).1 is None,
            },
    {
        let v = chars_of(line);
        let member = v.len() > 0 && v[0] == ' ';
        let metadata = v.len() > 0 && v[0] == '#';
        if !member && !metadata {
            let (original, obfuscated) = parse_class_line(&v);
            self.section = Section::Class;
            self.source_file = String::new();
            Ok(ProguardAction::InsertClass { original, obfuscated })
        } else if metadata {
            let t = trim_vec(&v);
            assert(t@.len() > 0 && t@[0] == '#') by {
                assert(crate::text::trim_start(v@) == v@);
                crate::text::lemma_trim_end_prefix(v@);
            }
            let text = string_of(&t, 1, t.len());
            assert(text@ == metadata_json(line@));
            match member_str_of_json(text.as_str(), "fileName") {
                Ok(name) => {
                    self.enter_metadata(name);
                    Ok(ProguardAction::Skip)
                },
                Err(e) => {
                    self.section = Section::Metadata;
                    Err(ProguardError::InvalidMetadata(e))
                },
            }
        } else {
            let content = member_content_vec(&v).unwrap();
            if !crate::text::contains_char(&content, '(') {
                let (field_type, original, obfuscated) = parse_field(&content);
                Ok(ProguardAction::InsertField { class_id: self.class_id, original, obfuscated, field_type })
            } else {
                let m = parse_method(&content);
                let parameter_types = match &m.parameters {
                    None => "[]".to_owned(),
                    Some(ps) => to_json_array(ps).unwrap(),
                };
                Ok(self.method_action(m, parameter_types))
            }
        }
    }
}

// ---------------------------------------------------------------------------
// Laws
// ---------------------------------------------------------------------------

/// The state once the class just read was inserted under identifier `id`.
pub open spec fn with_class_id(s: ProguardStateView, id: i64) -> ProguardStateView {
    ProguardStateView { section: s.section, class_id: id, source_file: s.source_file }
}

/// Member lines (fields and methods) leave the state of the reader as it
/// was: only class and metadata lines move it.
pub proof fn law_member_lines_keep_state(s: ProguardStateView, l: Seq<char>)
    requires
        proguard_line_ok(l),
        is_member_line(l),
    ensures
        proguard_step_spec(s, l).0 == s,
{
}

/// A field that follows a class line is recorded under the identifier that
/// the class received when it was inserted.
pub proof fn law_field_under_inserted_class(
    s: ProguardStateView,
    class_line: Seq<char>,
    id: i64,
    field_line: Seq<char>,
)
    requires
        proguard_line_ok(class_line),
        is_class_line(class_line),
        proguard_line_ok(field_line),
        is_member_line(field_line),
        !member_content(field_line).unwrap().contains('('),
    ensures
        proguard_step_spec(with_class_id(proguard_step_spec(s, class_line).0, id), field_line).1
            matches Some(ProguardActionView::InsertField { class_id, .. }) && class_id == id,
{
}

/// A method that follows a class line is recorded under the identifier that
/// the class received when it was inserted, with no source file.
pub proof fn law_method_under_inserted_class(
    s: ProguardStateView,
    class_line: Seq<char>,
    id: i64,
    method_line_text: Seq<char>,
)
    requires
        proguard_line_ok(class_line),
        is_class_line(class_line),
        proguard_line_ok(method_line_text),
        is_member_line(method_line_text),
        member_content(method_line_text).unwrap().contains('('),
    ensures
        proguard_step_spec(
            with_class_id(proguard_step_spec(s, class_line).0, id),
            method_line_text,
        ).1 matches Some(ProguardActionView::InsertMethod { class_id, .. }) && class_id == id,
{
}

/// A method that follows metadata naming a source file is recorded under
/// that source file; metadata without a `fileName` string gives an empty
/// one.
pub proof fn law_method_under_metadata_file(
    s: ProguardStateView,
    metadata_line: Seq<char>,
    method_line_text: Seq<char>,
)
    requires
        is_metadata_line(metadata_line),
        json_member_str(metadata_json(metadata_line), "fileName"@) is Some,
        proguard_line_ok(method_line_text),
        is_member_line(method_line_text),
        member_content(method_line_text).unwrap().contains('('),
    ensures
        proguard_step_spec(proguard_step_spec(s, metadata_line).0, method_line_text).1 matches Some(
            ProguardActionView::InsertSourceMethod { source_file, .. },
        ) && source_file == match json_member_str(metadata_json(metadata_line), "fileName"@).unwrap() {
            Some(n) => n,
            None => Seq::<char>::empty(),
        },
{
}

/// A class line ends the metadata of the class before it: the source file
/// is empty again and the section is that of a class.
pub proof fn law_class_line_clears_source_file(s: ProguardStateView, l: Seq<char>)
    requires
        proguard_line_ok(l),
        is_class_line(l),
    ensures
        proguard_step_spec(s, l).0.section == Section::Class,
        proguard_step_spec(s, l).0.source_file == Seq::<char>::empty(),
        proguard_step_spec(s, l).0.class_id == s.class_id,
{
}

/// On lines it handles without fault, the reader stops with an error only
/// at metadata that is no JSON document.
pub proof fn law_only_bad_metadata_fails(s: ProguardStateView, l: Seq<char>)
    requires
        proguard_line_ok(l),
        proguard_step_spec(s, l).1 is None,
    ensures
        is_metadata_line(l),
        json_member_str(metadata_json(l), "fileName"@) is None,
{
}

/// The parameter types of a method are all the comma-separated pieces of
/// the text between its parentheses, trimmed, in order, however many there
/// are: one more than the commas in that text (and none when it is empty).
pub proof fn law_method_parameters_between_parentheses(
    a: Seq<char>,
    x: Seq<char>,
    b: Seq<char>,
    c: Seq<char>,
)
    requires
        c == a + seq!['('] + x + seq![')'] + b,
        !a.contains('('),
        !x.contains('('),
        !x.contains(')'),
        !b.contains('('),
    ensures
        x.len() == 0 ==> method_line(c).parameters is None,
        x.len() > 0 ==> (method_line(c).parameters matches Some(ps) && ps.len() == x.filter(
            |ch: char| ch == ',',
        ).len() + 1 && forall|i: int|
            0 <= i < ps.len() ==> #[trigger] ps[i] == trim(split(x, ',')[i])),
{
    let rest = x.push(')') + b;
    assert(c =~= a.push('(') + rest);
    assert(!rest.contains('(')) by {
        if rest.contains('(') {
            let i = choose|i: int| 0 <= i < rest.len() && rest[i] == '(';
            if i < x.len() {
                assert(x[i] == '(');
            } else if i > x.len() {
                assert(b[i - x.len() - 1] == '(');
            }
        }
    }
    crate::text::lemma_split_after_sep(a, '(', rest);
    crate::text::lemma_split_no_sep(rest, '(');
    crate::text::lemma_split_after_sep(x, ')', b);
    assert(split(c, '(')[1] == rest);
    assert(split(rest, ')')[0] == x);
    crate::text::law_split_count(x, ',');
}

/// The obfuscated name of a class is the text after ` -> ` up to the final
/// colon, every character kept: for a class line `o -> x:` whose names hold
/// no whitespace and `x` no colon, the original name is `o` and the
/// obfuscated name is `x`, with `$`, digits and all.
pub proof fn law_class_names(o: Seq<char>, x: Seq<char>, l: Seq<char>)
    requires
        l == o + " -> "@ + x + seq![':'],
        o.len() > 0,
        forall|i: int| 0 <= i < o.len() ==> !crate::text::is_ws(#[trigger] o[i]),
        forall|i: int| 0 <= i < x.len() ==> !crate::text::is_ws(#[trigger] x[i]) && x[i] != ':',
    ensures
        is_class_line(l) ==> class_parts(l).len() >= 2,
        class_original(l) == o,
        class_obfuscated(l) == x,
{
    reveal_strlit(" -> ");
    let p = " -> "@;
    let n = o.len() as int;
    assert(p.len() == 4 && p[0] == ' ' && p[3] == ' ');
    assert(l[0] == o[0]);
    assert(l.last() == ':');
    // the line is already trimmed
    assert(crate::text::trim_start(l) == l);
    assert(crate::text::trim_end(l) == l);
    assert(trim(l) == l);
    // the only occurrence of ` -> ` is after `o`
    assert forall|i: int| 0 <= i < n implies !occurs_at(l, p, i) by {
        assert(l[i] == o[i]);
        if occurs_at(l, p, i) {
            assert(l.subrange(i, i + 4)[0] == l[i]);
        }
    }
    assert(l.subrange(n, n + 4) =~= p);
    lemma_find_from_first(l, p, 0, n);
    let tail = x + seq![':'];
    assert forall|i: int| n + 4 <= i < l.len() implies l[i] != ' ' by {
        assert(l[i] == tail[i - n - 4]);
        if i - n - 4 < x.len() {
            assert(tail[i - n - 4] == x[i - n - 4]);
        }
    }
    lemma_find_from_absent(l, p, n + 4);
    assert(split_str_from(l, p, 0) == seq![l.subrange(0, n)] + split_str_from(l, p, n + 4));
    assert(l.subrange(0, n) =~= o);
    assert(l.subrange(n + 4, l.len() as int) =~= tail);
    assert(class_parts(l)[1] == tail);
    lemma_remove_colon(x);
}

/// Removing colons from `x:` gives `x` when `x` has none.
proof fn lemma_remove_colon(x: Seq<char>)
    requires
        forall|i: int| 0 <= i < x.len() ==> #[trigger] x[i] != ':',
    ensures
        remove_char(x + seq![':'], ':') == x,
    decreases x.len(),
{
    reveal(Seq::filter);
    assert((x + seq![':']).drop_last() =~= x);
    lemma_filter_keeps_all(x);
}

proof fn lemma_filter_keeps_all(x: Seq<char>)
    requires
        forall|i: int| 0 <= i < x.len() ==> #[trigger] x[i] != ':',
    ensures
        remove_char(x, ':') == x,
    decreases x.len(),
{
    reveal(Seq::filter);
    if x.len() > 0 {
        assert forall|i: int| 0 <= i < x.drop_last().len() implies #[trigger] x.drop_last()[i]
            != ':' by {
            assert(x.drop_last()[i] == x[i]);
        }
        lemma_filter_keeps_all(x.drop_last());
        assert(x[x.len() - 1] != ':');
        assert(x.drop_last().push(x.last()) =~= x);
    }
}

/// When `p` starts with a character and occurs at `j`, and no position in
/// `[i, j)` holds an occurrence, the search from `i` finds `j`.
proof fn lemma_find_from_first(s: Seq<char>, p: Seq<char>, i: int, j: int)
    requires
        0 <= i <= j,
        occurs_at(s, p, j),
        forall|k: int| i <= k < j ==> !occurs_at(s, p, k),
    ensures
        find_from(s, p, i) == Some(j),
    decreases j - i,
{
    if i < j {
        lemma_find_from_first(s, p, i + 1, j);
    }
}

/// When the first character of `p` does not occur from `i` on, the search
/// from `i` finds nothing.
proof fn lemma_find_from_absent(s: Seq<char>, p: Seq<char>, i: int)
    requires
        p.len() > 0,
        i >= 0,
        forall|k: int| i <= k < s.len() ==> s[k] != p[0],
    ensures
        find_from(s, p, i) is None,
    decreases s.len() + 1 - i,
{
    if i + p.len() <= s.len() {
        assert(s.subrange(i, i + p.len())[0] == s[i]);
        lemma_find_from_absent(s, p, i + 1);
    }
}

} // verus!
