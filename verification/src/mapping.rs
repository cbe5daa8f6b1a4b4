//! Which resolver reads a mapping file, and the bookkeeping of a run that
//! appends several mapping files to one database.
use vstd::prelude::*;

use crate::text::{chars_of, ends_with, views};

verus! {

/// The kind of a mapping file: Mojang's ProGuard mappings (vanilla), Fabric's
/// Tiny mappings, or Forge's SRG mappings.
#[derive(Clone, Copy, PartialEq, Eq, Debug)]
pub enum MappingType {
    Vanilla,
    Fabric,
    Forge,
}

/// Why a mapping file could not be appended.
#[derive(Debug)]
pub enum MappingError {
    /// The file name has none of the known extensions; the path is kept.
    UnknownMappingType(String),
}

/// The kind of mapping that a file name announces by its extension:
/// `.srg` and `.tsrg` are Forge, `.txt` and `.mappings` are vanilla, and
/// `.tiny` is Fabric, tested in that order.
pub open spec fn platform_of(path: Seq<char>) -> Option<MappingType> {
    if ".srg"@.is_suffix_of(path) || ".tsrg"@.is_suffix_of(path) {
        Some(MappingType::Forge)
    } else if ".txt"@.is_suffix_of(path) || ".mappings"@.is_suffix_of(path) {
        Some(MappingType::Vanilla)
    } else if ".tiny"@.is_suffix_of(path) {
        Some(MappingType::Fabric)
    } else {
        None
    }
}

/// The kind of the mapping file at `path`, told by its extension.
pub fn detect_platform(path: &str) -> (r: Result<MappingType, MappingError>)
    ensures
        match platform_of(path@) {
            Some(kind) => r == Ok::<MappingType, MappingError>(kind),
            None => r matches Err(MappingError::UnknownMappingType(p)) && p@ == path@,
        },
{
    let v = chars_of(path);
    if ends_with(&v, &chars_of(".srg")) || ends_with(&v, &chars_of(".tsrg")) {
        Ok(MappingType::Forge)
    } else if ends_with(&v, &chars_of(".txt")) || ends_with(&v, &chars_of(".mappings")) {
        Ok(MappingType::Vanilla)
    } else if ends_with(&v, &chars_of(".tiny")) {
        Ok(MappingType::Fabric)
    } else {
        Err(MappingError::UnknownMappingType(path.to_owned()))
    }
}

/// How far a run over the input files has come: the index of the next
/// input, and the number of lines read so far.
#[derive(Clone, Copy, PartialEq, Eq, Debug)]
pub struct AppendProgress {
    pub next: usize,
    pub total_lines: usize,
}

/// What a run does next.
#[derive(Debug)]
pub enum AppendStep {
    /// Read the input at `index` with the resolver for `kind`.
    Process { index: usize, kind: MappingType },
    /// Every input was read; `total_lines` lines in all.
    Finished { total_lines: usize },
    /// The next input cannot be read; the run stops with this error.
    Failed(MappingError),
}

/// The progress after an input of `lines` lines was read: the line count
/// adds up with wrap-around at the width of `usize`.
pub open spec fn next_progress(p: AppendProgress, lines: usize) -> AppendProgress {
    AppendProgress {
        next: (p.next + 1) as usize,
        total_lines: (if p.total_lines + lines > usize::MAX {
            p.total_lines + lines - (usize::MAX + 1)
        } else {
            p.total_lines + lines
        }) as usize,
    }
}

impl AppendProgress {
    /// The progress of a run that has read nothing yet.
    pub fn new() -> (p: AppendProgress)
        ensures
            p.next == 0,
            p.total_lines == 0,
    {
        AppendProgress { next: 0, total_lines: 0 }
    }

    /// The progress once the input at `self.next` was read and held `lines`
    /// lines.
    pub fn record_processed(&self, lines: usize) -> (p: AppendProgress)
        requires
            self.next < usize::MAX,
        ensures
            p == next_progress(*self, lines),
    {
        AppendProgress { next: self.next + 1, total_lines: self.total_lines.wrapping_add(lines) }
    }
}

pub enum AppendStepView {
    Process { index: usize, kind: MappingType },
    Finished { total_lines: usize },
    Failed(Seq<char>),
}

impl View for AppendStep {
    type V = AppendStepView;

    open spec fn view(&self) -> AppendStepView {
        match self {
            AppendStep::Process { index, kind } => AppendStepView::Process {
                index: *index,
                kind: *kind,
            },
            AppendStep::Finished { total_lines } => AppendStepView::Finished {
                total_lines: *total_lines,
            },
            AppendStep::Failed(MappingError::UnknownMappingType(p)) => AppendStepView::Failed(p@),
        }
    }
}

/// The next step of a run over the files `inputs` at `progress`: each input
/// is read, in order, by the reader that its extension names; the first
/// input of unknown kind stops the run with its path; after the last input
/// the run ends with the number of lines read.
pub open spec fn append_step_spec(inputs: Seq<Seq<char>>, progress: AppendProgress) -> AppendStepView {
    if progress.next >= inputs.len() {
        AppendStepView::Finished { total_lines: progress.total_lines }
    } else {
        match platform_of(inputs[progress.next as int]) {
            Some(kind) => AppendStepView::Process { index: progress.next, kind },
            None => AppendStepView::Failed(inputs[progress.next as int]),
        }
    }
}

/// Decides the next step of a run that appends the mapping files `inputs`,
/// as `append_step_spec` says.
pub fn append_mappings(inputs: &Vec<String>, progress: &AppendProgress) -> (step: AppendStep)
    ensures
        step@ == append_step_spec(views(inputs@), *progress),
{
    if progress.next >= inputs.len() {
        return AppendStep::Finished { total_lines: progress.total_lines };
    }
    assert(views(inputs@)[progress.next as int] == inputs@[progress.next as int]@);
    match detect_platform(inputs[progress.next].as_str()) {
        Ok(kind) => AppendStep::Process { index: progress.next, kind },
        Err(e) => AppendStep::Failed(e),
    }
}

/// The progress of a run once inputs of `counts` lines were read, one after
/// the other, from the start.
pub open spec fn progress_after(counts: Seq<usize>) -> AppendProgress
    decreases counts.len(),
{
    if counts.len() == 0 {
        AppendProgress { next: 0, total_lines: 0 }
    } else {
        next_progress(progress_after(counts.drop_last()), counts.last())
    }
}

/// The sum of `counts`.
pub open spec fn sum_of(counts: Seq<usize>) -> int
    decreases counts.len(),
{
    if counts.len() == 0 {
        0
    } else {
        sum_of(counts.drop_last()) + counts.last()
    }
}

/// After inputs of `counts` lines were read, the run stands at the input
/// after them, and the total is the number of lines read, modulo the range
/// of `usize`.
pub proof fn law_total_counts_every_line(counts: Seq<usize>)
    requires
        counts.len() <= usize::MAX,
    ensures
        progress_after(counts).next == counts.len(),
        progress_after(counts).total_lines == sum_of(counts) % (usize::MAX + 1),
    decreases counts.len(),
{
    let m: int = usize::MAX + 1;
    if counts.len() == 0 {
        vstd::arithmetic::div_mod::lemma_small_mod(0, m as nat);
    } else {
        let init = counts.drop_last();
        let x = counts.last();
        law_total_counts_every_line(init);
        let a = progress_after(init).total_lines;
        assert(a == sum_of(init) % m);
        vstd::arithmetic::div_mod::lemma_add_mod_noop(sum_of(init), x as int, m);
        vstd::arithmetic::div_mod::lemma_small_mod(x as nat, m as nat);
        vstd::arithmetic::div_mod::lemma_mod_twice(sum_of(init), m);
        if a + x >= m {
            vstd::arithmetic::div_mod::lemma_mod_sub_multiples_vanish(a + x, m);
            vstd::arithmetic::div_mod::lemma_small_mod((a + x - m) as nat, m as nat);
        } else {
            vstd::arithmetic::div_mod::lemma_small_mod((a + x) as nat, m as nat);
        }
    }
}

/// A run appends the files in order: after the first `counts.len()` inputs
/// were read (all of a known kind) with the given line counts, every one of
/// them was handed to the reader that its extension names, at its turn; the
/// next step reads the next input, stops at it when its kind is unknown, or
/// ends after the last input with the number of lines read (modulo the
/// range of `usize`).
pub proof fn law_append_runs_readers_in_order(inputs: Seq<Seq<char>>, counts: Seq<usize>)
    requires
        counts.len() <= inputs.len() <= usize::MAX,
        forall|j: int| 0 <= j < counts.len() ==> #[trigger] platform_of(inputs[j]) is Some,
    ensures
        forall|j: int|
            0 <= j < counts.len() ==> append_step_spec(inputs, #[trigger] progress_after(
                counts.take(j),
            )) == (AppendStepView::Process {
                index: j as usize,
                kind: platform_of(inputs[j]).unwrap(),
            }),
        append_step_spec(inputs, progress_after(counts)) == if counts.len() == inputs.len() {
            AppendStepView::Finished { total_lines: (sum_of(counts) % (usize::MAX + 1)) as usize }
        } else {
            match platform_of(inputs[counts.len() as int]) {
                Some(kind) => AppendStepView::Process { index: counts.len() as usize, kind },
                None => AppendStepView::Failed(inputs[counts.len() as int]),
            }
        },
{
    assert forall|j: int| 0 <= j < counts.len() implies append_step_spec(
        inputs,
        #[trigger] progress_after(counts.take(j)),
    ) == (AppendStepView::Process { index: j as usize, kind: platform_of(inputs[j]).unwrap() }) by {
        law_total_counts_every_line(counts.take(j));
    }
    law_total_counts_every_line(counts);
}

/// A suffix of a text ends with the text's last character.
proof fn lemma_suffix_last(a: Seq<char>, b: Seq<char>)
    requires
        a.len() > 0,
        a.is_suffix_of(b),
    ensures
        b.len() > 0,
        b.last() == a.last(),
{
    assert(b.subrange(b.len() - a.len(), b.len() as int)[a.len() - 1] == b.last());
}

/// `e` ends `p + e`.
proof fn lemma_suffix_of_concat(p: Seq<char>, e: Seq<char>)
    ensures
        e.is_suffix_of(p + e),
{
    assert((p + e).subrange(p.len() as int, (p + e).len() as int) =~= e);
}

/// The kind of a mapping file depends on the end of its name alone: every
/// name ending in `.srg` or `.tsrg` is Forge, in `.txt` or `.mappings`
/// vanilla, in `.tiny` Fabric, whatever dots, version numbers or
/// directories come before; and a name with none of these endings has no
/// kind.
pub proof fn law_extension_decides_platform(p: Seq<char>)
    ensures
        platform_of(p + ".srg"@) == Some(MappingType::Forge),
        platform_of(p + ".tsrg"@) == Some(MappingType::Forge),
        platform_of(p + ".txt"@) == Some(MappingType::Vanilla),
        platform_of(p + ".mappings"@) == Some(MappingType::Vanilla),
        platform_of(p + ".tiny"@) == Some(MappingType::Fabric),
        platform_of(p) is Some ==> ".srg"@.is_suffix_of(p) || ".tsrg"@.is_suffix_of(p)
            || ".txt"@.is_suffix_of(p) || ".mappings"@.is_suffix_of(p) || ".tiny"@.is_suffix_of(p),
{
    reveal_strlit(".srg");
    reveal_strlit(".tsrg");
    reveal_strlit(".txt");
    reveal_strlit(".mappings");
    reveal_strlit(".tiny");
    lemma_suffix_of_concat(p, ".srg"@);
    lemma_suffix_of_concat(p, ".tsrg"@);
    lemma_suffix_of_concat(p, ".txt"@);
    lemma_suffix_of_concat(p, ".mappings"@);
    lemma_suffix_of_concat(p, ".tiny"@);
    let exts = seq![".srg"@, ".tsrg"@, ".txt"@, ".mappings"@, ".tiny"@];
    assert forall|i: int, j: int|
        0 <= i < 5 && 0 <= j < 5 && exts[i].last() != exts[j].last() implies !exts[i].is_suffix_of(
        p + exts[j],
    ) by {
        if exts[i].is_suffix_of(p + exts[j]) {
            lemma_suffix_last(exts[i], p + exts[j]);
            assert((p + exts[j]).last() == exts[j].last());
        }
    }
    assert(exts[0] == ".srg"@ && exts[1] == ".tsrg"@ && exts[2] == ".txt"@ && exts[3]
        == ".mappings"@ && exts[4] == ".tiny"@);
    assert(".srg"@.last() == 'g' && ".tsrg"@.last() == 'g' && ".txt"@.last() == 't'
        && ".mappings"@.last() == 's' && ".tiny"@.last() == 'y');
}

} // verus!
