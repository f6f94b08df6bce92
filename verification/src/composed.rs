//! Inline (treat-as-char) controls on the composed lines of a paragraph: which
//! line each inline control belongs to, and what a line holds.
use vstd::prelude::*;
use crate::model::Paragraph;
use crate::paragraph::{is_treat_as_char_equation_control, spec_tac_equation};

verus! {

/// A run of text on a composed line.
#[derive(Debug, Default)]
pub struct ComposedRun {
    pub text: Vec<char>,
}

/// A composed line: its text runs and the character position where it starts.
#[derive(Debug, Default)]
pub struct ComposedLine {
    pub runs: Vec<ComposedRun>,
    pub char_start: usize,
}

/// A paragraph broken into lines, with its inline controls as
/// `(character position, width, control index)`.
#[derive(Debug, Default)]
pub struct ComposedParagraph {
    pub lines: Vec<ComposedLine>,
    pub tac_controls: Vec<(usize, i32, usize)>,
}

/// What the composer's own line queries report about a composed paragraph:
/// for each line, the character position where it ends and whether it holds a
/// strict inline control; and the assignment of inline controls to lines that
/// the composer read from the stored line segments, as
/// `(control index, owning line)`, when it found one.
#[derive(Debug, Default)]
pub struct LineQueryFacts {
    pub line_char_end: Vec<usize>,
    pub line_has_strict_tac: Vec<bool>,
    pub stored_assignment: Option<Vec<(usize, usize)>>,
}

/// The facts cover every line of the composed paragraph.
pub open spec fn spec_facts_cover(comp: ComposedParagraph, facts: LineQueryFacts) -> bool {
    &&& facts.line_char_end@.len() == comp.lines@.len()
    &&& facts.line_has_strict_tac@.len() == comp.lines@.len()
}

/// The control at index `ci` exists and is an inline equation.
pub open spec fn spec_tac_equation_at(para: Paragraph, ci: usize) -> bool {
    ci < para.controls@.len() && spec_tac_equation(para.controls@[ci as int])
}

/// An inline control whose position lies in `[start, end)` and that is an inline equation.
pub open spec fn spec_equation_tac_in(
    para: Paragraph,
    tac: (usize, i32, usize),
    start: usize,
    end: usize,
) -> bool {
    start <= tac.0 && tac.0 < end && spec_tac_equation_at(para, tac.2)
}

/// The line exists, is not empty, and an inline equation lies on it.
pub open spec fn spec_line_has_strict_equation_tac(
    para: Paragraph,
    comp: ComposedParagraph,
    facts: LineQueryFacts,
    line_idx: int,
) -> bool {
    &&& 0 <= line_idx < comp.lines@.len()
    &&& facts.line_char_end@[line_idx] > comp.lines@[line_idx].char_start
    &&& exists|t: int|
        0 <= t < comp.tac_controls@.len() && spec_equation_tac_in(
            para,
            #[trigger] comp.tac_controls@[t],
            comp.lines@[line_idx].char_start,
            facts.line_char_end@[line_idx],
        )
}

/// Whether the line exists, ends after it starts, and an inline equation is
/// placed between its start and end.
pub fn line_has_strict_equation_tac_control(
    para: &Paragraph,
    comp: &ComposedParagraph,
    facts: &LineQueryFacts,
    line_idx: usize,
) -> (r: bool)
    requires
        spec_facts_cover(*comp, *facts),
    ensures
        r == spec_line_has_strict_equation_tac(*para, *comp, *facts, line_idx as int),
{
    if line_idx >= comp.lines.len() {
        return false;
    }
    let start = comp.lines[line_idx].char_start;
    let end = facts.line_char_end[line_idx];
    if end <= start {
        return false;
    }
    let mut t: usize = 0;
    while t < comp.tac_controls.len()
        invariant
            t <= comp.tac_controls@.len(),
            line_idx < comp.lines@.len(),
            start == comp.lines@[line_idx as int].char_start,
            end == facts.line_char_end@[line_idx as int],
            forall|u: int|
                0 <= u < t ==> !spec_equation_tac_in(*para, #[trigger] comp.tac_controls@[u], start, end),
        decreases comp.tac_controls@.len() - t,
    {
        let (pos, _, ci) = comp.tac_controls[t];
        if pos >= start && pos < end && is_treat_as_char_equation_control(
            if ci < para.controls.len() {
                Some(&para.controls[ci])
            } else {
                None
            },
        ) {
            assert(spec_equation_tac_in(*para, comp.tac_controls@[t as int], start, end));
            return true;
        }
        t += 1;
    }
    false
}

/// An empty line that starts where the next line starts, carries no strict
/// inline control of its own, and is followed by a line with an inline equation.
pub open spec fn spec_leading_empty_equation_guide(
    para: Paragraph,
    comp: ComposedParagraph,
    facts: LineQueryFacts,
    line_idx: int,
) -> bool {
    &&& 0 <= line_idx
    &&& line_idx + 1 < comp.lines@.len()
    &&& comp.lines@[line_idx].runs@.len() == 0
    &&& comp.lines@[line_idx].char_start == comp.lines@[line_idx + 1].char_start
    &&& !facts.line_has_strict_tac@[line_idx]
    &&& spec_line_has_strict_equation_tac(para, comp, facts, line_idx + 1)
}

/// Whether the line is an empty guide line that leads an inline equation: it
/// has no runs, starts where the next line starts, holds no strict inline
/// control, and the next line holds an inline equation.
pub fn line_is_leading_empty_equation_tac_guide(
    para: &Paragraph,
    comp: &ComposedParagraph,
    facts: &LineQueryFacts,
    line_idx: usize,
) -> (r: bool)
    requires
        spec_facts_cover(*comp, *facts),
    ensures
        r == spec_leading_empty_equation_guide(*para, *comp, *facts, line_idx as int),
{
    if line_idx >= comp.lines.len() {
        return false;
    }
    if line_idx + 1 >= comp.lines.len() {
        return false;
    }
    comp.lines[line_idx].runs.len() == 0 && comp.lines[line_idx].char_start == comp.lines[line_idx
        + 1].char_start && !facts.line_has_strict_tac[line_idx]
        && line_has_strict_equation_tac_control(para, comp, facts, line_idx + 1)
}

/// The first line at or after `li` that does not start before position `p`.
pub open spec fn spec_skip_lines_before(lines: Seq<ComposedLine>, li: int, p: usize) -> int
    decreases lines.len() - li,
{
    if 0 <= li < lines.len() && lines[li].char_start < p {
        spec_skip_lines_before(lines, li + 1, p)
    } else {
        li
    }
}

/// The first line at or after `li` that does not start at position `p`.
pub open spec fn spec_skip_lines_at(lines: Seq<ComposedLine>, li: int, p: usize) -> int
    decreases lines.len() - li,
{
    if 0 <= li < lines.len() && lines[li].char_start == p {
        spec_skip_lines_at(lines, li + 1, p)
    } else {
        li
    }
}

/// The end of the run of inline controls from `t` on that sit at position `p`.
pub open spec fn spec_tac_group_end(tacs: Seq<(usize, i32, usize)>, t: int, p: usize) -> int
    decreases tacs.len() - t,
{
    if 0 <= t < tacs.len() && tacs[t].0 == p {
        spec_tac_group_end(tacs, t + 1, p)
    } else {
        t
    }
}

/// The line scans move forward and stay within the lines.
pub proof fn lemma_skip_lines_bounds(lines: Seq<ComposedLine>, li: int, p: usize)
    requires
        0 <= li,
    ensures
        li <= spec_skip_lines_before(lines, li, p),
        li <= spec_skip_lines_at(lines, li, p),
        li <= lines.len() ==> spec_skip_lines_before(lines, li, p) <= lines.len(),
        li <= lines.len() ==> spec_skip_lines_at(lines, li, p) <= lines.len(),
    decreases lines.len() - li,
{
    if li < lines.len() {
        lemma_skip_lines_bounds(lines, li + 1, p);
    }
}

/// A group of controls at one position ends within the controls, past its
/// first control when that control sits at the position.
pub proof fn lemma_tac_group_end_bounds(tacs: Seq<(usize, i32, usize)>, t: int, p: usize)
    requires
        0 <= t,
    ensures
        t <= spec_tac_group_end(tacs, t, p),
        t <= tacs.len() ==> spec_tac_group_end(tacs, t, p) <= tacs.len(),
        t < tacs.len() && tacs[t].0 == p ==> t < spec_tac_group_end(tacs, t, p),
    decreases tacs.len() - t,
{
    if t < tacs.len() {
        lemma_tac_group_end_bounds(tacs, t + 1, p);
    }
}

/// The lines in `[ls, le)` that are not leading guide lines, in order.
pub open spec fn spec_unguided_lines(
    para: Paragraph,
    comp: ComposedParagraph,
    facts: LineQueryFacts,
    ls: int,
    le: int,
) -> Seq<usize>
    decreases le - ls,
{
    if le <= ls {
        Seq::empty()
    } else {
        let prev = spec_unguided_lines(para, comp, facts, ls, le - 1);
        if spec_leading_empty_equation_guide(para, comp, facts, le - 1) {
            prev
        } else {
            prev.push((le - 1) as usize)
        }
    }
}

/// The line that the inline control at `offset` within a group of `tac_count`
/// controls at one position goes to, when the lines starting at that position
/// are `[ls, le)`: the candidates in order (the last one taking the surplus),
/// leaving out leading guide lines unless there are at least as many
/// candidates as controls in a group of several, or none would be left; with
/// no candidate at all, line `ls` (or the last line).
pub open spec fn spec_group_line(
    para: Paragraph,
    comp: ComposedParagraph,
    facts: LineQueryFacts,
    ls: int,
    le: int,
    tac_count: int,
    offset: int,
) -> usize {
    let n = comp.lines@.len() as int;
    let cand_len = le - ls;
    let filtered = spec_unguided_lines(para, comp, facts, ls, le);
    if (tac_count > 1 && cand_len >= tac_count) || filtered.len() == 0 {
        if cand_len <= 0 {
            (if ls < n - 1 {
                ls
            } else {
                n - 1
            }) as usize
        } else {
            (ls + if offset < cand_len - 1 {
                offset
            } else {
                cand_len - 1
            }) as usize
        }
    } else {
        filtered[if offset < filtered.len() - 1 {
            offset
        } else {
            filtered.len() - 1
        }]
    }
}

/// The lines assigned to the inline controls from `t` on, scanning the lines
/// from `li` on: group by group of controls at one position, after skipping
/// the lines that start before it.
pub open spec fn spec_assign_from(
    para: Paragraph,
    comp: ComposedParagraph,
    facts: LineQueryFacts,
    t: int,
    li: int,
) -> Seq<usize>
    decreases comp.tac_controls@.len() - t,
{
    let tacs = comp.tac_controls@;
    let lines = comp.lines@;
    if t < 0 || t >= tacs.len() || li < 0 {
        Seq::empty()
    } else {
        let p = tacs[t].0;
        let ls = spec_skip_lines_before(lines, li, p);
        let te = spec_tac_group_end(tacs, t, p);
        let le = spec_skip_lines_at(lines, ls, p);
        proof {
            lemma_tac_group_end_bounds(tacs, t, p);
            lemma_skip_lines_bounds(lines, li, p);
            lemma_skip_lines_bounds(lines, ls, p);
        }
        Seq::new((te - t) as nat, |o: int| spec_group_line(para, comp, facts, ls, le, te - t, o))
            + spec_assign_from(para, comp, facts, te, le)
    }
}

/// Every composed line is empty, and some line starts no later than the one
/// before it.
pub open spec fn spec_degenerate_empty_lines(lines: Seq<ComposedLine>) -> bool {
    &&& forall|k: int| 0 <= k < lines.len() ==> (#[trigger] lines[k]).runs@.len() == 0
    &&& exists|k: int|
        0 <= k && k + 1 < lines.len() && lines[k + 1].char_start <= (#[trigger] lines[k]).char_start
}

/// The assignment of inline controls to lines for a paragraph of equations only.
pub open spec fn spec_equation_only_assignment(
    para: Paragraph,
    comp: ComposedParagraph,
    facts: LineQueryFacts,
) -> Option<Seq<usize>> {
    if comp.lines@.len() <= 1 || comp.tac_controls@.len() == 0 || !spec_degenerate_empty_lines(
        comp.lines@,
    ) {
        None
    } else {
        Some(spec_assign_from(para, comp, facts, 0, 0))
    }
}

/// Whether some line starts no later than the line before it.
fn some_line_not_after_previous(lines: &Vec<ComposedLine>) -> (r: bool)
    ensures
        r == exists|k: int|
            0 <= k && k + 1 < lines@.len() && lines@[k + 1].char_start <= (
            #[trigger] lines@[k]).char_start,
{
    let n = lines.len();
    if n < 2 {
        return false;
    }
    let mut k: usize = 0;
    while k < n - 1
        invariant
            n == lines@.len(),
            n >= 2,
            k <= n - 1,
            forall|j: int|
                0 <= j < k && j + 1 < n ==> lines@[j + 1].char_start > (
                #[trigger] lines@[j]).char_start,
        decreases n - k,
    {
        if lines[k + 1].char_start <= lines[k].char_start {
            assert(lines@[k + 1].char_start <= lines@[k as int].char_start);
            return true;
        }
        k += 1;
    }
    false
}

/// For a paragraph of several composed lines that are all empty and not in
/// strictly increasing order (the shape that a paragraph of inline equations
/// only composes to), the line each inline control goes to: controls at one
/// position share the lines that start at that position, in order, with
/// leading guide lines left out as `spec_group_line` says.  Any other
/// paragraph gets none.
pub fn equation_only_tac_line_assignment(
    para: &Paragraph,
    comp: &ComposedParagraph,
    facts: &LineQueryFacts,
) -> (r: Option<Vec<usize>>)
    requires
        spec_facts_cover(*comp, *facts),
    ensures
        match r {
            Some(v) => spec_equation_only_assignment(*para, *comp, *facts) == Some(v@),
            None => spec_equation_only_assignment(*para, *comp, *facts) is None,
        },
{
    let n_lines = comp.lines.len();
    let n_tacs = comp.tac_controls.len();
    if n_lines <= 1 || n_tacs == 0 {
        return None;
    }
    let mut k: usize = 0;
    while k < n_lines
        invariant
            k <= n_lines == comp.lines@.len(),
            forall|j: int| 0 <= j < k ==> (#[trigger] comp.lines@[j]).runs@.len() == 0,
        decreases n_lines - k,
    {
        if comp.lines[k].runs.len() != 0 {
            return None;
        }
        k += 1;
    }
    if !some_line_not_after_previous(&comp.lines) {
        return None;
    }
    let ghost lines = comp.lines@;
    let ghost tacs = comp.tac_controls@;
    let mut assign: Vec<usize> = Vec::new();
    let mut line_idx: usize = 0;
    let mut tac_idx: usize = 0;
    while tac_idx < n_tacs
        invariant
            n_lines == comp.lines@.len() == lines.len(),
                lines == comp.lines@,
            n_tacs == comp.tac_controls@.len() == tacs.len(),
                tacs == comp.tac_controls@,
            n_lines >= 2,
            tac_idx <= n_tacs,
            line_idx <= n_lines,
            spec_facts_cover(*comp, *facts),
            assign@ + spec_assign_from(*para, *comp, *facts, tac_idx as int, line_idx as int)
                == spec_assign_from(*para, *comp, *facts, 0, 0),
        decreases n_tacs - tac_idx,
    {
        let pos = comp.tac_controls[tac_idx].0;
        let ghost t0 = tac_idx as int;
        let ghost li0 = line_idx as int;
        proof {
            lemma_skip_lines_bounds(lines, li0, pos);
            lemma_tac_group_end_bounds(tacs, t0, pos);
        }
        while line_idx < n_lines && comp.lines[line_idx].char_start < pos
            invariant
                n_lines == comp.lines@.len() == lines.len(),
                lines == comp.lines@,
                li0 <= line_idx <= n_lines,
                spec_skip_lines_before(lines, li0, pos) == spec_skip_lines_before(
                    lines,
                    line_idx as int,
                    pos,
                ),
            decreases n_lines - line_idx,
        {
            line_idx += 1;
        }
        let tac_start = tac_idx;
        while tac_idx < n_tacs && comp.tac_controls[tac_idx].0 == pos
            invariant
                n_tacs == comp.tac_controls@.len() == tacs.len(),
                tacs == comp.tac_controls@,
                t0 <= tac_idx <= n_tacs,
                spec_tac_group_end(tacs, t0, pos) == spec_tac_group_end(tacs, tac_idx as int, pos),
            decreases n_tacs - tac_idx,
        {
            tac_idx += 1;
        }
        let tac_count = tac_idx - tac_start;
        let line_start = line_idx;
        proof {
            lemma_skip_lines_bounds(lines, line_start as int, pos);
        }
        while line_idx < n_lines && comp.lines[line_idx].char_start == pos
            invariant
                n_lines == comp.lines@.len() == lines.len(),
                lines == comp.lines@,
                line_start <= line_idx <= n_lines,
                spec_skip_lines_at(lines, line_start as int, pos) == spec_skip_lines_at(
                    lines,
                    line_idx as int,
                    pos,
                ),
            decreases n_lines - line_idx,
        {
            line_idx += 1;
        }
        let mut filtered: Vec<usize> = Vec::new();
        let mut c = line_start;
        while c < line_idx
            invariant
                line_start <= c <= line_idx <= n_lines,
                n_lines == comp.lines@.len(),
                spec_facts_cover(*comp, *facts),
                filtered@ == spec_unguided_lines(*para, *comp, *facts, line_start as int, c as int),
            decreases line_idx - c,
        {
            if !line_is_leading_empty_equation_tac_guide(para, comp, facts, c) {
                filtered.push(c);
            }
            c += 1;
        }
        let cand_len = line_idx - line_start;
        let use_all = (tac_count > 1 && cand_len >= tac_count) || filtered.len() == 0;
        let ghost before = assign@;
        let mut offset: usize = 0;
        while offset < tac_count
            invariant
                offset <= tac_count,
                n_lines == comp.lines@.len(),
                n_lines >= 2,
                line_start <= line_idx <= n_lines,
                cand_len == line_idx - line_start,
                filtered@ == spec_unguided_lines(*para, *comp, *facts, line_start as int, line_idx as int),
                use_all == ((tac_count > 1 && cand_len >= tac_count) || filtered@.len() == 0),
                assign@ == before + Seq::new(
                    offset as nat,
                    |o: int|
                        spec_group_line(
                            *para,
                            *comp,
                            *facts,
                            line_start as int,
                            line_idx as int,
                            tac_count as int,
                            o,
                        ),
                ),
            decreases tac_count - offset,
        {
            let v = if use_all {
                if cand_len == 0 {
                    if line_start < n_lines - 1 {
                        line_start
                    } else {
                        n_lines - 1
                    }
                } else {
                    line_start + if offset < cand_len - 1 {
                        offset
                    } else {
                        cand_len - 1
                    }
                }
            } else {
                filtered[if offset < filtered.len() - 1 {
                    offset
                } else {
                    filtered.len() - 1
                }]
            };
            assign.push(v);
            assert(assign@ =~= before + Seq::new(
                (offset + 1) as nat,
                |o: int|
                    spec_group_line(
                        *para,
                        *comp,
                        *facts,
                        line_start as int,
                        line_idx as int,
                        tac_count as int,
                        o,
                    ),
            ));
            offset += 1;
        }
        assert(spec_assign_from(*para, *comp, *facts, t0, li0) == Seq::new(
            tac_count as nat,
            |o: int|
                spec_group_line(
                    *para,
                    *comp,
                    *facts,
                    line_start as int,
                    line_idx as int,
                    tac_count as int,
                    o,
                ),
        ) + spec_assign_from(*para, *comp, *facts, tac_idx as int, line_idx as int));
        assert(assign@ + spec_assign_from(*para, *comp, *facts, tac_idx as int, line_idx as int)
            =~= before + spec_assign_from(*para, *comp, *facts, t0, li0));
    }
    assert(assign@ =~= spec_assign_from(*para, *comp, *facts, 0, 0));
    Some(assign)
}

/// The controls that a stored assignment gives to the line, in order.
pub open spec fn spec_owned_by(a: Seq<(usize, usize)>, line: usize) -> Seq<usize>
    decreases a.len(),
{
    if a.len() == 0 {
        Seq::empty()
    } else {
        let prev = spec_owned_by(a.drop_last(), line);
        if a.last().1 == line {
            prev.push(a.last().0)
        } else {
            prev
        }
    }
}

/// The controls, among the first `k` inline controls, whose assigned line is `line`.
pub open spec fn spec_assigned_to(
    tacs: Seq<(usize, i32, usize)>,
    assign: Seq<usize>,
    line: usize,
    k: int,
) -> Seq<usize>
    decreases k,
{
    if k <= 0 {
        Seq::empty()
    } else {
        let prev = spec_assigned_to(tacs, assign, line, k - 1);
        if k - 1 < assign.len() && assign[k - 1] == line {
            prev.push(tacs[k - 1].2)
        } else {
            prev
        }
    }
}

/// The controls, among the first `k` inline controls, placed in `[start, end)`.
pub open spec fn spec_tacs_in(tacs: Seq<(usize, i32, usize)>, start: int, end: int, k: int) -> Seq<
    usize,
>
    decreases k,
{
    if k <= 0 {
        Seq::empty()
    } else {
        let prev = spec_tacs_in(tacs, start, end, k - 1);
        if start <= tacs[k - 1].0 && tacs[k - 1].0 < end {
            prev.push(tacs[k - 1].2)
        } else {
            prev
        }
    }
}

/// The controls, among the first `k` inline controls, that fall in the run
/// `[start, end)`, or at its end when `allow_end`.
pub open spec fn spec_run_hits(
    tacs: Seq<(usize, i32, usize)>,
    start: int,
    end: int,
    allow_end: bool,
    k: int,
) -> Seq<usize>
    decreases k,
{
    if k <= 0 {
        Seq::empty()
    } else {
        let prev = spec_run_hits(tacs, start, end, allow_end, k - 1);
        let pos = tacs[k - 1].0;
        if pos >= start && (pos < end || (allow_end && pos == end)) {
            prev.push(tacs[k - 1].2)
        } else {
            prev
        }
    }
}

/// The number of characters in the runs from `r` on.
pub open spec fn spec_runs_len(runs: Seq<ComposedRun>, r: int) -> int
    decreases runs.len() - r,
{
    if r < 0 || r >= runs.len() {
        0
    } else {
        runs[r].text@.len() + spec_runs_len(runs, r + 1)
    }
}

proof fn lemma_runs_len_nonneg(runs: Seq<ComposedRun>, r: int)
    ensures
        spec_runs_len(runs, r) >= 0,
    decreases runs.len() - r,
{
    if 0 <= r < runs.len() {
        lemma_runs_len_nonneg(runs, r + 1);
    }
}

/// The controls that the runs from `r` on (the first starting at `run_start`)
/// hold: each run holds the controls placed inside it, and the last run also
/// the one at its end unless the next line starts there.
pub open spec fn spec_line_hits(
    tacs: Seq<(usize, i32, usize)>,
    runs: Seq<ComposedRun>,
    next_start: Option<usize>,
    r: int,
    run_start: int,
) -> Seq<usize>
    decreases runs.len() - r,
{
    if r < 0 || r >= runs.len() {
        Seq::empty()
    } else {
        let run_end = run_start + runs[r].text@.len();
        let next_at_end = next_start matches Some(ns) && ns == run_end;
        let allow_end = r == runs.len() - 1 && !next_at_end;
        spec_run_hits(tacs, run_start, run_end, allow_end, tacs.len() as int) + spec_line_hits(
            tacs,
            runs,
            next_start,
            r + 1,
            run_end,
        )
    }
}

/// The character positions of the line's runs fit in `usize`.
pub open spec fn spec_line_positions_fit(comp: ComposedParagraph, line_idx: int) -> bool {
    0 <= line_idx < comp.lines@.len() ==> comp.lines@[line_idx].char_start + spec_runs_len(
        comp.lines@[line_idx].runs@,
        0,
    ) <= usize::MAX
}

/// The inline controls that belong to the line, in order.
pub open spec fn spec_tac_indices_for_line(
    para: Paragraph,
    comp: ComposedParagraph,
    facts: LineQueryFacts,
    line_idx: int,
) -> Seq<usize> {
    let lines = comp.lines@;
    let tacs = comp.tac_controls@;
    if line_idx < 0 || line_idx >= lines.len() || tacs.len() == 0 {
        Seq::empty()
    } else {
        match facts.stored_assignment {
            Some(a) => spec_owned_by(a@, line_idx as usize),
            None => match spec_equation_only_assignment(para, comp, facts) {
                Some(assign) => spec_assigned_to(tacs, assign, line_idx as usize, tacs.len() as int),
                None => {
                    let line = lines[line_idx];
                    let next_start = if line_idx + 1 < lines.len() {
                        Some(lines[line_idx + 1].char_start)
                    } else {
                        None
                    };
                    if line.runs@.len() == 0 {
                        let end = match next_start {
                            Some(ns) => ns as int,
                            None => usize::MAX as int,
                        };
                        spec_tacs_in(tacs, line.char_start as int, end, tacs.len() as int)
                    } else {
                        spec_line_hits(tacs, line.runs@, next_start, 0, line.char_start as int)
                    }
                },
            },
        }
    }
}

fn owned_by(a: &Vec<(usize, usize)>, line: usize) -> (r: Vec<usize>)
    ensures
        r@ == spec_owned_by(a@, line),
{
    let mut out: Vec<usize> = Vec::new();
    let mut k: usize = 0;
    while k < a.len()
        invariant
            k <= a@.len(),
            out@ == spec_owned_by(a@.take(k as int), line),
        decreases a@.len() - k,
    {
        assert(a@.take(k + 1).drop_last() =~= a@.take(k as int));
        let (ci, owner) = a[k];
        if owner == line {
            out.push(ci);
        }
        k += 1;
    }
    assert(a@.take(a@.len() as int) =~= a@);
    out
}

fn assigned_to(tacs: &Vec<(usize, i32, usize)>, assign: &Vec<usize>, line: usize) -> (r: Vec<
    usize,
>)
    ensures
        r@ == spec_assigned_to(tacs@, assign@, line, tacs@.len() as int),
{
    let mut out: Vec<usize> = Vec::new();
    let mut k: usize = 0;
    while k < tacs.len()
        invariant
            k <= tacs@.len(),
            out@ == spec_assigned_to(tacs@, assign@, line, k as int),
        decreases tacs@.len() - k,
    {
        if k < assign.len() && assign[k] == line {
            out.push(tacs[k].2);
        }
        k += 1;
    }
    out
}

fn tacs_in(tacs: &Vec<(usize, i32, usize)>, start: usize, end: usize) -> (r: Vec<usize>)
    ensures
        r@ == spec_tacs_in(tacs@, start as int, end as int, tacs@.len() as int),
{
    let mut out: Vec<usize> = Vec::new();
    let mut k: usize = 0;
    while k < tacs.len()
        invariant
            k <= tacs@.len(),
            out@ == spec_tacs_in(tacs@, start as int, end as int, k as int),
        decreases tacs@.len() - k,
    {
        let pos = tacs[k].0;
        if start <= pos && pos < end {
            out.push(tacs[k].2);
        }
        k += 1;
    }
    out
}

fn push_run_hits(
    out: &mut Vec<usize>,
    tacs: &Vec<(usize, i32, usize)>,
    start: usize,
    end: usize,
    allow_end: bool,
)
    ensures
        final(out)@ == old(out)@ + spec_run_hits(
            tacs@,
            start as int,
            end as int,
            allow_end,
            tacs@.len() as int,
        ),
{
    let ghost before = out@;
    let mut k: usize = 0;
    while k < tacs.len()
        invariant
            k <= tacs@.len(),
            out@ == before + spec_run_hits(tacs@, start as int, end as int, allow_end, k as int),
        decreases tacs@.len() - k,
    {
        let pos = tacs[k].0;
        if pos >= start && (pos < end || (allow_end && pos == end)) {
            out.push(tacs[k].2);
            assert(out@ =~= before + spec_run_hits(
                tacs@,
                start as int,
                end as int,
                allow_end,
                k + 1,
            ));
        }
        k += 1;
    }
}

/// The inline controls that belong to the line, in order.  The composer's
/// stored assignment decides when there is one; otherwise the equation-only
/// assignment when the paragraph has that shape; otherwise an empty line
/// holds the controls placed from its start up to the next line's start, and
/// a line with runs holds the controls placed inside each run, its last run
/// also the one at its end unless the next line starts there.
pub fn tac_control_indices_for_line(
    para: &Paragraph,
    comp: &ComposedParagraph,
    facts: &LineQueryFacts,
    line_idx: usize,
) -> (r: Vec<usize>)
    requires
        spec_facts_cover(*comp, *facts),
        spec_line_positions_fit(*comp, line_idx as int),
    ensures
        r@ == spec_tac_indices_for_line(*para, *comp, *facts, line_idx as int),
{
    if line_idx >= comp.lines.len() || comp.tac_controls.len() == 0 {
        return Vec::new();
    }
    match &facts.stored_assignment {
        Some(a) => {
            return owned_by(a, line_idx);
        },
        None => {},
    }
    match equation_only_tac_line_assignment(para, comp, facts) {
        Some(assign) => {
            return assigned_to(&comp.tac_controls, &assign, line_idx);
        },
        None => {},
    }
    let line = &comp.lines[line_idx];
    let next_start: Option<usize> = if line_idx + 1 < comp.lines.len() {
        Some(comp.lines[line_idx + 1].char_start)
    } else {
        None
    };
    if line.runs.len() == 0 {
        let end = match next_start {
            Some(ns) => ns,
            None => usize::MAX,
        };
        return tacs_in(&comp.tac_controls, line.char_start, end);
    }
    let ghost runs = line.runs@;
    let mut hits: Vec<usize> = Vec::new();
    let mut run_start: usize = line.char_start;
    let mut r: usize = 0;
    while r < line.runs.len()
        invariant
            runs == line.runs@,
            r <= runs.len(),
            run_start + spec_runs_len(runs, r as int) <= usize::MAX,
            hits@ + spec_line_hits(
                comp.tac_controls@,
                runs,
                next_start,
                r as int,
                run_start as int,
            ) == spec_line_hits(comp.tac_controls@, runs, next_start, 0, line.char_start as int),
        decreases runs.len() - r,
    {
        let run_len = line.runs[r].text.len();
        proof {
            lemma_runs_len_nonneg(runs, r + 1);
        }
        let run_end = run_start + run_len;
        let next_at_end = match next_start {
            Some(ns) => ns == run_end,
            None => false,
        };
        let allow_end = r == line.runs.len() - 1 && !next_at_end;
        let ghost before = hits@;
        push_run_hits(&mut hits, &comp.tac_controls, run_start, run_end, allow_end);
        assert(hits@ + spec_line_hits(
            comp.tac_controls@,
            runs,
            next_start,
            r + 1,
            run_end as int,
        ) =~= before + spec_line_hits(
            comp.tac_controls@,
            runs,
            next_start,
            r as int,
            run_start as int,
        ));
        run_start = run_end;
        r += 1;
    }
    assert(hits@ =~= spec_line_hits(
        comp.tac_controls@,
        runs,
        next_start,
        0,
        line.char_start as int,
    ));
    hits
}

/// Some control of the list is an inline equation of the paragraph.
pub open spec fn spec_some_tac_equation(para: Paragraph, ids: Seq<usize>) -> bool {
    exists|i: int| 0 <= i < ids.len() && spec_tac_equation_at(para, #[trigger] ids[i])
}

/// Every control of the list is an inline equation of the paragraph.
pub open spec fn spec_all_tac_equations(para: Paragraph, ids: Seq<usize>) -> bool {
    forall|i: int| 0 <= i < ids.len() ==> spec_tac_equation_at(para, #[trigger] ids[i])
}

/// The number of inline controls, among the first `k`, placed at `start`,
/// belonging to the line (listed in `ids`) and being inline equations.
pub open spec fn spec_count_leading_equations(
    para: Paragraph,
    tacs: Seq<(usize, i32, usize)>,
    start: usize,
    ids: Seq<usize>,
    k: int,
) -> nat
    decreases k,
{
    if k <= 0 {
        0
    } else {
        spec_count_leading_equations(para, tacs, start, ids, k - 1) + if tacs[k - 1].0 == start
            && ids.contains(tacs[k - 1].2) && spec_tac_equation_at(para, tacs[k - 1].2) {
            1nat
        } else {
            0nat
        }
    }
}

fn tac_equation_at(para: &Paragraph, ci: usize) -> (r: bool)
    ensures
        r == spec_tac_equation_at(*para, ci),
{
    is_treat_as_char_equation_control(
        if ci < para.controls.len() {
            Some(&para.controls[ci])
        } else {
            None
        },
    )
}

fn ids_contain(ids: &Vec<usize>, ci: usize) -> (r: bool)
    ensures
        r == ids@.contains(ci),
{
    let mut k: usize = 0;
    while k < ids.len()
        invariant
            k <= ids@.len(),
            forall|j: int| 0 <= j < k ==> ids@[j] != ci,
        decreases ids@.len() - k,
    {
        if ids[k] == ci {
            assert(ids@[k as int] == ci);
            return true;
        }
        k += 1;
    }
    false
}

fn some_tac_equation(para: &Paragraph, ids: &Vec<usize>) -> (r: bool)
    ensures
        r == spec_some_tac_equation(*para, ids@),
{
    let mut k: usize = 0;
    while k < ids.len()
        invariant
            k <= ids@.len(),
            forall|j: int| 0 <= j < k ==> !spec_tac_equation_at(*para, #[trigger] ids@[j]),
        decreases ids@.len() - k,
    {
        if tac_equation_at(para, ids[k]) {
            assert(spec_tac_equation_at(*para, ids@[k as int]));
            return true;
        }
        k += 1;
    }
    false
}

fn all_tac_equations(para: &Paragraph, ids: &Vec<usize>) -> (r: bool)
    ensures
        r == spec_all_tac_equations(*para, ids@),
{
    let mut k: usize = 0;
    while k < ids.len()
        invariant
            k <= ids@.len(),
            forall|j: int| 0 <= j < k ==> spec_tac_equation_at(*para, #[trigger] ids@[j]),
        decreases ids@.len() - k,
    {
        if !tac_equation_at(para, ids[k]) {
            return false;
        }
        k += 1;
    }
    true
}

/// Whether an inline equation belongs to the line.
pub fn line_has_tac_equation_control(
    para: &Paragraph,
    comp: &ComposedParagraph,
    facts: &LineQueryFacts,
    line_idx: usize,
) -> (r: bool)
    requires
        spec_facts_cover(*comp, *facts),
        spec_line_positions_fit(*comp, line_idx as int),
    ensures
        r == spec_some_tac_equation(
            *para,
            spec_tac_indices_for_line(*para, *comp, *facts, line_idx as int),
        ),
{
    let ids = tac_control_indices_for_line(para, comp, facts, line_idx);
    some_tac_equation(para, &ids)
}

/// The number of inline equations placed at the very start of the line that
/// belong to the line; none for a line that does not exist.
pub fn line_leading_tac_equation_count(
    para: &Paragraph,
    comp: &ComposedParagraph,
    facts: &LineQueryFacts,
    line_idx: usize,
) -> (r: usize)
    requires
        spec_facts_cover(*comp, *facts),
        spec_line_positions_fit(*comp, line_idx as int),
    ensures
        line_idx >= comp.lines@.len() ==> r == 0,
        line_idx < comp.lines@.len() ==> r == spec_count_leading_equations(
            *para,
            comp.tac_controls@,
            comp.lines@[line_idx as int].char_start,
            spec_tac_indices_for_line(*para, *comp, *facts, line_idx as int),
            comp.tac_controls@.len() as int,
        ),
{
    if line_idx >= comp.lines.len() {
        return 0;
    }
    let line_start = comp.lines[line_idx].char_start;
    let ids = tac_control_indices_for_line(para, comp, facts, line_idx);
    let mut count: usize = 0;
    let mut k: usize = 0;
    while k < comp.tac_controls.len()
        invariant
            k <= comp.tac_controls@.len(),
            count == spec_count_leading_equations(
                *para,
                comp.tac_controls@,
                line_start,
                ids@,
                k as int,
            ),
            count <= k,
        decreases comp.tac_controls@.len() - k,
    {
        let (pos, _, ci) = comp.tac_controls[k];
        if pos == line_start && ids_contain(&ids, ci) && tac_equation_at(para, ci) {
            count += 1;
        }
        k += 1;
    }
    count
}

/// Whether the line has no visible text (`line_has_visible_text` is the line
/// query's answer) and holds inline controls that are all equations.
pub fn line_is_equation_tac_text_run_only(
    para: &Paragraph,
    comp: &ComposedParagraph,
    facts: &LineQueryFacts,
    line_idx: usize,
    line_has_visible_text: bool,
) -> (r: bool)
    requires
        spec_facts_cover(*comp, *facts),
        spec_line_positions_fit(*comp, line_idx as int),
    ensures
        r == (!line_has_visible_text && {
            let ids = spec_tac_indices_for_line(*para, *comp, *facts, line_idx as int);
            ids.len() > 0 && spec_all_tac_equations(*para, ids)
        }),
{
    if line_has_visible_text {
        return false;
    }
    let ids = tac_control_indices_for_line(para, comp, facts, line_idx);
    ids.len() != 0 && all_tac_equations(para, &ids)
}

/// Whether the line has visible text (`line_has_visible_text` is the line
/// query's answer) or an inline equation belongs to it.
pub fn line_has_visible_text_or_tac_equation(
    para: &Paragraph,
    comp: &ComposedParagraph,
    facts: &LineQueryFacts,
    line_idx: usize,
    line_has_visible_text: bool,
) -> (r: bool)
    requires
        spec_facts_cover(*comp, *facts),
        spec_line_positions_fit(*comp, line_idx as int),
    ensures
        r == (line_has_visible_text || spec_some_tac_equation(
            *para,
            spec_tac_indices_for_line(*para, *comp, *facts, line_idx as int),
        )),
{
    line_has_visible_text || line_has_tac_equation_control(para, comp, facts, line_idx)
}

/// Whether some inline control belongs to the line.
pub fn line_has_tac_control(
    para: &Paragraph,
    comp: &ComposedParagraph,
    facts: &LineQueryFacts,
    line_idx: usize,
) -> (r: bool)
    requires
        spec_facts_cover(*comp, *facts),
        spec_line_positions_fit(*comp, line_idx as int),
    ensures
        r == (spec_tac_indices_for_line(*para, *comp, *facts, line_idx as int).len() > 0),
{
    tac_control_indices_for_line(para, comp, facts, line_idx).len() != 0
}

proof fn lemma_unguided_lines_bounds(
    para: Paragraph,
    comp: ComposedParagraph,
    facts: LineQueryFacts,
    ls: int,
    le: int,
)
    requires
        0 <= ls,
        le <= usize::MAX,
    ensures
        spec_unguided_lines(para, comp, facts, ls, le).len() <= if le > ls {
            le - ls
        } else {
            0
        },
        forall|i: int|
            0 <= i < spec_unguided_lines(para, comp, facts, ls, le).len() ==> ls <= (
            #[trigger] spec_unguided_lines(para, comp, facts, ls, le)[i]) < le,
    decreases le - ls,
{
    if le > ls {
        lemma_unguided_lines_bounds(para, comp, facts, ls, le - 1);
        let prev = spec_unguided_lines(para, comp, facts, ls, le - 1);
        let cur = spec_unguided_lines(para, comp, facts, ls, le);
        assert forall|i: int| 0 <= i < cur.len() implies ls <= (#[trigger] cur[i]) < le by {
            if i < prev.len() {
                assert(cur[i] == prev[i]);
            }
        }
    }
}

proof fn lemma_assign_from_total(
    para: Paragraph,
    comp: ComposedParagraph,
    facts: LineQueryFacts,
    t: int,
    li: int,
)
    requires
        0 <= t <= comp.tac_controls@.len(),
        0 <= li <= comp.lines@.len(),
        1 <= comp.lines@.len() <= usize::MAX,
    ensures
        spec_assign_from(para, comp, facts, t, li).len() == comp.tac_controls@.len() - t,
        forall|k: int|
            0 <= k < spec_assign_from(para, comp, facts, t, li).len() ==> (#[trigger] spec_assign_from(
                para,
                comp,
                facts,
                t,
                li,
            )[k]) < comp.lines@.len(),
    decreases comp.tac_controls@.len() - t,
{
    let tacs = comp.tac_controls@;
    let lines = comp.lines@;
    let n = lines.len() as int;
    if t < tacs.len() {
        let p = tacs[t].0;
        let ls = spec_skip_lines_before(lines, li, p);
        let te = spec_tac_group_end(tacs, t, p);
        let le = spec_skip_lines_at(lines, ls, p);
        lemma_tac_group_end_bounds(tacs, t, p);
        lemma_skip_lines_bounds(lines, li, p);
        lemma_skip_lines_bounds(lines, ls, p);
        lemma_unguided_lines_bounds(para, comp, facts, ls, le);
        lemma_assign_from_total(para, comp, facts, te, le);
        let group = Seq::new(
            (te - t) as nat,
            |o: int| spec_group_line(para, comp, facts, ls, le, te - t, o),
        );
        let rest = spec_assign_from(para, comp, facts, te, le);
        assert(spec_assign_from(para, comp, facts, t, li) == group + rest);
        assert forall|o: int| 0 <= o < group.len() implies (#[trigger] group[o]) < n by {
            let filtered = spec_unguided_lines(para, comp, facts, ls, le);
            if !((te - t > 1 && le - ls >= te - t) || filtered.len() == 0) {
                let j = if o < filtered.len() - 1 {
                    o
                } else {
                    filtered.len() - 1
                };
                assert(ls <= filtered[j] < le);
            }
        }
        assert forall|k: int|
            0 <= k < spec_assign_from(para, comp, facts, t, li).len() implies (
            #[trigger] spec_assign_from(para, comp, facts, t, li)[k]) < n by {
            if k < group.len() {
                assert(spec_assign_from(para, comp, facts, t, li)[k] == group[k]);
            } else {
                assert(spec_assign_from(para, comp, facts, t, li)[k] == rest[k - group.len()]);
            }
        }
    }
}

/// The equation-only assignment is total: it gives each inline control of the
/// paragraph exactly one line, and every line it gives exists.
pub proof fn lemma_equation_only_assignment_total(
    para: Paragraph,
    comp: ComposedParagraph,
    facts: LineQueryFacts,
)
    requires
        spec_equation_only_assignment(para, comp, facts) is Some,
        comp.lines@.len() <= usize::MAX,
    ensures
        ({
            let a = spec_equation_only_assignment(para, comp, facts)->0;
            &&& a.len() == comp.tac_controls@.len()
            &&& forall|k: int| 0 <= k < a.len() ==> #[trigger] a[k] < comp.lines@.len()
        }),
{
    lemma_assign_from_total(para, comp, facts, 0, 0);
}

/// A line that holds only inline equations (and no visible text) has an
/// inline equation, and a line with an inline equation has an inline control.
pub proof fn lemma_equation_line_has_tac(
    para: Paragraph,
    comp: ComposedParagraph,
    facts: LineQueryFacts,
    line_idx: int,
)
    ensures
        ({
            let ids = spec_tac_indices_for_line(para, comp, facts, line_idx);
            &&& (ids.len() > 0 && spec_all_tac_equations(para, ids)) ==> spec_some_tac_equation(
                para,
                ids,
            )
            &&& spec_some_tac_equation(para, ids) ==> ids.len() > 0
        }),
{
    let ids = spec_tac_indices_for_line(para, comp, facts, line_idx);
    if ids.len() > 0 && spec_all_tac_equations(para, ids) {
        assert(spec_tac_equation_at(para, ids[0]));
    }
}

/// The number of inline controls, among the first `k`, placed in `[lo, hi)`,
/// or at `hi` itself when `at_end`.
pub open spec fn spec_count_placed(
    tacs: Seq<(usize, i32, usize)>,
    lo: int,
    hi: int,
    at_end: bool,
    k: int,
) -> nat
    decreases k,
{
    if k <= 0 {
        0
    } else {
        spec_count_placed(tacs, lo, hi, at_end, k - 1) + if (lo <= tacs[k - 1].0 && tacs[k - 1].0
            < hi) || (at_end && tacs[k - 1].0 == hi) {
            1nat
        } else {
            0nat
        }
    }
}

proof fn lemma_run_hits_len(tacs: Seq<(usize, i32, usize)>, lo: int, hi: int, at_end: bool, k: int)
    requires
        lo <= hi,
    ensures
        spec_run_hits(tacs, lo, hi, at_end, k).len() == spec_count_placed(tacs, lo, hi, at_end, k),
    decreases k,
{
    if k > 0 {
        lemma_run_hits_len(tacs, lo, hi, at_end, k - 1);
    }
}

proof fn lemma_count_placed_split(
    tacs: Seq<(usize, i32, usize)>,
    lo: int,
    mid: int,
    hi: int,
    at_end: bool,
    k: int,
)
    requires
        lo <= mid <= hi,
    ensures
        spec_count_placed(tacs, lo, mid, false, k) + spec_count_placed(tacs, mid, hi, at_end, k)
            == spec_count_placed(tacs, lo, hi, at_end, k),
    decreases k,
{
    if k > 0 {
        lemma_count_placed_split(tacs, lo, mid, hi, at_end, k - 1);
    }
}

proof fn lemma_line_hits_len(
    tacs: Seq<(usize, i32, usize)>,
    runs: Seq<ComposedRun>,
    next_start: Option<usize>,
    r: int,
    rs: int,
)
    requires
        0 <= r < runs.len(),
    ensures
        ({
            let end = rs + spec_runs_len(runs, r);
            spec_line_hits(tacs, runs, next_start, r, rs).len() == spec_count_placed(
                tacs,
                rs,
                end,
                !(next_start matches Some(ns) && ns == end),
                tacs.len() as int,
            )
        }),
    decreases runs.len() - r,
{
    let re = rs + runs[r].text@.len();
    let end = rs + spec_runs_len(runs, r);
    let allow = !(next_start matches Some(ns) && ns == end);
    lemma_runs_len_nonneg(runs, r + 1);
    if r == runs.len() - 1 {
        assert(spec_runs_len(runs, r + 1) == 0);
        lemma_run_hits_len(tacs, rs, re, allow, tacs.len() as int);
        assert(spec_line_hits(tacs, runs, next_start, r + 1, re) =~= Seq::<usize>::empty());
    } else {
        lemma_line_hits_len(tacs, runs, next_start, r + 1, re);
        lemma_run_hits_len(tacs, rs, re, false, tacs.len() as int);
        lemma_count_placed_split(tacs, rs, re, end, allow, tacs.len() as int);
    }
}

/// Without a stored assignment and outside the equation-only shape, a line
/// with text runs holds each inline control placed on it exactly once: the
/// number of controls returned is the number of inline controls whose
/// position lies from the line's start up to (not including) the end of its
/// last run, plus those at that end when the next line does not start there.
/// No control is counted for two runs.
pub proof fn lemma_line_holds_each_placed_control_once(
    para: Paragraph,
    comp: ComposedParagraph,
    facts: LineQueryFacts,
    line_idx: int,
)
    requires
        0 <= line_idx < comp.lines@.len(),
        comp.tac_controls@.len() > 0,
        facts.stored_assignment is None,
        spec_equation_only_assignment(para, comp, facts) is None,
        comp.lines@[line_idx].runs@.len() > 0,
    ensures
        ({
            let line = comp.lines@[line_idx];
            let end = line.char_start + spec_runs_len(line.runs@, 0);
            let next_starts_at_end = line_idx + 1 < comp.lines@.len() && comp.lines@[line_idx
                + 1].char_start == end;
            spec_tac_indices_for_line(para, comp, facts, line_idx).len() == spec_count_placed(
                comp.tac_controls@,
                line.char_start as int,
                end,
                !next_starts_at_end,
                comp.tac_controls@.len() as int,
            )
        }),
{
    let line = comp.lines@[line_idx];
    let next_start = if line_idx + 1 < comp.lines@.len() {
        Some(comp.lines@[line_idx + 1].char_start)
    } else {
        None::<usize>
    };
    lemma_line_hits_len(comp.tac_controls@, line.runs@, next_start, 0, line.char_start as int);
}

/// Without a stored assignment and outside the equation-only shape, an empty
/// line holds the inline controls placed from its start up to (not including)
/// the next line's start (to the end of the text for the last line), each once.
pub proof fn lemma_empty_line_holds_controls_up_to_next_line(
    para: Paragraph,
    comp: ComposedParagraph,
    facts: LineQueryFacts,
    line_idx: int,
)
    requires
        0 <= line_idx < comp.lines@.len(),
        comp.tac_controls@.len() > 0,
        facts.stored_assignment is None,
        spec_equation_only_assignment(para, comp, facts) is None,
        comp.lines@[line_idx].runs@.len() == 0,
    ensures
        ({
            let start = comp.lines@[line_idx].char_start as int;
            let end = if line_idx + 1 < comp.lines@.len() {
                comp.lines@[line_idx + 1].char_start as int
            } else {
                usize::MAX as int
            };
            let ids = spec_tac_indices_for_line(para, comp, facts, line_idx);
            &&& ids.len() == spec_count_placed(
                comp.tac_controls@,
                start,
                end,
                false,
                comp.tac_controls@.len() as int,
            )
            &&& forall|i: int|
                0 <= i < ids.len() ==> exists|t: int|
                    0 <= t < comp.tac_controls@.len() && start <= comp.tac_controls@[t].0 < end
                        && #[trigger] ids[i] == comp.tac_controls@[t].2
        }),
{
    let start = comp.lines@[line_idx].char_start as int;
    let end = if line_idx + 1 < comp.lines@.len() {
        comp.lines@[line_idx + 1].char_start as int
    } else {
        usize::MAX as int
    };
    let tacs = comp.tac_controls@;
    lemma_tacs_in_len_members(tacs, start, end, tacs.len() as int);
    let ids = spec_tac_indices_for_line(para, comp, facts, line_idx);
    assert(ids == spec_tacs_in(tacs, start, end, tacs.len() as int));
    assert forall|i: int| 0 <= i < ids.len() implies exists|t: int|
        0 <= t < tacs.len() && start <= tacs[t].0 < end && #[trigger] ids[i] == tacs[t].2 by {
        assert(spec_tacs_in(tacs, start, end, tacs.len() as int)[i] == ids[i]);
    }
}

proof fn lemma_tacs_in_len_members(tacs: Seq<(usize, i32, usize)>, start: int, end: int, k: int)
    requires
        k <= tacs.len(),
    ensures
        spec_tacs_in(tacs, start, end, k).len() == spec_count_placed(tacs, start, end, false, k),
        forall|i: int|
            0 <= i < spec_tacs_in(tacs, start, end, k).len() ==> exists|t: int|
                0 <= t < tacs.len() && start <= tacs[t].0 < end && #[trigger] spec_tacs_in(
                    tacs,
                    start,
                    end,
                    k,
                )[i] == tacs[t].2,
    decreases k,
{
    if k > 0 {
        lemma_tacs_in_len_members(tacs, start, end, k - 1);
        let prev = spec_tacs_in(tacs, start, end, k - 1);
        let cur = spec_tacs_in(tacs, start, end, k);
        assert forall|i: int| 0 <= i < cur.len() implies exists|t: int|
            0 <= t < tacs.len() && start <= tacs[t].0 < end && #[trigger] cur[i] == tacs[t].2 by {
            if i < prev.len() {
                assert(cur[i] == prev[i]);
            } else {
                assert(cur[i] == tacs[k - 1].2);
            }
        }
    }
}

} // verus!
