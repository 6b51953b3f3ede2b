//! Scripts: one instruction group per line, `<timestamp> > <actions>`.

use crate::action::{
    action_list_result, fault, fault_at, lemma_actions_result_wf, parse_actions_string,
};
use crate::comment::{code_of, strip_blocks, strip_line_comment};
use crate::error::{Fault, FaultKind, FaultView, ParseError, ParseErrorView};
use crate::model::{
    group_views, in_time_order, InstructionGroup, InstructionGroupView, Platform,
};
use crate::number::{digits_result, parse_digits};
use crate::text::{blank, chars_of, is_blank, split, split_on, trim, trimmed, views};
use vstd::prelude::*;

verus! {

/// A timestamp as a line writes it.
#[derive(Debug, Clone, Copy, PartialEq, Eq, Structural)]
pub enum Stamp {
    /// Milliseconds from the start of the run.
    Absolute(u64),
    /// Milliseconds from the time of the group before.
    Relative(u64),
}

/// The timestamp that the trimmed field `t` writes: digits, which count
/// from the start of the run, or `+` and digits, which count from the group
/// before.
pub open spec fn stamp_result(t: Seq<char>) -> Result<Stamp, FaultView> {
    if t.len() > 0 && t[0] == '+' {
        match digits_result(t.skip(1), u64::MAX) {
            Ok(n) => Ok(Stamp::Relative(n)),
            Err(cause) => Err(fault(FaultKind::InvalidTimestamp { cause }, t)),
        }
    } else {
        match digits_result(t, u64::MAX) {
            Ok(n) => Ok(Stamp::Absolute(n)),
            Err(cause) => Err(fault(FaultKind::InvalidTimestamp { cause }, t)),
        }
    }
}

/// The time that `stamp` stands for behind a group at time `previous`, or
/// at the start of a script where `previous` is `None`.
///
/// An absolute time has to be above the time of the group before; at the
/// start of a script any will do, 0 too. A relative time is added to the
/// time of the group before, or to 0 at the start.
pub open spec fn resolved_time(previous: Option<u64>, stamp: Stamp) -> Result<u64, FaultKind> {
    match stamp {
        Stamp::Absolute(t) => match previous {
            Some(p) if t <= p => Err(FaultKind::TimestampNotIncreasing),
            _ => Ok(t),
        },
        Stamp::Relative(d) => {
            let base = match previous {
                Some(p) => p,
                None => 0,
            };
            if base + d > u64::MAX {
                Err(FaultKind::TimestampOverflow)
            } else {
                Ok((base + d) as u64)
            }
        },
    }
}

/// The instruction group that the line `code`, which is free of comments
/// and not blank, stands for behind a group at time `previous`.
pub open spec fn group_result(
    code: Seq<char>,
    previous: Option<u64>,
    platform: Platform,
) -> Result<InstructionGroupView, FaultView> {
    let parts = split(code, '>');
    if parts.len() != 2 {
        Err(fault(FaultKind::MalformedLine, code))
    } else {
        match stamp_result(trim(parts[0])) {
            Err(f) => Err(f),
            Ok(stamp) => match resolved_time(previous, stamp) {
                Err(kind) => Err(fault(kind, trim(parts[0]))),
                Ok(time) => match action_list_result(parts[1], platform) {
                    Err(f) => Err(f),
                    Ok(actions) => Ok(InstructionGroupView { time, actions }),
                },
            },
        }
    }
}

/// The time of the last of `groups`.
pub open spec fn last_time(groups: Seq<InstructionGroupView>) -> Option<u64> {
    if groups.len() == 0 {
        None
    } else {
        Some(groups.last().time)
    }
}

/// The instruction groups of the lines `lines`, and whether a block comment
/// is open behind them. A line that is blank outside its comments stands
/// for nothing. The first faulty line makes the fault of all, under its
/// number, the first line being 1.
pub open spec fn lines_result(lines: Seq<Seq<char>>, platform: Platform) -> Result<
    (Seq<InstructionGroupView>, bool),
    ParseErrorView,
>
    decreases lines.len(),
{
    if lines.len() == 0 {
        Ok((seq![], false))
    } else {
        match lines_result(lines.drop_last(), platform) {
            Err(e) => Err(e),
            Ok((groups, in_comment)) => {
                let (code, open) = code_of(lines.last(), in_comment);
                if is_blank(code) {
                    Ok((groups, open))
                } else {
                    match group_result(code, last_time(groups), platform) {
                        Err(f) => Err(
                            ParseErrorView {
                                line: lines.len() as int,
                                kind: f.kind,
                                field: f.field,
                            },
                        ),
                        Ok(group) => Ok((groups.push(group), open)),
                    }
                }
            },
        }
    }
}

/// `line` without the `\r` at its end, where it has one.
pub open spec fn without_return(line: Seq<char>) -> Seq<char> {
    if line.len() > 0 && line.last() == '\r' {
        line.drop_last()
    } else {
        line
    }
}

/// The lines of `text`. A line ends at `\n` or at `\r\n`, and what stands
/// behind the last `\n` is the last line, be it empty.
pub open spec fn script_lines(text: Seq<char>) -> Seq<Seq<char>> {
    let parts = split(text, '\n');
    Seq::new(
        parts.len(),
        |i: int|
            if i + 1 < parts.len() {
                without_return(parts[i])
            } else {
                parts[i]
            },
    )
}

/// The instruction groups of the script `text`.
pub open spec fn script_result(text: Seq<char>, platform: Platform) -> Result<
    Seq<InstructionGroupView>,
    ParseErrorView,
> {
    match lines_result(script_lines(text), platform) {
        Err(e) => Err(e),
        Ok((groups, _)) => Ok(groups),
    }
}

/// Whether each of `groups` is well formed and asks for nothing that the
/// platform cannot do.
pub open spec fn all_playable(groups: Seq<InstructionGroupView>, platform: Platform) -> bool {
    forall|i: int| 0 <= i < groups.len() ==> playable(#[trigger] groups[i], platform)
}

/// Whether `group` is well formed and asks for nothing that the platform
/// cannot do.
pub open spec fn playable(group: InstructionGroupView, platform: Platform) -> bool {
    &&& group.wf()
    &&& forall|k: int|
        0 <= k < group.actions.len() ==> (#[trigger] group.actions[k]).supported(platform)
}

/// The time of a group is not below the time of the group before it, and
/// above it where the line gives an absolute time.
pub proof fn lemma_time_moves_on(previous: Option<u64>, stamp: Stamp)
    ensures
        resolved_time(previous, stamp) matches Ok(time) ==> (previous matches Some(p) ==> p
            <= time && (stamp is Absolute ==> p < time)),
{
}

/// The groups of the lines of a script are in the order of their times, well
/// formed, and within what the platform can do.
pub proof fn lemma_lines_in_order(lines: Seq<Seq<char>>, platform: Platform)
    ensures
        lines_result(lines, platform) matches Ok(r) ==> in_time_order(r.0) && all_playable(
            r.0,
            platform,
        ),
    decreases lines.len(),
{
    if lines.len() > 0 {
        lemma_lines_in_order(lines.drop_last(), platform);
        match lines_result(lines.drop_last(), platform) {
            Err(e) => {},
            Ok((groups, in_comment)) => {
                let (code, open) = code_of(lines.last(), in_comment);
                if !is_blank(code) {
                    match group_result(code, last_time(groups), platform) {
                        Err(f) => {},
                        Ok(group) => {
                            let parts = split(code, '>');
                            lemma_actions_result_wf(split(parts[1], ';'), platform);
                            let stamp = stamp_result(trim(parts[0]))->Ok_0;
                            lemma_time_moves_on(last_time(groups), stamp);
                            let all = groups.push(group);
                            assert(in_time_order(all)) by {
                                assert forall|i: int, j: int|
                                    0 <= i <= j < all.len() implies all[i].time
                                    <= all[j].time by {
                                    if j == groups.len() && i < j {
                                        assert(groups[i].time <= groups[groups.len() - 1].time);
                                    }
                                }
                            }
                            assert(all_playable(all, platform)) by {
                                assert forall|i: int| 0 <= i < all.len() implies playable(
                                    #[trigger] all[i],
                                    platform,
                                ) by {
                                    if i < groups.len() {
                                        assert(all[i] == groups[i]);
                                        assert(playable(groups[i], platform));
                                    }
                                }
                            }
                        },
                    }
                }
            },
        }
    }
}

/// The groups of a script are in the order of their times: no time is below
/// an earlier one. Each group has an action, and each action is well formed
/// and within what the platform can do.
pub proof fn lemma_script_in_order(text: Seq<char>, platform: Platform)
    ensures
        script_result(text, platform) matches Ok(groups) ==> in_time_order(groups)
            && all_playable(groups, platform),
{
    lemma_lines_in_order(script_lines(text), platform);
}

/// A line with an absolute time that is not above the time of the group
/// before it is refused, whatever else it holds.
pub proof fn lemma_late_line_refused(code: Seq<char>, previous: u64, platform: Platform)
    requires
        split(code, '>').len() == 2,
        stamp_result(trim(split(code, '>')[0])) matches Ok(Stamp::Absolute(t)) && t <= previous,
    ensures
        group_result(code, Some(previous), platform) == Err::<InstructionGroupView, FaultView>(
            fault(FaultKind::TimestampNotIncreasing, trim(split(code, '>')[0])),
        ),
{
}

/// A script is refused at the first line that gives an absolute time not
/// above the time of the group before it: whatever stands behind the time,
/// and whatever the lines after it hold.
pub proof fn lemma_late_script_refused(lines: Seq<Seq<char>>, platform: Platform, k: int)
    requires
        0 <= k < lines.len(),
        lines_result(lines.take(k), platform) matches Ok(r) && r.0.len() > 0 && ({
            let code = code_of(lines[k], r.1).0;
            &&& !is_blank(code)
            &&& split(code, '>').len() == 2
            &&& stamp_result(trim(split(code, '>')[0])) matches Ok(Stamp::Absolute(t)) && t
                <= r.0.last().time
        }),
    ensures
        lines_result(lines, platform) matches Err(e) && e.line == k + 1 && e.kind
            == FaultKind::TimestampNotIncreasing,
{
    assert(lines.take(k + 1).drop_last() =~= lines.take(k));
    assert(lines.take(k + 1).last() == lines[k]);
    lemma_error_stays(lines, platform, k + 1);
}

/// Drops the `\r` at the end of `line`, where it has one.
pub fn strip_return<'a>(line: &'a [char]) -> (r: &'a [char])
    ensures
        r@ == without_return(line@),
{
    if line.len() > 0 && line[line.len() - 1] == '\r' {
        let r = vstd::slice::slice_subrange(line, 0, line.len() - 1);
        assert(r@ =~= line@.drop_last());
        r
    } else {
        line
    }
}

/// Reads a timestamp from a field without white space at its ends.
pub fn parse_timestamp(t: &[char]) -> (r: Result<Stamp, Fault>)
    ensures
        match r {
            Ok(stamp) => stamp_result(t@) == Ok::<Stamp, FaultView>(stamp),
            Err(f) => stamp_result(t@) == Err::<Stamp, FaultView>(f@),
        },
{
    if t.len() > 0 && t[0] == '+' {
        match parse_digits(vstd::slice::slice_subrange(t, 1, t.len()), u64::MAX) {
            Ok(n) => Ok(Stamp::Relative(n)),
            Err(cause) => Err(fault_at(FaultKind::InvalidTimestamp { cause }, t)),
        }
    } else {
        match parse_digits(t, u64::MAX) {
            Ok(n) => Ok(Stamp::Absolute(n)),
            Err(cause) => Err(fault_at(FaultKind::InvalidTimestamp { cause }, t)),
        }
    }
}

/// Works out the time that a timestamp stands for.
pub fn resolve_timestamp(previous: Option<u64>, stamp: Stamp) -> (r: Result<u64, FaultKind>)
    ensures
        r == resolved_time(previous, stamp),
        r matches Ok(time) ==> (previous matches Some(p) ==> p <= time),
{
    match stamp {
        Stamp::Absolute(t) => match previous {
            Some(p) => if t <= p {
                Err(FaultKind::TimestampNotIncreasing)
            } else {
                Ok(t)
            },
            None => Ok(t),
        },
        Stamp::Relative(d) => {
            let base = match previous {
                Some(p) => p,
                None => 0,
            };
            match base.checked_add(d) {
                Some(time) => Ok(time),
                None => Err(FaultKind::TimestampOverflow),
            }
        },
    }
}

/// The view of a group, or the view of the fault in its place.
pub open spec fn group_view(r: Result<InstructionGroup, Fault>) -> Result<
    InstructionGroupView,
    FaultView,
> {
    match r {
        Ok(group) => Ok(group@),
        Err(f) => Err(f@),
    }
}

/// Reads one line that is free of comments and not blank.
pub fn parse_line(code: &[char], previous: Option<u64>, platform: Platform) -> (r: Result<
    InstructionGroup,
    Fault,
>)
    ensures
        group_view(r) == group_result(code@, previous, platform),
{
    let parts = split_on(code, '>');
    if parts.len() != 2 {
        return Err(fault_at(FaultKind::MalformedLine, code));
    }
    let field = trimmed(parts[0]);
    let stamp = match parse_timestamp(field) {
        Err(f) => {
            return Err(f);
        },
        Ok(stamp) => stamp,
    };
    let time = match resolve_timestamp(previous, stamp) {
        Err(kind) => {
            return Err(fault_at(kind, field));
        },
        Ok(time) => time,
    };
    match parse_actions_string(parts[1], platform) {
        Err(f) => Err(f),
        Ok(actions) => Ok(InstructionGroup { time, actions }),
    }
}

/// A fault among the first lines is the fault of the script.
pub proof fn lemma_error_stays(lines: Seq<Seq<char>>, platform: Platform, k: int)
    requires
        0 <= k <= lines.len(),
        lines_result(lines.take(k), platform) is Err,
    ensures
        lines_result(lines, platform) == lines_result(lines.take(k), platform),
    decreases lines.len() - k,
{
    if k < lines.len() {
        assert(lines.take(k + 1).drop_last() =~= lines.take(k));
        lemma_error_stays(lines, platform, k + 1);
    } else {
        assert(lines.take(k) =~= lines);
    }
}

/// The views of the groups of a script, or the view of the error in their
/// place.
pub open spec fn script_view(r: Result<Vec<InstructionGroup>, ParseError>) -> Result<
    Seq<InstructionGroupView>,
    ParseErrorView,
> {
    match r {
        Ok(groups) => Ok(group_views(groups@)),
        Err(e) => Err(e@),
    }
}

/// Reads a script: the instruction groups of its lines in the order of the
/// lines, or the fault of its first faulty line.
pub fn parse_script(text: &str, platform: Platform) -> (r: Result<
    Vec<InstructionGroup>,
    ParseError,
>)
    ensures
        script_view(r) == script_result(text@, platform),
        r matches Ok(groups) ==> in_time_order(group_views(groups@)) && all_playable(
            group_views(groups@),
            platform,
        ),
{
    proof {
        lemma_script_in_order(text@, platform);
    }
    let chars = chars_of(text);
    let lines = split_on(chars.as_slice(), '\n');
    let ghost all = script_lines(text@);
    let mut groups: Vec<InstructionGroup> = Vec::new();
    let mut in_comment = false;
    let mut i: usize = 0;
    assert(all.take(0) =~= Seq::<Seq<char>>::empty());
    assert(group_views(groups@) =~= Seq::<InstructionGroupView>::empty());
    while i < lines.len()
        invariant
            i <= lines.len(),
            views(lines@) == split(text@, '\n'),
            all == script_lines(text@),
            lines_result(all.take(i as int), platform) == Ok::<
                (Seq<InstructionGroupView>, bool),
                ParseErrorView,
            >((group_views(groups@), in_comment)),
        decreases lines.len() - i,
    {
        let ghost before = group_views(groups@);
        assert(all.take(i + 1).drop_last() =~= all.take(i as int));
        let line = if i + 1 < lines.len() {
            strip_return(lines[i])
        } else {
            lines[i]
        };
        assert(all.take(i + 1).last() == line@) by {
            assert(views(lines@)[i as int] == lines@[i as int]@);
        }
        let (kept, open) = strip_blocks(line, in_comment);
        let code = strip_line_comment(kept.as_slice());
        if !blank(code) {
            let previous = if groups.len() == 0 {
                None
            } else {
                Some(groups[groups.len() - 1].time)
            };
            assert(previous == last_time(before));
            match parse_line(code, previous, platform) {
                Err(f) => {
                    let e = ParseError { line: i + 1, kind: f.kind, field: f.field };
                    proof {
                        assert(lines_result(all.take(i + 1), platform) == Err::<
                            (Seq<InstructionGroupView>, bool),
                            ParseErrorView,
                        >(e@));
                        lemma_error_stays(all, platform, i + 1);
                    }
                    return Err(e);
                },
                Ok(group) => {
                    groups.push(group);
                    assert(group_views(groups@) =~= before.push(group@));
                },
            }
        }
        in_comment = open;
        i += 1;
    }
    assert(all.take(i as int) =~= all);
    Ok(groups)
}

} // verus!
