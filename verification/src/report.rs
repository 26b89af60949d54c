//! The table model and its renderer.
//!
//! A report is specified character by character: `report_text` is the whole
//! table for a sequence of outcome models, and `render_report` writes
//! exactly that text to a sink.  Column widths are computed from everything
//! that will stand in a column, so rendering is a second pass over fully
//! buffered outcomes.

use vstd::prelude::*;

verus! {

use vstd::string::StrSliceExecFns;
use vstd::string::StringExecFns;

use crate::MedicError;
use crate::sink::ReportSink;
use crate::style::bold_seq;
use crate::style::render_bold;
use crate::style::render_reset;
use crate::style::reset_seq;
use crate::style::lemma_style_seq_props;
use crate::style::style_prefix;
use crate::style::style_prefix_string;
use crate::text::append_indented;
use crate::text::append_padded;
use crate::text::indent_message;
use crate::text::lemma_pad_newline_count;
use crate::text::lemma_newline_count_concat;
use crate::text::lemma_newline_count_zero;
use crate::text::lemma_spaces_concat;
use crate::text::newline_count;
use crate::text::pad;
use crate::text::space_string;
use crate::text::spaces;
use crate::types::CheckOutcome;
use crate::types::CheckResult;
use crate::types::OutcomeModel;
use crate::types::lemma_severity_label_props;
use crate::types::severity_label;
use crate::types::severity_rank;

/// The models of a buffer of outcomes, in order.
pub open spec fn models(rows: Seq<CheckOutcome>) -> Seq<OutcomeModel> {
    rows.map_values(|r: CheckOutcome| r@)
}

/// Width of the leading status column: the widest of the header word
/// `RESULT` and every severity label among the outcomes.
pub open spec fn status_width(outs: Seq<OutcomeModel>) -> nat
    decreases outs.len(),
{
    if outs.len() == 0 {
        "RESULT"@.len()
    } else {
        let rest = status_width(outs.drop_last());
        let l = severity_label(outs.last().severity).len();
        if l > rest {
            l
        } else {
            rest
        }
    }
}

/// Width of the name column: the widest of the header word `CHECK` and
/// every check name among the outcomes.
pub open spec fn name_width(outs: Seq<OutcomeModel>) -> nat
    decreases outs.len(),
{
    if outs.len() == 0 {
        "CHECK"@.len()
    } else {
        let rest = name_width(outs.drop_last());
        let l = outs.last().name.len();
        if l > rest {
            l
        } else {
            rest
        }
    }
}

/// The maximum severity over the outcomes, `Ok` where there are none.
pub open spec fn worst_severity(outs: Seq<OutcomeModel>) -> CheckResult
    decreases outs.len(),
{
    if outs.len() == 0 {
        CheckResult::Okay
    } else {
        let rest = worst_severity(outs.drop_last());
        if severity_rank(outs.last().severity) >= severity_rank(rest) {
            outs.last().severity
        } else {
            rest
        }
    }
}

/// The header line, bold on a color-capable sink.
pub open spec fn header_text(sw: nat, nw: nat, color: bool) -> Seq<char> {
    (if color {
        bold_seq()
    } else {
        Seq::empty()
    }) + pad("RESULT"@, sw) + "  "@ + pad("CHECK"@, nw) + "  MESSAGE"@ + (if color {
        reset_seq()
    } else {
        Seq::empty()
    }) + "\n"@
}

/// One outcome's block: colorized padded label, padded name, and the
/// message with continuation lines aligned under the message column.
pub open spec fn row_text(o: OutcomeModel, sw: nat, nw: nat, color: bool) -> Seq<char> {
    (if color {
        style_prefix(o.severity)
    } else {
        Seq::empty()
    }) + pad(severity_label(o.severity), sw) + (if color {
        reset_seq()
    } else {
        Seq::empty()
    }) + "  "@ + pad(o.name, nw) + "  "@ + indent_message(o.message, sw + nw + 4) + "\n"@
}

/// The table body: one block per outcome, in order.
pub open spec fn rows_text(outs: Seq<OutcomeModel>, sw: nat, nw: nat, color: bool) -> Seq<char>
    decreases outs.len(),
{
    if outs.len() == 0 {
        Seq::empty()
    } else {
        rows_text(outs.drop_last(), sw, nw, color) + row_text(outs.last(), sw, nw, color)
    }
}

/// The whole table for a sequence of outcomes: header, then the body, with
/// both columns sized to everything they hold.
pub open spec fn report_text(outs: Seq<OutcomeModel>, color: bool) -> Seq<char> {
    header_text(status_width(outs), name_width(outs), color) + rows_text(
        outs,
        status_width(outs),
        name_width(outs),
        color,
    )
}

/// What stands in the sink after a run whose first `n` writes succeeded
/// and which then stopped: nothing where even the header was refused;
/// otherwise the header and the first `n - 1` row blocks, complete, with
/// the columns still sized to the whole outcome sequence.
pub open spec fn report_prefix(outs: Seq<OutcomeModel>, n: int, color: bool) -> Seq<char> {
    if n <= 0 {
        Seq::empty()
    } else {
        header_text(status_width(outs), name_width(outs), color) + rows_text(
            outs.take(n - 1),
            status_width(outs),
            name_width(outs),
            color,
        )
    }
}

/// Everything a column must hold fits its computed width.
pub proof fn lemma_width_bounds(outs: Seq<OutcomeModel>)
    ensures
        "RESULT"@.len() <= status_width(outs),
        "CHECK"@.len() <= name_width(outs),
        forall|i: int|
            0 <= i < outs.len() ==> severity_label(#[trigger] outs[i].severity).len()
                <= status_width(outs),
        forall|i: int| 0 <= i < outs.len() ==> (#[trigger] outs[i].name).len() <= name_width(outs),
    decreases outs.len(),
{
    if outs.len() > 0 {
        lemma_width_bounds(outs.drop_last());
        assert forall|i: int|
            0 <= i < outs.len() implies severity_label(#[trigger] outs[i].severity).len()
            <= status_width(outs) by {
            if i < outs.len() - 1 {
                assert(outs.drop_last()[i] == outs[i]);
            }
        }
        assert forall|i: int|
            0 <= i < outs.len() implies (#[trigger] outs[i].name).len() <= name_width(outs) by {
            if i < outs.len() - 1 {
                assert(outs.drop_last()[i] == outs[i]);
            }
        }
    }
}

/// Sum of the line breaks embedded in the outcome messages.
pub open spec fn message_breaks(outs: Seq<OutcomeModel>) -> nat
    decreases outs.len(),
{
    if outs.len() == 0 {
        0
    } else {
        message_breaks(outs.drop_last()) + newline_count(outs.last().message)
    }
}

/// The header is a single line.
pub proof fn lemma_header_line_count(sw: nat, nw: nat, color: bool)
    ensures
        newline_count(header_text(sw, nw, color)) == 1,
{
    reveal_strlit("RESULT");
    reveal_strlit("CHECK");
    reveal_strlit("  ");
    reveal_strlit("  MESSAGE");
    reveal_strlit("\n");
    let pfx = if color {
        bold_seq()
    } else {
        Seq::<char>::empty()
    };
    let rst = if color {
        reset_seq()
    } else {
        Seq::<char>::empty()
    };
    let res = pad("RESULT"@, sw);
    let chk = pad("CHECK"@, nw);
    lemma_style_seq_props(CheckResult::Okay);
    lemma_newline_count_zero(pfx);
    lemma_newline_count_zero(rst);
    lemma_pad_newline_count("RESULT"@, sw);
    lemma_pad_newline_count("CHECK"@, nw);
    lemma_newline_count_zero("RESULT"@);
    lemma_newline_count_zero("CHECK"@);
    lemma_newline_count_zero("  "@);
    lemma_newline_count_zero("  MESSAGE"@);
    lemma_newline_count_concat(pfx, res);
    lemma_newline_count_concat(pfx + res, "  "@);
    lemma_newline_count_concat(pfx + res + "  "@, chk);
    lemma_newline_count_concat(pfx + res + "  "@ + chk, "  MESSAGE"@);
    lemma_newline_count_concat(pfx + res + "  "@ + chk + "  MESSAGE"@, rst);
    lemma_newline_count_concat(pfx + res + "  "@ + chk + "  MESSAGE"@ + rst, "\n"@);
    assert(newline_count(Seq::<char>::empty()) == 0);
    assert("\n"@.drop_last() =~= Seq::<char>::empty());
    assert("\n"@.len() == 1 && "\n"@.last() == '\n');
    assert(newline_count("\n"@) == 1);
}

/// One outcome's block is one leading line plus the breaks in its message.
proof fn lemma_row_line_count(o: OutcomeModel, sw: nat, nw: nat, color: bool)
    requires
        forall|j: int| 0 <= j < o.name.len() ==> o.name[j] != '\n',
    ensures
        newline_count(row_text(o, sw, nw, color)) == 1 + newline_count(o.message),
{
    reveal_strlit("  ");
    reveal_strlit("\n");
    let pfx = if color {
        style_prefix(o.severity)
    } else {
        Seq::<char>::empty()
    };
    let rst = if color {
        reset_seq()
    } else {
        Seq::<char>::empty()
    };
    let lab = pad(severity_label(o.severity), sw);
    let nam = pad(o.name, nw);
    let msg = indent_message(o.message, sw + nw + 4);
    lemma_severity_label_props(o.severity);
    lemma_style_seq_props(o.severity);
    lemma_newline_count_zero(pfx);
    lemma_newline_count_zero(rst);
    lemma_pad_newline_count(severity_label(o.severity), sw);
    lemma_pad_newline_count(o.name, nw);
    lemma_newline_count_zero(severity_label(o.severity));
    lemma_newline_count_zero(o.name);
    lemma_newline_count_zero("  "@);
    crate::text::lemma_indent_newline_count(o.message, sw + nw + 4);
    lemma_newline_count_concat(pfx, lab);
    lemma_newline_count_concat(pfx + lab, rst);
    lemma_newline_count_concat(pfx + lab + rst, "  "@);
    lemma_newline_count_concat(pfx + lab + rst + "  "@, nam);
    lemma_newline_count_concat(pfx + lab + rst + "  "@ + nam, "  "@);
    lemma_newline_count_concat(pfx + lab + rst + "  "@ + nam + "  "@, msg);
    lemma_newline_count_concat(pfx + lab + rst + "  "@ + nam + "  "@ + msg, "\n"@);
    assert(newline_count(Seq::<char>::empty()) == 0);
    assert("\n"@.drop_last() =~= Seq::<char>::empty());
    assert("\n"@.len() == 1 && "\n"@.last() == '\n');
    assert(newline_count("\n"@) == 1);
}

/// The body of the table has one line per outcome plus one per line break
/// embedded in a message, whatever the widths and the styling, as long as
/// no check name carries a line break of its own.
pub proof fn lemma_body_line_count(outs: Seq<OutcomeModel>, sw: nat, nw: nat, color: bool)
    requires
        forall|i: int, j: int|
            0 <= i < outs.len() && 0 <= j < outs[i].name.len() ==> #[trigger] outs[i].name[j]
                != '\n',
    ensures
        newline_count(rows_text(outs, sw, nw, color)) == outs.len() + message_breaks(outs),
    decreases outs.len(),
{
    if outs.len() > 0 {
        assert forall|i: int, j: int|
            0 <= i < outs.drop_last().len() && 0 <= j < outs.drop_last()[i].name.len() implies (
        #[trigger] outs.drop_last()[i].name[j]) != '\n' by {
            assert(outs.drop_last()[i] == outs[i]);
        }
        lemma_body_line_count(outs.drop_last(), sw, nw, color);
        assert(outs[outs.len() - 1] == outs.last());
        lemma_row_line_count(outs.last(), sw, nw, color);
        lemma_newline_count_concat(
            rows_text(outs.drop_last(), sw, nw, color),
            row_text(outs.last(), sw, nw, color),
        );
    }
}

/// The rendered table has one header line, one line per outcome, and one
/// more per line break embedded in a message.
pub proof fn lemma_report_line_count(outs: Seq<OutcomeModel>, color: bool)
    requires
        forall|i: int, j: int|
            0 <= i < outs.len() && 0 <= j < outs[i].name.len() ==> #[trigger] outs[i].name[j]
                != '\n',
    ensures
        newline_count(report_text(outs, color)) == 1 + outs.len() + message_breaks(outs),
{
    lemma_header_line_count(status_width(outs), name_width(outs), color);
    lemma_body_line_count(outs, status_width(outs), name_width(outs), color);
    lemma_newline_count_concat(
        header_text(status_width(outs), name_width(outs), color),
        rows_text(outs, status_width(outs), name_width(outs), color),
    );
}

/// The worst severity of a run is the maximum under the fixed total order:
/// no outcome exceeds it, and some outcome attains it unless there are
/// none, in which case it is `Ok`.
pub proof fn lemma_worst_is_max(outs: Seq<OutcomeModel>)
    ensures
        forall|i: int|
            0 <= i < outs.len() ==> severity_rank((#[trigger] outs[i]).severity) <= severity_rank(
                worst_severity(outs),
            ),
        outs.len() > 0 ==> exists|i: int|
            0 <= i < outs.len() && (#[trigger] outs[i]).severity == worst_severity(outs),
        outs.len() == 0 ==> worst_severity(outs) == CheckResult::Okay,
    decreases outs.len(),
{
    if outs.len() > 0 {
        lemma_worst_is_max(outs.drop_last());
        assert forall|i: int|
            0 <= i < outs.len() implies severity_rank((#[trigger] outs[i]).severity)
            <= severity_rank(worst_severity(outs)) by {
            if i < outs.len() - 1 {
                assert(outs.drop_last()[i] == outs[i]);
            }
        }
        let last = outs.last();
        let rest = worst_severity(outs.drop_last());
        if severity_rank(last.severity) >= severity_rank(rest) {
            assert(outs[outs.len() - 1].severity == worst_severity(outs));
        } else {
            if outs.drop_last().len() > 0 {
                let i = choose|i: int|
                    0 <= i < outs.drop_last().len() && (#[trigger] outs.drop_last()[i]).severity
                        == rest;
                assert(outs[i].severity == worst_severity(outs));
            }
        }
    }
}

/// Column widths are monotonic in their input: against outcomes whose
/// labels and names are pointwise at least as long, neither column is
/// narrower.
pub proof fn lemma_widths_monotonic(a: Seq<OutcomeModel>, b: Seq<OutcomeModel>)
    requires
        a.len() == b.len(),
        forall|i: int|
            0 <= i < a.len() ==> severity_label((#[trigger] a[i]).severity).len() <= severity_label(
                b[i].severity,
            ).len(),
        forall|i: int| 0 <= i < a.len() ==> (#[trigger] a[i]).name.len() <= b[i].name.len(),
    ensures
        status_width(a) <= status_width(b),
        name_width(a) <= name_width(b),
    decreases a.len(),
{
    if a.len() > 0 {
        assert forall|i: int|
            0 <= i < a.drop_last().len() implies severity_label(
            (#[trigger] a.drop_last()[i]).severity,
        ).len() <= severity_label(b.drop_last()[i].severity).len() by {
            assert(a.drop_last()[i] == a[i]);
            assert(b.drop_last()[i] == b[i]);
        }
        assert forall|i: int|
            0 <= i < a.drop_last().len() implies (#[trigger] a.drop_last()[i]).name.len()
            <= b.drop_last()[i].name.len() by {
            assert(a.drop_last()[i] == a[i]);
            assert(b.drop_last()[i] == b[i]);
        }
        lemma_widths_monotonic(a.drop_last(), b.drop_last());
        assert(a[a.len() - 1] == a.last());
        assert(b[b.len() - 1] == b.last());
    }
}

/// Adding an outcome never shrinks a column.
pub proof fn lemma_widths_extend(outs: Seq<OutcomeModel>, o: OutcomeModel)
    ensures
        status_width(outs) <= status_width(outs.push(o)),
        name_width(outs) <= name_width(outs.push(o)),
{
    assert(outs.push(o).drop_last() =~= outs);
}

/// Rendering is deterministic: the table text is a function of the
/// outcomes and the sink's color capability alone, so one set of outcomes
/// rendered twice to equally capable sinks gives identical text.
pub proof fn lemma_render_deterministic(
    a: Seq<OutcomeModel>,
    b: Seq<OutcomeModel>,
    color_a: bool,
    color_b: bool,
)
    requires
        a == b,
        color_a == color_b,
    ensures
        report_text(a, color_a) == report_text(b, color_b),
{
}

/// Compute the status column width of the buffered outcomes.
fn compute_status_width(rows: &Vec<CheckOutcome>) -> (r: usize)
    ensures
        r as nat == status_width(models(rows@)),
{
    let mut w: usize = "RESULT".unicode_len();
    let mut i: usize = 0;
    while i < rows.len()
        invariant
            i <= rows@.len(),
            w as nat == status_width(models(rows@).take(i as int)),
        decreases rows@.len() - i,
    {
        let l: usize = rows[i].severity.label().unicode_len();
        if l > w {
            w = l;
        }
        proof {
            assert(models(rows@).take(i + 1).drop_last() =~= models(rows@).take(i as int));
            assert(models(rows@).take(i + 1).last() == rows@[i as int]@);
        }
        i = i + 1;
    }
    proof {
        assert(models(rows@).take(rows@.len() as int) =~= models(rows@));
    }
    w
}

/// Compute the name column width of the buffered outcomes.
fn compute_name_width(rows: &Vec<CheckOutcome>) -> (r: usize)
    ensures
        r as nat == name_width(models(rows@)),
{
    let mut w: usize = "CHECK".unicode_len();
    let mut i: usize = 0;
    while i < rows.len()
        invariant
            i <= rows@.len(),
            w as nat == name_width(models(rows@).take(i as int)),
        decreases rows@.len() - i,
    {
        let l: usize = rows[i].name.as_str().unicode_len();
        if l > w {
            w = l;
        }
        proof {
            assert(models(rows@).take(i + 1).drop_last() =~= models(rows@).take(i as int));
            assert(models(rows@).take(i + 1).last() == rows@[i as int]@);
        }
        i = i + 1;
    }
    proof {
        assert(models(rows@).take(rows@.len() as int) =~= models(rows@));
    }
    w
}

/// Write the aligned table for the buffered outcomes: the header line, then
/// one block per outcome, in order.  On success the sink gains exactly the
/// table text; a refused write surfaces as the engine's error, and the sink
/// holds exactly the lines fully written before it, nothing of or beyond
/// the refused one.  A sink that accepts every write makes the run succeed.
pub fn render_report<S: ReportSink>(output: &mut S, rows: &Vec<CheckOutcome>) -> (r: Result<
    (),
    MedicError,
>)
    ensures
        final(output).is_color() == old(output).is_color(),
        final(output).accepts_all() == old(output).accepts_all(),
        old(output).accepts_all() ==> r is Ok,
        r is Ok ==> final(output).content() == old(output).content() + report_text(
            models(rows@),
            old(output).is_color(),
        ),
        r is Err ==> exists|n: int|
            0 <= n <= models(rows@).len() && final(output).content() == old(output).content()
                + #[trigger] report_prefix(models(rows@), n, old(output).is_color()),
        r is Err ==> r->Err_0 is IoError,
{
    let color = output.color_capable();
    let sw = compute_status_width(rows);
    let nw = compute_name_width(rows);

    let mut ind = space_string(sw);
    ind.append("  ");
    let ind_names = space_string(nw);
    ind.append(ind_names.as_str());
    ind.append("  ");
    proof {
        reveal_strlit("  ");
        crate::text::lemma_spaces_props(2);
        assert("  "@ =~= spaces(2));
        lemma_spaces_concat(sw as nat, 2);
        lemma_spaces_concat(sw as nat + 2, nw as nat);
        lemma_spaces_concat(sw as nat + 2 + nw as nat, 2);
        assert(ind@ =~= spaces(sw as nat + nw as nat + 4));
    }

    let mut hdr = String::new();
    if color {
        let b = render_bold();
        hdr.append(b.as_str());
    }
    proof {
        lemma_width_bounds(models(rows@));
    }
    append_padded(&mut hdr, "RESULT", sw);
    hdr.append("  ");
    append_padded(&mut hdr, "CHECK", nw);
    hdr.append("  MESSAGE");
    if color {
        let rst = render_reset();
        hdr.append(rst.as_str());
    }
    hdr.append("\n");
    proof {
        assert(hdr@ =~= header_text(sw as nat, nw as nat, color));
    }
    match output.write_str(hdr.as_str()) {
        Err(e) => {
            proof {
                assert(output.content() =~= old(output).content() + report_prefix(
                    models(rows@),
                    0,
                    old(output).is_color(),
                ));
            }
            return Err(e);
        },
        Ok(()) => {},
    }

    let mut i: usize = 0;
    while i < rows.len()
        invariant
            i <= rows@.len(),
            sw as nat == status_width(models(rows@)),
            nw as nat == name_width(models(rows@)),
            color == old(output).is_color(),
            output.is_color() == old(output).is_color(),
            output.accepts_all() == old(output).accepts_all(),
            ind@ == spaces(sw as nat + nw as nat + 4),
            output.content() == old(output).content() + header_text(
                sw as nat,
                nw as nat,
                color,
            ) + rows_text(models(rows@).take(i as int), sw as nat, nw as nat, color),
        decreases rows@.len() - i,
    {
        proof {
            lemma_width_bounds(models(rows@));
            assert(models(rows@)[i as int] == rows@[i as int]@);
            assert(severity_label(models(rows@)[i as int].severity).len() <= status_width(
                models(rows@),
            ));
            assert(models(rows@)[i as int].name.len() <= name_width(models(rows@)));
        }
        let row: &CheckOutcome = &rows[i];
        let mut line = String::new();
        if color {
            let p = style_prefix_string(row.severity);
            line.append(p.as_str());
        }
        append_padded(&mut line, row.severity.label(), sw);
        if color {
            let rst = render_reset();
            line.append(rst.as_str());
        }
        line.append("  ");
        append_padded(&mut line, row.name.as_str(), nw);
        line.append("  ");
        proof {
            crate::text::lemma_spaces_props(sw as nat + nw as nat + 4);
        }
        append_indented(&mut line, row.message.as_str(), ind.as_str());
        line.append("\n");
        proof {
            assert(line@ =~= row_text(models(rows@)[i as int], sw as nat, nw as nat, color));
        }
        match output.write_str(line.as_str()) {
            Err(e) => {
                proof {
                    assert(output.content() =~= old(output).content() + report_prefix(
                        models(rows@),
                        i + 1,
                        old(output).is_color(),
                    ));
                }
                return Err(e);
            },
            Ok(()) => {},
        }
        proof {
            assert(models(rows@).take(i + 1).drop_last() =~= models(rows@).take(i as int));
            assert(models(rows@).take(i + 1).last() == models(rows@)[i as int]);
            assert(output.content() =~= old(output).content() + header_text(
                sw as nat,
                nw as nat,
                color,
            ) + rows_text(models(rows@).take(i + 1), sw as nat, nw as nat, color));
        }
        i = i + 1;
    }
    proof {
        assert(models(rows@).take(rows@.len() as int) =~= models(rows@));
    }
    Ok(())
}

} // verus!
