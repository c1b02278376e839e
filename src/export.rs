//! The report encoder: turns a document into the cell operations of its two
//! sheets, "conditions" and "subprograms", in a fixed bit-pair encoding.
use vstd::prelude::*;
use vstd::string::StringExecFns;
use crate::conditions::IOElementCoditions;
use crate::io::{IOConfig, IOElement, in_frame};
use crate::kinds::{FrameTypes, IOElementStates, Operators};
use crate::rules::{ConditionsConfigElement, CondtionsConfig};
use crate::subprogram::{Subprogram, SubprogramConfig};
use crate::step::SubprogramStep;

verus! {

/// The two characters that stand for a required state.
pub open spec fn state_bits(s: IOElementStates) -> Seq<char> {
    match s {
        IOElementStates::Active => seq!['1', '0'],
        IOElementStates::Inactive => seq!['0', '1'],
        IOElementStates::Any => seq!['0', '0'],
    }
}

/// The text of a blocked or critical flag: `10` where it is set, empty where not.
pub open spec fn flag_bits(b: bool) -> Seq<char> {
    if b {
        seq!['1', '0']
    } else {
        Seq::empty()
    }
}

/// The symbol of a merge operator.
pub open spec fn operator_mark(op: Operators) -> Seq<char> {
    match op {
        Operators::AND => seq!['&'],
        Operators::OR => seq!['|'],
    }
}

/// Distinct states have distinct codes, so a code reads back as the one state
/// it was made from; every code is two characters long.
pub proof fn lemma_state_bits_round_trip(s: IOElementStates, t: IOElementStates)
    ensures
        state_bits(s).len() == 2,
        state_bits(s) == state_bits(t) ==> s == t,
{
    if state_bits(s) == state_bits(t) {
        assert(state_bits(s)[0] == state_bits(t)[0]);
        assert(state_bits(s)[1] == state_bits(t)[1]);
    }
}

pub fn encode_state(s: IOElementStates) -> (r: String)
    ensures
        r@ == state_bits(s),
{
    match s {
        IOElementStates::Active => {
            proof {
                reveal_strlit("10");
            }
            String::from_str("10")
        },
        IOElementStates::Inactive => {
            proof {
                reveal_strlit("01");
            }
            String::from_str("01")
        },
        IOElementStates::Any => {
            proof {
                reveal_strlit("00");
            }
            String::from_str("00")
        },
    }
}

pub fn encode_flag(b: bool) -> (r: String)
    ensures
        r@ == flag_bits(b),
{
    if b {
        proof {
            reveal_strlit("10");
        }
        String::from_str("10")
    } else {
        String::new()
    }
}

pub fn encode_operator(op: Operators) -> (r: String)
    ensures
        r@ == operator_mark(op),
{
    match op {
        Operators::AND => {
            proof {
                reveal_strlit("&");
            }
            String::from_str("&")
        },
        Operators::OR => {
            proof {
                reveal_strlit("|");
            }
            String::from_str("|")
        },
    }
}

/// Whether a binding targets the element named `name`.
pub open spec fn binds_to(b: IOElementCoditions, name: Seq<char>) -> bool {
    b.element is Some && b.element->0@ == name
}

/// The cell of the column named `name` for a list of bindings: the code of the
/// first binding that targets that name, or empty where none does.
pub open spec fn cell_code(bindings: Seq<IOElementCoditions>, name: Seq<char>) -> Seq<char>
    decreases bindings.len(),
{
    if bindings.len() == 0 {
        Seq::empty()
    } else if binds_to(bindings[0], name) {
        state_bits(bindings[0].state)
    } else {
        cell_code(bindings.drop_first(), name)
    }
}

/// The cell of one column for a list of bindings; the first binding that
/// targets the column's name decides it.
pub fn encode_cell(bindings: &Vec<IOElementCoditions>, name: &String) -> (r: String)
    ensures
        r@ == cell_code(bindings@, name@),
{
    let mut i: usize = 0;
    assert(bindings@.skip(0) =~= bindings@);
    while i < bindings.len()
        invariant
            i <= bindings.len(),
            cell_code(bindings@, name@) == cell_code(bindings@.skip(i as int), name@),
        decreases bindings.len() - i,
    {
        let ghost rest = bindings@.skip(i as int);
        assert(rest[0] == bindings@[i as int]);
        assert(rest.drop_first() =~= bindings@.skip(i + 1));
        match &bindings[i].element {
            Some(n) => {
                if *n == *name {
                    return encode_state(bindings[i].state);
                }
            },
            None => {},
        }
        i = i + 1;
    }
    assert(bindings@.skip(i as int).len() == 0);
    String::new()
}

/// How a cell is drawn: a rotated label, a framed heading, or a plain cell.
#[derive(Clone, Copy, Debug, PartialEq, Eq, Structural)]
pub enum CellStyle {
    Rotated,
    Framed,
    Plain,
}

/// One write into a sheet: a text over a merged range of cells, a text in one
/// cell, or a number in one cell. Rows and columns count from 0.
#[derive(Clone, Debug, PartialEq, Eq)]
pub enum SheetOp {
    Merge { first_row: usize, first_col: usize, last_row: usize, last_col: usize, text: String, style: CellStyle },
    Text { row: usize, col: usize, text: String, style: CellStyle },
    Number { row: usize, col: usize, value: usize, style: CellStyle },
}

/// A sheet write as the contracts see it.
pub enum CellOp {
    Merge { first_row: int, first_col: int, last_row: int, last_col: int, text: Seq<char>, style: CellStyle },
    Text { row: int, col: int, text: Seq<char>, style: CellStyle },
    Number { row: int, col: int, value: int, style: CellStyle },
}

impl View for SheetOp {
    type V = CellOp;

    open spec fn view(&self) -> CellOp {
        match self {
            SheetOp::Merge { first_row, first_col, last_row, last_col, text, style } => CellOp::Merge {
                first_row: *first_row as int,
                first_col: *first_col as int,
                last_row: *last_row as int,
                last_col: *last_col as int,
                text: text@,
                style: *style,
            },
            SheetOp::Text { row, col, text, style } => CellOp::Text {
                row: *row as int,
                col: *col as int,
                text: text@,
                style: *style,
            },
            SheetOp::Number { row, col, value, style } => CellOp::Number {
                row: *row as int,
                col: *col as int,
                value: *value as int,
                style: *style,
            },
        }
    }
}

/// The writes of a list of operations.
pub open spec fn cells(ops: Seq<SheetOp>) -> Seq<CellOp> {
    ops.map_values(|o: SheetOp| o@)
}

/// The heading texts of both sheets.
#[derive(Clone, Debug)]
pub struct SheetLabels {
    pub description: String,
    pub sensor_states: String,
    pub control_states: String,
    pub sign_of_transition: String,
    pub transition_address: String,
    pub sign_of_blocking: String,
    pub address: String,
    pub operator: String,
    pub sign_of_finish: String,
    pub initial: String,
}

/// Element names across row 1, one column each from `first_col`.
pub open spec fn name_texts(columns: Seq<IOElement>, first_col: int) -> Seq<CellOp> {
    Seq::new(columns.len(), |k: int| CellOp::Text { row: 1, col: first_col + k, text: columns[k].name@, style: CellStyle::Rotated })
}

/// Column numbers `1, 2, ...` across row 2, one column each from `first_col`.
pub open spec fn name_numbers(columns: Seq<IOElement>, first_col: int) -> Seq<CellOp> {
    Seq::new(columns.len(), |k: int| CellOp::Number { row: 2, col: first_col + k, value: k + 1, style: CellStyle::Plain })
}

/// The coded cells of one row for a list of bindings, one per column element.
pub open spec fn code_cells(row: int, first_col: int, bindings: Seq<IOElementCoditions>, columns: Seq<IOElement>) -> Seq<CellOp> {
    Seq::new(
        columns.len(),
        |k: int| CellOp::Text { row, col: first_col + k, text: cell_code(bindings, columns[k].name@), style: CellStyle::Plain },
    )
}

fn push_op(ops: &mut Vec<SheetOp>, op: SheetOp)
    ensures
        cells(final(ops)@) == cells(old(ops)@).push(op@),
{
    ops.push(op);
    assert(cells(ops@) =~= cells(old(ops)@).push(op@));
}

/// Writes the names of the column elements and their numbers below them.
fn push_names(ops: &mut Vec<SheetOp>, columns: &Vec<IOElement>, first_col: usize)
    requires
        first_col + columns.len() <= usize::MAX,
    ensures
        cells(final(ops)@) == cells(old(ops)@) + name_texts(columns@, first_col as int)
            + name_numbers(columns@, first_col as int),
{
    let ghost base = cells(ops@);
    let mut k: usize = 0;
    while k < columns.len()
        invariant
            k <= columns.len(),
            first_col + columns.len() <= usize::MAX,
            cells(ops@) == base + name_texts(columns@.take(k as int), first_col as int),
        decreases columns.len() - k,
    {
        push_op(ops, SheetOp::Text { row: 1, col: first_col + k, text: columns[k].name.clone(), style: CellStyle::Rotated });
        assert(name_texts(columns@.take(k + 1), first_col as int) =~= name_texts(columns@.take(k as int), first_col as int).push(
            CellOp::Text { row: 1, col: first_col + k, text: columns@[k as int].name@, style: CellStyle::Rotated }));
        k = k + 1;
    }
    assert(columns@.take(k as int) =~= columns@);
    let ghost mid = cells(ops@);
    k = 0;
    while k < columns.len()
        invariant
            k <= columns.len(),
            first_col + columns.len() <= usize::MAX,
            cells(ops@) == mid + name_numbers(columns@.take(k as int), first_col as int),
        decreases columns.len() - k,
    {
        push_op(ops, SheetOp::Number { row: 2, col: first_col + k, value: k + 1, style: CellStyle::Plain });
        assert(name_numbers(columns@.take(k + 1), first_col as int) =~= name_numbers(columns@.take(k as int), first_col as int).push(
            CellOp::Number { row: 2, col: first_col + k, value: k + 1, style: CellStyle::Plain }));
        k = k + 1;
    }
    assert(columns@.take(k as int) =~= columns@);
}

/// Writes one coded cell per column element in `row`, from `first_col` on.
fn push_codes(ops: &mut Vec<SheetOp>, row: usize, first_col: usize, bindings: &Vec<IOElementCoditions>, columns: &Vec<IOElement>)
    requires
        first_col + columns.len() <= usize::MAX,
    ensures
        cells(final(ops)@) == cells(old(ops)@) + code_cells(row as int, first_col as int, bindings@, columns@),
{
    let ghost base = cells(ops@);
    let mut k: usize = 0;
    while k < columns.len()
        invariant
            k <= columns.len(),
            first_col + columns.len() <= usize::MAX,
            cells(ops@) == base + code_cells(row as int, first_col as int, bindings@, columns@.take(k as int)),
        decreases columns.len() - k,
    {
        let text = encode_cell(bindings, &columns[k].name);
        push_op(ops, SheetOp::Text { row, col: first_col + k, text, style: CellStyle::Plain });
        assert(code_cells(row as int, first_col as int, bindings@, columns@.take(k + 1)) =~= code_cells(
            row as int, first_col as int, bindings@, columns@.take(k as int)).push(
            CellOp::Text { row: row as int, col: first_col + k, text: cell_code(bindings@, columns@[k as int].name@), style: CellStyle::Plain }));
        k = k + 1;
    }
    assert(columns@.take(k as int) =~= columns@);
}

/// The elements of each frame together are all elements.
proof fn lemma_frames_partition(elements: Seq<IOElement>)
    ensures
        elements.filter(in_frame(FrameTypes::State)).len() + elements.filter(in_frame(FrameTypes::Control)).len()
            == elements.len(),
    decreases elements.len(),
{
    if elements.len() == 0 {
        reveal(Seq::filter);
    } else {
        let init = elements.drop_last();
        lemma_frames_partition(init);
        assert(init.push(elements.last()) =~= elements);
        init.lemma_filter_push(elements.last(), in_frame(FrameTypes::State));
        init.lemma_filter_push(elements.last(), in_frame(FrameTypes::Control));
    }
}

/// The row of one condition rule: its description, a coded cell per state
/// and per control element, its blocked flag, target address and critical flag.
pub open spec fn rule_cells(row: int, rule: ConditionsConfigElement, st: Seq<IOElement>, ct: Seq<IOElement>) -> Seq<CellOp> {
    let tail: int = 4 + st.len() as int + ct.len() as int;
    seq![CellOp::Merge { first_row: row, first_col: 0, last_row: row, last_col: 3, text: rule.description@, style: CellStyle::Framed }]
        + code_cells(row, 4, rule.state_conditions@, st)
        + code_cells(row, 4 + st.len() as int, rule.control_conditions@, ct)
        + seq![
            CellOp::Text { row, col: tail, text: flag_bits(rule.blocked), style: CellStyle::Plain },
            CellOp::Number { row, col: tail + 1, value: rule.address as int, style: CellStyle::Plain },
            CellOp::Text { row, col: tail + 2, text: flag_bits(rule.critical), style: CellStyle::Plain },
        ]
}

/// The rows of all rules, from row 3 down, in registry order.
pub open spec fn rule_rows(rules: Seq<ConditionsConfigElement>, st: Seq<IOElement>, ct: Seq<IOElement>) -> Seq<CellOp> {
    Seq::new(rules.len(), |r: int| rule_cells(3 + r, rules[r], st, ct)).flatten()
}

/// The headings of the conditions sheet, for `ns` state and `nc` control columns.
pub open spec fn conditions_header(ns: int, nc: int, labels: SheetLabels) -> Seq<CellOp> {
    seq![
        CellOp::Merge { first_row: 0, first_col: 0, last_row: 2, last_col: 3, text: labels.description@, style: CellStyle::Framed },
        CellOp::Merge { first_row: 0, first_col: 4, last_row: 0, last_col: 3 + ns, text: labels.sensor_states@, style: CellStyle::Framed },
        CellOp::Merge { first_row: 0, first_col: 4 + ns, last_row: 0, last_col: 3 + ns + nc, text: labels.control_states@, style: CellStyle::Framed },
        CellOp::Merge { first_row: 0, first_col: 4 + ns + nc, last_row: 2, last_col: 4 + ns + nc, text: labels.sign_of_transition@, style: CellStyle::Rotated },
        CellOp::Merge { first_row: 0, first_col: 5 + ns + nc, last_row: 2, last_col: 5 + ns + nc, text: labels.transition_address@, style: CellStyle::Rotated },
        CellOp::Merge { first_row: 0, first_col: 6 + ns + nc, last_row: 2, last_col: 6 + ns + nc, text: labels.sign_of_blocking@, style: CellStyle::Rotated },
    ]
}

/// The conditions sheet: headings, the state then control element names with
/// their numbers, and one row per rule.
pub open spec fn conditions_sheet_cells(elements: Seq<IOElement>, rules: Seq<ConditionsConfigElement>, labels: SheetLabels) -> Seq<CellOp> {
    let st = elements.filter(in_frame(FrameTypes::State));
    let ct = elements.filter(in_frame(FrameTypes::Control));
    conditions_header(st.len() as int, ct.len() as int, labels)
        + name_texts(st, 4) + name_numbers(st, 4)
        + name_texts(ct, 4 + st.len() as int) + name_numbers(ct, 4 + st.len() as int)
        + rule_rows(rules, st, ct)
}

fn push_merge(ops: &mut Vec<SheetOp>, first_row: usize, first_col: usize, last_row: usize, last_col: usize, text: &String, style: CellStyle)
    ensures
        cells(final(ops)@) == cells(old(ops)@).push(CellOp::Merge {
            first_row: first_row as int,
            first_col: first_col as int,
            last_row: last_row as int,
            last_col: last_col as int,
            text: text@,
            style,
        }),
{
    push_op(ops, SheetOp::Merge { first_row, first_col, last_row, last_col, text: text.clone(), style });
}

fn push_rule_row(ops: &mut Vec<SheetOp>, row: usize, rule: &ConditionsConfigElement, st: &Vec<IOElement>, ct: &Vec<IOElement>)
    requires
        st.len() + ct.len() + 7 <= usize::MAX,
    ensures
        cells(final(ops)@) == cells(old(ops)@) + rule_cells(row as int, *rule, st@, ct@),
{
    let ghost base = cells(ops@);
    let ns = st.len();
    let nc = ct.len();
    let tail = 4 + ns + nc;
    push_merge(ops, row, 0, row, 3, &rule.description, CellStyle::Framed);
    push_codes(ops, row, 4, &rule.state_conditions, st);
    push_codes(ops, row, 4 + ns, &rule.control_conditions, ct);
    push_op(ops, SheetOp::Text { row, col: tail, text: encode_flag(rule.blocked), style: CellStyle::Plain });
    push_op(ops, SheetOp::Number { row, col: tail + 1, value: rule.address, style: CellStyle::Plain });
    push_op(ops, SheetOp::Text { row, col: tail + 2, text: encode_flag(rule.critical), style: CellStyle::Plain });
    assert(cells(ops@) =~= base + rule_cells(row as int, *rule, st@, ct@));
}

/// Lays out the conditions sheet of a document: headings over the state and
/// control columns, each column's element name and number, then one row per
/// rule with the code of the first binding that targets each column.
pub fn conditions_sheet(io: &IOConfig, rules: &CondtionsConfig, labels: &SheetLabels) -> (r: Vec<SheetOp>)
    requires
        io.elements.len() + 7 <= usize::MAX,
        rules.conditions.len() + 3 <= usize::MAX,
    ensures
        cells(r@) == conditions_sheet_cells(io.elements@, rules.conditions@, *labels),
{
    let st = io.get_elements_by_frame_type(FrameTypes::State);
    let ct = io.get_elements_by_frame_type(FrameTypes::Control);
    proof {
        lemma_frames_partition(io.elements@);
    }
    let ns = st.len();
    let nc = ct.len();
    let mut ops: Vec<SheetOp> = Vec::new();
    push_merge(&mut ops, 0, 0, 2, 3, &labels.description, CellStyle::Framed);
    push_merge(&mut ops, 0, 4, 0, 3 + ns, &labels.sensor_states, CellStyle::Framed);
    push_merge(&mut ops, 0, 4 + ns, 0, 3 + ns + nc, &labels.control_states, CellStyle::Framed);
    push_merge(&mut ops, 0, 4 + ns + nc, 2, 4 + ns + nc, &labels.sign_of_transition, CellStyle::Rotated);
    push_merge(&mut ops, 0, 5 + ns + nc, 2, 5 + ns + nc, &labels.transition_address, CellStyle::Rotated);
    push_merge(&mut ops, 0, 6 + ns + nc, 2, 6 + ns + nc, &labels.sign_of_blocking, CellStyle::Rotated);
    assert(cells(ops@) =~= conditions_header(ns as int, nc as int, *labels));
    push_names(&mut ops, &st, 4);
    push_names(&mut ops, &ct, 4 + ns);
    let ghost head = cells(ops@);
    let ghost rows = Seq::new(rules.conditions@.len(), |r: int| rule_cells(3 + r, rules.conditions@[r], st@, ct@));
    let mut r: usize = 0;
    while r < rules.conditions.len()
        invariant
            r <= rules.conditions.len(),
            rules.conditions.len() + 3 <= usize::MAX,
            ns + nc + 7 <= usize::MAX,
            ns == st.len(),
            nc == ct.len(),
            rows == Seq::new(rules.conditions@.len(), |r: int| rule_cells(3 + r, rules.conditions@[r], st@, ct@)),
            cells(ops@) == head + rows.take(r as int).flatten(),
        decreases rules.conditions.len() - r,
    {
        push_rule_row(&mut ops, 3 + r, &rules.conditions[r], &st, &ct);
        proof {
            assert(rows.take(r + 1) =~= rows.take(r as int).push(rows[r as int]));
            rows.take(r as int).lemma_flatten_push(rows[r as int]);
        }
        r = r + 1;
    }
    assert(rows.take(r as int) =~= rows);
    assert(cells(ops@) =~= conditions_sheet_cells(io.elements@, rules.conditions@, *labels));
    ops
}

/// The row of one step: its description, its address, its operator symbol,
/// and a coded cell per state and per control element.
pub open spec fn step_cells(row: int, address: int, step: SubprogramStep, st: Seq<IOElement>, ct: Seq<IOElement>) -> Seq<CellOp> {
    seq![
        CellOp::Merge { first_row: row, first_col: 1, last_row: row, last_col: 3, text: step.descripton@, style: CellStyle::Plain },
        CellOp::Number { row, col: 4, value: address, style: CellStyle::Plain },
        CellOp::Text { row, col: 5, text: operator_mark(step.merge_operator), style: CellStyle::Plain },
    ]
        + code_cells(row, 6, step.state_conditions@, st)
        + code_cells(row, 6 + st.len() as int, step.control_conditions@, ct)
}

/// The rows of one subprogram's steps, from `top` down; the row of each step
/// bears its address.
pub open spec fn step_rows(top: int, sub: Subprogram, st: Seq<IOElement>, ct: Seq<IOElement>) -> Seq<CellOp> {
    Seq::new(sub.steps@.len(), |j: int| step_cells(top + j, sub.address + j, sub.steps@[j], st, ct)).flatten()
}

/// The block of one subprogram, whose first step stands in row
/// `3 + address`: its name over all its step rows, the step rows, and the
/// end-of-chain flag on its last row. A subprogram without steps has no rows.
pub open spec fn block_cells(sub: Subprogram, st: Seq<IOElement>, ct: Seq<IOElement>) -> Seq<CellOp> {
    let n = sub.steps@.len() as int;
    let top = 3 + sub.address;
    if n == 0 {
        Seq::empty()
    } else {
        seq![CellOp::Merge { first_row: top, first_col: 0, last_row: top + n - 1, last_col: 0, text: sub.name@, style: CellStyle::Rotated }]
            + step_rows(top, sub, st, ct)
            + seq![CellOp::Text { row: top + n - 1, col: 6 + st.len() as int + ct.len() as int, text: flag_bits(true), style: CellStyle::Plain }]
    }
}

/// The headings of the subprograms sheet, for `ns` state and `nc` control columns.
pub open spec fn subprograms_header(ns: int, nc: int, labels: SheetLabels) -> Seq<CellOp> {
    seq![
        CellOp::Merge { first_row: 0, first_col: 0, last_row: 2, last_col: 3, text: labels.description@, style: CellStyle::Framed },
        CellOp::Merge { first_row: 0, first_col: 4, last_row: 2, last_col: 4, text: labels.address@, style: CellStyle::Rotated },
        CellOp::Merge { first_row: 0, first_col: 5, last_row: 2, last_col: 5, text: labels.operator@, style: CellStyle::Framed },
        CellOp::Merge { first_row: 0, first_col: 6, last_row: 0, last_col: 5 + ns, text: labels.sensor_states@, style: CellStyle::Framed },
        CellOp::Merge { first_row: 0, first_col: 6 + ns, last_row: 0, last_col: 5 + ns + nc, text: labels.control_states@, style: CellStyle::Framed },
        CellOp::Merge { first_row: 0, first_col: 6 + ns + nc, last_row: 2, last_col: 6 + ns + nc, text: labels.sign_of_finish@, style: CellStyle::Rotated },
    ]
}

/// The initial pseudo-step in row 3: address 0, operator `&`, no conditions,
/// and the end-of-chain flag.
pub open spec fn initial_cells(st: Seq<IOElement>, ct: Seq<IOElement>, labels: SheetLabels) -> Seq<CellOp> {
    seq![
        CellOp::Merge { first_row: 3, first_col: 0, last_row: 3, last_col: 3, text: labels.initial@, style: CellStyle::Framed },
        CellOp::Number { row: 3, col: 4, value: 0, style: CellStyle::Plain },
        CellOp::Text { row: 3, col: 5, text: operator_mark(Operators::AND), style: CellStyle::Plain },
    ]
        + code_cells(3, 6, Seq::empty(), st)
        + code_cells(3, 6 + st.len() as int, Seq::empty(), ct)
        + seq![CellOp::Text { row: 3, col: 6 + st.len() as int + ct.len() as int, text: flag_bits(true), style: CellStyle::Plain }]
}

/// The subprograms sheet: headings, the state then control element names with
/// their numbers, the initial pseudo-step, and the block of each subprogram in
/// registry order.
pub open spec fn subprograms_sheet_cells(elements: Seq<IOElement>, subs: Seq<Subprogram>, labels: SheetLabels) -> Seq<CellOp> {
    let st = elements.filter(in_frame(FrameTypes::State));
    let ct = elements.filter(in_frame(FrameTypes::Control));
    subprograms_header(st.len() as int, ct.len() as int, labels)
        + name_texts(st, 6) + name_numbers(st, 6)
        + name_texts(ct, 6 + st.len() as int) + name_numbers(ct, 6 + st.len() as int)
        + initial_cells(st, ct, labels)
        + Seq::new(subs.len(), |i: int| block_cells(subs[i], st, ct)).flatten()
}

fn push_step_row(ops: &mut Vec<SheetOp>, row: usize, address: usize, step: &SubprogramStep, st: &Vec<IOElement>, ct: &Vec<IOElement>)
    requires
        st.len() + ct.len() + 7 <= usize::MAX,
    ensures
        cells(final(ops)@) == cells(old(ops)@) + step_cells(row as int, address as int, *step, st@, ct@),
{
    let ghost base = cells(ops@);
    push_merge(ops, row, 1, row, 3, &step.descripton, CellStyle::Plain);
    push_op(ops, SheetOp::Number { row, col: 4, value: address, style: CellStyle::Plain });
    push_op(ops, SheetOp::Text { row, col: 5, text: encode_operator(step.merge_operator), style: CellStyle::Plain });
    push_codes(ops, row, 6, &step.state_conditions, st);
    push_codes(ops, row, 6 + st.len(), &step.control_conditions, ct);
    assert(cells(ops@) =~= base + step_cells(row as int, address as int, *step, st@, ct@));
}

fn push_block(ops: &mut Vec<SheetOp>, sub: &Subprogram, last_address: usize, st: &Vec<IOElement>, ct: &Vec<IOElement>)
    requires
        st.len() + ct.len() + 7 <= usize::MAX,
        sub.address + sub.steps.len() <= last_address,
        last_address + 3 <= usize::MAX,
    ensures
        cells(final(ops)@) == cells(old(ops)@) + block_cells(*sub, st@, ct@),
{
    let n = sub.steps.len();
    if n == 0 {
        assert(cells(ops@) =~= cells(ops@) + block_cells(*sub, st@, ct@));
        return;
    }
    let ghost base = cells(ops@);
    let top = 3 + sub.address;
    push_merge(ops, top, 0, top + n - 1, 0, &sub.name, CellStyle::Rotated);
    let ghost head = cells(ops@);
    let ghost rows = Seq::new(sub.steps@.len(), |j: int| step_cells(top + j, sub.address + j, sub.steps@[j], st@, ct@));
    let mut j: usize = 0;
    while j < n
        invariant
            j <= n,
            n == sub.steps.len(),
            top == 3 + sub.address,
            sub.address + n <= last_address,
            last_address + 3 <= usize::MAX,
            st.len() + ct.len() + 7 <= usize::MAX,
            rows == Seq::new(sub.steps@.len(), |j: int| step_cells(top + j, sub.address + j, sub.steps@[j], st@, ct@)),
            cells(ops@) == head + rows.take(j as int).flatten(),
        decreases n - j,
    {
        push_step_row(ops, top + j, sub.address + j, &sub.steps[j], st, ct);
        proof {
            assert(rows.take(j + 1) =~= rows.take(j as int).push(rows[j as int]));
            rows.take(j as int).lemma_flatten_push(rows[j as int]);
        }
        j = j + 1;
    }
    assert(rows.take(j as int) =~= rows);
    let ghost body = cells(ops@);
    push_op(ops, SheetOp::Text { row: top + n - 1, col: 6 + st.len() + ct.len(), text: encode_flag(true), style: CellStyle::Plain });
    assert(cells(ops@) =~= base + block_cells(*sub, st@, ct@));
}

/// Lays out the subprograms sheet of a document: headings, each column's
/// element name and number, the initial pseudo-step, then for each subprogram
/// its name over its step rows, a row per step with the step's address,
/// operator and the code of the first binding that targets each column, and
/// the end-of-chain flag on its last step row. State and control columns
/// follow the same first-match rule as on the conditions sheet.
pub fn subprograms_sheet(io: &IOConfig, subs: &SubprogramConfig, labels: &SheetLabels) -> (r: Vec<SheetOp>)
    requires
        subs.wf(),
        io.elements.len() + 7 <= usize::MAX,
        subs.last_address + 3 <= usize::MAX,
    ensures
        cells(r@) == subprograms_sheet_cells(io.elements@, subs.subprograms@, *labels),
{
    let st = io.get_elements_by_frame_type(FrameTypes::State);
    let ct = io.get_elements_by_frame_type(FrameTypes::Control);
    proof {
        lemma_frames_partition(io.elements@);
        crate::subprogram::lemma_address_chain(*subs);
    }
    let ns = st.len();
    let nc = ct.len();
    let mut ops: Vec<SheetOp> = Vec::new();
    push_merge(&mut ops, 0, 0, 2, 3, &labels.description, CellStyle::Framed);
    push_merge(&mut ops, 0, 4, 2, 4, &labels.address, CellStyle::Rotated);
    push_merge(&mut ops, 0, 5, 2, 5, &labels.operator, CellStyle::Framed);
    push_merge(&mut ops, 0, 6, 0, 5 + ns, &labels.sensor_states, CellStyle::Framed);
    push_merge(&mut ops, 0, 6 + ns, 0, 5 + ns + nc, &labels.control_states, CellStyle::Framed);
    push_merge(&mut ops, 0, 6 + ns + nc, 2, 6 + ns + nc, &labels.sign_of_finish, CellStyle::Rotated);
    assert(cells(ops@) =~= subprograms_header(ns as int, nc as int, *labels));
    push_names(&mut ops, &st, 6);
    push_names(&mut ops, &ct, 6 + ns);
    let ghost before_initial = cells(ops@);
    let no_bindings: Vec<IOElementCoditions> = Vec::new();
    push_merge(&mut ops, 3, 0, 3, 3, &labels.initial, CellStyle::Framed);
    push_op(&mut ops, SheetOp::Number { row: 3, col: 4, value: 0, style: CellStyle::Plain });
    push_op(&mut ops, SheetOp::Text { row: 3, col: 5, text: encode_operator(Operators::AND), style: CellStyle::Plain });
    push_codes(&mut ops, 3, 6, &no_bindings, &st);
    push_codes(&mut ops, 3, 6 + ns, &no_bindings, &ct);
    push_op(&mut ops, SheetOp::Text { row: 3, col: 6 + ns + nc, text: encode_flag(true), style: CellStyle::Plain });
    assert(no_bindings@ =~= Seq::<IOElementCoditions>::empty());
    assert(cells(ops@) =~= before_initial + initial_cells(st@, ct@, *labels));
    let ghost head = cells(ops@);
    let ghost blocks = Seq::new(subs.subprograms@.len(), |i: int| block_cells(subs.subprograms@[i], st@, ct@));
    let mut i: usize = 0;
    while i < subs.subprograms.len()
        invariant
            i <= subs.subprograms.len(),
            ns + nc + 7 <= usize::MAX,
            ns == st.len(),
            nc == ct.len(),
            subs.last_address + 3 <= usize::MAX,
            forall|k: int| 0 <= k < subs.subprograms.len() ==>
                (#[trigger] subs.subprograms@[k]).address + subs.subprograms@[k].steps.len() <= subs.last_address,
            blocks == Seq::new(subs.subprograms@.len(), |i: int| block_cells(subs.subprograms@[i], st@, ct@)),
            cells(ops@) == head + blocks.take(i as int).flatten(),
        decreases subs.subprograms.len() - i,
    {
        push_block(&mut ops, &subs.subprograms[i], subs.last_address, &st, &ct);
        proof {
            assert(blocks.take(i + 1) =~= blocks.take(i as int).push(blocks[i as int]));
            blocks.take(i as int).lemma_flatten_push(blocks[i as int]);
        }
        i = i + 1;
    }
    assert(blocks.take(i as int) =~= blocks);
    assert(cells(ops@) =~= subprograms_sheet_cells(io.elements@, subs.subprograms@, *labels));
    ops
}

/// The two sheets of a report.
#[derive(Clone, Debug)]
pub struct Report {
    pub conditions: Vec<SheetOp>,
    pub subprograms: Vec<SheetOp>,
}

/// Lays out both sheets of the report of a document.
pub fn generate_tables(io: &IOConfig, subs: &SubprogramConfig, rules: &CondtionsConfig, labels: &SheetLabels) -> (r: Report)
    requires
        subs.wf(),
        io.elements.len() + 7 <= usize::MAX,
        subs.last_address + 3 <= usize::MAX,
        rules.conditions.len() + 3 <= usize::MAX,
    ensures
        cells(r.conditions@) == conditions_sheet_cells(io.elements@, rules.conditions@, *labels),
        cells(r.subprograms@) == subprograms_sheet_cells(io.elements@, subs.subprograms@, *labels),
{
    Report { conditions: conditions_sheet(io, rules, labels), subprograms: subprograms_sheet(io, subs, labels) }
}

/// In rows of equal width `w`, entry `t` of row `k` stands at `k * w + t` of
/// the rows laid end to end.
proof fn lemma_flatten_uniform(rows: Seq<Seq<CellOp>>, w: int)
    requires
        w >= 0,
        forall|r: int| 0 <= r < rows.len() ==> (#[trigger] rows[r]).len() == w,
    ensures
        rows.flatten().len() == rows.len() * w,
        forall|k: int, t: int| 0 <= k < rows.len() && 0 <= t < w ==> rows.flatten()[k * w + t] == #[trigger] rows[k][t],
    decreases rows.len(),
{
    if rows.len() == 0 {
        assert(rows.flatten() =~= Seq::<CellOp>::empty());
    } else {
        let init = rows.drop_last();
        let n = rows.len() as int;
        lemma_flatten_uniform(init, w);
        assert(init.push(rows.last()) =~= rows);
        init.lemma_flatten_push(rows.last());
        assert((n - 1) * w + w == n * w) by (nonlinear_arith);
        assert forall|k: int, t: int| 0 <= k < rows.len() && 0 <= t < w implies rows.flatten()[k * w + t]
            == #[trigger] rows[k][t] by {
            if k < n - 1 {
                assert(k * w + t < (n - 1) * w) by (nonlinear_arith)
                    requires k < n - 1, 0 <= t < w;
                assert(init[k] == rows[k]);
            } else {
                assert(k * w == (n - 1) * w);
            }
        }
    }
}

/// The state elements, in registry order: the state columns of both sheets.
pub open spec fn state_columns(elements: Seq<IOElement>) -> Seq<IOElement> {
    elements.filter(in_frame(FrameTypes::State))
}

/// The control elements, in registry order: the control columns of both sheets.
pub open spec fn control_columns(elements: Seq<IOElement>) -> Seq<IOElement> {
    elements.filter(in_frame(FrameTypes::Control))
}

/// Where the row of rule `k` begins among the conditions sheet's writes, for
/// `s` state and `c` control columns.
pub open spec fn rule_row_start(s: int, c: int, k: int) -> int {
    6 + 2 * s + 2 * c + k * (s + c + 4)
}

/// The cells of rule `k`'s row on the conditions sheet (row `3 + k`): state
/// column `j` holds the code of the first state binding that targets the
/// `j`-th state element, control columns likewise, then the blocked flag, the
/// target address and the critical flag, each flag `10` if set and empty if not.
pub proof fn lemma_conditions_row(elements: Seq<IOElement>, rules: Seq<ConditionsConfigElement>, labels: SheetLabels, k: int)
    requires
        0 <= k < rules.len(),
    ensures
        forall|j: int| 0 <= j < state_columns(elements).len() ==> conditions_sheet_cells(elements, rules, labels)[
            rule_row_start(state_columns(elements).len() as int, control_columns(elements).len() as int, k) + 1 + j]
            == (CellOp::Text {
                row: 3 + k,
                col: 4 + j,
                text: cell_code(rules[k].state_conditions@, (#[trigger] state_columns(elements)[j]).name@),
                style: CellStyle::Plain,
            }),
        forall|j: int| 0 <= j < control_columns(elements).len() ==> conditions_sheet_cells(elements, rules, labels)[
            rule_row_start(state_columns(elements).len() as int, control_columns(elements).len() as int, k) + 1
                + state_columns(elements).len() + j]
            == (CellOp::Text {
                row: 3 + k,
                col: 4 + state_columns(elements).len() + j,
                text: cell_code(rules[k].control_conditions@, (#[trigger] control_columns(elements)[j]).name@),
                style: CellStyle::Plain,
            }),
        conditions_sheet_cells(elements, rules, labels)[rule_row_start(state_columns(elements).len() as int,
            control_columns(elements).len() as int, k) + 1 + state_columns(elements).len()
            + control_columns(elements).len()] == (CellOp::Text {
                row: 3 + k,
                col: 4 + state_columns(elements).len() as int + control_columns(elements).len() as int,
                text: flag_bits(rules[k].blocked),
                style: CellStyle::Plain,
            }),
        conditions_sheet_cells(elements, rules, labels)[rule_row_start(state_columns(elements).len() as int,
            control_columns(elements).len() as int, k) + 2 + state_columns(elements).len()
            + control_columns(elements).len()] == (CellOp::Number {
                row: 3 + k,
                col: 5 + state_columns(elements).len() as int + control_columns(elements).len() as int,
                value: rules[k].address as int,
                style: CellStyle::Plain,
            }),
        conditions_sheet_cells(elements, rules, labels)[rule_row_start(state_columns(elements).len() as int,
            control_columns(elements).len() as int, k) + 3 + state_columns(elements).len()
            + control_columns(elements).len()] == (CellOp::Text {
                row: 3 + k,
                col: 6 + state_columns(elements).len() as int + control_columns(elements).len() as int,
                text: flag_bits(rules[k].critical),
                style: CellStyle::Plain,
            }),
{
    let st = state_columns(elements);
    let ct = control_columns(elements);
    let s = st.len() as int;
    let c = ct.len() as int;
    let w = s + c + 4;
    let rows = Seq::new(rules.len(), |r: int| rule_cells(3 + r, rules[r], st, ct));
    assert forall|r: int| 0 <= r < rows.len() implies (#[trigger] rows[r]).len() == w by {}
    lemma_flatten_uniform(rows, w);
    let head = conditions_header(s, c, labels) + name_texts(st, 4) + name_numbers(st, 4)
        + name_texts(ct, 4 + s) + name_numbers(ct, 4 + s);
    assert(head.len() == 6 + 2 * s + 2 * c);
    let cells = conditions_sheet_cells(elements, rules, labels);
    assert(cells == head + rows.flatten());
    let at = rule_row_start(s, c, k);
    assert(k * w >= 0) by (nonlinear_arith)
        requires k >= 0, w >= 0;
    assert(k * w + w <= rows.len() * w) by (nonlinear_arith)
        requires k < rows.len(), w >= 0;
    assert forall|t: int| 0 <= t < w implies #[trigger] cells[at + t] == rows[k][t] by {
        assert(cells[at + t] == rows.flatten()[k * w + t]);
    }
    let row = rows[k];
    assert(row == rule_cells(3 + k, rules[k], st, ct));
    assert forall|j: int| 0 <= j < s implies cells[at + 1 + j] == (CellOp::Text {
        row: 3 + k,
        col: 4 + j,
        text: cell_code(rules[k].state_conditions@, (#[trigger] st[j]).name@),
        style: CellStyle::Plain,
    }) by {
        assert(cells[at + (1 + j)] == row[1 + j]);
    }
    assert forall|j: int| 0 <= j < c implies cells[at + 1 + s + j] == (CellOp::Text {
        row: 3 + k,
        col: 4 + s + j,
        text: cell_code(rules[k].control_conditions@, (#[trigger] ct[j]).name@),
        style: CellStyle::Plain,
    }) by {
        assert(cells[at + (1 + s + j)] == row[1 + s + j]);
    }
    assert(cells[at + (1 + s + c)] == row[1 + s + c]);
    assert(cells[at + (2 + s + c)] == row[2 + s + c]);
    assert(cells[at + (3 + s + c)] == row[3 + s + c]);
}

/// A cell is the code of the first binding that targets its column.
pub proof fn lemma_cell_code_first_match(bindings: Seq<IOElementCoditions>, name: Seq<char>, idx: int)
    requires
        0 <= idx < bindings.len(),
        binds_to(bindings[idx], name),
        forall|i: int| 0 <= i < idx ==> !binds_to(#[trigger] bindings[i], name),
    ensures
        cell_code(bindings, name) == state_bits(bindings[idx].state),
    decreases idx,
{
    if idx > 0 {
        let rest = bindings.drop_first();
        assert forall|i: int| 0 <= i < idx - 1 implies !binds_to(#[trigger] rest[i], name) by {
            assert(rest[i] == bindings[i + 1]);
        }
        assert(!binds_to(bindings[0], name));
        lemma_cell_code_first_match(rest, name, idx - 1);
    }
}

/// A column that no binding targets has an empty cell.
pub proof fn lemma_cell_code_no_match(bindings: Seq<IOElementCoditions>, name: Seq<char>)
    requires
        forall|i: int| 0 <= i < bindings.len() ==> !binds_to(#[trigger] bindings[i], name),
    ensures
        cell_code(bindings, name) == Seq::<char>::empty(),
    decreases bindings.len(),
{
    if bindings.len() > 0 {
        let rest = bindings.drop_first();
        assert forall|i: int| 0 <= i < rest.len() implies !binds_to(#[trigger] rest[i], name) by {
            assert(rest[i] == bindings[i + 1]);
        }
        assert(!binds_to(bindings[0], name));
        lemma_cell_code_no_match(rest, name);
    }
}

/// A binding that does not target a column plays no part in its cell.
pub proof fn lemma_cell_code_skips(bindings: Seq<IOElementCoditions>, idx: int, name: Seq<char>)
    requires
        0 <= idx < bindings.len(),
        !binds_to(bindings[idx], name),
    ensures
        cell_code(bindings, name) == cell_code(bindings.remove(idx), name),
    decreases idx,
{
    if idx == 0 {
        assert(bindings.remove(0) =~= bindings.drop_first());
    } else {
        let rest = bindings.drop_first();
        lemma_cell_code_skips(rest, idx - 1, name);
        assert(bindings.remove(idx).drop_first() =~= rest.remove(idx - 1));
        assert(bindings.remove(idx)[0] == bindings[0]);
    }
}

/// The columns of one frame.
pub open spec fn frame_columns(elements: Seq<IOElement>, frame: FrameTypes) -> Seq<IOElement> {
    elements.filter(in_frame(frame))
}

/// How far right of the state columns the columns of `frame` begin.
pub open spec fn frame_offset(elements: Seq<IOElement>, frame: FrameTypes) -> int {
    match frame {
        FrameTypes::State => 0,
        FrameTypes::Control => state_columns(elements).len() as int,
    }
}

/// A binding of rule `k` whose target no element bears (a deleted or renamed
/// element, or none chosen) leaves every cell of the rule's row in its frame
/// as it would be without that binding.
pub proof fn lemma_unresolved_binding_ignored(
    elements: Seq<IOElement>,
    rules: Seq<ConditionsConfigElement>,
    labels: SheetLabels,
    k: int,
    frame: FrameTypes,
    idx: int,
)
    requires
        0 <= k < rules.len(),
        0 <= idx < rules[k].bucket(frame).len(),
        rules[k].bucket(frame)[idx].element is Some ==> forall|e: int| 0 <= e < elements.len()
            ==> #[trigger] elements[e].name@ != rules[k].bucket(frame)[idx].element->0@,
    ensures
        forall|j: int| 0 <= j < frame_columns(elements, frame).len() ==> conditions_sheet_cells(elements, rules, labels)[
            rule_row_start(state_columns(elements).len() as int, control_columns(elements).len() as int, k) + 1
                + frame_offset(elements, frame) + j]
            == (CellOp::Text {
                row: 3 + k,
                col: 4 + frame_offset(elements, frame) + j,
                text: cell_code(rules[k].bucket(frame).remove(idx), (#[trigger] frame_columns(elements, frame)[j]).name@),
                style: CellStyle::Plain,
            }),
{
    lemma_conditions_row(elements, rules, labels, k);
    let cols = frame_columns(elements, frame);
    let b = rules[k].bucket(frame);
    assert forall|j: int| 0 <= j < cols.len() implies !binds_to(b[idx], (#[trigger] cols[j]).name@) by {
        assert(cols.contains(cols[j]));
        elements.lemma_filter_contains_rev(in_frame(frame), cols[j]);
        let e = choose|e: int| 0 <= e < elements.len() && elements[e] == cols[j];
        assert(elements[e] == cols[j]);
    }
    assert forall|j: int| 0 <= j < cols.len() implies cell_code(b, (#[trigger] cols[j]).name@)
        == cell_code(b.remove(idx), cols[j].name@) by {
        lemma_cell_code_skips(b, idx, cols[j].name@);
    }
    match frame {
        FrameTypes::State => {
            assert forall|j: int| 0 <= j < cols.len() implies cols[j] == #[trigger] state_columns(elements)[j] by {}
        },
        FrameTypes::Control => {
            assert forall|j: int| 0 <= j < cols.len() implies cols[j] == #[trigger] control_columns(elements)[j] by {}
        },
    }
}

/// The cells of step `j` within the block of a subprogram with steps (the
/// block starts with the name label, then one row of `3 + s + c` writes per
/// step): its row is `3 + address + j`, it shows address `address + j`, and
/// state column `t` holds the code of the first state binding of the step that
/// targets the `t`-th state element, control columns likewise.
pub proof fn lemma_block_step_row(sub: Subprogram, st: Seq<IOElement>, ct: Seq<IOElement>, j: int)
    requires
        0 <= j < sub.steps@.len(),
    ensures
        block_cells(sub, st, ct)[1 + j * (3 + st.len() + ct.len()) + 1] == (CellOp::Number {
            row: 3 + sub.address + j,
            col: 4,
            value: sub.address + j,
            style: CellStyle::Plain,
        }),
        forall|t: int| 0 <= t < st.len() ==> block_cells(sub, st, ct)[1 + j * (3 + st.len() + ct.len()) + 3 + t]
            == (CellOp::Text {
                row: 3 + sub.address + j,
                col: 6 + t,
                text: cell_code(sub.steps@[j].state_conditions@, (#[trigger] st[t]).name@),
                style: CellStyle::Plain,
            }),
        forall|t: int| 0 <= t < ct.len() ==> block_cells(sub, st, ct)[1 + j * (3 + st.len() + ct.len()) + 3 + st.len() + t]
            == (CellOp::Text {
                row: 3 + sub.address + j,
                col: 6 + st.len() + t,
                text: cell_code(sub.steps@[j].control_conditions@, (#[trigger] ct[t]).name@),
                style: CellStyle::Plain,
            }),
{
    let w: int = 3 + st.len() as int + ct.len() as int;
    let top = 3 + sub.address;
    let rows = Seq::new(sub.steps@.len(), |i: int| step_cells(top + i, sub.address + i, sub.steps@[i], st, ct));
    assert forall|r: int| 0 <= r < rows.len() implies (#[trigger] rows[r]).len() == w by {}
    lemma_flatten_uniform(rows, w);
    let cells = block_cells(sub, st, ct);
    assert(step_rows(top, sub, st, ct) == rows.flatten());
    assert(j * w >= 0) by (nonlinear_arith)
        requires j >= 0, w >= 0;
    assert(j * w + w <= rows.len() * w) by (nonlinear_arith)
        requires j < rows.len(), w >= 0;
    assert forall|u: int| 0 <= u < w implies #[trigger] cells[1 + j * w + u] == rows[j][u] by {
        assert(cells[1 + j * w + u] == rows.flatten()[j * w + u]);
    }
    let row = rows[j];
    assert(cells[1 + j * w + 1] == row[1]);
    assert forall|t: int| 0 <= t < st.len() implies cells[1 + j * w + 3 + t] == (CellOp::Text {
        row: 3 + sub.address + j,
        col: 6 + t,
        text: cell_code(sub.steps@[j].state_conditions@, (#[trigger] st[t]).name@),
        style: CellStyle::Plain,
    }) by {
        assert(cells[1 + j * w + (3 + t)] == row[3 + t]);
    }
    assert forall|t: int| 0 <= t < ct.len() implies cells[1 + j * w + 3 + st.len() + t] == (CellOp::Text {
        row: 3 + sub.address + j,
        col: 6 + st.len() + t,
        text: cell_code(sub.steps@[j].control_conditions@, (#[trigger] ct[t]).name@),
        style: CellStyle::Plain,
    }) by {
        assert(cells[1 + j * w + (3 + st.len() + t)] == row[3 + st.len() + t]);
    }
}

} // verus!
