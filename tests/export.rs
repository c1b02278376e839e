use tpvg::conditions::IOElementCoditionsMessage;
use tpvg::export::{
    conditions_sheet, encode_cell, encode_flag, encode_operator, encode_state, generate_tables,
    subprograms_sheet, CellStyle, SheetLabels, SheetOp,
};
use tpvg::io::{IOConfig, IOConfigMessage, IOElement, IOElementMessage};
use tpvg::kinds::{FrameTypes, IOElementStates, Operators};
use tpvg::rules::{ConditionsConfigElementMessage, CondtionsConfig, CondtionsConfigMessage};
use tpvg::step::SubprogramStepMessage;
use tpvg::subprogram::{SubprogramConfig, SubprogramConfigMessage, SubprogramMessage};
use tpvg::conditions::IOElementCoditions;

fn labels() -> SheetLabels {
    SheetLabels {
        description: "Description".to_string(),
        sensor_states: "Sensors".to_string(),
        control_states: "Controls".to_string(),
        sign_of_transition: "Transition".to_string(),
        transition_address: "Target".to_string(),
        sign_of_blocking: "Blocking".to_string(),
        address: "Address".to_string(),
        operator: "Operator".to_string(),
        sign_of_finish: "Finish".to_string(),
        initial: "Initial".to_string(),
    }
}

fn element(name: &str, frame: FrameTypes) -> IOElement {
    let mut e = IOElement::new();
    e.update(IOElementMessage::NameInputChanged(name.to_string()));
    e.update(IOElementMessage::FrameTypeSelected(frame));
    e
}

/// The text written at one cell, if a single-cell text op writes it.
fn text_at(ops: &[SheetOp], r: usize, c: usize) -> Option<String> {
    ops.iter().find_map(|op| match op {
        SheetOp::Text { row, col, text, .. } if *row == r && *col == c => Some(text.clone()),
        _ => None,
    })
}

fn number_at(ops: &[SheetOp], r: usize, c: usize) -> Option<usize> {
    ops.iter().find_map(|op| match op {
        SheetOp::Number { row, col, value, .. } if *row == r && *col == c => Some(*value),
        _ => None,
    })
}

fn merge_from(ops: &[SheetOp], r: usize, c: usize) -> Option<(usize, usize, String)> {
    ops.iter().find_map(|op| match op {
        SheetOp::Merge { first_row, first_col, last_row, last_col, text, .. } if *first_row == r && *first_col == c => {
            Some((*last_row, *last_col, text.clone()))
        }
        _ => None,
    })
}

fn rule_edit(i: usize, m: ConditionsConfigElementMessage) -> CondtionsConfigMessage {
    CondtionsConfigMessage::ConditionsConfigElementMessage(i, m)
}

fn binding_edit(f: FrameTypes, j: usize, m: IOElementCoditionsMessage) -> ConditionsConfigElementMessage {
    ConditionsConfigElementMessage::IOElementCoditionsMessage(f, j, m)
}

#[test]
fn state_and_flag_codes() {
    assert_eq!(encode_state(IOElementStates::Active), "10");
    assert_eq!(encode_state(IOElementStates::Inactive), "01");
    assert_eq!(encode_state(IOElementStates::Any), "00");
    assert_eq!(encode_flag(true), "10");
    assert_eq!(encode_flag(false), "");
    assert_eq!(encode_operator(Operators::AND), "&");
    assert_eq!(encode_operator(Operators::OR), "|");
}

#[test]
fn first_matching_binding_decides_a_cell() {
    let mut io = IOConfig::new();
    io.add_new_element(element("S", FrameTypes::State));
    let mut a = IOElementCoditions::new(FrameTypes::State);
    a.update(IOElementCoditionsMessage::IOElementSelected("S".to_string()), &io);
    a.update(IOElementCoditionsMessage::StateChanged(IOElementStates::Inactive), &io);
    let mut b = a.clone();
    b.update(IOElementCoditionsMessage::StateChanged(IOElementStates::Active), &io);
    let unresolved = IOElementCoditions::new(FrameTypes::State);
    let list = vec![unresolved, a, b];
    assert_eq!(encode_cell(&list, &"S".to_string()), "01");
    assert_eq!(encode_cell(&list, &"T".to_string()), "");
    assert_eq!(encode_cell(&Vec::new(), &"S".to_string()), "");
}

/// Three state elements, "Sensor1" the second of them, and one rule that
/// requires it active.
fn sensor_document() -> (IOConfig, CondtionsConfig) {
    let mut io = IOConfig::new();
    io.add_new_element(element("Sensor0", FrameTypes::State));
    io.add_new_element(element("Sensor1", FrameTypes::State));
    io.add_new_element(element("Sensor2", FrameTypes::State));
    let mut rules = CondtionsConfig::new();
    rules.update(CondtionsConfigMessage::AddNewConditons, &io);
    rules.update(rule_edit(0, ConditionsConfigElementMessage::AddCondition(FrameTypes::State)), &io);
    rules.update(rule_edit(0, ConditionsConfigElementMessage::PickConditions(FrameTypes::State)), &io);
    rules.update(
        rule_edit(0, binding_edit(FrameTypes::State, 0, IOElementCoditionsMessage::IOElementSelected("Sensor1".to_string()))),
        &io,
    );
    rules.update(
        rule_edit(0, binding_edit(FrameTypes::State, 0, IOElementCoditionsMessage::StateChanged(IOElementStates::Active))),
        &io,
    );
    (io, rules)
}

#[test]
fn rule_on_second_state_element() {
    let (io, rules) = sensor_document();
    let ops = conditions_sheet(&io, &rules, &labels());
    assert_eq!(text_at(&ops, 3, 4), Some(String::new()));
    assert_eq!(text_at(&ops, 3, 5), Some("10".to_string()));
    assert_eq!(text_at(&ops, 3, 6), Some(String::new()));
}

#[test]
fn deleted_element_leaves_binding_but_empties_its_column() {
    let (mut io, rules) = sensor_document();
    let before = rules.get_conditon(0).state_conditions[0].clone();
    io.update(IOConfigMessage::IOElementMessage(1, IOElementMessage::DeleteElement));
    assert_eq!(rules.get_conditon(0).state_conditions[0], before);
    assert_eq!(before.element, Some("Sensor1".to_string()));
    let ops = conditions_sheet(&io, &rules, &labels());
    assert_eq!(text_at(&ops, 1, 4), Some("Sensor0".to_string()));
    assert_eq!(text_at(&ops, 1, 5), Some("Sensor2".to_string()));
    assert_eq!(text_at(&ops, 3, 4), Some(String::new()));
    assert_eq!(text_at(&ops, 3, 5), Some(String::new()));
}

#[test]
fn renamed_element_leaves_binding_unresolved() {
    let (mut io, rules) = sensor_document();
    io.update(IOConfigMessage::IOElementMessage(1, IOElementMessage::NameInputChanged("Other".to_string())));
    let ops = conditions_sheet(&io, &rules, &labels());
    assert_eq!(text_at(&ops, 3, 5), Some(String::new()));
}

#[test]
fn conditions_sheet_layout() {
    let (mut io, mut rules) = sensor_document();
    io.add_new_element(element("Valve", FrameTypes::Control));
    rules.update(rule_edit(0, ConditionsConfigElementMessage::DescriptionChanged("Guard".to_string())), &io);
    rules.update(rule_edit(0, ConditionsConfigElementMessage::BlockedPicked(true)), &io);
    rules.update(rule_edit(0, ConditionsConfigElementMessage::AddressSelected(4)), &io);
    rules.update(rule_edit(0, ConditionsConfigElementMessage::AddCondition(FrameTypes::Control)), &io);
    rules.update(rule_edit(0, ConditionsConfigElementMessage::PickConditions(FrameTypes::Control)), &io);
    rules.update(
        rule_edit(0, binding_edit(FrameTypes::Control, 0, IOElementCoditionsMessage::IOElementSelected("Valve".to_string()))),
        &io,
    );
    rules.update(
        rule_edit(0, binding_edit(FrameTypes::Control, 0, IOElementCoditionsMessage::StateChanged(IOElementStates::Inactive))),
        &io,
    );
    let ops = conditions_sheet(&io, &rules, &labels());
    // 3 state columns from 4, 1 control column at 7, flags and address after.
    assert_eq!(merge_from(&ops, 0, 0), Some((2, 3, "Description".to_string())));
    assert_eq!(merge_from(&ops, 0, 4), Some((0, 6, "Sensors".to_string())));
    assert_eq!(merge_from(&ops, 0, 7), Some((0, 7, "Controls".to_string())));
    assert_eq!(merge_from(&ops, 0, 8), Some((2, 8, "Transition".to_string())));
    assert_eq!(merge_from(&ops, 0, 9), Some((2, 9, "Target".to_string())));
    assert_eq!(merge_from(&ops, 0, 10), Some((2, 10, "Blocking".to_string())));
    assert_eq!(text_at(&ops, 1, 7), Some("Valve".to_string()));
    assert_eq!(number_at(&ops, 2, 4), Some(1));
    assert_eq!(number_at(&ops, 2, 6), Some(3));
    assert_eq!(number_at(&ops, 2, 7), Some(1));
    assert_eq!(merge_from(&ops, 3, 0), Some((3, 3, "Guard".to_string())));
    assert_eq!(text_at(&ops, 3, 7), Some("01".to_string()));
    assert_eq!(text_at(&ops, 3, 8), Some("10".to_string()));
    assert_eq!(number_at(&ops, 3, 9), Some(4));
    assert_eq!(text_at(&ops, 3, 10), Some(String::new()));
    assert_eq!(ops.len(), 6 + 2 * 4 + 1 + 4 + 3);
}

fn step_edit(sub: usize, step: usize, m: SubprogramStepMessage) -> SubprogramConfigMessage {
    SubprogramConfigMessage::SubprogramMessage(sub, SubprogramMessage::SubprogramStepMessage(step, m))
}

#[test]
fn subprograms_sheet_layout() {
    let mut io = IOConfig::new();
    io.add_new_element(element("S", FrameTypes::State));
    io.add_new_element(element("V", FrameTypes::Control));
    let mut subs = SubprogramConfig::new();
    for (i, n) in [2usize, 0, 1].iter().enumerate() {
        subs.update(SubprogramConfigMessage::AddNewSubprogram, &io);
        subs.update(
            SubprogramConfigMessage::SubprogramMessage(
                i,
                SubprogramMessage::SubprogramDescrptionChanged(format!("P{}", i)),
            ),
            &io,
        );
        for _ in 0..*n {
            subs.update(SubprogramConfigMessage::SubprogramMessage(i, SubprogramMessage::AddNewSubprogramStep), &io);
        }
    }
    subs.update(step_edit(0, 1, SubprogramStepMessage::OperatorSelected(Operators::OR)), &io);
    subs.update(step_edit(0, 1, SubprogramStepMessage::DescriptionChanged("second".to_string())), &io);
    subs.update(step_edit(2, 0, SubprogramStepMessage::AddCondition(FrameTypes::Control)), &io);
    subs.update(step_edit(2, 0, SubprogramStepMessage::PickConditions(FrameTypes::Control)), &io);
    subs.update(
        step_edit(2, 0, SubprogramStepMessage::IOElementCoditionsMessage(
            FrameTypes::Control,
            0,
            IOElementCoditionsMessage::IOElementSelected("V".to_string()),
        )),
        &io,
    );
    let ops = subprograms_sheet(&io, &subs, &labels());
    assert_eq!(merge_from(&ops, 0, 4), Some((2, 4, "Address".to_string())));
    assert_eq!(merge_from(&ops, 0, 5), Some((2, 5, "Operator".to_string())));
    assert_eq!(merge_from(&ops, 0, 6), Some((0, 6, "Sensors".to_string())));
    assert_eq!(merge_from(&ops, 0, 7), Some((0, 7, "Controls".to_string())));
    assert_eq!(merge_from(&ops, 0, 8), Some((2, 8, "Finish".to_string())));
    // The initial pseudo-step.
    assert_eq!(merge_from(&ops, 3, 0), Some((3, 3, "Initial".to_string())));
    assert_eq!(number_at(&ops, 3, 4), Some(0));
    assert_eq!(text_at(&ops, 3, 5), Some("&".to_string()));
    assert_eq!(text_at(&ops, 3, 6), Some(String::new()));
    assert_eq!(text_at(&ops, 3, 7), Some(String::new()));
    assert_eq!(text_at(&ops, 3, 8), Some("10".to_string()));
    // P0 spans rows 4 and 5, at addresses 1 and 2.
    assert_eq!(merge_from(&ops, 4, 0), Some((5, 0, "P0".to_string())));
    assert_eq!(number_at(&ops, 4, 4), Some(1));
    assert_eq!(number_at(&ops, 5, 4), Some(2));
    assert_eq!(text_at(&ops, 4, 5), Some("&".to_string()));
    assert_eq!(text_at(&ops, 5, 5), Some("|".to_string()));
    assert_eq!(merge_from(&ops, 5, 1), Some((5, 3, "second".to_string())));
    assert_eq!(text_at(&ops, 4, 8), None);
    assert_eq!(text_at(&ops, 5, 8), Some("10".to_string()));
    // P1 has no steps and no rows; P2 sits at address 3, row 6.
    assert!(!ops.iter().any(|op| matches!(op, SheetOp::Merge { text, .. } if text == "P1")));
    assert_eq!(merge_from(&ops, 6, 0), Some((6, 0, "P2".to_string())));
    assert_eq!(number_at(&ops, 6, 4), Some(3));
    assert_eq!(text_at(&ops, 6, 7), Some("00".to_string()));
    assert_eq!(text_at(&ops, 6, 8), Some("10".to_string()));
}

#[test]
fn report_holds_both_sheets() {
    let (io, rules) = sensor_document();
    let subs = SubprogramConfig::new();
    let report = generate_tables(&io, &subs, &rules, &labels());
    assert_eq!(report.conditions, conditions_sheet(&io, &rules, &labels()));
    assert_eq!(report.subprograms, subprograms_sheet(&io, &subs, &labels()));
    assert!(report.subprograms.iter().any(|op| matches!(op, SheetOp::Merge { style: CellStyle::Framed, text, .. } if text == "Initial")));
}
