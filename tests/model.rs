use tpvg::conditions::{IOElementCoditions, IOElementCoditionsMessage};
use tpvg::io::{parse_hw_address, IOConfig, IOConfigMessage, IOElement, IOElementMessage};
use tpvg::kinds::{FrameTypes, IOElementStates, Operators, SignalTypes, SubprogramTypes};
use tpvg::rules::{ConditionsConfigElement, ConditionsConfigElementMessage, CondtionsConfig, CondtionsConfigMessage};
use tpvg::step::{SubprogramStep, SubprogramStepMessage};
use tpvg::subprogram::{Subprogram, SubprogramConfig, SubprogramConfigMessage, SubprogramMessage};

fn element(name: &str, frame: FrameTypes) -> IOElement {
    let mut e = IOElement::new();
    e.update(IOElementMessage::NameInputChanged(name.to_string()));
    e.update(IOElementMessage::FrameTypeSelected(frame));
    e
}

fn registry_with_counts(counts: &[usize]) -> SubprogramConfig {
    let io = IOConfig::new();
    let mut cfg = SubprogramConfig::new();
    for (i, c) in counts.iter().enumerate() {
        cfg.update(SubprogramConfigMessage::AddNewSubprogram, &io);
        for _ in 0..*c {
            cfg.update(
                SubprogramConfigMessage::SubprogramMessage(i, SubprogramMessage::AddNewSubprogramStep),
                &io,
            );
        }
    }
    cfg
}

fn addresses(cfg: &SubprogramConfig) -> Vec<usize> {
    cfg.get_subprograms().iter().map(|s| s.address).collect()
}

#[test]
fn two_subprograms_of_three_and_two_steps() {
    let cfg = registry_with_counts(&[3, 2]);
    assert_eq!(addresses(&cfg), vec![1, 4]);
    assert_eq!(cfg.get_last_address(), 6);
}

#[test]
fn addresses_follow_step_counts() {
    let cfg = registry_with_counts(&[2, 0, 3]);
    assert_eq!(addresses(&cfg), vec![1, 3, 3]);
    assert_eq!(cfg.get_last_address(), 6);
    assert_eq!(cfg.get_address_list(), vec![1, 2, 3, 4, 5]);
}

#[test]
fn empty_registry_has_last_address_one() {
    let cfg = SubprogramConfig::new();
    assert_eq!(cfg.get_last_address(), 1);
    assert!(cfg.get_address_list().is_empty());
}

#[test]
fn addresses_recomputed_after_delete_and_step_removal() {
    let io = IOConfig::new();
    let mut cfg = registry_with_counts(&[3, 2, 4]);
    assert_eq!(addresses(&cfg), vec![1, 4, 6]);
    cfg.update(SubprogramConfigMessage::SubprogramMessage(0, SubprogramMessage::SubprogramDelete), &io);
    assert_eq!(addresses(&cfg), vec![1, 3]);
    assert_eq!(cfg.get_last_address(), 7);
    cfg.update(
        SubprogramConfigMessage::SubprogramMessage(
            0,
            SubprogramMessage::SubprogramStepMessage(1, SubprogramStepMessage::DeleteStep),
        ),
        &io,
    );
    assert_eq!(addresses(&cfg), vec![1, 2]);
    assert_eq!(cfg.get_last_address(), 6);
}

#[test]
fn remove_step_renumbers_in_order() {
    let io = IOConfig::new();
    let mut sub = Subprogram::new();
    for k in 0..4 {
        sub.update(SubprogramMessage::AddNewSubprogramStep, &io);
        sub.update(
            SubprogramMessage::SubprogramStepMessage(
                k,
                SubprogramStepMessage::DescriptionChanged(format!("s{}", k)),
            ),
            &io,
        );
    }
    let ids: Vec<usize> = sub.steps.iter().map(|s| s.id).collect();
    assert_eq!(ids, vec![1, 2, 3, 4]);
    sub.remove_step(1);
    let ids: Vec<usize> = sub.steps.iter().map(|s| s.id).collect();
    let names: Vec<String> = sub.steps.iter().map(|s| s.descripton.clone()).collect();
    assert_eq!(ids, vec![1, 2, 3]);
    assert_eq!(names, vec!["s0", "s2", "s3"]);
}

#[test]
fn step_id_change_is_not_a_user_edit() {
    let io = IOConfig::new();
    let mut sub = Subprogram::new();
    sub.update(SubprogramMessage::AddNewSubprogramStep, &io);
    sub.update(SubprogramMessage::AddNewSubprogramStep, &io);
    sub.update(SubprogramMessage::SubprogramStepMessage(1, SubprogramStepMessage::ChangeId(9)), &io);
    assert_eq!(sub.get_step(1).id, 2);
    assert_eq!(sub.get_current_editable_step_id(), 1);
}

#[test]
fn subprogram_name_and_priority() {
    let io = IOConfig::new();
    let mut sub = Subprogram::new();
    sub.update(SubprogramMessage::SubprogramDescrptionChanged("Main".to_string()), &io);
    sub.update(SubprogramMessage::SubprogramTypeSelected(SubprogramTypes::Critical), &io);
    let (address, name, kind, steps) = sub.get_data();
    assert_eq!(address, 0);
    assert_eq!(name, "Main");
    assert_eq!(kind, SubprogramTypes::Critical);
    assert!(steps.is_empty());
}

#[test]
fn hw_address_parsing() {
    assert_eq!(parse_hw_address("42"), Some(42));
    assert_eq!(parse_hw_address("+7"), Some(7));
    assert_eq!(parse_hw_address("007"), Some(7));
    assert_eq!(parse_hw_address("255"), Some(255));
    assert_eq!(parse_hw_address("256"), None);
    assert_eq!(parse_hw_address("1000"), None);
    assert_eq!(parse_hw_address(""), None);
    assert_eq!(parse_hw_address("+"), None);
    assert_eq!(parse_hw_address("-1"), None);
    assert_eq!(parse_hw_address("4a"), None);
    assert_eq!(parse_hw_address(" 4"), None);
}

#[test]
fn io_element_edits() {
    let mut e = IOElement::new();
    assert_eq!(e.get_data(), (String::new(), FrameTypes::State, SignalTypes::Input, 0));
    e.update(IOElementMessage::HwSelected("12".to_string()));
    e.update(IOElementMessage::SignalTypeSelected(SignalTypes::Output));
    e.update(IOElementMessage::HwSelected("x".to_string()));
    assert_eq!(e.get_data(), (String::new(), FrameTypes::State, SignalTypes::Output, 12));
}

#[test]
fn io_registry_queries() {
    let mut io = IOConfig::new();
    io.add_new_element(element("A", FrameTypes::State));
    io.add_new_element(element("B", FrameTypes::Control));
    let mut dup = element("A", FrameTypes::Control);
    dup.update(IOElementMessage::HwSelected("5".to_string()));
    io.add_new_element(dup.clone());
    let states = io.get_elements_by_frame_type(FrameTypes::State);
    assert_eq!(states.len(), 1);
    assert_eq!(states[0].name, "A");
    let controls = io.get_elements_by_frame_type(FrameTypes::Control);
    assert_eq!(controls.len(), 2);
    assert_eq!(io.get_elements_by_signal_type(SignalTypes::Input).len(), 3);
    assert_eq!(io.get_elements_by_signal_type(SignalTypes::Output).len(), 0);
    assert_eq!(io.get_elelment_by_name("A".to_string()), Some(dup.clone()));
    assert_eq!(io.get_elelment_by_name("C".to_string()), None);
    assert_eq!(io.get_elemnt_by_id(1).name, "B");
    assert_eq!(io.get_last_element(), dup);
    assert_eq!(io.get_all_elelments().len(), 3);
}

#[test]
fn io_registry_messages() {
    let mut io = IOConfig::new();
    io.update(IOConfigMessage::AddNewElement);
    io.update(IOConfigMessage::AddNewElement);
    io.update(IOConfigMessage::IOElementMessage(1, IOElementMessage::NameInputChanged("Z".to_string())));
    io.update(IOConfigMessage::IOElementMessage(0, IOElementMessage::DeleteElement));
    assert_eq!(io.elements.len(), 1);
    assert_eq!(io.elements[0].name, "Z");
}

#[test]
fn binding_selection_is_restricted_to_its_frame() {
    let mut io = IOConfig::new();
    io.add_new_element(element("Valve", FrameTypes::Control));
    io.add_new_element(element("Sensor", FrameTypes::State));
    let mut b = IOElementCoditions::new(FrameTypes::State);
    b.update(IOElementCoditionsMessage::IOElementSelected("Sensor".to_string()), &io);
    assert_eq!(b.element, Some("Sensor".to_string()));
    b.update(IOElementCoditionsMessage::StateChanged(IOElementStates::Inactive), &io);
    b.update(IOElementCoditionsMessage::IOElementSelected("Valve".to_string()), &io);
    assert_eq!(b.get_data(), (None, IOElementStates::Inactive, FrameTypes::State));
    b.update(IOElementCoditionsMessage::IOElementSelected("Sensor".to_string()), &io);
    b.update(IOElementCoditionsMessage::IOElementSelected("Missing".to_string()), &io);
    assert_eq!(b.element, None);
}

#[test]
fn step_bindings_go_to_their_frame() {
    let mut io = IOConfig::new();
    io.add_new_element(element("S1", FrameTypes::State));
    let mut step = SubprogramStep::new();
    step.update(SubprogramStepMessage::AddCondition(FrameTypes::Control), &io);
    step.update(SubprogramStepMessage::AddCondition(FrameTypes::State), &io);
    step.update(SubprogramStepMessage::AddCondition(FrameTypes::State), &io);
    assert_eq!(step.get_conditions(FrameTypes::State).len(), 2);
    assert_eq!(step.get_conditions(FrameTypes::Control).len(), 1);
    step.update(
        SubprogramStepMessage::IOElementCoditionsMessage(
            FrameTypes::State,
            1,
            IOElementCoditionsMessage::IOElementSelected("S1".to_string()),
        ),
        &io,
    );
    assert_eq!(step.get_last_condition(FrameTypes::State).element, Some("S1".to_string()));
    step.update(
        SubprogramStepMessage::IOElementCoditionsMessage(
            FrameTypes::Control,
            0,
            IOElementCoditionsMessage::StateChanged(IOElementStates::Active),
        ),
        &io,
    );
    assert_eq!(step.get_last_condition(FrameTypes::Control).state, IOElementStates::Active);
    step.update(
        SubprogramStepMessage::IOElementCoditionsMessage(
            FrameTypes::State,
            0,
            IOElementCoditionsMessage::DeleteElement(FrameTypes::State),
        ),
        &io,
    );
    step.update(SubprogramStepMessage::OperatorSelected(Operators::OR), &io);
    let (id, op, states, controls, _) = step.get_data();
    assert_eq!(id, 0);
    assert_eq!(op, Operators::OR);
    assert_eq!(states.len(), 1);
    assert_eq!(states[0].element, Some("S1".to_string()));
    assert_eq!(controls.len(), 1);
}

fn rule_at(address: usize, description: &str) -> (ConditionsConfigElementMessage, ConditionsConfigElementMessage) {
    (
        ConditionsConfigElementMessage::AddressSelected(address),
        ConditionsConfigElementMessage::DescriptionChanged(description.to_string()),
    )
}

#[test]
fn sorting_rules_is_stable() {
    let io = IOConfig::new();
    let mut rules = CondtionsConfig::new();
    let wanted = [(3, "a"), (1, "b"), (3, "c"), (2, "d"), (1, "e"), (3, "f")];
    for (i, (address, name)) in wanted.iter().enumerate() {
        rules.update(CondtionsConfigMessage::AddNewConditons, &io);
        let (m1, m2) = rule_at(*address, name);
        rules.update(CondtionsConfigMessage::ConditionsConfigElementMessage(i, m1), &io);
        rules.update(CondtionsConfigMessage::ConditionsConfigElementMessage(i, m2), &io);
    }
    rules.sort_conditions();
    let order: Vec<(usize, String)> =
        rules.get_conditions().iter().map(|r| (r.address, r.description.clone())).collect();
    let expected: Vec<(usize, String)> = vec![(1, "b"), (1, "e"), (2, "d"), (3, "a"), (3, "c"), (3, "f")]
        .into_iter()
        .map(|(a, d)| (a, d.to_string()))
        .collect();
    assert_eq!(order, expected);
}

#[test]
fn rule_registry_edits() {
    let io = IOConfig::new();
    let mut rules = CondtionsConfig::new();
    rules.update(CondtionsConfigMessage::AddNewConditons, &io);
    rules.update(CondtionsConfigMessage::AddNewConditons, &io);
    rules.update(
        CondtionsConfigMessage::ConditionsConfigElementMessage(1, ConditionsConfigElementMessage::CriticalPicked(true)),
        &io,
    );
    let before: Vec<ConditionsConfigElement> = rules.get_conditions().clone();
    rules.update(
        CondtionsConfigMessage::ConditionsConfigElementMessage(
            1,
            ConditionsConfigElementMessage::PickConditions(FrameTypes::Control),
        ),
        &io,
    );
    assert_eq!(rules.get_current_editable_id(), 1);
    assert_eq!(*rules.get_conditions(), before);
    assert_eq!(*rules.get_current_editable_subprogram(), before[1]);
    assert!(rules.get_conditon(1).critical);
    rules.update(
        CondtionsConfigMessage::ConditionsConfigElementMessage(0, ConditionsConfigElementMessage::DeleteCondition),
        &io,
    );
    assert_eq!(rules.get_conditions().len(), 1);
    let (_, _, _, blocked, critical, address) = rules.get_last_condtions().get_data();
    assert_eq!((blocked, critical, address), (false, true, 0));
}

#[test]
fn cursors_and_last_items() {
    let io = IOConfig::new();
    let mut cfg = registry_with_counts(&[1, 3]);
    cfg.update(SubprogramConfigMessage::SubprogramMessage(1, SubprogramMessage::SubprogramEdit), &io);
    assert_eq!(cfg.get_current_editable_id(), 1);
    cfg.update(
        SubprogramConfigMessage::SubprogramMessage(
            1,
            SubprogramMessage::SubprogramStepMessage(2, SubprogramStepMessage::DescriptionChanged("end".to_string())),
        ),
        &io,
    );
    let sub = cfg.get_current_editable_subprogram();
    assert_eq!(sub.get_current_editable_step_id(), 2);
    assert_eq!(sub.get_current_editable_step().descripton, "end");
    assert_eq!(sub.get_last_step().id, 3);
    assert_eq!(cfg.get_last_subprogram().get_steps_count(), 3);
    assert_eq!(cfg.get_last_subprogram().address, 2);
}

#[test]
fn step_addresses_for_rules() {
    let cfg = registry_with_counts(&[2, 1]);
    assert!(!cfg.is_step_address(0));
    assert!(cfg.is_step_address(1));
    assert!(cfg.is_step_address(3));
    assert!(!cfg.is_step_address(4));
    assert!(!SubprogramConfig::new().is_step_address(1));
}
