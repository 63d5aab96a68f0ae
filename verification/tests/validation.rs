use process_validation::{
    restrictions::validate_restriction, BinaryOperator, Error, Event, Pallet, Process, ProcessIO,
    ProcessFullyQualifiedId, ProcessStatus, Restriction,
};

fn fq(id: u32, version: u32) -> ProcessFullyQualifiedId {
    ProcessFullyQualifiedId { id, version }
}

fn sample_io() -> ProcessIO {
    ProcessIO {
        owner: 9,
        roles: vec![(1, 2)],
        metadata: vec![(3, 4)],
    }
}

#[test]
fn fresh_identifier_has_zero_counter_and_never_validates() {
    let pallet = Pallet::new();
    assert_eq!(pallet.get_version(5), 0u32);
    for version in [0u32, 1, 2, 100] {
        assert!(!pallet.validate_process(fq(5, version), &0, &vec![], &vec![]));
    }
}

#[test]
fn first_create_yields_one_then_two() {
    let mut pallet = Pallet::new();
    let first = pallet.create_process(4, vec![Restriction::NoRestriction]);
    assert_eq!(first, Ok((1u32, true)));
    let second = pallet.create_process(4, vec![Restriction::Fail]);
    assert_eq!(second, Ok((2u32, false)));
}

#[test]
fn bump_version_creates_no_process_records() {
    let mut pallet = Pallet::new();
    for expected in 1u32..=5 {
        assert_eq!(pallet.update_version(8), Ok(expected));
    }
    assert_eq!(pallet.get_version(8), 5u32);
    assert_eq!(pallet.version_count(), 1);
    assert_eq!(pallet.process_count(), 0);
    assert_eq!(pallet.events().len(), 0);
}

#[test]
fn seeded_slot_fails_create_but_counter_still_advances() {
    let mut pallet = Pallet::new();
    let seeded = Process {
        status: ProcessStatus::Enabled,
        restrictions: vec![Restriction::Fail],
    };
    pallet.insert_process(3, 1, seeded);
    assert_eq!(pallet.get_version(3), 0u32);

    let result = pallet.create_process(3, vec![Restriction::NoRestriction]);
    assert_eq!(result, Err(Error::AlreadyExists));
    // the counter advance is kept even though the create failed
    assert_eq!(pallet.get_version(3), 1u32);
    // the seeded record is untouched
    assert_eq!(
        pallet.get_process(3, 1),
        Process {
            status: ProcessStatus::Enabled,
            restrictions: vec![Restriction::Fail],
        }
    );
    assert_eq!(pallet.process_count(), 1);
    assert_eq!(pallet.events().len(), 0);
}

#[test]
fn disabled_process_never_validates() {
    let mut pallet = Pallet::new();
    assert_eq!(
        pallet.create_process(6, vec![Restriction::NoRestriction]),
        Ok((1u32, true))
    );
    assert!(pallet.validate_process(fq(6, 1), &42, &vec![sample_io()], &vec![sample_io()]));
    assert_eq!(pallet.disable_process(6, 1), Ok(()));
    assert!(!pallet.validate_process(fq(6, 1), &42, &vec![sample_io()], &vec![sample_io()]));
}

#[test]
fn enabled_no_restriction_validates_arbitrary_transitions() {
    let mut pallet = Pallet::new();
    assert_eq!(
        pallet.create_process(6, vec![Restriction::NoRestriction]),
        Ok((1u32, true))
    );
    assert!(pallet.validate_process(fq(6, 1), &0, &vec![], &vec![]));
    assert!(pallet.validate_process(fq(6, 1), &7, &vec![sample_io()], &vec![]));
    assert!(pallet.validate_process(
        fq(6, 1),
        &u64::MAX,
        &vec![sample_io(), sample_io()],
        &vec![sample_io()]
    ));
}

#[test]
fn combined_and_admits_when_both_children_admit() {
    let both_admit = Restriction::Combined {
        operator: BinaryOperator::AND,
        restriction_a: Box::new(Restriction::NoRestriction),
        restriction_b: Box::new(Restriction::NoRestriction),
    };
    assert!(validate_restriction(&both_admit, &1, &vec![], &vec![]));
    assert!(validate_restriction(
        &both_admit,
        &2,
        &vec![sample_io()],
        &vec![sample_io()]
    ));

    let one_denies = Restriction::Combined {
        operator: BinaryOperator::AND,
        restriction_a: Box::new(Restriction::NoRestriction),
        restriction_b: Box::new(Restriction::Fail),
    };
    assert!(!validate_restriction(&one_denies, &1, &vec![], &vec![]));
    assert!(!validate_restriction(
        &one_denies,
        &2,
        &vec![sample_io()],
        &vec![sample_io()]
    ));
}

#[test]
fn failing_restriction_denies_validation() {
    let mut pallet = Pallet::new();
    assert_eq!(
        pallet.create_process(2, vec![Restriction::NoRestriction, Restriction::Fail]),
        Ok((1u32, true))
    );
    assert!(!pallet.validate_process(fq(2, 1), &0, &vec![], &vec![]));
}

#[test]
fn repeated_validation_is_idempotent() {
    let mut pallet = Pallet::new();
    assert_eq!(
        pallet.create_process(1, vec![Restriction::NoRestriction]),
        Ok((1u32, true))
    );
    let admitted_first = pallet.validate_process(fq(1, 1), &3, &vec![sample_io()], &vec![]);
    let admitted_again = pallet.validate_process(fq(1, 1), &3, &vec![sample_io()], &vec![]);
    assert_eq!(admitted_first, admitted_again);
    assert!(admitted_first);

    let denied_first = pallet.validate_process(fq(1, 9), &3, &vec![], &vec![]);
    let denied_again = pallet.validate_process(fq(1, 9), &3, &vec![], &vec![]);
    assert_eq!(denied_first, denied_again);
    assert!(!denied_first);
}

#[test]
fn disable_of_absent_process_is_not_found() {
    let mut pallet = Pallet::new();
    assert_eq!(pallet.disable_process(1, 1), Err(Error::NotFound));
    assert_eq!(pallet.events().len(), 0);
}

#[test]
fn double_disable_is_not_an_error() {
    let mut pallet = Pallet::new();
    assert_eq!(
        pallet.create_process(1, vec![Restriction::NoRestriction]),
        Ok((1u32, true))
    );
    assert_eq!(pallet.disable_process(1, 1), Ok(()));
    assert_eq!(pallet.disable_process(1, 1), Ok(()));
    assert_eq!(
        pallet.get_process(1, 1).status,
        ProcessStatus::Disabled
    );
}

#[test]
fn create_then_disable_scenario_with_events() {
    let mut pallet = Pallet::new();
    assert_eq!(
        pallet.create_process(1, vec![Restriction::NoRestriction]),
        Ok((1u32, true))
    );
    assert_eq!(
        pallet.events()[0],
        Event::ProcessCreated(1, 1, vec![Restriction::NoRestriction], true)
    );
    assert!(pallet.validate_process(fq(1, 1), &5, &vec![], &vec![]));

    assert_eq!(pallet.disable_process(1, 1), Ok(()));
    assert_eq!(pallet.events()[1], Event::ProcessDisabled(1, 1));
    assert!(!pallet.validate_process(fq(1, 1), &5, &vec![], &vec![]));
}
