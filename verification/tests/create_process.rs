use process_validation::{
    BinaryOperator, Error, Event, Pallet, Process, ProcessStatus, Restriction,
};

const PROCESS_ID1: u32 = 1;
const PROCESS_ID2: u32 = 2;

#[test]
fn handles_if_process_exists_for_the_new_version() {
    let mut pallet = Pallet::new();
    pallet.insert_process(
        PROCESS_ID1,
        1,
        Process {
            status: ProcessStatus::Disabled,
            restrictions: vec![Restriction::NoRestriction],
        },
    );
    let result = pallet.create_process(PROCESS_ID1, vec![Restriction::NoRestriction]);
    assert_eq!(result, Err(Error::AlreadyExists));
}

#[test]
fn if_no_version_found_it_should_return_default_and_insert_new_one() {
    let mut pallet = Pallet::new();
    assert_eq!(pallet.get_version(PROCESS_ID1), 0u32);
    assert!(pallet
        .create_process(PROCESS_ID1, vec![Restriction::NoRestriction])
        .is_ok());

    let expected = Event::ProcessCreated(PROCESS_ID1, 1u32, vec![Restriction::NoRestriction], true);
    assert_eq!(pallet.events()[0], expected);
    assert_eq!(
        pallet.get_process(PROCESS_ID1, 1u32),
        Process {
            status: ProcessStatus::Enabled,
            restrictions: vec![Restriction::NoRestriction],
        }
    );
}

#[test]
fn for_existing_process_it_mutates_an_existing_version() {
    let mut pallet = Pallet::new();
    assert!(pallet.update_version(PROCESS_ID1).is_ok());
    assert!(pallet.update_version(PROCESS_ID1).is_ok());
    assert!(pallet.update_version(PROCESS_ID1).is_ok());

    assert_eq!(pallet.version_count(), 1);
    assert_eq!(pallet.get_version(PROCESS_ID1), 3u32);
}

#[test]
fn sets_versions_correctly_for_multiple_processes() {
    let mut pallet = Pallet::new();
    let mut ids = [PROCESS_ID2; 10].to_vec();
    ids.extend([PROCESS_ID1; 15].to_vec());
    ids.iter().for_each(|id| {
        assert!(pallet.update_version(*id).is_ok());
    });

    let id1_expected =
        Event::ProcessCreated(PROCESS_ID1, 16u32, vec![Restriction::NoRestriction], false);
    assert!(pallet
        .create_process(PROCESS_ID1, vec![Restriction::NoRestriction])
        .is_ok());
    let id2_expected =
        Event::ProcessCreated(PROCESS_ID2, 11u32, vec![Restriction::NoRestriction], false);
    assert!(pallet
        .create_process(PROCESS_ID2, vec![Restriction::NoRestriction])
        .is_ok());

    assert_eq!(pallet.events()[0], id1_expected);
    assert_eq!(pallet.events()[1], id2_expected);
}

#[test]
fn updates_version_correctly_for_existing_proces_and_dispatches_event() {
    let mut pallet = Pallet::new();
    pallet.insert_version(PROCESS_ID1, 9u32);
    let expected =
        Event::ProcessCreated(PROCESS_ID1, 10u32, vec![Restriction::NoRestriction], false);
    assert!(pallet
        .create_process(PROCESS_ID1, vec![Restriction::NoRestriction])
        .is_ok());
    assert_eq!(pallet.get_version(PROCESS_ID1), 10u32);
    assert_eq!(pallet.events()[0], expected);
}

#[test]
fn updates_version_correctly_for_new_process_and_dispatches_event() {
    let mut pallet = Pallet::new();
    assert!(pallet
        .create_process(PROCESS_ID1, vec![Restriction::NoRestriction])
        .is_ok());
    let expected = Event::ProcessCreated(PROCESS_ID1, 1u32, vec![Restriction::NoRestriction], true);
    // sets version to 1 and returns true to identify that this is a new event
    assert_eq!(pallet.get_version(PROCESS_ID1), 1u32);
    assert_eq!(pallet.events()[0], expected);
}

#[test]
fn combined_with_depth_succeeds() {
    let mut pallet = Pallet::new();
    assert!(pallet
        .create_process(
            PROCESS_ID1,
            vec![Restriction::Combined {
                operator: BinaryOperator::AND,
                restriction_a: Box::new(Restriction::NoRestriction),
                restriction_b: Box::new(Restriction::Combined {
                    operator: BinaryOperator::AND,
                    restriction_a: Box::new(Restriction::NoRestriction),
                    restriction_b: Box::new(Restriction::NoRestriction),
                }),
            }],
        )
        .is_ok());
    let expected = Event::ProcessCreated(
        PROCESS_ID1,
        1u32,
        vec![Restriction::Combined {
            operator: BinaryOperator::AND,
            restriction_a: Box::new(Restriction::NoRestriction),
            restriction_b: Box::new(Restriction::Combined {
                operator: BinaryOperator::AND,
                restriction_a: Box::new(Restriction::NoRestriction),
                restriction_b: Box::new(Restriction::NoRestriction),
            }),
        }],
        true,
    );
    // sets version to 1 and returns true to identify that this is a new event
    assert_eq!(pallet.get_version(PROCESS_ID1), 1u32);
    assert_eq!(pallet.events()[0], expected);
}

#[test]
fn combined_over_max_depth_fails() {
    let mut pallet = Pallet::new();
    assert_eq!(
        pallet.create_process(
            PROCESS_ID1,
            vec![Restriction::Combined {
                operator: BinaryOperator::AND,
                restriction_a: Box::new(Restriction::NoRestriction),
                restriction_b: Box::new(Restriction::Combined {
                    operator: BinaryOperator::AND,
                    restriction_a: Box::new(Restriction::NoRestriction),
                    restriction_b: Box::new(Restriction::Combined {
                        operator: BinaryOperator::AND,
                        restriction_a: Box::new(Restriction::NoRestriction),
                        restriction_b: Box::new(Restriction::NoRestriction),
                    }),
                }),
            }],
        ),
        Err(Error::RestrictionsTooDeep)
    );
    assert_eq!(pallet.get_version(PROCESS_ID1), 0u32);
    assert_eq!(
        pallet.get_process(PROCESS_ID1, 1u32),
        Process {
            status: ProcessStatus::Disabled,
            restrictions: vec![],
        }
    );
    assert_eq!(pallet.events().len(), 0);
}
