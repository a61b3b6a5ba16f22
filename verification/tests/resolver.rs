use who_you_gonna_call::contacts::UserContact;
use who_you_gonna_call::contacts::resolve_phone_numbers;
use who_you_gonna_call::error::Error;
use who_you_gonna_call::format_phone_number;
use who_you_gonna_call::health::Health;
use who_you_gonna_call::health::Status;
use who_you_gonna_call::health::healthy_status;
use who_you_gonna_call::oncall::AlertInfo;
use who_you_gonna_call::oncall::ScheduleIdentifier;
use who_you_gonna_call::oncall::ScheduleRequestById;
use who_you_gonna_call::oncall::ScheduleRequestByName;
use who_you_gonna_call::oncall::UserPhoneNumber;
use who_you_gonna_call::oncall::assemble_alert_info;
use who_you_gonna_call::oncall::collect_alert_numbers;
use who_you_gonna_call::oncall::resolve_on_call;
use who_you_gonna_call::oncall::resolve_schedule_identifier;
use who_you_gonna_call::schedule::Schedule;
use who_you_gonna_call::schedule::resolve_schedule_id;

fn contact(to: &str, method: &str) -> UserContact {
    UserContact {
        to: to.to_string(),
        id: "contact-id".to_string(),
        contact_method: method.to_string(),
        enabled: true,
    }
}

#[test]
fn normalize_strips_hyphens_and_prefixes_plus() {
    assert_eq!(format_phone_number("555-123-4567".to_string()), "+5551234567");
}

#[test]
fn normalize_empty_input_yields_bare_plus() {
    assert_eq!(format_phone_number("".to_string()), "+");
}

#[test]
fn normalize_hyphens_only_yields_bare_plus() {
    assert_eq!(format_phone_number("---".to_string()), "+");
}

#[test]
fn normalize_reapplied_strips_nothing_further() {
    let once = format_phone_number("555-123-4567".to_string());
    assert_eq!(once, "+5551234567");
    // The first pass left no hyphen, so a second pass only prepends another
    // `+` and strips nothing: normalization is not truly idempotent.
    let twice = format_phone_number(once.clone());
    let mut expected = "+".to_string();
    expected.push_str(&once);
    assert_eq!(twice, expected);
}

#[test]
fn contacts_dedup_across_methods_and_drop_email() {
    let contacts = vec![
        contact("1-2", "voice"),
        contact("1-2", "sms"),
        contact("9", "email"),
    ];
    let numbers = resolve_phone_numbers(&contacts);
    assert_eq!(numbers, vec!["+12".to_string()]);
}

#[test]
fn contacts_without_voice_or_sms_yield_empty_list() {
    let contacts = vec![contact("9", "email"), contact("8", "mobile")];
    let numbers = resolve_phone_numbers(&contacts);
    assert!(numbers.is_empty());
}

#[test]
fn contacts_sorted_ascending_with_duplicates_removed() {
    let contacts = vec![
        contact("9", "voice"),
        contact("1", "sms"),
        contact("9", "sms"),
        contact("5", "voice"),
    ];
    let numbers = resolve_phone_numbers(&contacts);
    assert_eq!(
        numbers,
        vec!["+1".to_string(), "+5".to_string(), "+9".to_string()]
    );
}

#[test]
fn contacts_method_match_is_case_sensitive_and_exact() {
    let contacts = vec![contact("1", "Voice"), contact("2", "SMS"), contact("3", "voicemail")];
    let numbers = resolve_phone_numbers(&contacts);
    assert!(numbers.is_empty());
}

#[test]
fn schedule_search_with_no_match_is_not_found() {
    let r = resolve_schedule_id(&"Team A".to_string(), &vec![]);
    match r {
        Err(Error::ScheduleNotFound { schedule_name }) => {
            assert_eq!(schedule_name, "Team A");
        }
        other => panic!("expected ScheduleNotFound, got {:?}", other),
    }
}

#[test]
fn schedule_search_with_two_matches_is_ambiguous() {
    let schedules = vec![
        Schedule { id: "a".to_string() },
        Schedule { id: "b".to_string() },
    ];
    let r = resolve_schedule_id(&"Team A".to_string(), &schedules);
    match r {
        Err(Error::TooManySchedulesFound { schedule_name, schedules_found }) => {
            assert_eq!(schedule_name, "Team A");
            assert_eq!(schedules_found, 2);
        }
        other => panic!("expected TooManySchedulesFound, got {:?}", other),
    }
}

#[test]
fn schedule_search_with_one_match_returns_its_id() {
    let schedules = vec![Schedule { id: "abc".to_string() }];
    let r = resolve_schedule_id(&"Team A".to_string(), &schedules);
    assert_eq!(r.unwrap(), "abc");
}

#[test]
fn identifier_by_id_is_used_directly() {
    let identifier =
        ScheduleIdentifier::ScheduleById(ScheduleRequestById { id: "abc".to_string() });
    let r = resolve_schedule_identifier(&identifier, &vec![]);
    assert_eq!(r.unwrap(), "abc");
}

#[test]
fn identifier_by_name_propagates_ambiguity() {
    let identifier =
        ScheduleIdentifier::ScheduleByName(ScheduleRequestByName { name: "Team A".to_string() });
    let schedules = vec![
        Schedule { id: "a".to_string() },
        Schedule { id: "b".to_string() },
    ];
    let r = resolve_schedule_identifier(&identifier, &schedules);
    assert!(matches!(r, Err(Error::TooManySchedulesFound { .. })));
}

#[test]
fn on_call_roster_resolves_in_recipient_order() {
    let recipients = vec!["alice".to_string(), "bob".to_string()];
    let profiles = vec![
        vec![contact("1", "voice"), contact("2", "voice")],
        vec![contact("3", "sms")],
    ];
    let info = resolve_on_call(&recipients, &profiles).unwrap();
    assert_eq!(info.username, "alice");
    assert_eq!(info.phone_number, "+1");
    assert_eq!(info.full_information.len(), 2);
    assert_eq!(info.full_information[0].name, "alice");
    assert_eq!(info.full_information[0].phone, vec!["+1".to_string(), "+2".to_string()]);
    assert_eq!(info.full_information[1].name, "bob");
    assert_eq!(info.full_information[1].phone, vec!["+3".to_string()]);
}

#[test]
fn empty_roster_means_no_one_on_call() {
    let r = resolve_on_call(&vec![], &vec![]);
    assert!(matches!(r, Err(Error::NoOnCallPerson)));
}

#[test]
fn first_recipient_without_numbers_means_no_phone_number() {
    let recipients = vec!["alice".to_string()];
    let profiles = vec![vec![contact("9", "email")]];
    let r = resolve_on_call(&recipients, &profiles);
    match r {
        Err(Error::NoPhoneNumber { username }) => assert_eq!(username, "alice"),
        other => panic!("expected NoPhoneNumber, got {:?}", other),
    }
}

#[test]
fn by_name_and_by_id_paths_yield_the_same_alert() {
    let schedules = vec![Schedule { id: "abc".to_string() }];
    let by_name =
        ScheduleIdentifier::ScheduleByName(ScheduleRequestByName { name: "Team A".to_string() });
    let by_id = ScheduleIdentifier::ScheduleById(ScheduleRequestById { id: "abc".to_string() });

    let id_from_name = resolve_schedule_identifier(&by_name, &schedules).unwrap();
    let id_direct = resolve_schedule_identifier(&by_id, &vec![]).unwrap();
    assert_eq!(id_from_name, id_direct);

    // Both paths continue from the same schedule id, so the roster data is
    // the same and the assembled alert is too.
    let recipients = vec!["alice".to_string()];
    let profiles = vec![vec![contact("1", "voice")]];
    let from_name = resolve_on_call(&recipients, &profiles).unwrap();
    let from_id = resolve_on_call(&recipients, &profiles).unwrap();
    assert_eq!(from_name, from_id);
}

#[test]
fn assembled_alert_keeps_list_and_picks_first_entry() {
    let list = vec![
        UserPhoneNumber { name: "alice".to_string(), phone: vec!["+1".to_string()] },
        UserPhoneNumber { name: "bob".to_string(), phone: vec!["+3".to_string()] },
    ];
    let info = assemble_alert_info(list.clone()).unwrap();
    assert_eq!(info.username, "alice");
    assert_eq!(info.phone_number, "+1");
    assert_eq!(info.full_information, list);
}

#[test]
fn assembling_an_empty_list_means_no_one_on_call() {
    let r = assemble_alert_info(vec![]);
    assert!(matches!(r, Err(Error::NoOnCallPerson)));
}

#[test]
fn alert_numbers_are_flattened_in_roster_order() {
    let info = AlertInfo {
        username: "alice".to_string(),
        phone_number: "+1".to_string(),
        full_information: vec![
            UserPhoneNumber {
                name: "alice".to_string(),
                phone: vec!["+1".to_string(), "+2".to_string()],
            },
            UserPhoneNumber { name: "bob".to_string(), phone: vec!["+3".to_string()] },
        ],
    };
    let numbers = collect_alert_numbers(&info);
    assert_eq!(
        numbers,
        vec!["+1".to_string(), "+2".to_string(), "+3".to_string()]
    );
}

#[test]
fn status_codes_follow_the_error_taxonomy() {
    assert_eq!(Error::RequestOnCallPerson.status_code(), 500);
    assert_eq!(Error::RequestSchedule.status_code(), 500);
    assert_eq!(
        Error::RequestPhoneNumberForPerson { username: "alice".to_string() }.status_code(),
        500
    );
    assert_eq!(Error::NoOnCallPerson.status_code(), 418);
    assert_eq!(
        Error::NoPhoneNumber { username: "alice".to_string() }.status_code(),
        418
    );
    assert_eq!(
        Error::ScheduleNotFound { schedule_name: "Team A".to_string() }.status_code(),
        422
    );
    assert_eq!(
        Error::TooManySchedulesFound {
            schedule_name: "Team A".to_string(),
            schedules_found: 2,
        }
        .status_code(),
        422
    );
}

#[test]
fn liveness_always_reports_healthy() {
    assert_eq!(healthy_status(), Status { health: Health::Healthy });
}
