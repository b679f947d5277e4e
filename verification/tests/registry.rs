use tag_registry::Error;
use tag_registry::SecureTagContract;
use tag_registry::TagStatus;

#[test]
fn scenario_register_report_claim() {
    let alice = String::from("alice");
    let bob = String::from("bob");
    let bag = String::from("BAG1");

    let mut reg = SecureTagContract::new();
    assert_eq!(reg.register_tag(&alice, alice.clone(), bag.clone()), Ok(()));

    let info = reg.get_tag_info(&bag).unwrap();
    assert_eq!(info.owner, alice);
    assert_eq!(info.status, TagStatus::Okay);
    assert_eq!(info.message, "");

    assert_eq!(reg.report_found(&bag, String::from("at_library")), Ok(()));
    let info = reg.get_tag_info(&bag).unwrap();
    assert_eq!(info.owner, alice);
    assert_eq!(info.status, TagStatus::Found);
    assert_eq!(info.message, "at_library");

    assert_eq!(reg.claim_item(&bob, &bag), Err(Error::Unauthorized));
    let info = reg.get_tag_info(&bag).unwrap();
    assert_eq!(info.status, TagStatus::Found);
    assert_eq!(info.message, "at_library");

    assert_eq!(reg.claim_item(&alice, &bag), Ok(()));
    let info = reg.get_tag_info(&bag).unwrap();
    assert_eq!(info.owner, alice);
    assert_eq!(info.status, TagStatus::Okay);
    assert_eq!(info.message, "");
}

#[test]
fn scenario_unknown_tag() {
    let reg = SecureTagContract::new();
    assert_eq!(
        reg.get_tag_info(&String::from("UNKNOWN")).map(|_| ()),
        Err(Error::NotRegistered)
    );
}

#[test]
fn second_registration_rejected() {
    let alice = String::from("alice");
    let bob = String::from("bob");
    let tag = String::from("LUGGAGE_123");

    let mut reg = SecureTagContract::new();
    assert_eq!(reg.register_tag(&alice, alice.clone(), tag.clone()), Ok(()));
    assert_eq!(
        reg.register_tag(&bob, bob.clone(), tag.clone()),
        Err(Error::AlreadyRegistered)
    );
    assert_eq!(
        reg.register_tag(&alice, alice.clone(), tag.clone()),
        Err(Error::AlreadyRegistered)
    );
    assert_eq!(reg.get_tag_info(&tag).unwrap().owner, alice);
}

#[test]
fn register_requires_owner_authorization() {
    let alice = String::from("alice");
    let mallory = String::from("mallory");
    let tag = String::from("KEYS");

    let mut reg = SecureTagContract::new();
    assert_eq!(
        reg.register_tag(&mallory, alice.clone(), tag.clone()),
        Err(Error::Unauthorized)
    );
    assert_eq!(reg.get_tag_info(&tag).map(|_| ()), Err(Error::NotRegistered));
}

#[test]
fn claim_requires_stored_owner_authorization() {
    let alice = String::from("alice");
    let mallory = String::from("mallory");
    let tag = String::from("KEYS");

    let mut reg = SecureTagContract::new();
    assert_eq!(reg.register_tag(&alice, alice.clone(), tag.clone()), Ok(()));
    assert_eq!(reg.report_found(&tag, String::from("seen_downtown")), Ok(()));

    // Authorization is judged against the identity on file, so offering
    // an identity of one's own does not help.
    assert_eq!(reg.claim_item(&mallory, &tag), Err(Error::Unauthorized));
    let info = reg.get_tag_info(&tag).unwrap();
    assert_eq!(info.status, TagStatus::Found);
    assert_eq!(info.message, "seen_downtown");
}

#[test]
fn anonymous_report_on_registered_tag() {
    let alice = String::from("alice");
    let tag = String::from("BIKE");

    let mut reg = SecureTagContract::new();
    assert_eq!(reg.register_tag(&alice, alice.clone(), tag.clone()), Ok(()));
    assert_eq!(reg.report_found(&tag, String::from("at_station")), Ok(()));
    let info = reg.get_tag_info(&tag).unwrap();
    assert_eq!(info.status, TagStatus::Found);
    assert_eq!(info.message, "at_station");
}

#[test]
fn anonymous_report_on_unknown_tag() {
    let mut reg = SecureTagContract::new();
    assert_eq!(
        reg.report_found(&String::from("BIKE"), String::from("at_station")),
        Err(Error::NotRegistered)
    );
}

#[test]
fn report_overwrites_prior_message() {
    let alice = String::from("alice");
    let tag = String::from("BAG1");

    let mut reg = SecureTagContract::new();
    assert_eq!(reg.register_tag(&alice, alice.clone(), tag.clone()), Ok(()));
    assert_eq!(reg.report_found(&tag, String::from("first_note")), Ok(()));
    assert_eq!(reg.report_found(&tag, String::from("second_note")), Ok(()));
    assert_eq!(reg.get_tag_info(&tag).unwrap().message, "second_note");
}

#[test]
fn claim_restores_fresh_state_for_any_message() {
    let alice = String::from("alice");
    let tag = String::from("BAG1");
    let messages = [String::from("at_library"), String::from(""), String::from("x")];

    for message in messages {
        let mut reg = SecureTagContract::new();
        assert_eq!(reg.register_tag(&alice, alice.clone(), tag.clone()), Ok(()));
        assert_eq!(reg.report_found(&tag, message), Ok(()));
        assert_eq!(reg.claim_item(&alice, &tag), Ok(()));
        let info = reg.get_tag_info(&tag).unwrap();
        assert_eq!(info.owner, alice);
        assert_eq!(info.status, TagStatus::Okay);
        assert_eq!(info.message, "");
    }
}

#[test]
fn claim_while_already_okay_is_permitted() {
    let alice = String::from("alice");
    let tag = String::from("BAG1");

    let mut reg = SecureTagContract::new();
    assert_eq!(reg.register_tag(&alice, alice.clone(), tag.clone()), Ok(()));
    assert_eq!(reg.claim_item(&alice, &tag), Ok(()));
    let info = reg.get_tag_info(&tag).unwrap();
    assert_eq!(info.status, TagStatus::Okay);
    assert_eq!(info.message, "");
}

#[test]
fn consecutive_queries_agree() {
    let alice = String::from("alice");
    let tag = String::from("BAG1");

    let mut reg = SecureTagContract::new();
    assert_eq!(reg.register_tag(&alice, alice.clone(), tag.clone()), Ok(()));
    assert_eq!(reg.report_found(&tag, String::from("at_library")), Ok(()));

    let first = reg.get_tag_info(&tag).unwrap();
    let second = reg.get_tag_info(&tag).unwrap();
    assert_eq!(first.owner, second.owner);
    assert_eq!(first.status, second.status);
    assert_eq!(first.message, second.message);
}

#[test]
fn distinct_tags_have_independent_records() {
    let alice = String::from("alice");
    let bob = String::from("bob");
    let bag = String::from("BAG1");
    let keys = String::from("KEYS");

    let mut reg = SecureTagContract::new();
    assert_eq!(reg.register_tag(&alice, alice.clone(), bag.clone()), Ok(()));
    assert_eq!(reg.register_tag(&bob, bob.clone(), keys.clone()), Ok(()));
    assert_eq!(reg.report_found(&bag, String::from("at_library")), Ok(()));

    let bag_info = reg.get_tag_info(&bag).unwrap();
    assert_eq!(bag_info.owner, alice);
    assert_eq!(bag_info.status, TagStatus::Found);

    let keys_info = reg.get_tag_info(&keys).unwrap();
    assert_eq!(keys_info.owner, bob);
    assert_eq!(keys_info.status, TagStatus::Okay);
    assert_eq!(keys_info.message, "");
}

#[test]
fn empty_tag_id_is_an_ordinary_key() {
    let alice = String::from("alice");
    let empty = String::from("");

    let mut reg = SecureTagContract::new();
    assert_eq!(reg.register_tag(&alice, alice.clone(), empty.clone()), Ok(()));
    let info = reg.get_tag_info(&empty).unwrap();
    assert_eq!(info.owner, alice);
    assert_eq!(info.status, TagStatus::Okay);
}
