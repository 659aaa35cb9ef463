use game_core::text::{decimal_string, digit_str, framed, framed_pair, natural_string};
use game_core::types::{
    DistrictModifierType, InGameID, PlayerInputType, RestrictionSet, RestrictionType,
    MAX_ACCESS_MODIFIER_COUNT, MAX_PRIORITY_MODIFIER_COUNT, MAX_TOLL_MODIFIER_COUNT,
};

#[test]
fn digits_are_rendered_by_their_last_decimal_place() {
    assert_eq!(digit_str(0), "0");
    assert_eq!(digit_str(7), "7");
    assert_eq!(digit_str(19), "9");
    assert_eq!(digit_str(1230), "0");
}

#[test]
fn natural_numbers_are_rendered_in_decimal() {
    assert_eq!(natural_string(0), "0");
    assert_eq!(natural_string(9), "9");
    assert_eq!(natural_string(10), "10");
    assert_eq!(natural_string(90_000), "90000");
    assert_eq!(natural_string(u64::MAX), "18446744073709551615");
}

#[test]
fn integers_are_rendered_with_their_sign() {
    assert_eq!(decimal_string(0), "0");
    assert_eq!(decimal_string(42), "42");
    assert_eq!(decimal_string(-1), "-1");
    assert_eq!(decimal_string(-2_147_483_648), "-2147483648");
    assert_eq!(decimal_string(i64::MIN), "-9223372036854775808");
    assert_eq!(decimal_string(i64::MAX), "9223372036854775807");
}

#[test]
fn framed_texts_keep_their_parts_in_order() {
    assert_eq!(framed("a", "b", "c"), "abc");
    assert_eq!(framed("", "b", ""), "b");
    assert_eq!(framed_pair("1", "2", "3", "4", "5"), "12345");
}

#[test]
fn roles_rotate_in_a_fixed_order() {
    assert_eq!(InGameID::Orchestrator.next(), InGameID::PlayerOne);
    assert_eq!(InGameID::PlayerOne.next(), InGameID::PlayerTwo);
    assert_eq!(InGameID::PlayerTwo.next(), InGameID::PlayerThree);
    assert_eq!(InGameID::PlayerThree.next(), InGameID::PlayerFour);
    assert_eq!(InGameID::PlayerFour.next(), InGameID::PlayerFive);
    assert_eq!(InGameID::PlayerFive.next(), InGameID::PlayerSix);
    assert_eq!(InGameID::PlayerSix.next(), InGameID::Orchestrator);
}

#[test]
fn roles_and_places_convert_both_ways() {
    assert_eq!(InGameID::Orchestrator.index(), 0);
    assert_eq!(InGameID::PlayerSix.index(), 6);
    assert_eq!(InGameID::from_index(3), InGameID::PlayerThree);
    assert_eq!(InGameID::from_index(7), InGameID::Orchestrator);
    assert_eq!(InGameID::from_index(255), InGameID::PlayerThree);
}

#[test]
fn names_of_kinds_are_their_identifiers() {
    assert_eq!(InGameID::PlayerFour.name(), "PlayerFour");
    assert_eq!(PlayerInputType::ModifyEdgeRestrictions.name(), "ModifyEdgeRestrictions");
    assert_eq!(PlayerInputType::All.name(), "All");
    assert_eq!(DistrictModifierType::Toll.name(), "Toll");
    assert_eq!(RestrictionType::ParkAndRide.name(), "ParkAndRide");
    assert_eq!(RestrictionType::Heavy.name(), "Heavy");
}

#[test]
fn each_kind_of_modifier_has_its_cap() {
    assert_eq!(DistrictModifierType::Access.max_count(), MAX_ACCESS_MODIFIER_COUNT);
    assert_eq!(DistrictModifierType::Priority.max_count(), MAX_PRIORITY_MODIFIER_COUNT);
    assert_eq!(DistrictModifierType::Toll.max_count(), MAX_TOLL_MODIFIER_COUNT);
}

#[test]
fn a_restriction_set_holds_what_was_put_in() {
    let empty = RestrictionSet::empty();
    assert!(!empty.contains(RestrictionType::Electric));
    assert!(!empty.contains(RestrictionType::OneWay));
    let set = empty.with(RestrictionType::Electric).with(RestrictionType::Destination);
    assert!(set.contains(RestrictionType::Electric));
    assert!(set.contains(RestrictionType::Destination));
    assert!(!set.contains(RestrictionType::Emergency));
    assert!(!set.contains(RestrictionType::ParkAndRide));
    assert_eq!(set.with(RestrictionType::Electric), set);
    let all = set
        .with(RestrictionType::ParkAndRide)
        .with(RestrictionType::OneWay)
        .with(RestrictionType::Emergency)
        .with(RestrictionType::Hazard)
        .with(RestrictionType::Heavy);
    assert!(all.contains(RestrictionType::Hazard));
    assert!(all.contains(RestrictionType::Heavy));
    assert!(all.contains(RestrictionType::OneWay));
}
