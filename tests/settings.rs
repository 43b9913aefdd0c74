use twitch_bot::config::{settle_config, ConfigLoad};

#[test]
fn parsed_settings_are_used_as_they_are() {
    assert_eq!(settle_config(ConfigLoad::Parsed(5u32), 9), (5, false));
}

#[test]
fn missing_file_gives_defaults_to_save() {
    assert_eq!(settle_config(ConfigLoad::<u32>::Missing, 9), (9, true));
}

#[test]
fn unparseable_file_gives_defaults_and_is_left_alone() {
    assert_eq!(settle_config(ConfigLoad::<u32>::Unparseable, 9), (9, false));
}
