use omniflix_channel::string_validation::{validate_string, StringValidationType};

#[test]
fn test_validate_username() {
    // Test valid username
    assert!(validate_string("validname", StringValidationType::Username).is_ok());

    // Test invalid cases
    assert!(validate_string("ab", StringValidationType::Username).is_err()); // too short
    assert!(validate_string("a".repeat(33).as_str(), StringValidationType::Username).is_err()); // too long
    assert!(validate_string("Invalid123", StringValidationType::Username).is_err()); // numbers not allowed
    assert!(validate_string("Invalid!", StringValidationType::Username).is_err()); // special chars not allowed
    assert!(validate_string("invalid name", StringValidationType::Username).is_err());
    // spaces not allowed
}

#[test]
fn test_validate_channel_name() {
    // Test valid channel names
    assert!(validate_string("Channel123", StringValidationType::ChannelName).is_ok());
    assert!(validate_string("channelname", StringValidationType::ChannelName).is_ok());

    // Test invalid cases
    assert!(validate_string("ch", StringValidationType::ChannelName).is_err()); // too short
    assert!(validate_string("a".repeat(33).as_str(), StringValidationType::ChannelName).is_err()); // too long
    assert!(validate_string("channel!", StringValidationType::ChannelName).is_err()); // special chars not allowed
    assert!(validate_string("channel name", StringValidationType::ChannelName).is_err());
    // spaces not allowed
}

#[test]
fn test_validate_description() {
    // Test valid descriptions
    assert!(validate_string("Valid description 123!", StringValidationType::Description).is_ok());
    assert!(validate_string("Short desc", StringValidationType::Description).is_ok());

    // Test invalid cases
    assert!(validate_string("ab", StringValidationType::Description).is_err()); // too short
    assert!(validate_string("a".repeat(257).as_str(), StringValidationType::Description).is_err()); // too long
}

#[test]
fn test_validate_link() {
    // Test valid links
    assert!(validate_string("https://example.com", StringValidationType::Link).is_ok());
    assert!(validate_string("http://test.org/path", StringValidationType::Link).is_ok());
    assert!(validate_string("https://sub.domain.com/path?query=123", StringValidationType::Link).is_ok());

    // Test invalid links
    assert!(validate_string("not-a-url", StringValidationType::Link).is_err());
    assert!(validate_string("ftp://invalid.com", StringValidationType::Link).is_err());
    assert!(validate_string("https://", StringValidationType::Link).is_err());
    assert!(validate_string("https://nodot", StringValidationType::Link).is_err());
}
