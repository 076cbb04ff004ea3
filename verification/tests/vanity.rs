use cli_utils::error::CliError;
use cli_utils::vanity::{generate_vanity_account_ed25519, AddressKind};

fn refusal(prefix: &str) -> String {
    match generate_vanity_account_ed25519(prefix, false) {
        Err(CliError::CommandArgumentError(message)) => message,
        other => panic!("{:?}", other),
    }
}

#[test]
fn prefixes_that_are_searched_for() {
    for (given, prefix) in [
        ("0xaceface", "aceface"),
        ("d00d", "d00d"),
        ("0x", ""),
        ("", ""),
        ("a", "a"),
        ("0xACE", "ACE"),
        ("0x0x", "0x"),
    ] {
        let res = generate_vanity_account_ed25519(given, false);
        if given == "0x0x" {
            assert!(res.is_err());
        } else {
            assert_eq!(res.unwrap().prefix, prefix);
        }
    }
}

#[test]
fn prefix_with_0x_and_without() {
    let with = generate_vanity_account_ed25519("0xace", true).unwrap();
    let without = generate_vanity_account_ed25519("ace", true).unwrap();
    assert_eq!(with.prefix, without.prefix);
}

#[test]
fn prefixes_that_are_refused() {
    let front = "The vanity prefix could not be decoded to hex: ";
    assert_eq!(refusal("xyz"), format!("{}Invalid character 'x' at position 0", front));
    assert_eq!(refusal("0x12g4"), format!("{}Invalid character 'g' at position 2", front));
    assert_eq!(refusal("0X12"), format!("{}Invalid character 'X' at position 1", front));
    assert_eq!(refusal("a "), format!("{}Invalid character ' ' at position 1", front));
    assert_eq!(refusal("ab\u{e9}"), format!("{}Invalid character '\u{c3}' at position 2", front));
    assert_eq!(refusal("0x\n"), format!("{}Invalid character '\\n' at position 0", front));
}

#[test]
fn address_of_a_standard_account() {
    let search = generate_vanity_account_ed25519("ace", false).unwrap();
    assert_eq!(search.address_kind(), AddressKind::Standard);
}

#[test]
fn address_of_a_multisig_account() {
    let search = generate_vanity_account_ed25519("ace", true).unwrap();
    assert_eq!(search.address_kind(), AddressKind::Multisig { sequence_number: 0 });
}

#[test]
fn search_ends_at_the_first_match() {
    let search = generate_vanity_account_ed25519("0xace", false).unwrap();
    let addresses = ["bace", "ac", "ACE1", "ace2", "ace3"];
    assert_eq!(addresses.iter().position(|address| search.accepts(address)), Some(3));
    let mut short_addresses: Vec<String> = addresses.iter().map(|a| a.to_string()).collect();
    assert_eq!(search.first_match(&short_addresses), Some(3));
    short_addresses.truncate(3);
    assert_eq!(search.first_match(&short_addresses), None);
    assert_eq!(search.first_match(&Vec::new()), None);
    let search = generate_vanity_account_ed25519("", false).unwrap();
    assert!(search.accepts("bace"));
}
