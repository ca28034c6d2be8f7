use packet_registry::registry::{Direction, Packet, PacketRegistry, SourceDocument};
use packet_registry::service::{is_string_numeric, list_all, lookup_packet, parse_direction, LookupError};

fn packet(id: &str, name: &str) -> Packet {
    Packet { id: id.to_string(), name: name.to_string() }
}

fn loaded(server: Vec<(&str, &str)>, client: Vec<(&str, &str)>) -> PacketRegistry {
    let doc = SourceDocument {
        server_bound: server.iter().map(|(i, n)| packet(i, n)).collect(),
        client_bound: client.iter().map(|(i, n)| packet(i, n)).collect(),
    };
    let mut reg = PacketRegistry::new();
    reg.load(&doc);
    reg
}

#[test]
fn lookup_finds_loaded_entries() {
    let reg = loaded(vec![("3", "C")], vec![("1", "A"), ("2", "B")]);
    assert_eq!(lookup_packet(&reg, "3", "c2s"), Ok("C".to_string()));
    assert_eq!(lookup_packet(&reg, "1", "s2c"), Ok("A".to_string()));
    assert_eq!(lookup_packet(&reg, "2", "s2c"), Ok("B".to_string()));
}

#[test]
fn missing_id_is_packet_not_found() {
    let reg = loaded(vec![("3", "C")], vec![("1", "A")]);
    assert_eq!(lookup_packet(&reg, "7", "c2s"), Err(LookupError::PacketNotFound));
    assert_eq!(lookup_packet(&reg, "7", "s2c"), Err(LookupError::PacketNotFound));
}

#[test]
fn id_in_other_direction_is_still_not_found() {
    let reg = loaded(vec![("3", "C")], vec![("1", "A")]);
    assert_eq!(lookup_packet(&reg, "1", "c2s"), Err(LookupError::PacketNotFound));
    assert_eq!(lookup_packet(&reg, "3", "s2c"), Err(LookupError::PacketNotFound));
}

#[test]
fn non_digit_id_is_invalid_format() {
    let reg = loaded(vec![("3", "C")], vec![("1", "A")]);
    assert_eq!(lookup_packet(&reg, "x1", "c2s"), Err(LookupError::InvalidIdFormat));
    assert_eq!(lookup_packet(&reg, "1 2", "s2c"), Err(LookupError::InvalidIdFormat));
}

#[test]
fn invalid_id_is_reported_before_the_direction_is_looked_at() {
    let reg = loaded(vec![], vec![]);
    assert_eq!(lookup_packet(&reg, "x", "nonsense"), Err(LookupError::InvalidIdFormat));
}

#[test]
fn unrecognized_direction_token_is_unknown_direction() {
    let reg = loaded(vec![("3", "C")], vec![]);
    assert_eq!(lookup_packet(&reg, "3", "both"), Err(LookupError::UnknownDirection));
    assert_eq!(lookup_packet(&reg, "3", ""), Err(LookupError::UnknownDirection));
    assert_eq!(lookup_packet(&reg, "3", "c2x"), Err(LookupError::UnknownDirection));
}

#[test]
fn direction_tokens_match_in_any_letter_case() {
    let reg = loaded(vec![("3", "C")], vec![("1", "A")]);
    assert_eq!(lookup_packet(&reg, "3", "c2s"), Ok("C".to_string()));
    assert_eq!(lookup_packet(&reg, "3", "C2S"), Ok("C".to_string()));
    assert_eq!(lookup_packet(&reg, "3", "c2S"), Ok("C".to_string()));
    assert_eq!(lookup_packet(&reg, "1", "s2c"), Ok("A".to_string()));
    assert_eq!(lookup_packet(&reg, "1", "S2C"), Ok("A".to_string()));
    assert_eq!(lookup_packet(&reg, "1", "S2c"), Ok("A".to_string()));
}

#[test]
fn parse_direction_maps_tokens_to_directions() {
    assert_eq!(parse_direction("c2s"), Some(Direction::ServerBound));
    assert_eq!(parse_direction("S2C"), Some(Direction::ClientBound));
    assert_eq!(parse_direction("s2s"), None);
    assert_eq!(parse_direction("c2sx"), None);
}

#[test]
fn duplicate_id_keeps_the_later_name() {
    let reg = loaded(vec![("5", "Old"), ("5", "New")], vec![]);
    assert_eq!(lookup_packet(&reg, "5", "c2s"), Ok("New".to_string()));
}

#[test]
fn list_all_keeps_insertion_order() {
    let reg = loaded(vec![("3", "C")], vec![("1", "A"), ("2", "B")]);
    let (client, server) = list_all(&reg);
    assert_eq!(client, vec![("1".to_string(), "A".to_string()), ("2".to_string(), "B".to_string())]);
    assert_eq!(server, vec![("3".to_string(), "C".to_string())]);
}

#[test]
fn overwritten_id_moves_to_the_back_of_the_order() {
    let reg = loaded(vec![("5", "Old"), ("6", "Mid"), ("5", "New")], vec![]);
    let (_, server) = list_all(&reg);
    assert_eq!(server, vec![("6".to_string(), "Mid".to_string()), ("5".to_string(), "New".to_string())]);
}

#[test]
fn empty_document_loads_an_empty_registry() {
    let reg = loaded(vec![], vec![]);
    let (client, server) = list_all(&reg);
    assert!(client.is_empty());
    assert!(server.is_empty());
    assert_eq!(lookup_packet(&reg, "0", "c2s"), Err(LookupError::PacketNotFound));
    assert_eq!(lookup_packet(&reg, "0", "s2c"), Err(LookupError::PacketNotFound));
}

#[test]
fn get_reads_one_direction_only() {
    let reg = loaded(vec![("9", "S")], vec![("9", "Cl")]);
    assert_eq!(reg.get(Direction::ServerBound, "9"), Some("S".to_string()));
    assert_eq!(reg.get(Direction::ClientBound, "9"), Some("Cl".to_string()));
    assert_eq!(reg.get(Direction::ServerBound, "8"), None);
}

#[test]
fn iter_returns_one_direction_in_order() {
    let reg = loaded(vec![("3", "C"), ("1", "S")], vec![("2", "B")]);
    assert_eq!(
        reg.iter(Direction::ServerBound),
        vec![("3".to_string(), "C".to_string()), ("1".to_string(), "S".to_string())]
    );
    assert_eq!(reg.iter(Direction::ClientBound), vec![("2".to_string(), "B".to_string())]);
}

#[test]
fn is_string_numeric_accepts_digits_only() {
    assert!(is_string_numeric("0123456789"));
    assert!(is_string_numeric(""));
    assert!(!is_string_numeric("12a"));
    assert!(!is_string_numeric("-1"));
    assert!(!is_string_numeric("1.5"));
}

#[test]
fn error_messages_match_each_variant() {
    assert_eq!(LookupError::InvalidIdFormat.message(), "Invalid ID, must be a number!");
    assert_eq!(LookupError::UnknownDirection.message(), "Invalid bound, please use \"c2s\" OR \"s2c\"!");
    assert_eq!(LookupError::PacketNotFound.message(), "No such packet!");
}
