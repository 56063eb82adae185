use worm_team::decode::decode_team;
use worm_team::json::team_to_json;
use worm_team::team::{Team, TeamType, Worm};

fn worm(name: &[u8], played: u16, kills_for: u16) -> Worm {
    Worm { name: name.to_vec(), played, kills_for }
}

fn team_with(team_type: TeamType, worms: Vec<Worm>) -> Team {
    Team {
        team_type,
        worm_health: 100,
        played: 5,
        won: 3,
        kills_for: 10,
        kills_against: 2,
        worms,
    }
}

fn json_text(t: &Team) -> String {
    String::from_utf8(team_to_json(t)).unwrap()
}

#[test]
fn human_team_renders_with_empty_roster() {
    let t = team_with(TeamType::Human, (0..8).map(|_| worm(b"", 0, 0)).collect());
    let expected = "{\n  \"team_type\": {\n    \"type\": \"Human\"\n  },\n  \"worm_health\": 100,\n  \"played\": 5,\n  \"won\": 3,\n  \"kills_for\": 10,\n  \"kills_against\": 2,\n  \"worms\": []\n}";
    assert_eq!(json_text(&t), expected);
}

#[test]
fn decode_then_render_round_trip() {
    // The hand-built buffer from the format description: a Human team,
    // worm_health 100, played 5, won 3, kills 10 for and 2 against, and
    // eight unused slots.
    let mut buf = Vec::new();
    buf.extend_from_slice(b"WRM2TEAM");
    buf.extend_from_slice(&[0, 0]);
    for v in [100u16, 5, 3, 10, 2] {
        buf.extend_from_slice(&v.to_be_bytes());
    }
    for _ in 0..8 {
        buf.extend_from_slice(&[0, 0, 0, 0, 0]);
    }
    let team = decode_team(&buf).unwrap();
    let text = json_text(&team);
    assert!(text.contains("\"worms\": []"));
    assert!(text.contains("\"worm_health\": 100"));
}

#[test]
fn cpu_team_renders_level() {
    let t = team_with(TeamType::Cpu { level: 4 }, (0..8).map(|_| worm(b"", 0, 0)).collect());
    let text = json_text(&t);
    assert!(text.contains("{\n    \"type\": \"Cpu\",\n    \"level\": 4\n  }"));
}

#[test]
fn decoded_cpu_discriminant_renders_level_four() {
    // Discriminant 0x0001 followed by raw level 0x0005 comes out as level 4.
    let mut buf = Vec::new();
    buf.extend_from_slice(b"WRM2TEAM");
    buf.extend_from_slice(&[0, 1, 0, 5]);
    for v in [1u16, 1, 1, 1, 1] {
        buf.extend_from_slice(&v.to_be_bytes());
    }
    for _ in 0..8 {
        buf.extend_from_slice(&[0, 0, 0, 0, 0]);
    }
    let team = decode_team(&buf).unwrap();
    assert_eq!(team.team_type, TeamType::Cpu { level: 4 });
    assert!(json_text(&team).contains("\"level\": 4"));
}

#[test]
fn roster_keeps_only_named_slots_in_order() {
    let mut worms = vec![worm(b"", 0, 0); 8];
    worms[1] = worm(b"Alpha", 1, 2);
    worms[4] = worm(b"Beta", 3, 4);
    worms[6] = worm(b"Gamma", 5, 6);
    let t = team_with(TeamType::Human, worms);
    let text = json_text(&t);
    let a = text.find("Alpha").unwrap();
    let b = text.find("Beta").unwrap();
    let g = text.find("Gamma").unwrap();
    assert!(a < b && b < g);
    assert!(!text.contains("\"name\": \"\""));
}

#[test]
fn single_entry_roster_renders_fully() {
    let mut worms = vec![worm(b"", 0, 0); 8];
    worms[0] = worm(b"Rex", 12, 4);
    let t = team_with(TeamType::Human, worms);
    let expected_array = "\"worms\": [\n    {\n      \"name\": \"Rex\",\n      \"played\": 12,\n      \"kills_for\": 4\n    }\n  ]\n}";
    assert!(json_text(&t).ends_with(expected_array));
}

#[test]
fn two_entries_are_comma_separated() {
    let mut worms = vec![worm(b"", 0, 0); 8];
    worms[0] = worm(b"One", 1, 1);
    worms[1] = worm(b"Two", 2, 2);
    let text = json_text(&team_with(TeamType::Human, worms));
    assert!(text.contains("\n    },\n    {\n"));
}

#[test]
fn names_are_escaped() {
    let mut worms = vec![worm(b"", 0, 0); 8];
    worms[0] = worm(b"a\"b\\c", 0, 0);
    worms[1] = worm(b"tab\there", 0, 0);
    worms[2] = worm(&[b'x', 0x1F, b'y'], 0, 0);
    let text = json_text(&team_with(TeamType::Human, worms));
    assert!(text.contains("\"name\": \"a\\\"b\\\\c\""));
    assert!(text.contains("\"name\": \"tab\\there\""));
    assert!(text.contains("\"name\": \"x\\u001fy\""));
}

#[test]
fn multibyte_name_passes_through() {
    let mut worms = vec![worm(b"", 0, 0); 8];
    worms[0] = worm("Wörm".as_bytes(), 0, 0);
    let text = json_text(&team_with(TeamType::Human, worms));
    assert!(text.contains("\"name\": \"Wörm\""));
}

#[test]
fn counter_extremes_render_in_decimal() {
    let mut worms = vec![worm(b"", 0, 0); 8];
    worms[0] = worm(b"Max", 65535, 0);
    let mut t = team_with(TeamType::Human, worms);
    t.worm_health = 0;
    t.kills_against = 65535;
    let text = json_text(&t);
    assert!(text.contains("\"worm_health\": 0,"));
    assert!(text.contains("\"kills_against\": 65535,"));
    assert!(text.contains("\"played\": 65535,"));
}
