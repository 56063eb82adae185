use worm_team::decode::{decode_team, DecodeError};
use worm_team::team::TeamType;

fn team_buf(team_type: &[u8], stats: [u16; 5], worms: &[Vec<u8>]) -> Vec<u8> {
    let mut b = Vec::new();
    b.extend_from_slice(b"WRM2TEAM");
    b.extend_from_slice(team_type);
    for s in stats.iter() {
        b.extend_from_slice(&s.to_be_bytes());
    }
    for w in worms.iter() {
        b.extend_from_slice(w);
    }
    b
}

fn worm_rec(name: &[u8], pad: bool, played: u16, kills_for: u16) -> Vec<u8> {
    let mut b = Vec::new();
    b.extend_from_slice(name);
    b.push(0);
    if pad {
        b.push(0xAA);
    }
    b.extend_from_slice(&played.to_be_bytes());
    b.extend_from_slice(&kills_for.to_be_bytes());
    b
}

fn empty_worm() -> Vec<u8> {
    worm_rec(b"", false, 0, 0)
}

fn eight_empty_worms() -> Vec<Vec<u8>> {
    (0..8).map(|_| empty_worm()).collect()
}

#[test]
fn human_team_with_empty_roster() {
    let buf = team_buf(&[0, 0], [100, 5, 3, 10, 2], &eight_empty_worms());
    let team = decode_team(&buf).unwrap();
    assert_eq!(team.team_type, TeamType::Human);
    assert_eq!(team.worm_health, 100);
    assert_eq!(team.played, 5);
    assert_eq!(team.won, 3);
    assert_eq!(team.kills_for, 10);
    assert_eq!(team.kills_against, 2);
    assert_eq!(team.worms.len(), 8);
    for w in team.worms.iter() {
        assert_eq!(w.name, Vec::<u8>::new());
        assert_eq!(w.played, 0);
        assert_eq!(w.kills_for, 0);
    }
}

#[test]
fn bad_magic_fails() {
    let worms = eight_empty_worms();
    let mut buf = team_buf(&[0, 0], [1, 2, 3, 4, 5], &worms);
    buf[3] = b'3';
    assert!(matches!(decode_team(&buf), Err(DecodeError::BadMagic)));
    // Even with everything after the signature missing, the magic check
    // comes first.
    let short = b"XXXXXXXX".to_vec();
    assert!(matches!(decode_team(&short), Err(DecodeError::BadMagic)));
}

#[test]
fn short_buffer_is_truncated() {
    assert!(matches!(decode_team(&b"WRM".to_vec()), Err(DecodeError::Truncated)));
    assert!(matches!(decode_team(&Vec::new()), Err(DecodeError::Truncated)));
    // Magic alone, with no team-type field behind it.
    assert!(matches!(decode_team(&b"WRM2TEAM".to_vec()), Err(DecodeError::Truncated)));
}

#[test]
fn odd_name_consumes_one_padding_byte() {
    let mut worms = vec![worm_rec(b"Rex", true, 12, 4)];
    worms.extend((0..7).map(|_| empty_worm()));
    let buf = team_buf(&[0, 0], [50, 1, 1, 1, 1], &worms);
    let team = decode_team(&buf).unwrap();
    assert_eq!(team.worms[0].name, b"Rex".to_vec());
    assert_eq!(team.worms[0].played, 12);
    assert_eq!(team.worms[0].kills_for, 4);
    // Without the padding byte after the odd-length name, the counters
    // shift and the record no longer lines up.
    let mut bad = vec![worm_rec(b"Rex", false, 12, 4)];
    bad.extend((0..7).map(|_| empty_worm()));
    let buf2 = team_buf(&[0, 0], [50, 1, 1, 1, 1], &bad);
    assert_ne!(
        decode_team(&buf2).map(|t| (t.worms[0].played, t.worms[0].kills_for)),
        Ok((12, 4))
    );
}

#[test]
fn even_name_consumes_no_padding_byte() {
    let mut worms = vec![worm_rec(b"Bo", false, 7, 9)];
    worms.extend((0..7).map(|_| empty_worm()));
    let buf = team_buf(&[0, 0], [50, 1, 1, 1, 1], &worms);
    let team = decode_team(&buf).unwrap();
    assert_eq!(team.worms[0].name, b"Bo".to_vec());
    assert_eq!(team.worms[0].played, 7);
    assert_eq!(team.worms[0].kills_for, 9);
}

#[test]
fn cpu_level_is_one_less_than_raw() {
    let buf = team_buf(&[0, 1, 0, 5], [1, 1, 1, 1, 1], &eight_empty_worms());
    let team = decode_team(&buf).unwrap();
    assert_eq!(team.team_type, TeamType::Cpu { level: 4 });
}

#[test]
fn any_nonzero_discriminant_is_cpu() {
    let buf = team_buf(&[0x7F, 0xFF, 0, 1], [1, 1, 1, 1, 1], &eight_empty_worms());
    let team = decode_team(&buf).unwrap();
    assert_eq!(team.team_type, TeamType::Cpu { level: 0 });
}

#[test]
fn cpu_raw_level_zero_is_rejected() {
    let buf = team_buf(&[0, 1, 0, 0], [1, 1, 1, 1, 1], &eight_empty_worms());
    assert!(matches!(decode_team(&buf), Err(DecodeError::CpuLevelZero)));
}

#[test]
fn name_without_terminator_fails() {
    let mut worms = eight_empty_worms();
    // The last record's name runs to the end of the buffer without a NUL.
    worms[7] = b"NoEnd".to_vec();
    let buf = team_buf(&[0, 0], [1, 1, 1, 1, 1], &worms);
    assert!(matches!(decode_team(&buf), Err(DecodeError::UnterminatedName)));
}

#[test]
fn invalid_utf8_name_fails() {
    let mut worms = vec![worm_rec(&[0xFF, 0xFE], false, 1, 1)];
    worms.extend((0..7).map(|_| empty_worm()));
    let buf = team_buf(&[0, 0], [1, 1, 1, 1, 1], &worms);
    assert!(matches!(decode_team(&buf), Err(DecodeError::InvalidUtf8)));
}

#[test]
fn multibyte_utf8_name_is_kept() {
    let mut worms = vec![worm_rec("Wörm".as_bytes(), true, 2, 3)];
    worms.extend((0..7).map(|_| empty_worm()));
    let buf = team_buf(&[0, 0], [1, 1, 1, 1, 1], &worms);
    let team = decode_team(&buf).unwrap();
    assert_eq!(team.worms[0].name, "Wörm".as_bytes().to_vec());
}

#[test]
fn truncated_inside_roster_fails() {
    let mut worms = eight_empty_worms();
    worms[7] = worm_rec(b"", false, 0, 0)[..3].to_vec();
    let buf = team_buf(&[0, 0], [1, 1, 1, 1, 1], &worms);
    assert!(matches!(decode_team(&buf), Err(DecodeError::Truncated)));
}

#[test]
fn only_seven_records_fails() {
    let worms: Vec<Vec<u8>> = (0..7).map(|_| empty_worm()).collect();
    let buf = team_buf(&[0, 0], [1, 1, 1, 1, 1], &worms);
    assert!(matches!(decode_team(&buf), Err(DecodeError::UnterminatedName)));
}

#[test]
fn trailing_bytes_are_ignored() {
    let mut buf = team_buf(&[0, 0], [9, 8, 7, 6, 5], &eight_empty_worms());
    buf.extend_from_slice(b"extra");
    let team = decode_team(&buf).unwrap();
    assert_eq!(team.worm_health, 9);
    assert_eq!(team.worms.len(), 8);
}
