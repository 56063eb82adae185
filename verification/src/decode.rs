//! The binary decoder: the byte-level grammar as spec functions, and the
//! executable decoder proved against it.

use vstd::prelude::*;
use vstd::utf8::valid_utf8;

use crate::team::{SpecTeam, SpecWorm, Team, TeamType, Worm};
use crate::team::worms_view;

verus! {

/// Why a decode failed.
///
/// - `Truncated`: the buffer ends before a fixed-width field (or the
///   padding byte after an odd-length name) could be read.
/// - `BadMagic`: the buffer holds at least 8 bytes but does not begin
///   with the magic signature.
/// - `UnterminatedName`: a name field has no NUL terminator before the
///   end of the buffer.
/// - `InvalidUtf8`: a name's bytes are not valid UTF-8.
/// - `CpuLevelZero`: a `Cpu` team's raw on-disk level is 0, so the
///   stored `level` (one less than the raw value) would underflow; the
///   decoder rejects such input rather than wrap.
#[derive(Debug, Clone, Copy, PartialEq, Eq, Structural)]
pub enum DecodeError {
    Truncated,
    BadMagic,
    UnterminatedName,
    InvalidUtf8,
    CpuLevelZero,
}

/// The 8-byte magic signature `WRM2TEAM`.
pub open spec fn spec_magic() -> Seq<u8> {
    seq![
        'W' as u8,
        'R' as u8,
        'M' as u8,
        '2' as u8,
        'T' as u8,
        'E' as u8,
        'A' as u8,
        'M' as u8,
    ]
}

/// A 16-bit big-endian integer at position `i`, with the position after it.
pub open spec fn spec_read_u16(s: Seq<u8>, i: int) -> Option<(u16, int)> {
    if 0 <= i && i + 2 <= s.len() {
        Some((((s[i] as u16) * 256 + s[i + 1] as u16) as u16, i + 2))
    } else {
        None
    }
}

/// The position of the first NUL byte at or after `i`, if any.
pub open spec fn spec_find_nul(s: Seq<u8>, i: int) -> Option<int>
    decreases s.len() - i,
    when 0 <= i <= s.len()
{
    if i >= s.len() {
        None
    } else if s[i] == 0 {
        Some(i)
    } else {
        spec_find_nul(s, i + 1)
    }
}

/// The team-type field at position `i`: a 16-bit big-endian discriminant,
/// 0 for `Human` (nothing more is read), anything else for `Cpu`, whose
/// stored level is one less than the raw 16-bit value that follows.
/// A raw level of 0 would underflow and is rejected as `CpuLevelZero`.
pub open spec fn spec_decode_team_type(s: Seq<u8>, i: int) -> Result<(TeamType, int), DecodeError> {
    match spec_read_u16(s, i) {
        None => Err(DecodeError::Truncated),
        Some((tag, j)) => if tag == 0 {
            Ok((TeamType::Human, j))
        } else {
            match spec_read_u16(s, j) {
                None => Err(DecodeError::Truncated),
                Some((raw, k)) => if raw == 0 {
                    Err(DecodeError::CpuLevelZero)
                } else {
                    Ok((TeamType::Cpu { level: (raw - 1) as u16 }, k))
                },
            }
        },
    }
}

/// One roster record at position `i`: the name's bytes up to and excluding
/// the first NUL (the NUL itself is consumed), one discarded padding byte
/// when the name length is odd, then two 16-bit big-endian counters.
pub open spec fn spec_decode_worm(s: Seq<u8>, i: int) -> Result<(SpecWorm, int), DecodeError>
    recommends
        0 <= i <= s.len(),
{
    match spec_find_nul(s, i) {
        None => Err(DecodeError::UnterminatedName),
        Some(j) => {
            let name = s.subrange(i, j);
            if !valid_utf8(name) {
                Err(DecodeError::InvalidUtf8)
            } else {
                let p = j + 1 + if name.len() % 2 == 1 { 1int } else { 0int };
                match spec_read_u16(s, p) {
                    None => Err(DecodeError::Truncated),
                    Some((played, q)) => match spec_read_u16(s, q) {
                        None => Err(DecodeError::Truncated),
                        Some((kills_for, r)) => Ok((SpecWorm { name, played, kills_for }, r)),
                    },
                }
            }
        },
    }
}

/// `n` consecutive roster records starting at position `i`.
pub open spec fn spec_decode_worms(s: Seq<u8>, i: int, n: nat) -> Result<
    (Seq<SpecWorm>, int),
    DecodeError,
>
    decreases n,
{
    if n == 0 {
        Ok((seq![], i))
    } else {
        match spec_decode_worm(s, i) {
            Err(e) => Err(e),
            Ok((w, j)) => match spec_decode_worms(s, j, (n - 1) as nat) {
                Err(e) => Err(e),
                Ok((ws, k)) => Ok((seq![w] + ws, k)),
            },
        }
    }
}

/// A whole team: the magic signature, the team type, five 16-bit
/// big-endian counters (`worm_health`, `played`, `won`, `kills_for`,
/// `kills_against`), then exactly eight roster records. Bytes after the
/// eighth record are ignored.
pub open spec fn spec_decode_team(s: Seq<u8>) -> Result<SpecTeam, DecodeError> {
    if s.len() < 8 {
        Err(DecodeError::Truncated)
    } else if s.subrange(0, 8) != spec_magic() {
        Err(DecodeError::BadMagic)
    } else {
        match spec_decode_team_type(s, 8) {
            Err(e) => Err(e),
            Ok((team_type, i0)) => match spec_read_u16(s, i0) {
                None => Err(DecodeError::Truncated),
                Some((worm_health, i1)) => match spec_read_u16(s, i1) {
                    None => Err(DecodeError::Truncated),
                    Some((played, i2)) => match spec_read_u16(s, i2) {
                        None => Err(DecodeError::Truncated),
                        Some((won, i3)) => match spec_read_u16(s, i3) {
                            None => Err(DecodeError::Truncated),
                            Some((kills_for, i4)) => match spec_read_u16(s, i4) {
                                None => Err(DecodeError::Truncated),
                                Some((kills_against, i5)) => match spec_decode_worms(s, i5, 8) {
                                    Err(e) => Err(e),
                                    Ok((worms, _end)) => Ok(
                                        SpecTeam {
                                            team_type,
                                            worm_health,
                                            played,
                                            won,
                                            kills_for,
                                            kills_against,
                                            worms,
                                        },
                                    ),
                                },
                            },
                        },
                    },
                },
            },
        }
    }
}

/// What a found NUL position means: it is in range, it is the first NUL
/// at or after `i`, and everything before it is non-NUL.
pub proof fn lemma_find_nul_props(s: Seq<u8>, i: int)
    requires
        0 <= i <= s.len(),
        spec_find_nul(s, i) is Some,
    ensures
        spec_find_nul(s, i) matches Some(j) ==> {
            &&& i <= j < s.len()
            &&& s[j] == 0
            &&& forall|m: int| i <= m < j ==> s[m] != 0
        },
    decreases s.len() - i,
{
    if i < s.len() && s[i] != 0 {
        lemma_find_nul_props(s, i + 1);
    }
}

/// Relies on `str::from_utf8` from std: it returns `Ok` exactly when the
/// bytes form valid UTF-8, which vstd's `valid_utf8` states.
#[verifier::external_body]
fn is_utf8(bytes: &Vec<u8>) -> (r: bool)
    ensures
        r == valid_utf8(bytes@),
{
    std::str::from_utf8(bytes.as_slice()).is_ok()
}

/// Reads a 16-bit big-endian integer at `pos`, as `spec_read_u16` says.
fn read_u16_be(buf: &Vec<u8>, pos: usize) -> (r: Option<(u16, usize)>)
    ensures
        match r {
            Some((v, end)) => spec_read_u16(buf@, pos as int) == Some((v, end as int)),
            None => spec_read_u16(buf@, pos as int) is None,
        },
{
    if pos < buf.len() && buf.len() - pos >= 2 {
        let v = (buf[pos] as u16) * 256 + buf[pos + 1] as u16;
        Some((v, pos + 2))
    } else {
        None
    }
}

/// Finds the first NUL byte at or after `pos`, as `spec_find_nul` says.
fn find_nul(buf: &Vec<u8>, pos: usize) -> (r: Option<usize>)
    requires
        pos <= buf.len(),
    ensures
        match r {
            Some(j) => spec_find_nul(buf@, pos as int) == Some(j as int),
            None => spec_find_nul(buf@, pos as int) is None,
        },
{
    let mut k = pos;
    while k < buf.len()
        invariant
            pos <= k <= buf.len(),
            spec_find_nul(buf@, pos as int) == spec_find_nul(buf@, k as int),
        decreases buf.len() - k,
    {
        if buf[k] == 0 {
            return Some(k);
        }
        k = k + 1;
    }
    None
}

/// Decodes the team-type field at `pos`, as `spec_decode_team_type` says.
fn decode_team_type(buf: &Vec<u8>, pos: usize) -> (r: Result<(TeamType, usize), DecodeError>)
    ensures
        match r {
            Ok((t, end)) => spec_decode_team_type(buf@, pos as int) == Ok::<_, DecodeError>(
                (t, end as int),
            ),
            Err(e) => spec_decode_team_type(buf@, pos as int) == Err::<(TeamType, int), _>(e),
        },
{
    match read_u16_be(buf, pos) {
        None => Err(DecodeError::Truncated),
        Some((tag, j)) => if tag == 0 {
            Ok((TeamType::Human, j))
        } else {
            match read_u16_be(buf, j) {
                None => Err(DecodeError::Truncated),
                Some((raw, k)) => if raw == 0 {
                    Err(DecodeError::CpuLevelZero)
                } else {
                    Ok((TeamType::Cpu { level: raw - 1 }, k))
                },
            }
        },
    }
}

/// Decodes one roster record at `pos`, as `spec_decode_worm` says.
fn decode_worm(buf: &Vec<u8>, pos: usize) -> (r: Result<(Worm, usize), DecodeError>)
    requires
        pos <= buf.len(),
    ensures
        match r {
            Ok((w, end)) => {
                &&& spec_decode_worm(buf@, pos as int) matches Ok(p)
                &&& p == (w@, end as int)
                &&& valid_utf8(w@.name)
                &&& pos <= end <= buf.len()
            },
            Err(e) => spec_decode_worm(buf@, pos as int) == Err::<(SpecWorm, int), _>(e),
        },
{
    let j = match find_nul(buf, pos) {
        None => {
            return Err(DecodeError::UnterminatedName);
        },
        Some(j) => j,
    };
    proof {
        lemma_find_nul_props(buf@, pos as int);
    }
    let mut name: Vec<u8> = Vec::new();
    let mut k = pos;
    while k < j
        invariant
            pos <= k <= j < buf.len(),
            name@ == buf@.subrange(pos as int, k as int),
        decreases j - k,
    {
        name.push(buf[k]);
        proof {
            assert(name@ =~= buf@.subrange(pos as int, k + 1 as int));
        }
        k = k + 1;
    }
    if !is_utf8(&name) {
        return Err(DecodeError::InvalidUtf8);
    }
    let after_nul = j + 1;
    let start = if name.len() % 2 == 1 {
        if after_nul == buf.len() {
            return Err(DecodeError::Truncated);
        }
        after_nul + 1
    } else {
        after_nul
    };
    let (played, q) = match read_u16_be(buf, start) {
        None => {
            return Err(DecodeError::Truncated);
        },
        Some(p) => p,
    };
    let (kills_for, end) = match read_u16_be(buf, q) {
        None => {
            return Err(DecodeError::Truncated);
        },
        Some(p) => p,
    };
    Ok((Worm { name, played, kills_for }, end))
}

/// A buffer whose first 8 bytes are present but differ from the magic
/// signature always fails with `BadMagic`, before any field is read.
pub proof fn lemma_bad_magic(s: Seq<u8>)
    requires
        s.len() >= 8,
        s.subrange(0, 8) != spec_magic(),
    ensures
        spec_decode_team(s) == Err::<SpecTeam, DecodeError>(DecodeError::BadMagic),
{
}

/// A zero discriminant yields `Human` and consumes nothing beyond the
/// discriminant itself; a nonzero discriminant yields `Cpu` whose level
/// is one less than the raw value that follows. (A raw value of 0 is
/// rejected as `CpuLevelZero` rather than allowed to underflow.)
pub proof fn lemma_team_type_decode(s: Seq<u8>, i: int)
    ensures
        spec_read_u16(s, i) matches Some(p) ==> {
            &&& p.0 == 0 ==> spec_decode_team_type(s, i) == Ok::<(TeamType, int), DecodeError>(
                (TeamType::Human, p.1),
            )
            &&& p.0 != 0 ==> (spec_read_u16(s, p.1) matches Some(q) ==> (q.0 != 0
                ==> spec_decode_team_type(s, i) == Ok::<(TeamType, int), DecodeError>(
                (TeamType::Cpu { level: (q.0 - 1) as u16 }, q.1),
            )))
        },
{
}

/// The padding rule: a successfully decoded record's name is exactly the
/// bytes before the first NUL (the padding byte never appears in it),
/// and the record ends five bytes after the name when the name length is
/// even (NUL plus two counters), six when it is odd (one padding byte
/// more).
pub proof fn lemma_name_padding(s: Seq<u8>, i: int, w: SpecWorm, end: int)
    requires
        0 <= i <= s.len(),
        spec_decode_worm(s, i) == Ok::<(SpecWorm, int), DecodeError>((w, end)),
    ensures
        spec_find_nul(s, i) == Some(i + w.name.len()),
        w.name == s.subrange(i, i + w.name.len()),
        w.name.len() % 2 == 0 ==> end == i + w.name.len() + 5,
        w.name.len() % 2 == 1 ==> end == i + w.name.len() + 6,
{
    match spec_find_nul(s, i) {
        None => {
            assert(false);
        },
        Some(j) => {
            lemma_find_nul_props(s, i);
            assert(w.name == s.subrange(i, j));
            assert(w.name.len() == j - i);
        },
    }
}

proof fn lemma_worms_wf(s: Seq<u8>, i: int, n: nat)
    ensures
        spec_decode_worms(s, i, n) matches Ok(p) ==> {
            &&& p.0.len() == n
            &&& forall|m: int| 0 <= m < p.0.len() ==> valid_utf8(#[trigger] p.0[m].name)
        },
    decreases n,
{
    if n > 0 {
        match spec_decode_worm(s, i) {
            Ok((w, j)) => {
                lemma_worms_wf(s, j, (n - 1) as nat);
                match spec_decode_worms(s, j, (n - 1) as nat) {
                    Ok((ws, _k)) => {
                        assert forall|m: int| 0 <= m < (seq![w] + ws).len() implies valid_utf8(
                            #[trigger] (seq![w] + ws)[m].name,
                        ) by {
                            if m > 0 {
                                assert((seq![w] + ws)[m] == ws[m - 1]);
                            }
                        }
                    },
                    Err(_) => {},
                }
            },
            Err(_) => {},
        }
    }
}

/// Decoding followed by rendering never fails: a buffer that decodes at
/// all yields a well-formed team — exactly eight roster slots, every
/// name valid UTF-8 — and the renderer accepts every team, so the
/// document `spec_team_json` gives for the decoded value always exists.
pub proof fn lemma_decode_team_wf(s: Seq<u8>)
    ensures
        spec_decode_team(s) matches Ok(t) ==> t.wf(),
{
    if s.len() >= 8 && s.subrange(0, 8) == spec_magic() {
        match spec_decode_team_type(s, 8) {
            Ok((_tt, i0)) => match spec_read_u16(s, i0) {
                Some((_a, i1)) => match spec_read_u16(s, i1) {
                    Some((_b, i2)) => match spec_read_u16(s, i2) {
                        Some((_c, i3)) => match spec_read_u16(s, i3) {
                            Some((_d, i4)) => match spec_read_u16(s, i4) {
                                Some((_e, i5)) => {
                                    lemma_worms_wf(s, i5, 8);
                                },
                                None => {},
                            },
                            None => {},
                        },
                        None => {},
                    },
                    None => {},
                },
                None => {},
            },
            Err(_) => {},
        }
    }
}

/// Prepends already-decoded records to the outcome of decoding the rest.
spec fn glue(acc: Seq<SpecWorm>, r: Result<(Seq<SpecWorm>, int), DecodeError>) -> Result<
    (Seq<SpecWorm>, int),
    DecodeError,
> {
    match r {
        Ok((ws, k)) => Ok((acc + ws, k)),
        Err(e) => Err(e),
    }
}

proof fn lemma_glue_empty(r: Result<(Seq<SpecWorm>, int), DecodeError>)
    ensures
        glue(Seq::empty(), r) == r,
{
    match r {
        Ok((ws, k)) => {
            assert(Seq::empty() + ws =~= ws);
        },
        Err(_) => {},
    }
}

proof fn lemma_glue_glue(
    a: Seq<SpecWorm>,
    b: Seq<SpecWorm>,
    r: Result<(Seq<SpecWorm>, int), DecodeError>,
)
    ensures
        glue(a, glue(b, r)) == glue(a + b, r),
{
    match r {
        Ok((ws, k)) => {
            assert(a + (b + ws) =~= (a + b) + ws);
        },
        Err(_) => {},
    }
}

proof fn lemma_worms_step(s: Seq<u8>, i: int, n: nat, w: SpecWorm, j: int)
    requires
        n > 0,
        spec_decode_worm(s, i) == Ok::<(SpecWorm, int), DecodeError>((w, j)),
    ensures
        spec_decode_worms(s, i, n) == glue(seq![w], spec_decode_worms(s, j, (n - 1) as nat)),
{
    match spec_decode_worms(s, j, (n - 1) as nat) {
        Ok((ws, k)) => {},
        Err(_) => {},
    }
}

/// Decodes `count` consecutive roster records starting at `pos`, as
/// `spec_decode_worms` says.
fn decode_worms(buf: &Vec<u8>, pos: usize, count: usize) -> (r: Result<
    (Vec<Worm>, usize),
    DecodeError,
>)
    requires
        pos <= buf.len(),
    ensures
        match r {
            Ok((ws, end)) => {
                &&& spec_decode_worms(buf@, pos as int, count as nat) == Ok::<_, DecodeError>(
                    (worms_view(ws@), end as int),
                )
                &&& ws@.len() == count
                &&& end <= buf.len()
                &&& forall|m: int| 0 <= m < ws@.len() ==> valid_utf8(#[trigger] ws@[m]@.name)
            },
            Err(e) => spec_decode_worms(buf@, pos as int, count as nat) == Err::<
                (Seq<SpecWorm>, int),
                _,
            >(e),
        },
{
    let mut worms: Vec<Worm> = Vec::new();
    let mut posn = pos;
    let mut cnt: usize = 0;
    proof {
        assert(worms_view(worms@) =~= Seq::<SpecWorm>::empty());
        lemma_glue_empty(spec_decode_worms(buf@, pos as int, count as nat));
    }
    while cnt < count
        invariant
            pos <= posn <= buf.len(),
            cnt <= count,
            worms@.len() == cnt,
            forall|m: int| 0 <= m < worms@.len() ==> valid_utf8(#[trigger] worms@[m]@.name),
            spec_decode_worms(buf@, pos as int, count as nat) == glue(
                worms_view(worms@),
                spec_decode_worms(buf@, posn as int, (count - cnt) as nat),
            ),
        decreases count - cnt,
    {
        match decode_worm(buf, posn) {
            Err(e) => {
                return Err(e);
            },
            Ok((w, end)) => {
                proof {
                    lemma_worms_step(
                        buf@,
                        posn as int,
                        (count - cnt) as nat,
                        w@,
                        end as int,
                    );
                    lemma_glue_glue(
                        worms_view(worms@),
                        seq![w@],
                        spec_decode_worms(buf@, end as int, (count - cnt - 1) as nat),
                    );
                    assert(worms_view(worms@) + seq![w@] =~= worms_view(worms@.push(w)));
                }
                worms.push(w);
                posn = end;
                cnt = cnt + 1;
            },
        }
    }
    proof {
        assert(worms_view(worms@) + Seq::<SpecWorm>::empty() =~= worms_view(worms@));
    }
    Ok((worms, posn))
}

/// Decodes a whole team from the buffer, as `spec_decode_team` says.
///
/// On success the returned team's value is exactly what the grammar
/// gives for this buffer, and it is well-formed: eight roster slots,
/// every name valid UTF-8. On failure the error is exactly the one the
/// grammar gives, and no partial team is produced.
pub fn decode_team(buf: &Vec<u8>) -> (r: Result<Team, DecodeError>)
    ensures
        match r {
            Ok(t) => {
                &&& spec_decode_team(buf@) matches Ok(st)
                &&& t@ == st
                &&& t@.wf()
            },
            Err(e) => spec_decode_team(buf@) == Err::<SpecTeam, DecodeError>(e),
        },
{
    if buf.len() < 8 {
        return Err(DecodeError::Truncated);
    }
    let magic_ok = buf[0] == 'W' as u8 && buf[1] == 'R' as u8 && buf[2] == 'M' as u8 && buf[3]
        == '2' as u8 && buf[4] == 'T' as u8 && buf[5] == 'E' as u8 && buf[6] == 'A' as u8 && buf[7]
        == 'M' as u8;
    if !magic_ok {
        proof {
            let sub = buf@.subrange(0, 8);
            assert(sub[0] == buf@[0] && sub[1] == buf@[1] && sub[2] == buf@[2] && sub[3] == buf@[3]
                && sub[4] == buf@[4] && sub[5] == buf@[5] && sub[6] == buf@[6] && sub[7]
                == buf@[7]);
            assert(sub != spec_magic());
        }
        return Err(DecodeError::BadMagic);
    }
    proof {
        assert(buf@.subrange(0, 8) =~= spec_magic());
    }
    let (team_type, i0) = match decode_team_type(buf, 8) {
        Err(e) => {
            return Err(e);
        },
        Ok(p) => p,
    };
    let (worm_health, i1) = match read_u16_be(buf, i0) {
        None => {
            return Err(DecodeError::Truncated);
        },
        Some(p) => p,
    };
    let (played, i2) = match read_u16_be(buf, i1) {
        None => {
            return Err(DecodeError::Truncated);
        },
        Some(p) => p,
    };
    let (won, i3) = match read_u16_be(buf, i2) {
        None => {
            return Err(DecodeError::Truncated);
        },
        Some(p) => p,
    };
    let (kills_for, i4) = match read_u16_be(buf, i3) {
        None => {
            return Err(DecodeError::Truncated);
        },
        Some(p) => p,
    };
    let (kills_against, i5) = match read_u16_be(buf, i4) {
        None => {
            return Err(DecodeError::Truncated);
        },
        Some(p) => p,
    };
    let (worms, _end) = match decode_worms(buf, i5, 8) {
        Err(e) => {
            return Err(e);
        },
        Ok(p) => p,
    };
    let team = Team { team_type, worm_health, played, won, kills_for, kills_against, worms };
    proof {
        assert(spec_decode_team(buf@) matches Ok(st) && team@ =~= st);
        assert forall|i: int| 0 <= i < team@.worms.len() implies valid_utf8(
            #[trigger] team@.worms[i].name,
        ) by {
            assert(team@.worms[i] == team.worms@[i]@);
        }
    }
    Ok(team)
}

} // verus!
