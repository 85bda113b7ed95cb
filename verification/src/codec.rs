//! The binary wire format: a tag byte selects each enum variant, integers are
//! little-endian and fixed-width, strings and byte blobs are length-prefixed,
//! and sequences are a count followed by the elements. The spec encoders and
//! decoders below define the format; the lemmas prove that decoding undoes
//! encoding, which is what the envelope round-trip rests on.
use vstd::prelude::*;
use vstd::utf8::*;
use vstd::slice::slice_to_vec;
use vstd::string::StrSliceExecFns;
use vstd::string::StringSliceAdditionalSpecFns;
use crate::messages::Auth;
use crate::messages::AuthMessage;
use crate::messages::AuthorizationCode;
use crate::messages::BotInfo;
use crate::messages::ClientRequest;
use crate::messages::Duration;
use crate::messages::Message;
use crate::messages::PatchError;
use crate::messages::PlayMode;
use crate::messages::PlayerControl;
use crate::messages::PlayerControlResult;
use crate::messages::PlayerState;
use crate::messages::RefreshToken;
use crate::messages::State;
use crate::messages::Track;
use crate::messages::Unexpected;
use crate::messages::User;
use crate::messages::VoiceState;
use crate::messages::view_tracks;
use crate::messages::SpecAuth;
use crate::messages::SpecAuthMessage;
use crate::messages::SpecBotInfo;
use crate::messages::SpecClientRequest;
use crate::messages::SpecMessage;
use crate::messages::SpecPlayerControl;
use crate::messages::SpecPlayerControlResult;
use crate::messages::SpecPlayerState;
use crate::messages::SpecState;
use crate::messages::SpecTrack;
use crate::messages::SpecUnexpected;
use crate::messages::SpecUser;
use crate::messages::SpecVoiceState;

verus! {

// ---------------------------------------------------------------------------
// Primitives.
// ---------------------------------------------------------------------------

pub open spec fn enc_u8(v: u8) -> Seq<u8> {
    seq![v]
}

pub open spec fn dec_u8(b: Seq<u8>) -> Option<(u8, Seq<u8>)> {
    if b.len() >= 1 {
        Some((b[0], b.skip(1)))
    } else {
        None
    }
}

pub proof fn lemma_enc_u8(v: u8, rest: Seq<u8>)
    ensures
        dec_u8(enc_u8(v) + rest) == Some((v, rest)),
{
    assert((enc_u8(v) + rest).skip(1) =~= rest);
    assert((enc_u8(v) + rest)[0] == v);
}

pub open spec fn u32_le(b0: u8, b1: u8, b2: u8, b3: u8) -> u32 {
    (b0 as u32) | ((b1 as u32) << 8) | ((b2 as u32) << 16) | ((b3 as u32) << 24)
}

pub open spec fn enc_u32(v: u32) -> Seq<u8> {
    seq![
        (v & 0xff) as u8,
        ((v >> 8) & 0xff) as u8,
        ((v >> 16) & 0xff) as u8,
        ((v >> 24) & 0xff) as u8,
    ]
}

pub open spec fn dec_u32(b: Seq<u8>) -> Option<(u32, Seq<u8>)> {
    if b.len() >= 4 {
        Some((u32_le(b[0], b[1], b[2], b[3]), b.skip(4)))
    } else {
        None
    }
}

pub proof fn lemma_enc_u32(v: u32, rest: Seq<u8>)
    ensures
        dec_u32(enc_u32(v) + rest) == Some((v, rest)),
{
    assert(((v & 0xff) as u8 as u32) | (((v >> 8) & 0xff) as u8 as u32) << 8 | (((v >> 16)
        & 0xff) as u8 as u32) << 16 | (((v >> 24) & 0xff) as u8 as u32) << 24 == v)
        by (bit_vector);
    assert((enc_u32(v) + rest).skip(4) =~= rest);
}

pub open spec fn u64_le(b0: u8, b1: u8, b2: u8, b3: u8, b4: u8, b5: u8, b6: u8, b7: u8) -> u64 {
    (b0 as u64) | ((b1 as u64) << 8) | ((b2 as u64) << 16) | ((b3 as u64) << 24) | ((b4
        as u64) << 32) | ((b5 as u64) << 40) | ((b6 as u64) << 48) | ((b7 as u64) << 56)
}

pub open spec fn enc_u64(v: u64) -> Seq<u8> {
    seq![
        (v & 0xff) as u8,
        ((v >> 8) & 0xff) as u8,
        ((v >> 16) & 0xff) as u8,
        ((v >> 24) & 0xff) as u8,
        ((v >> 32) & 0xff) as u8,
        ((v >> 40) & 0xff) as u8,
        ((v >> 48) & 0xff) as u8,
        ((v >> 56) & 0xff) as u8,
    ]
}

pub open spec fn dec_u64(b: Seq<u8>) -> Option<(u64, Seq<u8>)> {
    if b.len() >= 8 {
        Some((u64_le(b[0], b[1], b[2], b[3], b[4], b[5], b[6], b[7]), b.skip(8)))
    } else {
        None
    }
}

pub proof fn lemma_enc_u64(v: u64, rest: Seq<u8>)
    ensures
        dec_u64(enc_u64(v) + rest) == Some((v, rest)),
{
    assert(((v & 0xff) as u8 as u64) | (((v >> 8) & 0xff) as u8 as u64) << 8 | (((v >> 16)
        & 0xff) as u8 as u64) << 16 | (((v >> 24) & 0xff) as u8 as u64) << 24 | (((v >> 32)
        & 0xff) as u8 as u64) << 32 | (((v >> 40) & 0xff) as u8 as u64) << 40 | (((v >> 48)
        & 0xff) as u8 as u64) << 48 | (((v >> 56) & 0xff) as u8 as u64) << 56 == v)
        by (bit_vector);
    assert((enc_u64(v) + rest).skip(8) =~= rest);
}

pub open spec fn enc_bool(v: bool) -> Seq<u8> {
    if v {
        seq![1u8]
    } else {
        seq![0u8]
    }
}

pub open spec fn dec_bool(b: Seq<u8>) -> Option<(bool, Seq<u8>)> {
    match dec_u8(b) {
        Some((t, r)) => if t == 0 {
            Some((false, r))
        } else if t == 1 {
            Some((true, r))
        } else {
            None
        },
        None => None,
    }
}

pub proof fn lemma_enc_bool(v: bool, rest: Seq<u8>)
    ensures
        dec_bool(enc_bool(v) + rest) == Some((v, rest)),
{
    if v {
        lemma_enc_u8(1u8, rest);
        assert(enc_bool(v) =~= enc_u8(1u8));
    } else {
        lemma_enc_u8(0u8, rest);
        assert(enc_bool(v) =~= enc_u8(0u8));
    }
}

pub open spec fn enc_usize(v: usize) -> Seq<u8> {
    enc_u64(v as u64)
}

pub open spec fn dec_usize(b: Seq<u8>) -> Option<(usize, Seq<u8>)> {
    match dec_u64(b) {
        Some((v, r)) => if v <= usize::MAX as u64 {
            Some((v as usize, r))
        } else {
            None
        },
        None => None,
    }
}

pub proof fn lemma_enc_usize(v: usize, rest: Seq<u8>)
    ensures
        dec_usize(enc_usize(v) + rest) == Some((v, rest)),
{
    lemma_enc_u64(v as u64, rest);
}

/// A sequence length that the 64-bit count field can carry.
pub open spec fn fits(n: nat) -> bool {
    n <= 0xffff_ffff_ffff_ffff
}

pub open spec fn enc_bytes(s: Seq<u8>) -> Seq<u8> {
    enc_u64(s.len() as u64) + s
}

pub open spec fn dec_bytes(b: Seq<u8>) -> Option<(Seq<u8>, Seq<u8>)> {
    match dec_u64(b) {
        Some((n, r)) => if r.len() >= n {
            Some((r.take(n as int), r.skip(n as int)))
        } else {
            None
        },
        None => None,
    }
}

pub proof fn lemma_enc_bytes(s: Seq<u8>, rest: Seq<u8>)
    requires
        fits(s.len()),
    ensures
        dec_bytes(enc_bytes(s) + rest) == Some((s, rest)),
{
    assert(enc_bytes(s) + rest =~= enc_u64(s.len() as u64) + (s + rest));
    lemma_enc_u64(s.len() as u64, s + rest);
    assert((s + rest).take(s.len() as int) =~= s);
    assert((s + rest).skip(s.len() as int) =~= rest);
}

pub open spec fn wf_str(s: Seq<char>) -> bool {
    fits(encode_utf8(s).len())
}

pub open spec fn enc_str(s: Seq<char>) -> Seq<u8> {
    enc_bytes(encode_utf8(s))
}

pub open spec fn dec_str(b: Seq<u8>) -> Option<(Seq<char>, Seq<u8>)> {
    match dec_bytes(b) {
        Some((bs, r)) => if valid_utf8(bs) {
            Some((decode_utf8(bs), r))
        } else {
            None
        },
        None => None,
    }
}

pub proof fn lemma_enc_str(s: Seq<char>, rest: Seq<u8>)
    requires
        wf_str(s),
    ensures
        dec_str(enc_str(s) + rest) == Some((s, rest)),
{
    lemma_enc_bytes(encode_utf8(s), rest);
    encode_utf8_valid_utf8(s);
    encode_utf8_decode_utf8(s);
}

// ---------------------------------------------------------------------------
// Player-state components.
// ---------------------------------------------------------------------------

pub open spec fn enc_duration(d: Duration) -> Seq<u8> {
    enc_u64(d.secs) + enc_u32(d.nanos)
}

pub open spec fn dec_duration(b: Seq<u8>) -> Option<(Duration, Seq<u8>)> {
    match dec_u64(b) {
        Some((secs, r1)) => match dec_u32(r1) {
            Some((nanos, r2)) => Some((Duration { secs, nanos }, r2)),
            None => None,
        },
        None => None,
    }
}

pub proof fn lemma_enc_duration(d: Duration, rest: Seq<u8>)
    ensures
        dec_duration(enc_duration(d) + rest) == Some((d, rest)),
{
    assert(enc_duration(d) + rest =~= enc_u64(d.secs) + (enc_u32(d.nanos) + rest));
    lemma_enc_u64(d.secs, enc_u32(d.nanos) + rest);
    lemma_enc_u32(d.nanos, rest);
}

pub open spec fn enc_mode(m: PlayMode) -> Seq<u8> {
    match m {
        PlayMode::Normal => seq![0u8],
        PlayMode::LoopAll => seq![1u8],
        PlayMode::LoopOne => seq![2u8],
    }
}

pub open spec fn dec_mode(b: Seq<u8>) -> Option<(PlayMode, Seq<u8>)> {
    match dec_u8(b) {
        Some((t, r)) => if t == 0 {
            Some((PlayMode::Normal, r))
        } else if t == 1 {
            Some((PlayMode::LoopAll, r))
        } else if t == 2 {
            Some((PlayMode::LoopOne, r))
        } else {
            None
        },
        None => None,
    }
}

pub proof fn lemma_enc_mode(m: PlayMode, rest: Seq<u8>)
    ensures
        dec_mode(enc_mode(m) + rest) == Some((m, rest)),
{
    match m {
        PlayMode::Normal => {
            lemma_enc_u8(0u8, rest);
            assert(enc_mode(m) =~= enc_u8(0u8));
        },
        PlayMode::LoopAll => {
            lemma_enc_u8(1u8, rest);
            assert(enc_mode(m) =~= enc_u8(1u8));
        },
        PlayMode::LoopOne => {
            lemma_enc_u8(2u8, rest);
            assert(enc_mode(m) =~= enc_u8(2u8));
        },
    }
}

pub open spec fn wf_track(t: SpecTrack) -> bool {
    wf_str(t.title) && wf_str(t.uri)
}

pub open spec fn enc_track(t: SpecTrack) -> Seq<u8> {
    enc_duration(t.len) + enc_duration(t.pos) + enc_str(t.title) + enc_str(t.uri)
}

pub open spec fn dec_track(b: Seq<u8>) -> Option<(SpecTrack, Seq<u8>)> {
    match dec_duration(b) {
        Some((len, r1)) => match dec_duration(r1) {
            Some((pos, r2)) => match dec_str(r2) {
                Some((title, r3)) => match dec_str(r3) {
                    Some((uri, r4)) => Some((SpecTrack { len, pos, title, uri }, r4)),
                    None => None,
                },
                None => None,
            },
            None => None,
        },
        None => None,
    }
}

pub proof fn lemma_enc_track(t: SpecTrack, rest: Seq<u8>)
    requires
        wf_track(t),
    ensures
        dec_track(enc_track(t) + rest) == Some((t, rest)),
{
    assert(enc_track(t) + rest =~= enc_duration(t.len) + (enc_duration(t.pos) + (enc_str(t.title)
        + (enc_str(t.uri) + rest))));
    lemma_enc_duration(t.len, enc_duration(t.pos) + (enc_str(t.title) + (enc_str(t.uri) + rest)));
    lemma_enc_duration(t.pos, enc_str(t.title) + (enc_str(t.uri) + rest));
    lemma_enc_str(t.title, enc_str(t.uri) + rest);
    lemma_enc_str(t.uri, rest);
    assert(dec_track(enc_track(t) + rest) == Some((t, rest)));
}

pub open spec fn wf_tracks(s: Seq<SpecTrack>) -> bool {
    fits(s.len()) && (forall|i: int| 0 <= i < s.len() ==> wf_track(#[trigger] s[i]))
}

pub open spec fn enc_track_seq(s: Seq<SpecTrack>) -> Seq<u8>
    decreases s.len(),
{
    if s.len() == 0 {
        Seq::empty()
    } else {
        enc_track(s[0]) + enc_track_seq(s.skip(1))
    }
}

pub open spec fn dec_track_seq(b: Seq<u8>, n: nat) -> Option<(Seq<SpecTrack>, Seq<u8>)>
    decreases n,
{
    if n == 0 {
        Some((Seq::empty(), b))
    } else {
        match dec_track(b) {
            Some((t, r)) => match dec_track_seq(r, (n - 1) as nat) {
                Some((ts, r2)) => Some((seq![t] + ts, r2)),
                None => None,
            },
            None => None,
        }
    }
}

#[verifier::rlimit(60)]
pub proof fn lemma_enc_track_seq(s: Seq<SpecTrack>, rest: Seq<u8>)
    requires
        forall|i: int| 0 <= i < s.len() ==> wf_track(#[trigger] s[i]),
    ensures
        dec_track_seq(enc_track_seq(s) + rest, s.len()) == Some((s, rest)),
    decreases s.len(),
{
    if s.len() == 0 {
        assert(enc_track_seq(s) + rest =~= rest);
        assert(s =~= Seq::<SpecTrack>::empty());
    } else {
        let tail = s.skip(1);
        assert(enc_track_seq(s) + rest =~= enc_track(s[0]) + (enc_track_seq(tail) + rest));
        lemma_enc_track(s[0], enc_track_seq(tail) + rest);
        lemma_enc_track_seq(tail, rest);
        assert(dec_track(enc_track_seq(s) + rest) == Some((s[0], enc_track_seq(tail) + rest)));
        assert(dec_track_seq(enc_track_seq(tail) + rest, (s.len() - 1) as nat) == Some(
            (tail, rest),
        ));
        assert(seq![s[0]] + tail =~= s);
    }
}

pub open spec fn enc_tracks(s: Seq<SpecTrack>) -> Seq<u8> {
    enc_u64(s.len() as u64) + enc_track_seq(s)
}

pub open spec fn dec_tracks(b: Seq<u8>) -> Option<(Seq<SpecTrack>, Seq<u8>)> {
    match dec_u64(b) {
        Some((n, r)) => dec_track_seq(r, n as nat),
        None => None,
    }
}

pub proof fn lemma_enc_tracks(s: Seq<SpecTrack>, rest: Seq<u8>)
    requires
        wf_tracks(s),
    ensures
        dec_tracks(enc_tracks(s) + rest) == Some((s, rest)),
{
    assert(enc_tracks(s) + rest =~= enc_u64(s.len() as u64) + (enc_track_seq(s) + rest));
    lemma_enc_u64(s.len() as u64, enc_track_seq(s) + rest);
    lemma_enc_track_seq(s, rest);
}

pub open spec fn enc_opt_track(o: Option<SpecTrack>) -> Seq<u8> {
    match o {
        None => seq![0u8],
        Some(t) => seq![1u8] + enc_track(t),
    }
}

pub open spec fn dec_opt_track(b: Seq<u8>) -> Option<(Option<SpecTrack>, Seq<u8>)> {
    match dec_u8(b) {
        Some((t, r)) => if t == 0 {
            Some((None, r))
        } else if t == 1 {
            match dec_track(r) {
                Some((tr, r2)) => Some((Some(tr), r2)),
                None => None,
            }
        } else {
            None
        },
        None => None,
    }
}

pub proof fn lemma_enc_opt_track(o: Option<SpecTrack>, rest: Seq<u8>)
    requires
        match o {
            Some(t) => wf_track(t),
            None => true,
        },
    ensures
        dec_opt_track(enc_opt_track(o) + rest) == Some((o, rest)),
{
    match o {
        None => {
            lemma_enc_u8(0u8, rest);
            assert(enc_opt_track(o) =~= enc_u8(0u8));
        },
        Some(t) => {
            assert(enc_opt_track(o) + rest =~= enc_u8(1u8) + (enc_track(t) + rest));
            lemma_enc_u8(1u8, enc_track(t) + rest);
            lemma_enc_track(t, rest);
        },
    }
}

pub open spec fn wf_bot(bi: SpecBotInfo) -> bool {
    wf_str(bi.name) && wf_str(bi.avatar)
}

pub open spec fn enc_bot(bi: SpecBotInfo) -> Seq<u8> {
    enc_str(bi.name) + enc_str(bi.avatar)
}

pub open spec fn dec_bot(b: Seq<u8>) -> Option<(SpecBotInfo, Seq<u8>)> {
    match dec_str(b) {
        Some((name, r1)) => match dec_str(r1) {
            Some((avatar, r2)) => Some((SpecBotInfo { name, avatar }, r2)),
            None => None,
        },
        None => None,
    }
}

pub proof fn lemma_enc_bot(bi: SpecBotInfo, rest: Seq<u8>)
    requires
        wf_bot(bi),
    ensures
        dec_bot(enc_bot(bi) + rest) == Some((bi, rest)),
{
    assert(enc_bot(bi) + rest =~= enc_str(bi.name) + (enc_str(bi.avatar) + rest));
    lemma_enc_str(bi.name, enc_str(bi.avatar) + rest);
    lemma_enc_str(bi.avatar, rest);
}

pub open spec fn wf_player_state(p: SpecPlayerState) -> bool {
    wf_bot(p.bot) && (match p.current {
        Some(t) => wf_track(t),
        None => true,
    }) && wf_tracks(p.history) && wf_tracks(p.queue)
}

pub open spec fn enc_player_state(p: SpecPlayerState) -> Seq<u8> {
    enc_bot(p.bot) + enc_bool(p.paused) + enc_mode(p.mode) + enc_opt_track(p.current) + enc_tracks(
        p.history,
    ) + enc_tracks(p.queue)
}

pub open spec fn dec_player_state(b: Seq<u8>) -> Option<(SpecPlayerState, Seq<u8>)> {
    match dec_bot(b) {
        Some((bot, r1)) => match dec_bool(r1) {
            Some((paused, r2)) => match dec_mode(r2) {
                Some((mode, r3)) => match dec_opt_track(r3) {
                    Some((current, r4)) => match dec_tracks(r4) {
                        Some((history, r5)) => match dec_tracks(r5) {
                            Some((queue, r6)) => Some(
                                (SpecPlayerState { bot, paused, mode, current, history, queue }, r6),
                            ),
                            None => None,
                        },
                        None => None,
                    },
                    None => None,
                },
                None => None,
            },
            None => None,
        },
        None => None,
    }
}

#[verifier::spinoff_prover]
#[verifier::rlimit(100)]
pub proof fn lemma_enc_player_state(p: SpecPlayerState, rest: Seq<u8>)
    requires
        wf_player_state(p),
    ensures
        dec_player_state(enc_player_state(p) + rest) == Some((p, rest)),
{
    let c2 = enc_bool(p.paused);
    let c3 = enc_mode(p.mode);
    let c4 = enc_opt_track(p.current);
    let c5 = enc_tracks(p.history);
    let c6 = enc_tracks(p.queue);
    let b = enc_player_state(p) + rest;
    let t2 = c2 + (c3 + (c4 + (c5 + (c6 + rest))));
    let t3 = c3 + (c4 + (c5 + (c6 + rest)));
    let t4 = c4 + (c5 + (c6 + rest));
    let t5 = c5 + (c6 + rest);
    let t6 = c6 + rest;
    assert(b =~= enc_bot(p.bot) + t2);
    lemma_enc_bot(p.bot, t2);
    lemma_enc_bool(p.paused, t3);
    lemma_enc_mode(p.mode, t4);
    lemma_enc_opt_track(p.current, t5);
    lemma_enc_tracks(p.history, t6);
    lemma_enc_tracks(p.queue, rest);
    assert(dec_bot(b) == Some((p.bot, t2)));
    assert(dec_bool(t2) == Some((p.paused, t3)));
    assert(dec_mode(t3) == Some((p.mode, t4)));
    assert(dec_opt_track(t4) == Some((p.current, t5)));
    assert(dec_tracks(t5) == Some((p.history, t6)));
    assert(dec_tracks(t6) == Some((p.queue, rest)));
    assert(dec_player_state(b) == Some((p, rest)));
}

// ---------------------------------------------------------------------------
// Identity and voice.
// ---------------------------------------------------------------------------

pub open spec fn wf_user(u: SpecUser) -> bool {
    wf_str(u.username) && wf_str(u.id) && wf_str(u.avatar)
}

pub open spec fn enc_user(u: SpecUser) -> Seq<u8> {
    enc_str(u.username) + enc_str(u.id) + enc_str(u.avatar)
}

pub open spec fn dec_user(b: Seq<u8>) -> Option<(SpecUser, Seq<u8>)> {
    match dec_str(b) {
        Some((username, r1)) => match dec_str(r1) {
            Some((id, r2)) => match dec_str(r2) {
                Some((avatar, r3)) => Some((SpecUser { username, id, avatar }, r3)),
                None => None,
            },
            None => None,
        },
        None => None,
    }
}

pub proof fn lemma_enc_user(u: SpecUser, rest: Seq<u8>)
    requires
        wf_user(u),
    ensures
        dec_user(enc_user(u) + rest) == Some((u, rest)),
{
    assert(enc_user(u) + rest =~= enc_str(u.username) + (enc_str(u.id) + (enc_str(u.avatar)
        + rest)));
    lemma_enc_str(u.username, enc_str(u.id) + (enc_str(u.avatar) + rest));
    lemma_enc_str(u.id, enc_str(u.avatar) + rest);
    lemma_enc_str(u.avatar, rest);
}

pub open spec fn wf_voice(v: SpecVoiceState) -> bool {
    wf_str(v.channel_name)
}

pub open spec fn enc_voice(v: SpecVoiceState) -> Seq<u8> {
    enc_u64(v.channel_id) + enc_str(v.channel_name)
}

pub open spec fn dec_voice(b: Seq<u8>) -> Option<(SpecVoiceState, Seq<u8>)> {
    match dec_u64(b) {
        Some((channel_id, r1)) => match dec_str(r1) {
            Some((channel_name, r2)) => Some((SpecVoiceState { channel_id, channel_name }, r2)),
            None => None,
        },
        None => None,
    }
}

pub proof fn lemma_enc_voice(v: SpecVoiceState, rest: Seq<u8>)
    requires
        wf_voice(v),
    ensures
        dec_voice(enc_voice(v) + rest) == Some((v, rest)),
{
    assert(enc_voice(v) + rest =~= enc_u64(v.channel_id) + (enc_str(v.channel_name) + rest));
    lemma_enc_u64(v.channel_id, enc_str(v.channel_name) + rest);
    lemma_enc_str(v.channel_name, rest);
}

pub open spec fn enc_opt_voice(o: Option<SpecVoiceState>) -> Seq<u8> {
    match o {
        None => seq![0u8],
        Some(v) => seq![1u8] + enc_voice(v),
    }
}

pub open spec fn dec_opt_voice(b: Seq<u8>) -> Option<(Option<SpecVoiceState>, Seq<u8>)> {
    match dec_u8(b) {
        Some((t, r)) => if t == 0 {
            Some((None, r))
        } else if t == 1 {
            match dec_voice(r) {
                Some((v, r2)) => Some((Some(v), r2)),
                None => None,
            }
        } else {
            None
        },
        None => None,
    }
}

pub proof fn lemma_enc_opt_voice(o: Option<SpecVoiceState>, rest: Seq<u8>)
    requires
        match o {
            Some(v) => wf_voice(v),
            None => true,
        },
    ensures
        dec_opt_voice(enc_opt_voice(o) + rest) == Some((o, rest)),
{
    match o {
        None => {
            lemma_enc_u8(0u8, rest);
            assert(enc_opt_voice(o) =~= enc_u8(0u8));
        },
        Some(v) => {
            assert(enc_opt_voice(o) + rest =~= enc_u8(1u8) + (enc_voice(v) + rest));
            lemma_enc_u8(1u8, enc_voice(v) + rest);
            lemma_enc_voice(v, rest);
        },
    }
}

// ---------------------------------------------------------------------------
// Envelope payloads.
// ---------------------------------------------------------------------------

pub open spec fn wf_auth(a: SpecAuth) -> bool {
    match a {
        SpecAuth::Code(s) => wf_str(s),
        SpecAuth::Token(s) => wf_str(s),
    }
}

pub open spec fn enc_auth(a: SpecAuth) -> Seq<u8> {
    match a {
        SpecAuth::Code(s) => seq![0u8] + enc_str(s),
        SpecAuth::Token(s) => seq![1u8] + enc_str(s),
    }
}

pub open spec fn dec_auth(b: Seq<u8>) -> Option<(SpecAuth, Seq<u8>)> {
    match dec_u8(b) {
        Some((t, r)) => if t == 0 {
            match dec_str(r) {
                Some((s, r2)) => Some((SpecAuth::Code(s), r2)),
                None => None,
            }
        } else if t == 1 {
            match dec_str(r) {
                Some((s, r2)) => Some((SpecAuth::Token(s), r2)),
                None => None,
            }
        } else {
            None
        },
        None => None,
    }
}

pub proof fn lemma_enc_auth(a: SpecAuth, rest: Seq<u8>)
    requires
        wf_auth(a),
    ensures
        dec_auth(enc_auth(a) + rest) == Some((a, rest)),
{
    match a {
        SpecAuth::Code(s) => {
            assert(enc_auth(a) + rest =~= enc_u8(0u8) + (enc_str(s) + rest));
            lemma_enc_u8(0u8, enc_str(s) + rest);
            lemma_enc_str(s, rest);
        },
        SpecAuth::Token(s) => {
            assert(enc_auth(a) + rest =~= enc_u8(1u8) + (enc_str(s) + rest));
            lemma_enc_u8(1u8, enc_str(s) + rest);
            lemma_enc_str(s, rest);
        },
    }
}

pub open spec fn wf_auth_message(m: SpecAuthMessage) -> bool {
    match m {
        SpecAuthMessage::AuthStatus(_) => true,
        SpecAuthMessage::AuthSuccess(u, t) => wf_user(u) && wf_str(t),
        SpecAuthMessage::AuthError => true,
    }
}

pub open spec fn enc_auth_message(m: SpecAuthMessage) -> Seq<u8> {
    match m {
        SpecAuthMessage::AuthStatus(v) => seq![0u8] + enc_bool(v),
        SpecAuthMessage::AuthSuccess(u, t) => seq![1u8] + enc_user(u) + enc_str(t),
        SpecAuthMessage::AuthError => seq![2u8],
    }
}

pub open spec fn dec_auth_message(b: Seq<u8>) -> Option<(SpecAuthMessage, Seq<u8>)> {
    match dec_u8(b) {
        Some((t, r)) => if t == 0 {
            match dec_bool(r) {
                Some((v, r2)) => Some((SpecAuthMessage::AuthStatus(v), r2)),
                None => None,
            }
        } else if t == 1 {
            match dec_user(r) {
                Some((u, r2)) => match dec_str(r2) {
                    Some((tok, r3)) => Some((SpecAuthMessage::AuthSuccess(u, tok), r3)),
                    None => None,
                },
                None => None,
            }
        } else if t == 2 {
            Some((SpecAuthMessage::AuthError, r))
        } else {
            None
        },
        None => None,
    }
}

pub proof fn lemma_enc_auth_message(m: SpecAuthMessage, rest: Seq<u8>)
    requires
        wf_auth_message(m),
    ensures
        dec_auth_message(enc_auth_message(m) + rest) == Some((m, rest)),
{
    match m {
        SpecAuthMessage::AuthStatus(v) => {
            assert(enc_auth_message(m) + rest =~= enc_u8(0u8) + (enc_bool(v) + rest));
            lemma_enc_u8(0u8, enc_bool(v) + rest);
            lemma_enc_bool(v, rest);
        },
        SpecAuthMessage::AuthSuccess(u, t) => {
            assert(enc_auth_message(m) + rest =~= enc_u8(1u8) + (enc_user(u) + (enc_str(t)
                + rest)));
            lemma_enc_u8(1u8, enc_user(u) + (enc_str(t) + rest));
            lemma_enc_user(u, enc_str(t) + rest);
            lemma_enc_str(t, rest);
        },
        SpecAuthMessage::AuthError => {
            assert(enc_auth_message(m) + rest =~= enc_u8(2u8) + rest);
            lemma_enc_u8(2u8, rest);
        },
    }
}

pub open spec fn wf_state(s: SpecState) -> bool {
    match s {
        SpecState::FullState(p) => wf_player_state(p),
        SpecState::UpdateState(b) => fits(b.len()),
        SpecState::EmptyState => true,
    }
}

pub open spec fn enc_state(s: SpecState) -> Seq<u8> {
    match s {
        SpecState::FullState(p) => seq![0u8] + enc_player_state(p),
        SpecState::UpdateState(b) => seq![1u8] + enc_bytes(b),
        SpecState::EmptyState => seq![2u8],
    }
}

pub open spec fn dec_state(b: Seq<u8>) -> Option<(SpecState, Seq<u8>)> {
    match dec_u8(b) {
        Some((t, r)) => if t == 0 {
            match dec_player_state(r) {
                Some((p, r2)) => Some((SpecState::FullState(p), r2)),
                None => None,
            }
        } else if t == 1 {
            match dec_bytes(r) {
                Some((bs, r2)) => Some((SpecState::UpdateState(bs), r2)),
                None => None,
            }
        } else if t == 2 {
            Some((SpecState::EmptyState, r))
        } else {
            None
        },
        None => None,
    }
}

#[verifier::spinoff_prover]
#[verifier::rlimit(100)]
pub proof fn lemma_enc_state(s: SpecState, rest: Seq<u8>)
    requires
        wf_state(s),
    ensures
        dec_state(enc_state(s) + rest) == Some((s, rest)),
{
    match s {
        SpecState::FullState(p) => {
            assert(enc_state(s) + rest =~= enc_u8(0u8) + (enc_player_state(p) + rest));
            lemma_enc_u8(0u8, enc_player_state(p) + rest);
            lemma_enc_player_state(p, rest);
        },
        SpecState::UpdateState(bs) => {
            assert(enc_state(s) + rest =~= enc_u8(1u8) + (enc_bytes(bs) + rest));
            lemma_enc_u8(1u8, enc_bytes(bs) + rest);
            lemma_enc_bytes(bs, rest);
        },
        SpecState::EmptyState => {
            assert(enc_state(s) + rest =~= enc_u8(2u8) + rest);
            lemma_enc_u8(2u8, rest);
        },
    }
}

pub open spec fn enc_opt_state(o: Option<SpecState>) -> Seq<u8> {
    match o {
        None => seq![0u8],
        Some(s) => seq![1u8] + enc_state(s),
    }
}

pub open spec fn dec_opt_state(b: Seq<u8>) -> Option<(Option<SpecState>, Seq<u8>)> {
    match dec_u8(b) {
        Some((t, r)) => if t == 0 {
            Some((None, r))
        } else if t == 1 {
            match dec_state(r) {
                Some((s, r2)) => Some((Some(s), r2)),
                None => None,
            }
        } else {
            None
        },
        None => None,
    }
}

pub proof fn lemma_enc_opt_state(o: Option<SpecState>, rest: Seq<u8>)
    requires
        match o {
            Some(s) => wf_state(s),
            None => true,
        },
    ensures
        dec_opt_state(enc_opt_state(o) + rest) == Some((o, rest)),
{
    match o {
        None => {
            lemma_enc_u8(0u8, rest);
            assert(enc_opt_state(o) =~= enc_u8(0u8));
        },
        Some(s) => {
            assert(enc_opt_state(o) + rest =~= enc_u8(1u8) + (enc_state(s) + rest));
            lemma_enc_u8(1u8, enc_state(s) + rest);
            lemma_enc_state(s, rest);
        },
    }
}

pub open spec fn wf_control(c: SpecPlayerControl) -> bool {
    match c {
        SpecPlayerControl::Enqueue(u) => wf_str(u),
        _ => true,
    }
}

pub open spec fn enc_control(c: SpecPlayerControl) -> Seq<u8> {
    match c {
        SpecPlayerControl::Resume => seq![0u8],
        SpecPlayerControl::Pause => seq![1u8],
        SpecPlayerControl::Skip(n) => seq![2u8] + enc_usize(n),
        SpecPlayerControl::BackSkip(n) => seq![3u8] + enc_usize(n),
        SpecPlayerControl::SetTime(d) => seq![4u8] + enc_duration(d),
        SpecPlayerControl::PlayMode(m) => seq![5u8] + enc_mode(m),
        SpecPlayerControl::Enqueue(u) => seq![6u8] + enc_str(u),
        SpecPlayerControl::Leave => seq![7u8],
        SpecPlayerControl::Join => seq![8u8],
    }
}

pub open spec fn dec_control(b: Seq<u8>) -> Option<(SpecPlayerControl, Seq<u8>)> {
    match dec_u8(b) {
        Some((t, r)) => if t == 0 {
            Some((SpecPlayerControl::Resume, r))
        } else if t == 1 {
            Some((SpecPlayerControl::Pause, r))
        } else if t == 2 {
            match dec_usize(r) {
                Some((n, r2)) => Some((SpecPlayerControl::Skip(n), r2)),
                None => None,
            }
        } else if t == 3 {
            match dec_usize(r) {
                Some((n, r2)) => Some((SpecPlayerControl::BackSkip(n), r2)),
                None => None,
            }
        } else if t == 4 {
            match dec_duration(r) {
                Some((d, r2)) => Some((SpecPlayerControl::SetTime(d), r2)),
                None => None,
            }
        } else if t == 5 {
            match dec_mode(r) {
                Some((m, r2)) => Some((SpecPlayerControl::PlayMode(m), r2)),
                None => None,
            }
        } else if t == 6 {
            match dec_str(r) {
                Some((u, r2)) => Some((SpecPlayerControl::Enqueue(u), r2)),
                None => None,
            }
        } else if t == 7 {
            Some((SpecPlayerControl::Leave, r))
        } else if t == 8 {
            Some((SpecPlayerControl::Join, r))
        } else {
            None
        },
        None => None,
    }
}

#[verifier::rlimit(60)]
pub proof fn lemma_enc_control(c: SpecPlayerControl, rest: Seq<u8>)
    requires
        wf_control(c),
    ensures
        dec_control(enc_control(c) + rest) == Some((c, rest)),
{
    match c {
        SpecPlayerControl::Resume => {
            assert(enc_control(c) + rest =~= enc_u8(0u8) + rest);
            lemma_enc_u8(0u8, rest);
        },
        SpecPlayerControl::Pause => {
            assert(enc_control(c) + rest =~= enc_u8(1u8) + rest);
            lemma_enc_u8(1u8, rest);
        },
        SpecPlayerControl::Skip(n) => {
            assert(enc_control(c) + rest =~= enc_u8(2u8) + (enc_usize(n) + rest));
            lemma_enc_u8(2u8, enc_usize(n) + rest);
            lemma_enc_usize(n, rest);
        },
        SpecPlayerControl::BackSkip(n) => {
            assert(enc_control(c) + rest =~= enc_u8(3u8) + (enc_usize(n) + rest));
            lemma_enc_u8(3u8, enc_usize(n) + rest);
            lemma_enc_usize(n, rest);
        },
        SpecPlayerControl::SetTime(d) => {
            assert(enc_control(c) + rest =~= enc_u8(4u8) + (enc_duration(d) + rest));
            lemma_enc_u8(4u8, enc_duration(d) + rest);
            lemma_enc_duration(d, rest);
        },
        SpecPlayerControl::PlayMode(m) => {
            assert(enc_control(c) + rest =~= enc_u8(5u8) + (enc_mode(m) + rest));
            lemma_enc_u8(5u8, enc_mode(m) + rest);
            lemma_enc_mode(m, rest);
        },
        SpecPlayerControl::Enqueue(u) => {
            assert(enc_control(c) + rest =~= enc_u8(6u8) + (enc_str(u) + rest));
            lemma_enc_u8(6u8, enc_str(u) + rest);
            lemma_enc_str(u, rest);
        },
        SpecPlayerControl::Leave => {
            assert(enc_control(c) + rest =~= enc_u8(7u8) + rest);
            lemma_enc_u8(7u8, rest);
        },
        SpecPlayerControl::Join => {
            assert(enc_control(c) + rest =~= enc_u8(8u8) + rest);
            lemma_enc_u8(8u8, rest);
        },
    }
}

pub open spec fn enc_ctl_res(r: Result<(), Seq<char>>) -> Seq<u8> {
    match r {
        Ok(_) => seq![0u8],
        Err(e) => seq![1u8] + enc_str(e),
    }
}

pub open spec fn dec_ctl_res(b: Seq<u8>) -> Option<(Result<(), Seq<char>>, Seq<u8>)> {
    match dec_u8(b) {
        Some((t, r)) => if t == 0 {
            Some((Ok(()), r))
        } else if t == 1 {
            match dec_str(r) {
                Some((e, r2)) => Some((Err(e), r2)),
                None => None,
            }
        } else {
            None
        },
        None => None,
    }
}

pub proof fn lemma_enc_ctl_res(r: Result<(), Seq<char>>, rest: Seq<u8>)
    requires
        match r {
            Err(e) => wf_str(e),
            Ok(_) => true,
        },
    ensures
        dec_ctl_res(enc_ctl_res(r) + rest) == Some((r, rest)),
{
    match r {
        Ok(v) => {
            assert(enc_ctl_res(r) + rest =~= enc_u8(0u8) + rest);
            lemma_enc_u8(0u8, rest);
            assert(v == ());
            assert(r == Ok::<(), Seq<char>>(()));
        },
        Err(e) => {
            assert(enc_ctl_res(r) + rest =~= enc_u8(1u8) + (enc_str(e) + rest));
            lemma_enc_u8(1u8, enc_str(e) + rest);
            lemma_enc_str(e, rest);
        },
    }
}

pub open spec fn wf_control_result(cr: SpecPlayerControlResult) -> bool {
    wf_str(cr.uuid) && wf_control(cr.req) && (match cr.res {
        Err(e) => wf_str(e),
        Ok(_) => true,
    })
}

pub open spec fn enc_control_result(cr: SpecPlayerControlResult) -> Seq<u8> {
    enc_str(cr.uuid) + enc_control(cr.req) + enc_ctl_res(cr.res)
}

pub open spec fn dec_control_result(b: Seq<u8>) -> Option<(SpecPlayerControlResult, Seq<u8>)> {
    match dec_str(b) {
        Some((uuid, r1)) => match dec_control(r1) {
            Some((req, r2)) => match dec_ctl_res(r2) {
                Some((res, r3)) => Some((SpecPlayerControlResult { uuid, req, res }, r3)),
                None => None,
            },
            None => None,
        },
        None => None,
    }
}

pub proof fn lemma_enc_control_result(cr: SpecPlayerControlResult, rest: Seq<u8>)
    requires
        wf_control_result(cr),
    ensures
        dec_control_result(enc_control_result(cr) + rest) == Some((cr, rest)),
{
    assert(enc_control_result(cr) + rest =~= enc_str(cr.uuid) + (enc_control(cr.req) + (enc_ctl_res(
        cr.res,
    ) + rest)));
    lemma_enc_str(cr.uuid, enc_control(cr.req) + (enc_ctl_res(cr.res) + rest));
    lemma_enc_control(cr.req, enc_ctl_res(cr.res) + rest);
    lemma_enc_ctl_res(cr.res, rest);
}

pub open spec fn wf_client_request(c: SpecClientRequest) -> bool {
    match c {
        SpecClientRequest::Authenticate(a) => wf_auth(a),
        SpecClientRequest::AuthStatus => true,
        SpecClientRequest::Control(u, pc) => wf_str(u) && wf_control(pc),
        SpecClientRequest::End => true,
    }
}

pub open spec fn enc_client_request(c: SpecClientRequest) -> Seq<u8> {
    match c {
        SpecClientRequest::Authenticate(a) => seq![0u8] + enc_auth(a),
        SpecClientRequest::AuthStatus => seq![1u8],
        SpecClientRequest::Control(u, pc) => seq![2u8] + enc_str(u) + enc_control(pc),
        SpecClientRequest::End => seq![3u8],
    }
}

pub open spec fn dec_client_request(b: Seq<u8>) -> Option<(SpecClientRequest, Seq<u8>)> {
    match dec_u8(b) {
        Some((t, r)) => if t == 0 {
            match dec_auth(r) {
                Some((a, r2)) => Some((SpecClientRequest::Authenticate(a), r2)),
                None => None,
            }
        } else if t == 1 {
            Some((SpecClientRequest::AuthStatus, r))
        } else if t == 2 {
            match dec_str(r) {
                Some((u, r2)) => match dec_control(r2) {
                    Some((pc, r3)) => Some((SpecClientRequest::Control(u, pc), r3)),
                    None => None,
                },
                None => None,
            }
        } else if t == 3 {
            Some((SpecClientRequest::End, r))
        } else {
            None
        },
        None => None,
    }
}

pub proof fn lemma_enc_client_request(c: SpecClientRequest, rest: Seq<u8>)
    requires
        wf_client_request(c),
    ensures
        dec_client_request(enc_client_request(c) + rest) == Some((c, rest)),
{
    match c {
        SpecClientRequest::Authenticate(a) => {
            assert(enc_client_request(c) + rest =~= enc_u8(0u8) + (enc_auth(a) + rest));
            lemma_enc_u8(0u8, enc_auth(a) + rest);
            lemma_enc_auth(a, rest);
        },
        SpecClientRequest::AuthStatus => {
            assert(enc_client_request(c) + rest =~= enc_u8(1u8) + rest);
            lemma_enc_u8(1u8, rest);
        },
        SpecClientRequest::Control(u, pc) => {
            assert(enc_client_request(c) + rest =~= enc_u8(2u8) + (enc_str(u) + (enc_control(pc)
                + rest)));
            lemma_enc_u8(2u8, enc_str(u) + (enc_control(pc) + rest));
            lemma_enc_str(u, enc_control(pc) + rest);
            lemma_enc_control(pc, rest);
        },
        SpecClientRequest::End => {
            assert(enc_client_request(c) + rest =~= enc_u8(3u8) + rest);
            lemma_enc_u8(3u8, rest);
        },
    }
}

pub open spec fn wf_unexpected(u: SpecUnexpected) -> bool {
    match u {
        SpecUnexpected::WsMessageTypeString(s) => wf_str(s),
        SpecUnexpected::ParseError(b, s) => fits(b.len()) && wf_str(s),
        SpecUnexpected::MessageType(s) => wf_str(s),
    }
}

pub open spec fn enc_unexpected(u: SpecUnexpected) -> Seq<u8> {
    match u {
        SpecUnexpected::WsMessageTypeString(s) => seq![0u8] + enc_str(s),
        SpecUnexpected::ParseError(b, s) => seq![1u8] + enc_bytes(b) + enc_str(s),
        SpecUnexpected::MessageType(s) => seq![2u8] + enc_str(s),
    }
}

pub open spec fn dec_unexpected(b: Seq<u8>) -> Option<(SpecUnexpected, Seq<u8>)> {
    match dec_u8(b) {
        Some((t, r)) => if t == 0 {
            match dec_str(r) {
                Some((s, r2)) => Some((SpecUnexpected::WsMessageTypeString(s), r2)),
                None => None,
            }
        } else if t == 1 {
            match dec_bytes(r) {
                Some((bs, r2)) => match dec_str(r2) {
                    Some((s, r3)) => Some((SpecUnexpected::ParseError(bs, s), r3)),
                    None => None,
                },
                None => None,
            }
        } else if t == 2 {
            match dec_str(r) {
                Some((s, r2)) => Some((SpecUnexpected::MessageType(s), r2)),
                None => None,
            }
        } else {
            None
        },
        None => None,
    }
}

pub proof fn lemma_enc_unexpected(u: SpecUnexpected, rest: Seq<u8>)
    requires
        wf_unexpected(u),
    ensures
        dec_unexpected(enc_unexpected(u) + rest) == Some((u, rest)),
{
    match u {
        SpecUnexpected::WsMessageTypeString(s) => {
            assert(enc_unexpected(u) + rest =~= enc_u8(0u8) + (enc_str(s) + rest));
            lemma_enc_u8(0u8, enc_str(s) + rest);
            lemma_enc_str(s, rest);
        },
        SpecUnexpected::ParseError(bs, s) => {
            assert(enc_unexpected(u) + rest =~= enc_u8(1u8) + (enc_bytes(bs) + (enc_str(s)
                + rest)));
            lemma_enc_u8(1u8, enc_bytes(bs) + (enc_str(s) + rest));
            lemma_enc_bytes(bs, enc_str(s) + rest);
            lemma_enc_str(s, rest);
        },
        SpecUnexpected::MessageType(s) => {
            assert(enc_unexpected(u) + rest =~= enc_u8(2u8) + (enc_str(s) + rest));
            lemma_enc_u8(2u8, enc_str(s) + rest);
            lemma_enc_str(s, rest);
        },
    }
}

// ---------------------------------------------------------------------------
// The envelope itself.
// ---------------------------------------------------------------------------

pub open spec fn wf_message(m: SpecMessage) -> bool {
    match m {
        SpecMessage::ClientRequest(c) => wf_client_request(c),
        SpecMessage::ClientControlResult(cr) => wf_control_result(cr),
        SpecMessage::Auth(a) => wf_auth_message(a),
        SpecMessage::PlayerState(o) => match o {
            Some(s) => wf_state(s),
            None => true,
        },
        SpecMessage::UserVoiceState(o) => match o {
            Some(v) => wf_voice(v),
            None => true,
        },
        SpecMessage::Unexpected(u) => wf_unexpected(u),
    }
}

pub open spec fn enc_message(m: SpecMessage) -> Seq<u8> {
    match m {
        SpecMessage::ClientRequest(c) => seq![0u8] + enc_client_request(c),
        SpecMessage::ClientControlResult(cr) => seq![1u8] + enc_control_result(cr),
        SpecMessage::Auth(a) => seq![2u8] + enc_auth_message(a),
        SpecMessage::PlayerState(o) => seq![3u8] + enc_opt_state(o),
        SpecMessage::UserVoiceState(o) => seq![4u8] + enc_opt_voice(o),
        SpecMessage::Unexpected(u) => seq![5u8] + enc_unexpected(u),
    }
}

pub open spec fn dec_message(b: Seq<u8>) -> Option<(SpecMessage, Seq<u8>)> {
    match dec_u8(b) {
        Some((t, r)) => if t == 0 {
            match dec_client_request(r) {
                Some((c, r2)) => Some((SpecMessage::ClientRequest(c), r2)),
                None => None,
            }
        } else if t == 1 {
            match dec_control_result(r) {
                Some((cr, r2)) => Some((SpecMessage::ClientControlResult(cr), r2)),
                None => None,
            }
        } else if t == 2 {
            match dec_auth_message(r) {
                Some((a, r2)) => Some((SpecMessage::Auth(a), r2)),
                None => None,
            }
        } else if t == 3 {
            match dec_opt_state(r) {
                Some((o, r2)) => Some((SpecMessage::PlayerState(o), r2)),
                None => None,
            }
        } else if t == 4 {
            match dec_opt_voice(r) {
                Some((o, r2)) => Some((SpecMessage::UserVoiceState(o), r2)),
                None => None,
            }
        } else if t == 5 {
            match dec_unexpected(r) {
                Some((u, r2)) => Some((SpecMessage::Unexpected(u), r2)),
                None => None,
            }
        } else {
            None
        },
        None => None,
    }
}

#[verifier::spinoff_prover]
#[verifier::rlimit(100)]
proof fn lemma_enc_message_client_request(c: SpecClientRequest, rest: Seq<u8>)
    requires
        wf_client_request(c),
    ensures
        dec_message(enc_message(SpecMessage::ClientRequest(c)) + rest) == Some(
            (SpecMessage::ClientRequest(c), rest),
        ),
{
    let m = SpecMessage::ClientRequest(c);
    assert(enc_message(m) + rest =~= enc_u8(0u8) + (enc_client_request(c) + rest));
    lemma_enc_u8(0u8, enc_client_request(c) + rest);
    lemma_enc_client_request(c, rest);
}

#[verifier::spinoff_prover]
#[verifier::rlimit(100)]
proof fn lemma_enc_message_control_result(cr: SpecPlayerControlResult, rest: Seq<u8>)
    requires
        wf_control_result(cr),
    ensures
        dec_message(enc_message(SpecMessage::ClientControlResult(cr)) + rest) == Some(
            (SpecMessage::ClientControlResult(cr), rest),
        ),
{
    let m = SpecMessage::ClientControlResult(cr);
    assert(enc_message(m) + rest =~= enc_u8(1u8) + (enc_control_result(cr) + rest));
    lemma_enc_u8(1u8, enc_control_result(cr) + rest);
    lemma_enc_control_result(cr, rest);
}

#[verifier::spinoff_prover]
#[verifier::rlimit(100)]
proof fn lemma_enc_message_auth(a: SpecAuthMessage, rest: Seq<u8>)
    requires
        wf_auth_message(a),
    ensures
        dec_message(enc_message(SpecMessage::Auth(a)) + rest) == Some((SpecMessage::Auth(a), rest)),
{
    let m = SpecMessage::Auth(a);
    assert(enc_message(m) + rest =~= enc_u8(2u8) + (enc_auth_message(a) + rest));
    lemma_enc_u8(2u8, enc_auth_message(a) + rest);
    lemma_enc_auth_message(a, rest);
}

#[verifier::spinoff_prover]
#[verifier::rlimit(100)]
proof fn lemma_enc_message_player_state(o: Option<SpecState>, rest: Seq<u8>)
    requires
        match o {
            Some(s) => wf_state(s),
            None => true,
        },
    ensures
        dec_message(enc_message(SpecMessage::PlayerState(o)) + rest) == Some(
            (SpecMessage::PlayerState(o), rest),
        ),
{
    let m = SpecMessage::PlayerState(o);
    assert(enc_message(m) + rest =~= enc_u8(3u8) + (enc_opt_state(o) + rest));
    lemma_enc_u8(3u8, enc_opt_state(o) + rest);
    lemma_enc_opt_state(o, rest);
}

#[verifier::spinoff_prover]
#[verifier::rlimit(100)]
proof fn lemma_enc_message_voice(o: Option<SpecVoiceState>, rest: Seq<u8>)
    requires
        match o {
            Some(v) => wf_voice(v),
            None => true,
        },
    ensures
        dec_message(enc_message(SpecMessage::UserVoiceState(o)) + rest) == Some(
            (SpecMessage::UserVoiceState(o), rest),
        ),
{
    let m = SpecMessage::UserVoiceState(o);
    assert(enc_message(m) + rest =~= enc_u8(4u8) + (enc_opt_voice(o) + rest));
    lemma_enc_u8(4u8, enc_opt_voice(o) + rest);
    lemma_enc_opt_voice(o, rest);
}

#[verifier::spinoff_prover]
#[verifier::rlimit(100)]
proof fn lemma_enc_message_unexpected(u: SpecUnexpected, rest: Seq<u8>)
    requires
        wf_unexpected(u),
    ensures
        dec_message(enc_message(SpecMessage::Unexpected(u)) + rest) == Some(
            (SpecMessage::Unexpected(u), rest),
        ),
{
    let m = SpecMessage::Unexpected(u);
    assert(enc_message(m) + rest =~= enc_u8(5u8) + (enc_unexpected(u) + rest));
    lemma_enc_u8(5u8, enc_unexpected(u) + rest);
    lemma_enc_unexpected(u, rest);
}

#[verifier::spinoff_prover]
#[verifier::rlimit(100)]
pub proof fn lemma_enc_message(m: SpecMessage, rest: Seq<u8>)
    requires
        wf_message(m),
    ensures
        dec_message(enc_message(m) + rest) == Some((m, rest)),
{
    match m {
        SpecMessage::ClientRequest(c) => lemma_enc_message_client_request(c, rest),
        SpecMessage::ClientControlResult(cr) => lemma_enc_message_control_result(cr, rest),
        SpecMessage::Auth(a) => lemma_enc_message_auth(a, rest),
        SpecMessage::PlayerState(o) => lemma_enc_message_player_state(o, rest),
        SpecMessage::UserVoiceState(o) => lemma_enc_message_voice(o, rest),
        SpecMessage::Unexpected(u) => lemma_enc_message_unexpected(u, rest),
    }
}

/// What parsing a complete wire message yields: the decoded envelope, with any
/// trailing bytes ignored.
pub open spec fn spec_parse(b: Seq<u8>) -> Option<SpecMessage> {
    match dec_message(b) {
        Some((m, _)) => Some(m),
        None => None,
    }
}

/// Envelope round-trip: parsing the encoding of any well-formed envelope
/// yields that envelope back, for every variant.
pub proof fn lemma_message_round_trip(m: SpecMessage)
    requires
        wf_message(m),
    ensures
        spec_parse(enc_message(m)) == Some(m),
{
    lemma_enc_message(m, Seq::empty());
    assert(enc_message(m) + Seq::<u8>::empty() =~= enc_message(m));
}

/// Appending one element encodes as the old sequence followed by the element.
pub proof fn lemma_enc_track_seq_snoc(s: Seq<SpecTrack>, t: SpecTrack)
    ensures
        enc_track_seq(s.push(t)) == enc_track_seq(s) + enc_track(t),
    decreases s.len(),
{
    if s.len() == 0 {
        assert(s.push(t)[0] == t);
        assert(s.push(t).skip(1) =~= Seq::<SpecTrack>::empty());
        assert(enc_track_seq(Seq::<SpecTrack>::empty()) =~= Seq::<u8>::empty());
        assert(enc_track(t) + Seq::<u8>::empty() =~= enc_track(t));
        assert(enc_track_seq(s.push(t)) =~= enc_track(t));
        assert(enc_track_seq(s) + enc_track(t) =~= enc_track(t));
    } else {
        assert(s.push(t)[0] == s[0]);
        assert(s.push(t).skip(1) =~= s.skip(1).push(t));
        lemma_enc_track_seq_snoc(s.skip(1), t);
        assert(enc_track_seq(s.push(t)) =~= enc_track(s[0]) + (enc_track_seq(s.skip(1))
            + enc_track(t)));
        assert(enc_track_seq(s) + enc_track(t) =~= enc_track(s[0]) + (enc_track_seq(s.skip(1))
            + enc_track(t)));
    }
}

// ---------------------------------------------------------------------------
// Executable encoders. Each appends the spec encoding of its argument.
// ---------------------------------------------------------------------------

pub(crate) fn e_u8(out: &mut Vec<u8>, v: u8)
    ensures
        final(out)@ == old(out)@ + enc_u8(v),
{
    out.push(v);
    assert(out@ =~= old(out)@ + enc_u8(v));
}

fn e_u32(out: &mut Vec<u8>, v: u32)
    ensures
        final(out)@ == old(out)@ + enc_u32(v),
{
    out.push((v & 0xff) as u8);
    out.push(((v >> 8) & 0xff) as u8);
    out.push(((v >> 16) & 0xff) as u8);
    out.push(((v >> 24) & 0xff) as u8);
    assert(out@ =~= old(out)@ + enc_u32(v));
}

fn e_u64(out: &mut Vec<u8>, v: u64)
    ensures
        final(out)@ == old(out)@ + enc_u64(v),
{
    out.push((v & 0xff) as u8);
    out.push(((v >> 8) & 0xff) as u8);
    out.push(((v >> 16) & 0xff) as u8);
    out.push(((v >> 24) & 0xff) as u8);
    out.push(((v >> 32) & 0xff) as u8);
    out.push(((v >> 40) & 0xff) as u8);
    out.push(((v >> 48) & 0xff) as u8);
    out.push(((v >> 56) & 0xff) as u8);
    assert(out@ =~= old(out)@ + enc_u64(v));
}

pub(crate) fn e_bool(out: &mut Vec<u8>, v: bool)
    ensures
        final(out)@ == old(out)@ + enc_bool(v),
{
    if v {
        out.push(1);
    } else {
        out.push(0);
    }
    assert(out@ =~= old(out)@ + enc_bool(v));
}

fn e_usize(out: &mut Vec<u8>, v: usize)
    ensures
        final(out)@ == old(out)@ + enc_usize(v),
{
    e_u64(out, v as u64);
}

fn e_bytes(out: &mut Vec<u8>, b: &Vec<u8>)
    ensures
        final(out)@ == old(out)@ + enc_bytes(b@),
{
    e_u64(out, b.len() as u64);
    out.extend_from_slice(b.as_slice());
    assert(out@ =~= old(out)@ + enc_bytes(b@));
}

fn e_str(out: &mut Vec<u8>, s: &String)
    ensures
        final(out)@ == old(out)@ + enc_str(s@),
{
    let bs: &[u8] = s.as_str().as_bytes();
    assert(bs@ == encode_utf8(s@));
    e_u64(out, bs.len() as u64);
    out.extend_from_slice(bs);
    assert(out@ =~= old(out)@ + enc_str(s@));
}

fn e_duration(out: &mut Vec<u8>, d: Duration)
    ensures
        final(out)@ == old(out)@ + enc_duration(d),
{
    e_u64(out, d.secs);
    e_u32(out, d.nanos);
    assert(out@ =~= old(out)@ + enc_duration(d));
}

pub(crate) fn e_mode(out: &mut Vec<u8>, m: &PlayMode)
    ensures
        final(out)@ == old(out)@ + enc_mode(*m),
{
    match m {
        PlayMode::Normal => e_u8(out, 0),
        PlayMode::LoopAll => e_u8(out, 1),
        PlayMode::LoopOne => e_u8(out, 2),
    }
    assert(out@ =~= old(out)@ + enc_mode(*m));
}

fn e_track(out: &mut Vec<u8>, t: &Track)
    ensures
        final(out)@ == old(out)@ + enc_track(t@),
{
    e_duration(out, t.len);
    e_duration(out, t.pos);
    e_str(out, &t.title);
    e_str(out, &t.uri);
    assert(out@ =~= old(out)@ + enc_track(t@));
}

pub(crate) fn e_tracks(out: &mut Vec<u8>, v: &Vec<Track>)
    ensures
        final(out)@ == old(out)@ + enc_tracks(view_tracks(v@)),
{
    e_u64(out, v.len() as u64);
    let ghost base = out@;
    let mut i: usize = 0;
    while i < v.len()
        invariant
            i <= v.len(),
            out@ == base + enc_track_seq(view_tracks(v@).take(i as int)),
        decreases v.len() - i,
    {
        assert(view_tracks(v@).take(i as int) =~= view_tracks(v@).take(i as int));
        assert(view_tracks(v@)[i as int] == v@[i as int]@);
        e_track(out, &v[i]);
        proof {
            lemma_enc_track_seq_snoc(view_tracks(v@).take(i as int), v@[i as int]@);
            assert(view_tracks(v@).take(i as int).push(v@[i as int]@) =~= view_tracks(v@).take(
                i as int + 1,
            ));
        }
        i += 1;
    }
    assert(view_tracks(v@).take(v.len() as int) =~= view_tracks(v@));
    assert(out@ =~= old(out)@ + enc_tracks(view_tracks(v@)));
}

pub(crate) fn e_opt_track(out: &mut Vec<u8>, o: &Option<Track>)
    ensures
        final(out)@ == old(out)@ + enc_opt_track(crate::messages::view_opt_track(*o)),
{
    match o {
        None => e_u8(out, 0),
        Some(t) => {
            e_u8(out, 1);
            e_track(out, t);
        },
    }
    assert(out@ =~= old(out)@ + enc_opt_track(crate::messages::view_opt_track(*o)));
}

pub(crate) fn e_bot(out: &mut Vec<u8>, bi: &BotInfo)
    ensures
        final(out)@ == old(out)@ + enc_bot(bi@),
{
    e_str(out, &bi.name);
    e_str(out, &bi.avatar);
    assert(out@ =~= old(out)@ + enc_bot(bi@));
}

fn e_player_state(out: &mut Vec<u8>, p: &PlayerState)
    ensures
        final(out)@ == old(out)@ + enc_player_state(p@),
{
    e_bot(out, &p.bot);
    e_bool(out, p.paused);
    e_mode(out, &p.mode);
    e_opt_track(out, &p.current);
    e_tracks(out, &p.history);
    e_tracks(out, &p.queue);
    assert(out@ =~= old(out)@ + enc_player_state(p@));
}

fn e_user(out: &mut Vec<u8>, u: &User)
    ensures
        final(out)@ == old(out)@ + enc_user(u@),
{
    e_str(out, &u.username);
    e_str(out, &u.id);
    e_str(out, &u.avatar);
    assert(out@ =~= old(out)@ + enc_user(u@));
}

fn e_voice(out: &mut Vec<u8>, v: &VoiceState)
    ensures
        final(out)@ == old(out)@ + enc_voice(v@),
{
    e_u64(out, v.channel_id);
    e_str(out, &v.channel_name);
    assert(out@ =~= old(out)@ + enc_voice(v@));
}

fn e_opt_voice(out: &mut Vec<u8>, o: &Option<VoiceState>)
    ensures
        final(out)@ == old(out)@ + enc_opt_voice(crate::messages::view_opt_voice(*o)),
{
    match o {
        None => e_u8(out, 0),
        Some(v) => {
            e_u8(out, 1);
            e_voice(out, v);
        },
    }
    assert(out@ =~= old(out)@ + enc_opt_voice(crate::messages::view_opt_voice(*o)));
}

fn e_auth(out: &mut Vec<u8>, a: &Auth)
    ensures
        final(out)@ == old(out)@ + enc_auth(a@),
{
    match a {
        Auth::Code(c) => {
            e_u8(out, 0);
            e_str(out, c.secret());
        },
        Auth::Token(t) => {
            e_u8(out, 1);
            e_str(out, t.secret());
        },
    }
    assert(out@ =~= old(out)@ + enc_auth(a@));
}

fn e_auth_message(out: &mut Vec<u8>, m: &AuthMessage)
    ensures
        final(out)@ == old(out)@ + enc_auth_message(m@),
{
    match m {
        AuthMessage::AuthStatus(v) => {
            e_u8(out, 0);
            e_bool(out, *v);
        },
        AuthMessage::AuthSuccess(u, t) => {
            e_u8(out, 1);
            e_user(out, u);
            e_str(out, t.secret());
        },
        AuthMessage::AuthError() => e_u8(out, 2),
    }
    assert(out@ =~= old(out)@ + enc_auth_message(m@));
}

fn e_state(out: &mut Vec<u8>, s: &State)
    ensures
        final(out)@ == old(out)@ + enc_state(s@),
{
    match s {
        State::FullState(p) => {
            e_u8(out, 0);
            e_player_state(out, &**p);
        },
        State::UpdateState(b) => {
            e_u8(out, 1);
            e_bytes(out, b);
        },
        State::EmptyState() => e_u8(out, 2),
    }
    assert(out@ =~= old(out)@ + enc_state(s@));
}

fn e_opt_state(out: &mut Vec<u8>, o: &Option<State>)
    ensures
        final(out)@ == old(out)@ + enc_opt_state(crate::messages::view_opt_state(*o)),
{
    match o {
        None => e_u8(out, 0),
        Some(s) => {
            e_u8(out, 1);
            e_state(out, s);
        },
    }
    assert(out@ =~= old(out)@ + enc_opt_state(crate::messages::view_opt_state(*o)));
}

fn e_control(out: &mut Vec<u8>, c: &PlayerControl)
    ensures
        final(out)@ == old(out)@ + enc_control(c@),
{
    match c {
        PlayerControl::Resume() => e_u8(out, 0),
        PlayerControl::Pause() => e_u8(out, 1),
        PlayerControl::Skip(n) => {
            e_u8(out, 2);
            e_usize(out, *n);
        },
        PlayerControl::BackSkip(n) => {
            e_u8(out, 3);
            e_usize(out, *n);
        },
        PlayerControl::SetTime(d) => {
            e_u8(out, 4);
            e_duration(out, *d);
        },
        PlayerControl::PlayMode(m) => {
            e_u8(out, 5);
            e_mode(out, m);
        },
        PlayerControl::Enqueue(u) => {
            e_u8(out, 6);
            e_str(out, u);
        },
        PlayerControl::Leave() => e_u8(out, 7),
        PlayerControl::Join() => e_u8(out, 8),
    }
    assert(out@ =~= old(out)@ + enc_control(c@));
}

fn e_ctl_res(out: &mut Vec<u8>, r: &Result<(), String>)
    ensures
        final(out)@ == old(out)@ + enc_ctl_res(
            match r {
                Ok(_) => Ok(()),
                Err(e) => Err(e@),
            },
        ),
{
    match r {
        Ok(_) => e_u8(out, 0),
        Err(e) => {
            e_u8(out, 1);
            e_str(out, e);
        },
    }
    assert(out@ =~= old(out)@ + enc_ctl_res(
        match r {
            Ok(_) => Ok(()),
            Err(e) => Err(e@),
        },
    ));
}

fn e_control_result(out: &mut Vec<u8>, cr: &PlayerControlResult)
    ensures
        final(out)@ == old(out)@ + enc_control_result(cr@),
{
    e_str(out, &cr.uuid);
    e_control(out, &cr.req);
    e_ctl_res(out, &cr.res);
    assert(out@ =~= old(out)@ + enc_control_result(cr@));
}

fn e_client_request(out: &mut Vec<u8>, c: &ClientRequest)
    ensures
        final(out)@ == old(out)@ + enc_client_request(c@),
{
    match c {
        ClientRequest::Authenticate(a) => {
            e_u8(out, 0);
            e_auth(out, a);
        },
        ClientRequest::AuthStatus() => e_u8(out, 1),
        ClientRequest::Control(u, pc) => {
            e_u8(out, 2);
            e_str(out, u);
            e_control(out, pc);
        },
        ClientRequest::End() => e_u8(out, 3),
    }
    assert(out@ =~= old(out)@ + enc_client_request(c@));
}

fn e_unexpected(out: &mut Vec<u8>, u: &Unexpected)
    ensures
        final(out)@ == old(out)@ + enc_unexpected(u@),
{
    match u {
        Unexpected::WsMessageTypeString(s) => {
            e_u8(out, 0);
            e_str(out, s);
        },
        Unexpected::ParseError(b, s) => {
            e_u8(out, 1);
            e_bytes(out, b);
            e_str(out, s);
        },
        Unexpected::MessageType(s) => {
            e_u8(out, 2);
            e_str(out, s);
        },
    }
    assert(out@ =~= old(out)@ + enc_unexpected(u@));
}

fn e_message(out: &mut Vec<u8>, m: &Message)
    ensures
        final(out)@ == old(out)@ + enc_message(m@),
{
    match m {
        Message::ClientRequest(c) => {
            e_u8(out, 0);
            e_client_request(out, c);
        },
        Message::ClientControlResult(cr) => {
            e_u8(out, 1);
            e_control_result(out, cr);
        },
        Message::Auth(a) => {
            e_u8(out, 2);
            e_auth_message(out, a);
        },
        Message::PlayerState(o) => {
            e_u8(out, 3);
            e_opt_state(out, o);
        },
        Message::UserVoiceState(o) => {
            e_u8(out, 4);
            e_opt_voice(out, o);
        },
        Message::Unexpected(u) => {
            e_u8(out, 5);
            e_unexpected(out, u);
        },
    }
    assert(out@ =~= old(out)@ + enc_message(m@));
}

// ---------------------------------------------------------------------------
// Executable decoders. Each consumes the front of a slice and agrees exactly
// with its spec decoder, on success and on failure alike.
// ---------------------------------------------------------------------------

/// Relies on `String::from_utf8`: it succeeds exactly on valid UTF-8 input and
/// yields the string whose UTF-8 encoding is that input.
#[verifier::external_body]
fn string_from_utf8(v: Vec<u8>) -> (r: Option<String>)
    ensures
        r is Some <==> valid_utf8(v@),
        r matches Some(s) ==> s@ == decode_utf8(v@),
{
    String::from_utf8(v).ok()
}

pub(crate) fn d_u8<'a>(b: &'a [u8]) -> (r: Option<(u8, &'a [u8])>)
    ensures
        match r {
            Some(p) => dec_u8(b@) == Some((p.0, p.1@)),
            None => dec_u8(b@) is None,
        },
{
    if b.len() >= 1 {
        let v = b[0];
        let (_, rest) = b.split_at(1);
        assert(rest@ =~= b@.skip(1));
        Some((v, rest))
    } else {
        None
    }
}

fn d_u32<'a>(b: &'a [u8]) -> (r: Option<(u32, &'a [u8])>)
    ensures
        match r {
            Some(p) => dec_u32(b@) == Some((p.0, p.1@)),
            None => dec_u32(b@) is None,
        },
{
    if b.len() >= 4 {
        let v = (b[0] as u32) | ((b[1] as u32) << 8) | ((b[2] as u32) << 16) | ((b[3] as u32)
            << 24);
        let (_, rest) = b.split_at(4);
        assert(rest@ =~= b@.skip(4));
        Some((v, rest))
    } else {
        None
    }
}

fn d_u64<'a>(b: &'a [u8]) -> (r: Option<(u64, &'a [u8])>)
    ensures
        match r {
            Some(p) => dec_u64(b@) == Some((p.0, p.1@)),
            None => dec_u64(b@) is None,
        },
{
    if b.len() >= 8 {
        let v = (b[0] as u64) | ((b[1] as u64) << 8) | ((b[2] as u64) << 16) | ((b[3] as u64)
            << 24) | ((b[4] as u64) << 32) | ((b[5] as u64) << 40) | ((b[6] as u64) << 48) | ((b[7]
            as u64) << 56);
        let (_, rest) = b.split_at(8);
        assert(rest@ =~= b@.skip(8));
        Some((v, rest))
    } else {
        None
    }
}

pub(crate) fn d_bool<'a>(b: &'a [u8]) -> (r: Option<(bool, &'a [u8])>)
    ensures
        match r {
            Some(p) => dec_bool(b@) == Some((p.0, p.1@)),
            None => dec_bool(b@) is None,
        },
{
    match d_u8(b) {
        Some((t, rest)) => if t == 0 {
            Some((false, rest))
        } else if t == 1 {
            Some((true, rest))
        } else {
            None
        },
        None => None,
    }
}

fn d_usize<'a>(b: &'a [u8]) -> (r: Option<(usize, &'a [u8])>)
    ensures
        match r {
            Some(p) => dec_usize(b@) == Some((p.0, p.1@)),
            None => dec_usize(b@) is None,
        },
{
    match d_u64(b) {
        Some((v, rest)) => if v <= usize::MAX as u64 {
            Some((v as usize, rest))
        } else {
            None
        },
        None => None,
    }
}

fn d_bytes<'a>(b: &'a [u8]) -> (r: Option<(Vec<u8>, &'a [u8])>)
    ensures
        match r {
            Some(p) => dec_bytes(b@) == Some((p.0@, p.1@)),
            None => dec_bytes(b@) is None,
        },
{
    match d_u64(b) {
        Some((n, rest)) => if n <= rest.len() as u64 {
            let (head, tail) = rest.split_at(n as usize);
            let v = slice_to_vec(head);
            assert(v@ =~= rest@.take(n as int));
            assert(tail@ =~= rest@.skip(n as int));
            Some((v, tail))
        } else {
            None
        },
        None => None,
    }
}

fn d_str<'a>(b: &'a [u8]) -> (r: Option<(String, &'a [u8])>)
    ensures
        match r {
            Some(p) => dec_str(b@) == Some((p.0@, p.1@)),
            None => dec_str(b@) is None,
        },
{
    match d_bytes(b) {
        Some((bs, rest)) => {
            let ghost bsv = bs@;
            match string_from_utf8(bs) {
                Some(s) => Some((s, rest)),
                None => {
                    assert(!valid_utf8(bsv));
                    None
                },
            }
        },
        None => None,
    }
}

fn d_duration<'a>(b: &'a [u8]) -> (r: Option<(Duration, &'a [u8])>)
    ensures
        match r {
            Some(p) => dec_duration(b@) == Some((p.0, p.1@)),
            None => dec_duration(b@) is None,
        },
{
    match d_u64(b) {
        Some((secs, r1)) => match d_u32(r1) {
            Some((nanos, r2)) => Some((Duration { secs, nanos }, r2)),
            None => None,
        },
        None => None,
    }
}

pub(crate) fn d_mode<'a>(b: &'a [u8]) -> (r: Option<(PlayMode, &'a [u8])>)
    ensures
        match r {
            Some(p) => dec_mode(b@) == Some((p.0, p.1@)),
            None => dec_mode(b@) is None,
        },
{
    match d_u8(b) {
        Some((t, rest)) => if t == 0 {
            Some((PlayMode::Normal, rest))
        } else if t == 1 {
            Some((PlayMode::LoopAll, rest))
        } else if t == 2 {
            Some((PlayMode::LoopOne, rest))
        } else {
            None
        },
        None => None,
    }
}

fn d_track<'a>(b: &'a [u8]) -> (r: Option<(Track, &'a [u8])>)
    ensures
        match r {
            Some(p) => dec_track(b@) == Some((p.0@, p.1@)),
            None => dec_track(b@) is None,
        },
{
    match d_duration(b) {
        Some((len, r1)) => match d_duration(r1) {
            Some((pos, r2)) => match d_str(r2) {
                Some((title, r3)) => match d_str(r3) {
                    Some((uri, r4)) => {
                        let t = Track { len, pos, title, uri };
                        assert(dec_track(b@) matches Some(p) && p.0 =~= t@ && p.1 == r4@);
                        Some((t, r4))
                    },
                    None => None,
                },
                None => None,
            },
            None => None,
        },
        None => None,
    }
}

pub(crate) fn d_tracks<'a>(b: &'a [u8]) -> (r: Option<(Vec<Track>, &'a [u8])>)
    ensures
        match r {
            Some(p) => dec_tracks(b@) == Some((view_tracks(p.0@), p.1@)),
            None => dec_tracks(b@) is None,
        },
{
    match d_u64(b) {
        Some((n, r0)) => {
            let mut acc: Vec<Track> = Vec::new();
            let mut cur: &[u8] = r0;
            let mut i: u64 = 0;
            assert(view_tracks(acc@) =~= Seq::<SpecTrack>::empty());
            loop
                invariant
                    i <= n,
                    dec_u64(b@) == Some((n, r0@)),
                    match dec_track_seq(cur@, (n - i) as nat) {
                        Some(p) => dec_track_seq(r0@, n as nat) == Some(
                            (view_tracks(acc@) + p.0, p.1),
                        ),
                        None => dec_track_seq(r0@, n as nat) is None,
                    },
                decreases n - i,
            {
                if i == n {
                    assert(dec_track_seq(cur@, 0) == Some((Seq::<SpecTrack>::empty(), cur@)));
                    assert(view_tracks(acc@) + Seq::<SpecTrack>::empty() =~= view_tracks(acc@));
                    return Some((acc, cur));
                }
                match d_track(cur) {
                    Some((t, next)) => {
                        let ghost prev_acc = acc@;
                        acc.push(t);
                        assert(view_tracks(acc@) =~= view_tracks(prev_acc).push(t@));
                        proof {
                            assert(dec_track(cur@) == Some((t@, next@)));
                            assert(forall|ts: Seq<SpecTrack>|
                                view_tracks(prev_acc) + (seq![t@] + ts) =~= (view_tracks(
                                    prev_acc,
                                ).push(t@)) + ts);
                        }
                        cur = next;
                        i = i + 1;
                    },
                    None => {
                        return None;
                    },
                }
            }
        },
        None => None,
    }
}

pub(crate) fn d_opt_track<'a>(b: &'a [u8]) -> (r: Option<(Option<Track>, &'a [u8])>)
    ensures
        match r {
            Some(p) => dec_opt_track(b@) == Some((crate::messages::view_opt_track(p.0), p.1@)),
            None => dec_opt_track(b@) is None,
        },
{
    match d_u8(b) {
        Some((t, rest)) => if t == 0 {
            Some((None, rest))
        } else if t == 1 {
            match d_track(rest) {
                Some((tr, r2)) => Some((Some(tr), r2)),
                None => None,
            }
        } else {
            None
        },
        None => None,
    }
}

pub(crate) fn d_bot<'a>(b: &'a [u8]) -> (r: Option<(BotInfo, &'a [u8])>)
    ensures
        match r {
            Some(p) => dec_bot(b@) == Some((p.0@, p.1@)),
            None => dec_bot(b@) is None,
        },
{
    match d_str(b) {
        Some((name, r1)) => match d_str(r1) {
            Some((avatar, r2)) => {
                let bi = BotInfo { name, avatar };
                assert(dec_bot(b@) matches Some(p) && p.0 =~= bi@ && p.1 == r2@);
                Some((bi, r2))
            },
            None => None,
        },
        None => None,
    }
}

fn d_player_state<'a>(b: &'a [u8]) -> (r: Option<(PlayerState, &'a [u8])>)
    ensures
        match r {
            Some(p) => dec_player_state(b@) == Some((p.0@, p.1@)),
            None => dec_player_state(b@) is None,
        },
{
    match d_bot(b) {
        Some((bot, r1)) => match d_bool(r1) {
            Some((paused, r2)) => match d_mode(r2) {
                Some((mode, r3)) => match d_opt_track(r3) {
                    Some((current, r4)) => match d_tracks(r4) {
                        Some((history, r5)) => match d_tracks(r5) {
                            Some((queue, r6)) => {
                                let p = PlayerState { bot, paused, mode, current, history, queue };
                                assert(dec_player_state(b@) matches Some(q) && q.0 =~= p@ && q.1
                                    == r6@);
                                Some((p, r6))
                            },
                            None => None,
                        },
                        None => None,
                    },
                    None => None,
                },
                None => None,
            },
            None => None,
        },
        None => None,
    }
}

fn d_user<'a>(b: &'a [u8]) -> (r: Option<(User, &'a [u8])>)
    ensures
        match r {
            Some(p) => dec_user(b@) == Some((p.0@, p.1@)),
            None => dec_user(b@) is None,
        },
{
    match d_str(b) {
        Some((username, r1)) => match d_str(r1) {
            Some((id, r2)) => match d_str(r2) {
                Some((avatar, r3)) => {
                    let u = User { username, id, avatar };
                    assert(dec_user(b@) matches Some(p) && p.0 =~= u@ && p.1 == r3@);
                    Some((u, r3))
                },
                None => None,
            },
            None => None,
        },
        None => None,
    }
}

fn d_voice<'a>(b: &'a [u8]) -> (r: Option<(VoiceState, &'a [u8])>)
    ensures
        match r {
            Some(p) => dec_voice(b@) == Some((p.0@, p.1@)),
            None => dec_voice(b@) is None,
        },
{
    match d_u64(b) {
        Some((channel_id, r1)) => match d_str(r1) {
            Some((channel_name, r2)) => {
                let v = VoiceState { channel_id, channel_name };
                assert(dec_voice(b@) matches Some(p) && p.0 =~= v@ && p.1 == r2@);
                Some((v, r2))
            },
            None => None,
        },
        None => None,
    }
}

fn d_opt_voice<'a>(b: &'a [u8]) -> (r: Option<(Option<VoiceState>, &'a [u8])>)
    ensures
        match r {
            Some(p) => dec_opt_voice(b@) == Some((crate::messages::view_opt_voice(p.0), p.1@)),
            None => dec_opt_voice(b@) is None,
        },
{
    match d_u8(b) {
        Some((t, rest)) => if t == 0 {
            Some((None, rest))
        } else if t == 1 {
            match d_voice(rest) {
                Some((v, r2)) => Some((Some(v), r2)),
                None => None,
            }
        } else {
            None
        },
        None => None,
    }
}

fn d_auth<'a>(b: &'a [u8]) -> (r: Option<(Auth, &'a [u8])>)
    ensures
        match r {
            Some(p) => dec_auth(b@) == Some((p.0@, p.1@)),
            None => dec_auth(b@) is None,
        },
{
    match d_u8(b) {
        Some((t, rest)) => if t == 0 {
            match d_str(rest) {
                Some((s, r2)) => Some((Auth::Code(AuthorizationCode::new(s)), r2)),
                None => None,
            }
        } else if t == 1 {
            match d_str(rest) {
                Some((s, r2)) => Some((Auth::Token(RefreshToken::new(s)), r2)),
                None => None,
            }
        } else {
            None
        },
        None => None,
    }
}

fn d_auth_message<'a>(b: &'a [u8]) -> (r: Option<(AuthMessage, &'a [u8])>)
    ensures
        match r {
            Some(p) => dec_auth_message(b@) == Some((p.0@, p.1@)),
            None => dec_auth_message(b@) is None,
        },
{
    match d_u8(b) {
        Some((t, rest)) => if t == 0 {
            match d_bool(rest) {
                Some((v, r2)) => Some((AuthMessage::AuthStatus(v), r2)),
                None => None,
            }
        } else if t == 1 {
            match d_user(rest) {
                Some((u, r2)) => match d_str(r2) {
                    Some((tok, r3)) => Some(
                        (AuthMessage::AuthSuccess(u, RefreshToken::new(tok)), r3),
                    ),
                    None => None,
                },
                None => None,
            }
        } else if t == 2 {
            Some((AuthMessage::AuthError(), rest))
        } else {
            None
        },
        None => None,
    }
}

fn d_state<'a>(b: &'a [u8]) -> (r: Option<(State, &'a [u8])>)
    ensures
        match r {
            Some(p) => dec_state(b@) == Some((p.0@, p.1@)),
            None => dec_state(b@) is None,
        },
{
    match d_u8(b) {
        Some((t, rest)) => if t == 0 {
            match d_player_state(rest) {
                Some((p, r2)) => Some((State::FullState(Box::new(p)), r2)),
                None => None,
            }
        } else if t == 1 {
            match d_bytes(rest) {
                Some((bs, r2)) => Some((State::UpdateState(bs), r2)),
                None => None,
            }
        } else if t == 2 {
            Some((State::EmptyState(), rest))
        } else {
            None
        },
        None => None,
    }
}

fn d_opt_state<'a>(b: &'a [u8]) -> (r: Option<(Option<State>, &'a [u8])>)
    ensures
        match r {
            Some(p) => dec_opt_state(b@) == Some((crate::messages::view_opt_state(p.0), p.1@)),
            None => dec_opt_state(b@) is None,
        },
{
    match d_u8(b) {
        Some((t, rest)) => if t == 0 {
            Some((None, rest))
        } else if t == 1 {
            match d_state(rest) {
                Some((s, r2)) => Some((Some(s), r2)),
                None => None,
            }
        } else {
            None
        },
        None => None,
    }
}

fn d_control<'a>(b: &'a [u8]) -> (r: Option<(PlayerControl, &'a [u8])>)
    ensures
        match r {
            Some(p) => dec_control(b@) == Some((p.0@, p.1@)),
            None => dec_control(b@) is None,
        },
{
    match d_u8(b) {
        Some((t, rest)) => if t == 0 {
            Some((PlayerControl::Resume(), rest))
        } else if t == 1 {
            Some((PlayerControl::Pause(), rest))
        } else if t == 2 {
            match d_usize(rest) {
                Some((n, r2)) => Some((PlayerControl::Skip(n), r2)),
                None => None,
            }
        } else if t == 3 {
            match d_usize(rest) {
                Some((n, r2)) => Some((PlayerControl::BackSkip(n), r2)),
                None => None,
            }
        } else if t == 4 {
            match d_duration(rest) {
                Some((d, r2)) => Some((PlayerControl::SetTime(d), r2)),
                None => None,
            }
        } else if t == 5 {
            match d_mode(rest) {
                Some((m, r2)) => Some((PlayerControl::PlayMode(m), r2)),
                None => None,
            }
        } else if t == 6 {
            match d_str(rest) {
                Some((u, r2)) => Some((PlayerControl::Enqueue(u), r2)),
                None => None,
            }
        } else if t == 7 {
            Some((PlayerControl::Leave(), rest))
        } else if t == 8 {
            Some((PlayerControl::Join(), rest))
        } else {
            None
        },
        None => None,
    }
}

fn d_ctl_res<'a>(b: &'a [u8]) -> (r: Option<(Result<(), String>, &'a [u8])>)
    ensures
        match r {
            Some(p) => dec_ctl_res(b@) == Some(
                (
                    match p.0 {
                        Ok(_) => Ok(()),
                        Err(e) => Err(e@),
                    },
                    p.1@,
                ),
            ),
            None => dec_ctl_res(b@) is None,
        },
{
    match d_u8(b) {
        Some((t, rest)) => if t == 0 {
            Some((Ok(()), rest))
        } else if t == 1 {
            match d_str(rest) {
                Some((e, r2)) => Some((Err(e), r2)),
                None => None,
            }
        } else {
            None
        },
        None => None,
    }
}

fn d_control_result<'a>(b: &'a [u8]) -> (r: Option<(PlayerControlResult, &'a [u8])>)
    ensures
        match r {
            Some(p) => dec_control_result(b@) == Some((p.0@, p.1@)),
            None => dec_control_result(b@) is None,
        },
{
    match d_str(b) {
        Some((uuid, r1)) => match d_control(r1) {
            Some((req, r2)) => match d_ctl_res(r2) {
                Some((res, r3)) => {
                    let cr = PlayerControlResult { uuid, req, res };
                    assert(dec_control_result(b@) matches Some(p) && p.0 =~= cr@ && p.1 == r3@);
                    Some((cr, r3))
                },
                None => None,
            },
            None => None,
        },
        None => None,
    }
}

fn d_client_request<'a>(b: &'a [u8]) -> (r: Option<(ClientRequest, &'a [u8])>)
    ensures
        match r {
            Some(p) => dec_client_request(b@) == Some((p.0@, p.1@)),
            None => dec_client_request(b@) is None,
        },
{
    match d_u8(b) {
        Some((t, rest)) => if t == 0 {
            match d_auth(rest) {
                Some((a, r2)) => Some((ClientRequest::Authenticate(a), r2)),
                None => None,
            }
        } else if t == 1 {
            Some((ClientRequest::AuthStatus(), rest))
        } else if t == 2 {
            match d_str(rest) {
                Some((u, r2)) => match d_control(r2) {
                    Some((pc, r3)) => Some((ClientRequest::Control(u, pc), r3)),
                    None => None,
                },
                None => None,
            }
        } else if t == 3 {
            Some((ClientRequest::End(), rest))
        } else {
            None
        },
        None => None,
    }
}

fn d_unexpected<'a>(b: &'a [u8]) -> (r: Option<(Unexpected, &'a [u8])>)
    ensures
        match r {
            Some(p) => dec_unexpected(b@) == Some((p.0@, p.1@)),
            None => dec_unexpected(b@) is None,
        },
{
    match d_u8(b) {
        Some((t, rest)) => if t == 0 {
            match d_str(rest) {
                Some((s, r2)) => Some((Unexpected::WsMessageTypeString(s), r2)),
                None => None,
            }
        } else if t == 1 {
            match d_bytes(rest) {
                Some((bs, r2)) => match d_str(r2) {
                    Some((s, r3)) => Some((Unexpected::ParseError(bs, s), r3)),
                    None => None,
                },
                None => None,
            }
        } else if t == 2 {
            match d_str(rest) {
                Some((s, r2)) => Some((Unexpected::MessageType(s), r2)),
                None => None,
            }
        } else {
            None
        },
        None => None,
    }
}

fn d_message<'a>(b: &'a [u8]) -> (r: Option<(Message, &'a [u8])>)
    ensures
        match r {
            Some(p) => dec_message(b@) == Some((p.0@, p.1@)),
            None => dec_message(b@) is None,
        },
{
    match d_u8(b) {
        Some((t, rest)) => if t == 0 {
            match d_client_request(rest) {
                Some((c, r2)) => Some((Message::ClientRequest(c), r2)),
                None => None,
            }
        } else if t == 1 {
            match d_control_result(rest) {
                Some((cr, r2)) => Some((Message::ClientControlResult(cr), r2)),
                None => None,
            }
        } else if t == 2 {
            match d_auth_message(rest) {
                Some((a, r2)) => Some((Message::Auth(a), r2)),
                None => None,
            }
        } else if t == 3 {
            match d_opt_state(rest) {
                Some((o, r2)) => Some((Message::PlayerState(o), r2)),
                None => None,
            }
        } else if t == 4 {
            match d_opt_voice(rest) {
                Some((o, r2)) => Some((Message::UserVoiceState(o), r2)),
                None => None,
            }
        } else if t == 5 {
            match d_unexpected(rest) {
                Some((u, r2)) => Some((Message::Unexpected(u), r2)),
                None => None,
            }
        } else {
            None
        },
        None => None,
    }
}

// ---------------------------------------------------------------------------
// The public envelope codec.
// ---------------------------------------------------------------------------

impl Message {
    /// Encodes the envelope in the binary wire format.
    pub fn generate(&self) -> (r: Vec<u8>)
        ensures
            r@ == enc_message(self@),
    {
        let mut out: Vec<u8> = Vec::new();
        e_message(&mut out, self);
        assert(out@ =~= enc_message(self@));
        out
    }

    /// Decodes one envelope from the front of `bin`; trailing bytes are
    /// ignored. Fails exactly when no envelope can be decoded.
    pub fn parse(bin: &[u8]) -> (r: Result<Message, PatchError>)
        ensures
            match r {
                Ok(m) => spec_parse(bin@) == Some(m@),
                Err(e) => spec_parse(bin@) is None && e == PatchError::DecodeError(),
            },
    {
        match d_message(bin) {
            Some((m, _)) => Ok(m),
            None => Err(PatchError::DecodeError()),
        }
    }
}

} // verus!
