//! State synchronization: a patch records, field by field, the parts of a
//! player-state snapshot that changed, and applying it to a mirror of the old
//! snapshot reconstructs the new one exactly.
use vstd::prelude::*;
use crate::codec::dec_bool;
use crate::codec::dec_bot;
use crate::codec::dec_mode;
use crate::codec::dec_opt_track;
use crate::codec::dec_tracks;
use crate::codec::dec_u8;
use crate::codec::enc_bool;
use crate::codec::enc_bot;
use crate::codec::enc_mode;
use crate::codec::enc_opt_track;
use crate::codec::enc_tracks;
use crate::codec::enc_u8;
use crate::codec::lemma_enc_bool;
use crate::codec::lemma_enc_bot;
use crate::codec::lemma_enc_mode;
use crate::codec::lemma_enc_opt_track;
use crate::codec::lemma_enc_tracks;
use crate::codec::lemma_enc_u8;
use crate::codec::wf_bot;
use crate::codec::wf_player_state;
use crate::codec::wf_track;
use crate::codec::wf_tracks;
use crate::codec::e_bool;
use crate::codec::e_bot;
use crate::codec::e_mode;
use crate::codec::e_opt_track;
use crate::codec::e_tracks;
use crate::codec::e_u8;
use crate::codec::d_bool;
use crate::codec::d_bot;
use crate::codec::d_mode;
use crate::codec::d_opt_track;
use crate::codec::d_tracks;
use crate::codec::d_u8;
use crate::messages::BotInfo;
use crate::messages::Message;
use crate::messages::PatchError;
use crate::messages::PlayerState;
use crate::messages::SpecBotInfo;
use crate::messages::SpecMessage;
use crate::messages::SpecPlayerState;
use crate::messages::SpecState;
use crate::messages::SpecTrack;
use crate::messages::PlayMode;
use crate::messages::State;
use crate::messages::Track;
use crate::messages::view_opt_track;
use crate::messages::view_tracks;

verus! {

// ---------------------------------------------------------------------------
// The delta: for each field, either "unchanged" or the new value.
// ---------------------------------------------------------------------------

#[verifier::ext_equal]
pub struct SpecDelta {
    pub bot: Option<SpecBotInfo>,
    pub paused: Option<bool>,
    pub mode: Option<PlayMode>,
    pub current: Option<Option<SpecTrack>>,
    pub history: Option<Seq<SpecTrack>>,
    pub queue: Option<Seq<SpecTrack>>,
}

/// The fields on which `b` departs from `a`, with their values in `b`.
pub open spec fn delta_of(a: SpecPlayerState, b: SpecPlayerState) -> SpecDelta {
    SpecDelta {
        bot: if a.bot == b.bot {
            None
        } else {
            Some(b.bot)
        },
        paused: if a.paused == b.paused {
            None
        } else {
            Some(b.paused)
        },
        mode: if a.mode == b.mode {
            None
        } else {
            Some(b.mode)
        },
        current: if a.current == b.current {
            None
        } else {
            Some(b.current)
        },
        history: if a.history == b.history {
            None
        } else {
            Some(b.history)
        },
        queue: if a.queue == b.queue {
            None
        } else {
            Some(b.queue)
        },
    }
}

/// The snapshot that results from overwriting the changed fields of `a`.
pub open spec fn apply_delta(d: SpecDelta, a: SpecPlayerState) -> SpecPlayerState {
    SpecPlayerState {
        bot: match d.bot {
            Some(x) => x,
            None => a.bot,
        },
        paused: match d.paused {
            Some(x) => x,
            None => a.paused,
        },
        mode: match d.mode {
            Some(x) => x,
            None => a.mode,
        },
        current: match d.current {
            Some(x) => x,
            None => a.current,
        },
        history: match d.history {
            Some(x) => x,
            None => a.history,
        },
        queue: match d.queue {
            Some(x) => x,
            None => a.queue,
        },
    }
}

pub proof fn lemma_apply_delta_of(a: SpecPlayerState, b: SpecPlayerState)
    ensures
        apply_delta(delta_of(a, b), a) == b,
{
    assert(apply_delta(delta_of(a, b), a) =~= b);
}

// ---------------------------------------------------------------------------
// Wire form of a delta: each field as absent (0) or present (1 + value).
// ---------------------------------------------------------------------------

pub open spec fn wf_delta(d: SpecDelta) -> bool {
    (match d.bot {
        Some(x) => wf_bot(x),
        None => true,
    }) && (match d.current {
        Some(Some(t)) => wf_track(t),
        _ => true,
    }) && (match d.history {
        Some(s) => wf_tracks(s),
        None => true,
    }) && (match d.queue {
        Some(s) => wf_tracks(s),
        None => true,
    })
}

#[verifier::opaque]
pub open spec fn enc_field_bot(o: Option<SpecBotInfo>) -> Seq<u8> {
    match o {
        None => seq![0u8],
        Some(x) => seq![1u8] + enc_bot(x),
    }
}

#[verifier::opaque]
pub open spec fn dec_field_bot(b: Seq<u8>) -> Option<(Option<SpecBotInfo>, Seq<u8>)> {
    match dec_u8(b) {
        Some((t, r)) => if t == 0 {
            Some((None, r))
        } else if t == 1 {
            match dec_bot(r) {
                Some((x, r2)) => Some((Some(x), r2)),
                None => None,
            }
        } else {
            None
        },
        None => None,
    }
}

proof fn lemma_enc_field_bot(o: Option<SpecBotInfo>, rest: Seq<u8>)
    requires
        match o {
            Some(x) => wf_bot(x),
            None => true,
        },
    ensures
        dec_field_bot(enc_field_bot(o) + rest) == Some((o, rest)),
{
    reveal(enc_field_bot);
    reveal(dec_field_bot);
    match o {
        None => {
            lemma_enc_u8(0u8, rest);
            assert(enc_field_bot(o) =~= enc_u8(0u8));
        },
        Some(x) => {
            assert(enc_field_bot(o) + rest =~= enc_u8(1u8) + (enc_bot(x) + rest));
            lemma_enc_u8(1u8, enc_bot(x) + rest);
            lemma_enc_bot(x, rest);
        },
    }
}

#[verifier::opaque]
pub open spec fn enc_field_bool(o: Option<bool>) -> Seq<u8> {
    match o {
        None => seq![0u8],
        Some(x) => seq![1u8] + enc_bool(x),
    }
}

#[verifier::opaque]
pub open spec fn dec_field_bool(b: Seq<u8>) -> Option<(Option<bool>, Seq<u8>)> {
    match dec_u8(b) {
        Some((t, r)) => if t == 0 {
            Some((None, r))
        } else if t == 1 {
            match dec_bool(r) {
                Some((x, r2)) => Some((Some(x), r2)),
                None => None,
            }
        } else {
            None
        },
        None => None,
    }
}

proof fn lemma_enc_field_bool(o: Option<bool>, rest: Seq<u8>)
    ensures
        dec_field_bool(enc_field_bool(o) + rest) == Some((o, rest)),
{
    reveal(enc_field_bool);
    reveal(dec_field_bool);
    match o {
        None => {
            lemma_enc_u8(0u8, rest);
            assert(enc_field_bool(o) =~= enc_u8(0u8));
        },
        Some(x) => {
            assert(enc_field_bool(o) + rest =~= enc_u8(1u8) + (enc_bool(x) + rest));
            lemma_enc_u8(1u8, enc_bool(x) + rest);
            lemma_enc_bool(x, rest);
        },
    }
}

#[verifier::opaque]
pub open spec fn enc_field_mode(o: Option<PlayMode>) -> Seq<u8> {
    match o {
        None => seq![0u8],
        Some(x) => seq![1u8] + enc_mode(x),
    }
}

#[verifier::opaque]
pub open spec fn dec_field_mode(b: Seq<u8>) -> Option<(Option<PlayMode>, Seq<u8>)> {
    match dec_u8(b) {
        Some((t, r)) => if t == 0 {
            Some((None, r))
        } else if t == 1 {
            match dec_mode(r) {
                Some((x, r2)) => Some((Some(x), r2)),
                None => None,
            }
        } else {
            None
        },
        None => None,
    }
}

proof fn lemma_enc_field_mode(o: Option<PlayMode>, rest: Seq<u8>)
    ensures
        dec_field_mode(enc_field_mode(o) + rest) == Some((o, rest)),
{
    reveal(enc_field_mode);
    reveal(dec_field_mode);
    match o {
        None => {
            lemma_enc_u8(0u8, rest);
            assert(enc_field_mode(o) =~= enc_u8(0u8));
        },
        Some(x) => {
            assert(enc_field_mode(o) + rest =~= enc_u8(1u8) + (enc_mode(x) + rest));
            lemma_enc_u8(1u8, enc_mode(x) + rest);
            lemma_enc_mode(x, rest);
        },
    }
}

#[verifier::opaque]
pub open spec fn enc_field_current(o: Option<Option<SpecTrack>>) -> Seq<u8> {
    match o {
        None => seq![0u8],
        Some(x) => seq![1u8] + enc_opt_track(x),
    }
}

#[verifier::opaque]
pub open spec fn dec_field_current(b: Seq<u8>) -> Option<(Option<Option<SpecTrack>>, Seq<u8>)> {
    match dec_u8(b) {
        Some((t, r)) => if t == 0 {
            Some((None, r))
        } else if t == 1 {
            match dec_opt_track(r) {
                Some((x, r2)) => Some((Some(x), r2)),
                None => None,
            }
        } else {
            None
        },
        None => None,
    }
}

proof fn lemma_enc_field_current(o: Option<Option<SpecTrack>>, rest: Seq<u8>)
    requires
        match o {
            Some(Some(t)) => wf_track(t),
            _ => true,
        },
    ensures
        dec_field_current(enc_field_current(o) + rest) == Some((o, rest)),
{
    reveal(enc_field_current);
    reveal(dec_field_current);
    match o {
        None => {
            lemma_enc_u8(0u8, rest);
            assert(enc_field_current(o) =~= enc_u8(0u8));
        },
        Some(x) => {
            assert(enc_field_current(o) + rest =~= enc_u8(1u8) + (enc_opt_track(x) + rest));
            lemma_enc_u8(1u8, enc_opt_track(x) + rest);
            lemma_enc_opt_track(x, rest);
        },
    }
}

#[verifier::opaque]
pub open spec fn enc_field_tracks(o: Option<Seq<SpecTrack>>) -> Seq<u8> {
    match o {
        None => seq![0u8],
        Some(x) => seq![1u8] + enc_tracks(x),
    }
}

#[verifier::opaque]
pub open spec fn dec_field_tracks(b: Seq<u8>) -> Option<(Option<Seq<SpecTrack>>, Seq<u8>)> {
    match dec_u8(b) {
        Some((t, r)) => if t == 0 {
            Some((None, r))
        } else if t == 1 {
            match dec_tracks(r) {
                Some((x, r2)) => Some((Some(x), r2)),
                None => None,
            }
        } else {
            None
        },
        None => None,
    }
}

proof fn lemma_enc_field_tracks(o: Option<Seq<SpecTrack>>, rest: Seq<u8>)
    requires
        match o {
            Some(s) => wf_tracks(s),
            None => true,
        },
    ensures
        dec_field_tracks(enc_field_tracks(o) + rest) == Some((o, rest)),
{
    reveal(enc_field_tracks);
    reveal(dec_field_tracks);
    match o {
        None => {
            lemma_enc_u8(0u8, rest);
            assert(enc_field_tracks(o) =~= enc_u8(0u8));
        },
        Some(x) => {
            assert(enc_field_tracks(o) + rest =~= enc_u8(1u8) + (enc_tracks(x) + rest));
            lemma_enc_u8(1u8, enc_tracks(x) + rest);
            lemma_enc_tracks(x, rest);
        },
    }
}

pub open spec fn enc_delta(d: SpecDelta) -> Seq<u8> {
    enc_field_bot(d.bot) + enc_field_bool(d.paused) + enc_field_mode(d.mode) + enc_field_current(
        d.current,
    ) + enc_field_tracks(d.history) + enc_field_tracks(d.queue)
}

pub open spec fn dec_delta(b: Seq<u8>) -> Option<(SpecDelta, Seq<u8>)> {
    match dec_field_bot(b) {
        Some((bot, r1)) => match dec_field_bool(r1) {
            Some((paused, r2)) => match dec_field_mode(r2) {
                Some((mode, r3)) => match dec_field_current(r3) {
                    Some((current, r4)) => match dec_field_tracks(r4) {
                        Some((history, r5)) => match dec_field_tracks(r5) {
                            Some((queue, r6)) => Some(
                                (SpecDelta { bot, paused, mode, current, history, queue }, r6),
                            ),
                            None => None,
                        },
                        None => None,
                    },
                    None => None,
                },
                None => None,
            },
            None => None,
        },
        None => None,
    }
}

#[verifier::spinoff_prover]
#[verifier::rlimit(100)]
proof fn lemma_dec_delta_chain(
    b: Seq<u8>,
    d: SpecDelta,
    t2: Seq<u8>,
    t3: Seq<u8>,
    t4: Seq<u8>,
    t5: Seq<u8>,
    t6: Seq<u8>,
    rest: Seq<u8>,
)
    requires
        dec_field_bot(b) == Some((d.bot, t2)),
        dec_field_bool(t2) == Some((d.paused, t3)),
        dec_field_mode(t3) == Some((d.mode, t4)),
        dec_field_current(t4) == Some((d.current, t5)),
        dec_field_tracks(t5) == Some((d.history, t6)),
        dec_field_tracks(t6) == Some((d.queue, rest)),
    ensures
        dec_delta(b) == Some((d, rest)),
{
    assert(dec_delta(b) matches Some(p) && p.0 =~= d && p.1 == rest);
}

#[verifier::spinoff_prover]
#[verifier::rlimit(100)]
pub proof fn lemma_enc_delta(d: SpecDelta, rest: Seq<u8>)
    requires
        wf_delta(d),
    ensures
        dec_delta(enc_delta(d) + rest) == Some((d, rest)),
{
    let c2 = enc_field_bool(d.paused);
    let c3 = enc_field_mode(d.mode);
    let c4 = enc_field_current(d.current);
    let c5 = enc_field_tracks(d.history);
    let c6 = enc_field_tracks(d.queue);
    let b = enc_delta(d) + rest;
    let t2 = c2 + (c3 + (c4 + (c5 + (c6 + rest))));
    let t3 = c3 + (c4 + (c5 + (c6 + rest)));
    let t4 = c4 + (c5 + (c6 + rest));
    let t5 = c5 + (c6 + rest);
    let t6 = c6 + rest;
    assert(dec_field_bot(b) == Some((d.bot, t2))) by {
        assert(b =~= enc_field_bot(d.bot) + t2);
        lemma_enc_field_bot(d.bot, t2);
    }
    assert(dec_field_bool(t2) == Some((d.paused, t3))) by {
        lemma_enc_field_bool(d.paused, t3);
    }
    assert(dec_field_mode(t3) == Some((d.mode, t4))) by {
        lemma_enc_field_mode(d.mode, t4);
    }
    assert(dec_field_current(t4) == Some((d.current, t5))) by {
        lemma_enc_field_current(d.current, t5);
    }
    assert(dec_field_tracks(t5) == Some((d.history, t6))) by {
        lemma_enc_field_tracks(d.history, t6);
    }
    assert(dec_field_tracks(t6) == Some((d.queue, rest))) by {
        lemma_enc_field_tracks(d.queue, rest);
    }
    lemma_dec_delta_chain(b, d, t2, t3, t4, t5, t6, rest);
}

// ---------------------------------------------------------------------------
// What the public operations mean.
// ---------------------------------------------------------------------------

/// The patch bytes sent for the transition from `a` to `b`.
pub open spec fn spec_diff(a: SpecPlayerState, b: SpecPlayerState) -> Seq<u8> {
    enc_delta(delta_of(a, b))
}

/// What applying patch bytes `p` to a mirror `s` yields; `None` when the
/// bytes do not decode. Trailing bytes after the patch are ignored.
pub open spec fn spec_apply(p: Seq<u8>, s: SpecPlayerState) -> Option<SpecPlayerState> {
    match dec_delta(p) {
        Some((d, _)) => Some(apply_delta(d, s)),
        None => None,
    }
}

/// Diff/patch round trip: for any snapshots `a` and `b`, the patch generated
/// from `a` to `b`, applied to a mirror equal to `a`, yields exactly `b` —
/// including when sequences shrink, grow or reorder, and when the current
/// track appears or disappears.
pub proof fn lemma_diff_apply_round_trip(a: SpecPlayerState, b: SpecPlayerState)
    requires
        wf_player_state(b),
    ensures
        spec_apply(spec_diff(a, b), a) == Some(b),
{
    let d = delta_of(a, b);
    assert(wf_delta(d));
    lemma_enc_delta(d, Seq::empty());
    assert(enc_delta(d) + Seq::<u8>::empty() =~= enc_delta(d));
    lemma_apply_delta_of(a, b);
}


// ---------------------------------------------------------------------------
// Executable equality on snapshots, field by field.
// ---------------------------------------------------------------------------

fn eq_bot(a: &BotInfo, b: &BotInfo) -> (r: bool)
    ensures
        r == (a@ == b@),
{
    let r = a.name == b.name && a.avatar == b.avatar;
    proof {
        if a.name@ == b.name@ && a.avatar@ == b.avatar@ {
            assert(a@ =~= b@);
        }
    }
    r
}

fn eq_track(a: &Track, b: &Track) -> (r: bool)
    ensures
        r == (a@ == b@),
{
    let r = a.len == b.len && a.pos == b.pos && a.title == b.title && a.uri == b.uri;
    proof {
        if a.len == b.len && a.pos == b.pos && a.title@ == b.title@ && a.uri@ == b.uri@ {
            assert(a@ =~= b@);
        }
    }
    r
}

fn eq_opt_track(a: &Option<Track>, b: &Option<Track>) -> (r: bool)
    ensures
        r == (view_opt_track(*a) == view_opt_track(*b)),
{
    match (a, b) {
        (None, None) => true,
        (Some(x), Some(y)) => eq_track(x, y),
        _ => false,
    }
}

fn eq_tracks(a: &Vec<Track>, b: &Vec<Track>) -> (r: bool)
    ensures
        r == (view_tracks(a@) == view_tracks(b@)),
{
    if a.len() != b.len() {
        proof {
            assert(view_tracks(a@).len() != view_tracks(b@).len());
        }
        return false;
    }
    let mut i: usize = 0;
    while i < a.len()
        invariant
            i <= a.len(),
            a@.len() == b@.len(),
            forall|j: int| 0 <= j < i ==> view_tracks(a@)[j] == view_tracks(b@)[j],
        decreases a.len() - i,
    {
        if !eq_track(&a[i], &b[i]) {
            proof {
                assert(view_tracks(a@)[i as int] != view_tracks(b@)[i as int]);
            }
            return false;
        }
        assert(view_tracks(a@)[i as int] == view_tracks(b@)[i as int]);
        i += 1;
    }
    proof {
        assert(view_tracks(a@) =~= view_tracks(b@));
    }
    true
}

// ---------------------------------------------------------------------------
// Executable patch generation and application.
// ---------------------------------------------------------------------------

/// A decoded patch, before it is applied.
struct Delta {
    bot: Option<BotInfo>,
    paused: Option<bool>,
    mode: Option<PlayMode>,
    current: Option<Option<Track>>,
    history: Option<Vec<Track>>,
    queue: Option<Vec<Track>>,
}

impl View for Delta {
    type V = SpecDelta;

    closed spec fn view(&self) -> SpecDelta {
        SpecDelta {
            bot: match &self.bot {
                Some(x) => Some(x@),
                None => None,
            },
            paused: self.paused,
            mode: self.mode,
            current: match &self.current {
                Some(x) => Some(view_opt_track(*x)),
                None => None,
            },
            history: match &self.history {
                Some(x) => Some(view_tracks(x@)),
                None => None,
            },
            queue: match &self.queue {
                Some(x) => Some(view_tracks(x@)),
                None => None,
            },
        }
    }
}

fn d_delta<'a>(b: &'a [u8]) -> (r: Option<(Delta, &'a [u8])>)
    ensures
        match r {
            Some(p) => dec_delta(b@) == Some((p.0@, p.1@)),
            None => dec_delta(b@) is None,
        },
{
    proof {
        reveal(dec_field_bot);
        reveal(dec_field_bool);
        reveal(dec_field_mode);
        reveal(dec_field_current);
        reveal(dec_field_tracks);
    }
    let (bot, r1) = match d_u8(b) {
        Some((0, r)) => (None, r),
        Some((1, r)) => match d_bot(r) {
            Some((x, r2)) => (Some(x), r2),
            None => {
                return None;
            },
        },
        _ => {
            return None;
        },
    };
    assert(dec_field_bot(b@) == Some((
        match &bot {
            Some(x) => Some(x@),
            None => None::<SpecBotInfo>,
        },
        r1@,
    )));
    let (paused, r2) = match d_u8(r1) {
        Some((0, r)) => (None, r),
        Some((1, r)) => match d_bool(r) {
            Some((x, r2)) => (Some(x), r2),
            None => {
                return None;
            },
        },
        _ => {
            return None;
        },
    };
    let (mode, r3) = match d_u8(r2) {
        Some((0, r)) => (None, r),
        Some((1, r)) => match d_mode(r) {
            Some((x, r2)) => (Some(x), r2),
            None => {
                return None;
            },
        },
        _ => {
            return None;
        },
    };
    let (current, r4) = match d_u8(r3) {
        Some((0, r)) => (None, r),
        Some((1, r)) => match d_opt_track(r) {
            Some((x, r2)) => (Some(x), r2),
            None => {
                return None;
            },
        },
        _ => {
            return None;
        },
    };
    let (history, r5) = match d_u8(r4) {
        Some((0, r)) => (None, r),
        Some((1, r)) => match d_tracks(r) {
            Some((x, r2)) => (Some(x), r2),
            None => {
                return None;
            },
        },
        _ => {
            return None;
        },
    };
    let (queue, r6) = match d_u8(r5) {
        Some((0, r)) => (None, r),
        Some((1, r)) => match d_tracks(r) {
            Some((x, r2)) => (Some(x), r2),
            None => {
                return None;
            },
        },
        _ => {
            return None;
        },
    };
    let d = Delta { bot, paused, mode, current, history, queue };
    assert(dec_delta(b@) matches Some(p) && p.0 =~= d@ && p.1 == r6@);
    Some((d, r6))
}

fn apply_to(d: Delta, state: &mut PlayerState)
    ensures
        final(state)@ == apply_delta(d@, old(state)@),
{
    let Delta { bot, paused, mode, current, history, queue } = d;
    match bot {
        Some(x) => state.bot = x,
        None => (),
    }
    match paused {
        Some(x) => state.paused = x,
        None => (),
    }
    match mode {
        Some(x) => state.mode = x,
        None => (),
    }
    match current {
        Some(x) => state.current = x,
        None => (),
    }
    match history {
        Some(x) => state.history = x,
        None => (),
    }
    match queue {
        Some(x) => state.queue = x,
        None => (),
    }
    assert(final(state)@ =~= apply_delta(
        SpecDelta {
            bot: match &bot {
                Some(x) => Some(x@),
                None => None,
            },
            paused,
            mode,
            current: match &current {
                Some(x) => Some(view_opt_track(*x)),
                None => None,
            },
            history: match &history {
                Some(x) => Some(view_tracks(x@)),
                None => None,
            },
            queue: match &queue {
                Some(x) => Some(view_tracks(x@)),
                None => None,
            },
        },
        old(state)@,
    ));
}

impl Message {
    /// Builds the patch that carries a snapshot transition: for each field of
    /// the player state, the new value where it changed and nothing where it
    /// did not.
    #[verifier::spinoff_prover]
    #[verifier::rlimit(100)]
    pub fn generate_patch(old_state: &PlayerState, new_state: &PlayerState) -> (r: Vec<u8>)
        ensures
            r@ == spec_diff(old_state@, new_state@),
    {
        let ghost dd = delta_of(old_state@, new_state@);
        let mut out: Vec<u8> = Vec::new();
        let ghost b0 = out@;
        if eq_bot(&old_state.bot, &new_state.bot) {
            e_u8(&mut out, 0);
        } else {
            e_u8(&mut out, 1);
            e_bot(&mut out, &new_state.bot);
        }
        assert(out@ =~= b0 + enc_field_bot(dd.bot)) by {
            reveal(enc_field_bot);
        }
        let ghost b1 = out@;
        if old_state.paused == new_state.paused {
            e_u8(&mut out, 0);
        } else {
            e_u8(&mut out, 1);
            e_bool(&mut out, new_state.paused);
        }
        assert(out@ =~= b1 + enc_field_bool(dd.paused)) by {
            reveal(enc_field_bool);
        }
        let ghost b2 = out@;
        let same_mode = match (&old_state.mode, &new_state.mode) {
            (PlayMode::Normal, PlayMode::Normal) => true,
            (PlayMode::LoopAll, PlayMode::LoopAll) => true,
            (PlayMode::LoopOne, PlayMode::LoopOne) => true,
            _ => false,
        };
        if same_mode {
            e_u8(&mut out, 0);
        } else {
            e_u8(&mut out, 1);
            e_mode(&mut out, &new_state.mode);
        }
        assert(out@ =~= b2 + enc_field_mode(dd.mode)) by {
            reveal(enc_field_mode);
        }
        let ghost b3 = out@;
        if eq_opt_track(&old_state.current, &new_state.current) {
            e_u8(&mut out, 0);
        } else {
            e_u8(&mut out, 1);
            e_opt_track(&mut out, &new_state.current);
        }
        assert(out@ =~= b3 + enc_field_current(dd.current)) by {
            reveal(enc_field_current);
        }
        let ghost b4 = out@;
        if eq_tracks(&old_state.history, &new_state.history) {
            e_u8(&mut out, 0);
        } else {
            e_u8(&mut out, 1);
            e_tracks(&mut out, &new_state.history);
        }
        assert(out@ =~= b4 + enc_field_tracks(dd.history)) by {
            reveal(enc_field_tracks);
        }
        let ghost b5 = out@;
        if eq_tracks(&old_state.queue, &new_state.queue) {
            e_u8(&mut out, 0);
        } else {
            e_u8(&mut out, 1);
            e_tracks(&mut out, &new_state.queue);
        }
        assert(out@ =~= b5 + enc_field_tracks(dd.queue)) by {
            reveal(enc_field_tracks);
        }
        assert(out@ =~= enc_delta(dd));
        out
    }

    /// Applies the patch carried by an `UpdateState` message to a mirror
    /// snapshot, which must equal the snapshot the patch was generated from.
    /// Any other message is rejected unchanged.
    pub fn patch_player_state(&self, state: &mut PlayerState) -> (r: Result<(), PatchError>)
        ensures
            match self@ {
                SpecMessage::PlayerState(o) => match o {
                    Some(SpecState::UpdateState(p)) => match spec_apply(p, old(state)@) {
                        Some(s2) => r == Ok::<(), PatchError>(()) && final(state)@ == s2,
                        None => r == Err::<(), PatchError>(PatchError::DecodeError())
                            && final(state)@ == old(state)@,
                    },
                    _ => r == Err::<(), PatchError>(PatchError::WrongVariant()) && final(state)@
                        == old(state)@,
                },
                _ => r == Err::<(), PatchError>(PatchError::WrongVariant()) && final(state)@
                    == old(state)@,
            },
    {
        if let Message::PlayerState(Some(State::UpdateState(patch))) = self {
            match d_delta(patch.as_slice()) {
                Some((d, _)) => {
                    apply_to(d, state);
                    Ok(())
                },
                None => Err(PatchError::DecodeError()),
            }
        } else {
            Err(PatchError::WrongVariant())
        }
    }
}

} // verus!
