//! Playing a sound: which sound is active, and what each pull of the clip
//! stream hands to the resampler.

use crate::ids::{is_canonical_uuid_text, law_uuid_text_canonical, parse_uuid_text, uuid_text};
use crate::storage::ClipState;
use vstd::prelude::*;

verus! {

/// The sound being played and the index of its next sample.
#[derive(Debug)]
pub struct ActiveSound {
    pub uuid: String,
    pub position: usize,
}

/// What one pull of the clip stream gives.
#[derive(Debug, Clone, Copy, PartialEq, Eq, Structural)]
pub enum ClipPull {
    /// The sample at this index of the preloaded clip.
    Sample(usize),
    /// The clip is only partly in memory. Streaming the rest is not
    /// supported, and a fixed stand-in value is played in its place.
    PartialStandIn,
    /// Nothing to play now.
    Waiting,
    /// The clip has just finished; nothing is active any more.
    Ended,
}

/// The active sound after one pull, and what the pull gives, where `clip`
/// is what is held of the active sound (`None`: nothing under its id).
pub open spec fn pull_spec(active: Option<ActiveSound>, clip: Option<ClipState>) -> (
    Option<ActiveSound>,
    ClipPull,
) {
    match active {
        None => (None, ClipPull::Waiting),
        Some(a) => match clip {
            None => (active, ClipPull::Waiting),
            Some(ClipState::NotLoaded) => (active, ClipPull::Waiting),
            Some(ClipState::Partial { .. }) => (active, ClipPull::PartialStandIn),
            Some(ClipState::Preloaded { len }) => {
                if a.position == len {
                    (None, ClipPull::Ended)
                } else {
                    (
                        Some(ActiveSound { uuid: a.uuid, position: (a.position + 1) as usize }),
                        ClipPull::Sample(a.position),
                    )
                }
            },
        },
    }
}

/// A pull never starts past the end of a preloaded clip.
pub open spec fn pull_allowed(active: Option<ActiveSound>, clip: Option<ClipState>) -> bool {
    match active {
        Some(a) => match clip {
            Some(ClipState::Preloaded { len }) => a.position <= len,
            _ => true,
        },
        None => true,
    }
}

/// Takes the next sample position of the active sound.
pub fn pull_clip_sample(active: &mut Option<ActiveSound>, clip: Option<ClipState>) -> (r: ClipPull)
    requires
        pull_allowed(*old(active), clip),
    ensures
        (*final(active), r) == pull_spec(*old(active), clip),
        *old(active) is None ==> r == ClipPull::Waiting && *final(active) is None,
{
    match active.take() {
        None => ClipPull::Waiting,
        Some(a) => match clip {
            None => {
                *active = Some(a);
                ClipPull::Waiting
            },
            Some(ClipState::NotLoaded) => {
                *active = Some(a);
                ClipPull::Waiting
            },
            Some(ClipState::Partial { .. }) => {
                *active = Some(a);
                ClipPull::PartialStandIn
            },
            Some(ClipState::Preloaded { len }) => {
                if a.position == len {
                    ClipPull::Ended
                } else {
                    let p = a.position;
                    *active = Some(ActiveSound { uuid: a.uuid, position: p + 1 });
                    ClipPull::Sample(p)
                }
            },
        },
    }
}

/// The active sound after `n` pulls.
pub open spec fn pulls(active: Option<ActiveSound>, clip: Option<ClipState>, n: nat) -> Option<
    ActiveSound,
>
    decreases n,
{
    if n == 0 {
        active
    } else {
        pull_spec(pulls(active, clip, (n - 1) as nat), clip).0
    }
}

/// While nothing is playing, a pull gives nothing and starts nothing,
/// whatever clip is passed, including none at all.
pub proof fn law_idle_pull_waits(clip: Option<ClipState>)
    ensures
        pull_spec(None, clip).0 is None,
        pull_spec(None, clip).1 == ClipPull::Waiting,
{
}

/// A pull on a playing sound never hands out the stand-in value unless the
/// sound's clip is only partly loaded, and hands out a sample only from a
/// preloaded clip, at the sound's current position, moving it on by one.
pub proof fn law_pull_gives_current_sample(a: ActiveSound, clip: Option<ClipState>)
    requires
        pull_allowed(Some(a), clip),
    ensures
        pull_spec(Some(a), clip).1 == ClipPull::PartialStandIn ==> clip matches Some(
            ClipState::Partial { .. },
        ),
        pull_spec(Some(a), clip).1 matches ClipPull::Sample(k) ==> {
            &&& (clip matches Some(ClipState::Preloaded { len }) && a.position < len)
            &&& k == a.position
            &&& pull_spec(Some(a), clip).0 == Some(
                ActiveSound { uuid: a.uuid, position: (a.position + 1) as usize },
            )
        },
{
}

proof fn lemma_pulls_preloaded(a: ActiveSound, len: usize, k: nat)
    requires
        a.position == 0,
        k <= len,
    ensures
        pulls(Some(a), Some(ClipState::Preloaded { len }), k) == Some(
            ActiveSound { uuid: a.uuid, position: k as usize },
        ),
    decreases k,
{
    if k > 0 {
        lemma_pulls_preloaded(a, len, (k - 1) as nat);
    }
}

/// A preloaded clip played from its start gives its samples in order, one
/// per pull: the pull after `k` pulls (`k` below the length) gives sample
/// `k`, the pull after all samples ends playback, and from then on every
/// pull waits.
pub proof fn law_preloaded_clip_plays_in_order(a: ActiveSound, len: usize, k: nat)
    requires
        a.position == 0,
        k < len,
    ensures
        pulls(Some(a), Some(ClipState::Preloaded { len }), k) == Some(
            ActiveSound { uuid: a.uuid, position: k as usize },
        ),
        pull_spec(pulls(Some(a), Some(ClipState::Preloaded { len }), k), Some(ClipState::Preloaded { len })).1
            == ClipPull::Sample(k as usize),
        pull_spec(pulls(Some(a), Some(ClipState::Preloaded { len }), len as nat), Some(ClipState::Preloaded { len }))
            == (None::<ActiveSound>, ClipPull::Ended),
        pull_spec(None, Some(ClipState::Preloaded { len })) == (None::<ActiveSound>, ClipPull::Waiting),
{
    lemma_pulls_preloaded(a, len, k);
    lemma_pulls_preloaded(a, len, len as nat);
}

/// Starts playing the sound whose id the user typed: any id form that
/// `Uuid::parse_str` reads is accepted and kept in canonical form, and a
/// canonical id is kept as typed.
pub fn start_playback(id_text: &str) -> (r: Option<ActiveSound>)
    ensures
        match uuid_text(id_text@) {
            Some(t) => r matches Some(a) && a.uuid@ == t && a.position == 0,
            None => r is None,
        },
        is_canonical_uuid_text(id_text@) ==> (r matches Some(a) && a.uuid@ == id_text@),
{
    proof {
        law_uuid_text_canonical(id_text@);
    }
    match parse_uuid_text(id_text) {
        Some(uuid) => Some(ActiveSound { uuid, position: 0 }),
        None => None,
    }
}

} // verus!
